use lotus::cursor::{place_cursor, sub_3802, sub_3834, ARR176_FE2};
use lotus::frame::{draw_menu_frame, sub_389e, MenuFrame, BLACK, RED};
use lotus::palette::PaletteFade;
use lotus::recs_bar::{fill_recs_bar_run, recs_value, set_recs_value, sub_4515};
use lotus::sprite::{draw_char, draw_sprite, Point, Size, VGA_SIZE};

fn screen() -> Vec<u8> {
    vec![7u8; VGA_SIZE]
}

#[test]
fn sprite_rows_are_copied() {
    let mut buf = screen();
    let data: Vec<u8> = (0..12).collect();
    draw_sprite(&mut buf, &data, Size::wh(4, 3), Point::xy(10, 2));
    assert_eq!(&buf[650..654], &[0, 1, 2, 3]);
    assert_eq!(&buf[970..974], &[4, 5, 6, 7]);
    assert_eq!(&buf[1290..1294], &[8, 9, 10, 11]);
    assert_eq!(buf[649], 7);
    assert_eq!(buf[654], 7);
    assert_eq!(buf[1610], 7);
}

#[test]
fn sprite_stops_at_the_data_and_the_screen() {
    let mut buf = screen();
    let data = vec![1u8; 10];
    // Only two whole rows of four bytes.
    draw_sprite(&mut buf, &data, Size::wh(4, 5), Point::start());
    assert_eq!(&buf[320..324], &[1, 1, 1, 1]);
    assert_eq!(buf[640], 7);
    let mut buf = screen();
    draw_sprite(&mut buf, &vec![2u8; 40], Size::wh(4, 10), Point::xy(0, 198));
    assert_eq!(buf[198 * 320], 2);
    assert_eq!(buf[199 * 320], 2);
}

#[test]
fn characters_are_ored() {
    let mut buf = vec![0x10u8; VGA_SIZE];
    let font = vec![0, 0, 0, 0, 1, 2, 3, 4];
    draw_char(&mut buf, 1, &font, Size::wh(2, 2), 100);
    assert_eq!(&buf[100..102], &[0x11, 0x12]);
    assert_eq!(&buf[420..422], &[0x13, 0x14]);
}

#[test]
fn menu_frame_and_darkening() {
    let mut buf = vec![0u8; VGA_SIZE];
    let f = draw_menu_frame(&mut buf, 20, 30, Size::wh(40, 20));
    assert_eq!(f, MenuFrame { start: 320 * 24 + 14, rows: 32 });
    // The top edge, two bytes in: black, red, black downwards.
    let top = f.start + 20;
    assert_eq!(buf[top], BLACK);
    assert_eq!(buf[top + 320], RED);
    assert_eq!(buf[top + 640], BLACK);
    let mut dark = vec![0xFFu8; VGA_SIZE];
    sub_389e(&mut dark, f);
    assert_eq!(dark[f.start], 0x1F);
    assert_eq!(dark[f.start + 32 * 168 * 2 - 1], 0x1F);
    assert_eq!(dark[f.start + 32 * 168 * 2], 0xFF);
    assert_eq!(dark[f.start - 1], 0xFF);
    let mut same = vec![0xFFu8; VGA_SIZE];
    sub_389e(&mut same, MenuFrame { start: 5, rows: 0 });
    assert!(same.iter().all(|&b| b == 0xFF));
}

#[test]
fn pointer_drawn_and_restored() {
    let mut buf: Vec<u8> = (0..VGA_SIZE).map(|i| (i % 251) as u8).collect();
    let orig = buf.clone();
    let mut c = place_cursor(200, 50, [0; 88]);
    assert_eq!(c.at, 50 * 320 + 100);
    assert_eq!(c.rows, 150);
    sub_3802(&mut buf, &mut c);
    assert_eq!(buf[c.at], 0);
    assert_eq!(buf[c.at + 321], 255);
    assert_eq!(buf[c.at + 2], orig[c.at + 2]);
    assert_eq!(c.saved[0], orig[c.at]);
    sub_3834(&mut buf, &c);
    assert_eq!(buf, orig);
}

#[test]
fn pointer_kept_on_screen() {
    let c = place_cursor(700, 250, [0; 88]);
    assert_eq!(c.at, 200 * 320 + 312);
    assert_eq!(c.rows, 0);
    let c = place_cursor(100, 195, [0; 88]);
    assert_eq!(c.rows, 5);
    let mut buf = vec![9u8; VGA_SIZE];
    let mut c = c;
    sub_3802(&mut buf, &mut c);
    // Only five rows lie on the screen.
    assert_eq!(buf[c.at + 4 * 320], 0);
    assert_eq!(buf.len(), VGA_SIZE);
    assert_eq!(ARR176_FE2[8 * 5], 1);
}

#[test]
fn palette_fade_in_one_step_reaches_target() {
    let mut p = PaletteFade { pal: [0; 768], fade: [0; 1536], step: 0, ready: false, speed: 1, faded_out: true };
    let mut target = [0u8; 768];
    for (i, t) in target.iter_mut().enumerate() {
        *t = (i % 64) as u8;
    }
    p.fade_by_color(&target);
    assert_eq!(p.pal, target);
    assert!(p.ready);
    assert_eq!(p.step, 1);
    assert!(p.fade_step());
    assert_eq!(p.step, 0);
    assert!(!p.ready);
    assert!(!p.fade_step());
}

#[test]
fn palette_fade_in_steps() {
    let mut p = PaletteFade { pal: [0; 768], fade: [0; 1536], step: 0, ready: false, speed: 4, faded_out: true };
    let target = [40u8; 768];
    p.fade_by_color(&target);
    assert_eq!(p.pal[0], 10);
    assert_eq!(p.fade[0], 10 * 256);
    assert!(p.fade_step());
    assert_eq!(p.pal[767], 20);
    assert!(p.fade_step());
    assert!(p.fade_step());
    assert_eq!(p.pal[5], 40);
    assert_eq!(p.step, 1);
    assert!(p.fade_step());
    assert_eq!(p.pal[5], 40);
    assert!(!p.ready);
    let black = [0u8; 768];
    p.set_vga_pal(&black, true);
    assert_eq!(p.pal, black);
    assert!(p.faded_out);
    assert!(p.ready);
}

#[test]
fn palette_fade_out_wraps_down() {
    let mut p = PaletteFade { pal: [63; 768], fade: [0; 1536], step: 0, ready: false, speed: 3, faded_out: false };
    p.fade_by_color(&[0u8; 768]);
    assert_eq!(p.pal[0], 42);
    p.fade_step();
    assert_eq!(p.pal[0], 21);
    p.fade_step();
    assert_eq!(p.pal[0], 0);
}

#[test]
fn bar_runs() {
    let mut buf = vec![0u8; VGA_SIZE];
    fill_recs_bar_run(&mut buf, Point::xy(10, 1), 3, 5);
    assert_eq!(&buf[329..334], &[0, 5, 5, 5, 0]);
    fill_recs_bar_run(&mut buf, Point::xy(318, 199), 10, 6);
    assert_eq!(&buf[VGA_SIZE - 2..], &[6, 6]);
    assert_eq!(buf.len(), VGA_SIZE);
    fill_recs_bar_run(&mut buf, Point::xy(0, 200), 10, 6);
    assert_eq!(buf.len(), VGA_SIZE);
    let mut buf = vec![0u8; VGA_SIZE];
    sub_4515(&mut buf, Point::xy(0, 0), 3, 2);
    assert_eq!(&buf[..7], &[28, 28, 28, 0, 13, 13, 0]);
}

#[test]
fn recs_values_by_item() {
    let mut recs = [0u16, 1, 2, 3, 4, 5, 6, 7, 8];
    let mut difficulty = 50u16;
    assert_eq!(recs_value(&recs, difficulty, 0), 1);
    assert_eq!(recs_value(&recs, difficulty, 7), 8);
    assert_eq!(recs_value(&recs, difficulty, 8), 50);
    set_recs_value(&mut recs, &mut difficulty, 8, 77);
    assert_eq!(difficulty, 77);
    set_recs_value(&mut recs, &mut difficulty, 2, 20);
    assert_eq!(recs, [0, 1, 2, 20, 4, 5, 6, 7, 8]);
    assert_eq!(recs_value(&recs, difficulty, 2), 20);
}

use lotus::bitmap::{BmpItem, BmpVec};
use lotus::config::{Config, Course};
use lotus::frame::MenuFrame;
use lotus::screens::{
    draw_keys_and_frame, draw_main_menu_items, draw_menu_item, draw_middle_menu_item, draw_recs_menu,
    draw_small_menu_item, draw_user_input, print_empty_string, print_string_narrow, sub_3c87, sub_3e43, sub_4764,
};
use lotus::sprite::{Point, VGA_SIZE};

/// A font of 40 glyphs two pixels wide and one high: glyph `i` draws `i` and `i + 100`.
fn test_font() -> BmpVec {
    let mut f = BmpVec::new();
    for i in 0..40u8 {
        let mut data = vec![0xC0, i, i + 100];
        data.resize(16, 0);
        assert!(f.push(BmpItem { repeat: 2, height: 1, data }).is_ok());
    }
    f
}

/// `n` pictures of `size` bytes, picture `k` filled with `k`.
fn strip(n: usize, size: usize) -> Vec<u8> {
    (0..n * size).map(|i| (i / size) as u8).collect()
}

#[test]
fn menu_pictures() {
    let mut buf = vec![0xEEu8; VGA_SIZE];
    let data = strip(3, 104 * 26);
    draw_menu_item(&mut buf, &data, Point::xy(6, 52), 2);
    assert_eq!(buf[52 * 320 + 6], 2);
    assert_eq!(buf[77 * 320 + 109], 2);
    assert_eq!(buf[78 * 320 + 6], 0xEE);
    let data = strip(2, 96 * 34);
    draw_middle_menu_item(&mut buf, &data, Point::xy(8, 25), 1);
    assert_eq!(buf[25 * 320 + 8], 1);
    // A picture the strip does not hold is left out.
    let before = buf.clone();
    draw_middle_menu_item(&mut buf, &data, Point::xy(8, 25), 2);
    assert_eq!(buf, before);
    let data = strip(16, 24 * 26);
    draw_small_menu_item(&mut buf, &data, Point::xy(16, 13), 13);
    assert_eq!(buf[13 * 320 + 16], 13);
    assert_eq!(buf[13 * 320 + 40], 0xEE);
}

#[test]
fn narrow_text() {
    let f = test_font();
    let mut buf = vec![0u8; VGA_SIZE];
    print_string_narrow(&mut buf, b"A1", Point::xy(10, 2), &f);
    // 'A' is glyph 10, '1' glyph 1, seven pixels apart.
    assert_eq!(&buf[650..652], &[10, 110]);
    assert_eq!(&buf[657..659], &[1, 101]);
    print_empty_string(&mut buf, 2, Point::xy(10, 2), &f);
    assert_eq!(&buf[650..652], &[38, 138]);
    assert_eq!(&buf[657..659], &[38, 138]);
}

#[test]
fn settings_screen() {
    let mut buf = vec![0xFFu8; VGA_SIZE];
    let items = strip(18, 96 * 34);
    let mut cfg = Config::new();
    cfg.word_1716 = 1;
    let prev = MenuFrame { start: 320, rows: 1 };
    let f = sub_3c87(&mut buf, &items, &cfg, prev, 1, 3);
    assert_eq!(f, MenuFrame { start: 320 * (3 * 39 + 21) + 104 + 2, rows: 42 });
    // Player 1 on the keyboard: pictures 0, 3, 5 and 12; player 2 on the joystick:
    // 7, 9, 10 and 17.
    assert_eq!(buf[25 * 320 + 8], 0);
    assert_eq!(buf[64 * 320 + 8], 3);
    assert_eq!(buf[103 * 320 + 8], 5);
    assert_eq!(buf[142 * 320 + 8], 12);
    assert_eq!(buf[25 * 320 + 216], 7);
    assert_eq!(buf[142 * 320 + 216], 17);
    // The last frame's area is darkened.
    assert_eq!(buf[320 + 300], 0x1F);
}

#[test]
fn main_screen() {
    let f = test_font();
    let mut buf = vec![0u8; VGA_SIZE];
    let items = strip(15, 104 * 26);
    let mut cfg = Config::new();
    cfg.course_type = Course::Circular;
    let r = draw_main_menu_items(&mut buf, &items, &cfg, &f, &f, MenuFrame { start: 0, rows: 0 }, 1, 0);
    assert_eq!(r, MenuFrame { start: 320 + 106, rows: 42 });
    // "PLAYER 1": 'P' is glyph 25.
    assert_eq!(buf[21 * 320 + 13], 25);
    // Automatic gears (1), button (2), time limit (6), circular course (13), one player (8).
    assert_eq!(buf[60 * 320 + 20], 1);
    assert_eq!(buf[100 * 320 + 20], 2);
    assert_eq!(buf[60 * 320 + 120], 6);
    assert_eq!(buf[100 * 320 + 120], 13);
    assert_eq!(buf[140 * 320 + 120], 8);
}

#[test]
fn keys_screen_and_mouse_frame() {
    let f = test_font();
    let cfg = Config::new();
    let mut buf = vec![0u8; VGA_SIZE];
    let r = draw_keys_and_frame(&mut buf, &cfg, &f, MenuFrame { start: 0, rows: 0 }, 1);
    assert_eq!(r, MenuFrame { start: 320 * 40 + 106, rows: 159 });
    // The first code starts with 'x' (glyph 33) at (117, 56).
    assert_eq!(buf[56 * 320 + 117], 33);
    let mut buf = vec![0u8; VGA_SIZE];
    let r = sub_3e43(&mut buf, &cfg, MenuFrame { start: 0, rows: 0 });
    assert_eq!(r, MenuFrame { start: 320 * 59 + 50, rows: 82 });
}

#[test]
fn car_animation() {
    let car = strip(16, 88 * 24);
    let mut buf = vec![0xEEu8; VGA_SIZE];
    sub_4764(&mut buf, &car, 24 * 5 + 3);
    assert_eq!(buf[97 * 320 + 91], 5);
    sub_4764(&mut buf, &car, 24 * 17);
    assert_eq!(buf[97 * 320 + 91], 1);
}

#[test]
fn user_input_field() {
    let f = test_font();
    let mut buf = vec![0u8; VGA_SIZE];
    draw_user_input(&mut buf, b"AB", Point::xy(100, 50), 3, 5, &f);
    assert_eq!(buf[50 * 320 + 100], 10);
    assert_eq!(buf[50 * 320 + 107], 11);
    assert_eq!(buf[53 * 320 + 100], 38);
    // The cursor (a dot, glyph 37) under the last character.
    assert_eq!(buf[59 * 320 + 114], 37);
}

#[test]
fn course_screen() {
    let f = test_font();
    let mut buf = vec![0u8; VGA_SIZE];
    let bg = vec![0x55u8; VGA_SIZE];
    let items = strip(16, 24 * 26);
    let recs = [0u16, 13, 13, 13, 13, 13, 13, 13, 13];
    draw_recs_menu(&mut buf, &bg, &items, &recs, 42, b"abcdefghi-42", 0, 4, &f, &f, &f);
    // A course from A to B: pictures 13 and 14; scenery 0 at (4, 169).
    assert_eq!(buf[13 * 320 + 16], 13);
    assert_eq!(buf[13 * 320 + 40], 14);
    assert_eq!(buf[169 * 320 + 10], 0);
    // The frame around the scenery row is drawn over the picture's left edge.
    assert_eq!(buf[169 * 320 + 4], 0x60);
    assert_eq!(buf[169 * 320 + 28], 0x55);
    // The difficulty's digits at (144, 132) and (160, 132).
    assert_eq!(buf[132 * 320 + 144], 4);
    assert_eq!(buf[132 * 320 + 160], 2);
    // The first bar's border row starts at (18, 54).
    assert_eq!(buf[54 * 320 + 18], 28);
}

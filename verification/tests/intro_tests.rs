use lotus::config::Config;
use lotus::intro::{
    approach_step, clear_text_texture, draw_a_car, draw_text_large, fields_step, flash_frame, set_text_palette,
    sub_33e6, sub_352c, video_frame,
};
use lotus::sprite::VGA_SIZE;
use lotus::ticks::{demo_input, demo_offset, kbd_scan, timer_tick, KbdState, TickState, TickWork};

#[test]
fn timer_ticks() {
    let mut st = TickState { phase: 3, bios_left: 10, countdown: 0, clock: 5, ticks: 0xFFFF };
    let w = timer_tick(&mut st, 100, 1000);
    assert_eq!(w, TickWork { reprogram: true, chain_bios: true, fade: true });
    assert_eq!((st.phase, st.bios_left, st.countdown, st.clock, st.ticks), (0, 1010, -1, 6, 0));
    let w = timer_tick(&mut st, 100, 1000);
    assert_eq!(w, TickWork { reprogram: false, chain_bios: false, fade: false });
    assert_eq!((st.phase, st.bios_left, st.countdown), (1, 985, -2));
    let mut st = TickState { phase: 0, bios_left: 0, countdown: 1, clock: 0, ticks: 0 };
    timer_tick(&mut st, 0, 0);
    assert_eq!(st.countdown, 6);
    let mut st = TickState { phase: 0, bios_left: 0, countdown: 127, clock: 0, ticks: 0 };
    timer_tick(&mut st, 0, 0);
    assert_eq!(st.countdown, 0);
}

#[test]
fn keyboard_scan_codes() {
    let mut kbd = KbdState { pressed: false, last: 0, keys: [0; 128] };
    assert!(!kbd_scan(&mut kbd, 0x1E));
    assert!(kbd.pressed);
    assert_eq!(kbd.last, 0x1E);
    assert_eq!(kbd.keys[0x1E], 1);
    assert!(!kbd_scan(&mut kbd, 0x9E));
    assert!(!kbd.pressed);
    assert_eq!(kbd.keys[0x1E], 0);
    // Shift and the extended prefix leave the state alone.
    kbd_scan(&mut kbd, 0x2A);
    kbd_scan(&mut kbd, 0xE0);
    assert_eq!(kbd.last, 0x1E);
    assert!(kbd_scan(&mut kbd, 0x1D));
    assert_eq!(kbd.keys[0x1D], 1);
}

#[test]
fn demo_replay() {
    assert_eq!(demo_offset(0), 916);
    assert_eq!(demo_offset(920), 920);
    let mut cfg = Config::new();
    let mut pos = 0u16;
    assert!(demo_input(&mut cfg, &mut pos, 916, 0x0201));
    assert_eq!((cfg.byte_16fe, cfg.byte_1715, pos), (1, 2, 918));
    assert!(!demo_input(&mut cfg, &mut pos, 918, 0xFFFF));
    assert_eq!((cfg.byte_16fe, cfg.byte_1715, pos), (1, 2, 918));
}

#[test]
fn large_text() {
    let font: Vec<u8> = (0..39 * 288).map(|i| (i / 288 + 1) as u8).collect();
    let mut buf = vec![0u8; VGA_SIZE];
    let start = 10 * 320 + 20;
    draw_text_large(&mut buf, &font, &[(b"A B", start), (b"1\x002", 100 * 320)]);
    // 'A' is glyph 10, 'B' glyph 11 two places on; a zero ends a line.
    assert_eq!(buf[start], 11);
    assert_eq!(buf[start + 15 + 17 * 320], 11);
    assert_eq!(buf[start + 14], 11);
    assert_eq!(buf[start + 16], 0);
    assert_eq!(buf[start + 28], 12);
    assert_eq!(buf[100 * 320], 2);
    assert_eq!(buf[100 * 320 + 16], 0);
    assert_eq!(buf[100 * 320 + 28], 0);
    // Characters are OR-ed on.
    draw_text_large(&mut buf, &font, &[(b".", start)]);
    assert_eq!(buf[start], 11 | 37);
}

#[test]
fn text_texture_cleared() {
    let mut buf = vec![0xFFu8, 0x07, 0x03];
    clear_text_texture(&mut buf);
    assert_eq!(buf, vec![0xFC, 0x04, 0x00]);
}

#[test]
fn credit_palettes() {
    let mut pal = [0u8; 768];
    set_text_palette(&mut pal);
    assert_eq!(&pal[..12], &[0, 0, 0, 48, 48, 48, 32, 32, 32, 0, 0, 0]);
    assert_eq!(&pal[372..384], &[0, 0, 0, 48, 48, 48, 32, 32, 32, 0, 0, 0]);
    assert_eq!(pal[384 + 3], 0);
    let mut pal = [0u8; 768];
    for (i, p) in pal.iter_mut().enumerate() {
        *p = i as u8;
    }
    sub_33e6(&mut pal);
    assert_eq!(&pal[..12], &[0, 1, 2, 0, 1, 2, 0, 1, 2, 0, 1, 2]);
    assert_eq!(&pal[12..18], &[12, 13, 14, 12, 13, 14]);
    assert_eq!(pal[387], 131);
    let src = [9u8; 48];
    sub_352c(&mut pal, &src, 16);
    assert_eq!(pal[47], 9);
    assert_eq!(pal[48], 0);
    assert_eq!(pal[159], 0);
    assert_eq!(pal[400], 0);
    assert_eq!(pal[527], 0);
    assert_eq!(pal[528], 16);
}

#[test]
fn animation_frames() {
    assert_eq!(flash_frame(0), Some(0));
    assert_eq!(flash_frame(32 * 3), Some(3));
    assert_eq!(flash_frame(32 * 4), Some(2));
    assert_eq!(flash_frame(32 * 6 + 5), Some(0));
    assert_eq!(flash_frame(32 * 7), None);
    assert_eq!(video_frame(24 * 5 + 1, 41), 5);
    assert_eq!(video_frame(41 * 24, 41), 40);
    assert_eq!(fields_step(16, 2), (None, false));
    assert_eq!(fields_step(24, 2), (Some(3), false));
    assert_eq!(fields_step(200, 19), (Some(20), true));
    assert_eq!(approach_step(64, 2), None);
    assert_eq!(approach_step(96, 2), Some(3));
    assert_eq!(approach_step(2000, 35), Some(36));
}

#[test]
fn approaching_car() {
    let data: Vec<u8> = (0..33152usize).map(|i| (i % 251) as u8).collect();
    let mut buf = vec![0xFFu8; VGA_SIZE];
    draw_a_car(&mut buf, &data, 36);
    // Full size: 224 x 148 pixels from (54, 41).
    assert_eq!(buf[41 * 320 + 54], 0);
    assert_eq!(buf[43 * 320 + 59], (453 % 251) as u8);
    assert_eq!(buf[41 * 320 + 53], 0xFF);
    assert_eq!(buf[41 * 320 + 54 + 224], 0xFF);
    assert_eq!(buf[188 * 320 + 277], (33151 % 251) as u8);
    assert_eq!(buf[189 * 320 + 54], 0xFF);
    let mut buf = vec![0xFFu8; VGA_SIZE];
    draw_a_car(&mut buf, &data, 35);
    // A third of the size: 75 x 50 pixels from (125, 57), every third source pixel.
    assert_eq!(buf[58 * 320 + 126], (675 % 251) as u8);
    assert_eq!(buf[57 * 320 + 125 + 75], 0xFF);
    // Transparent source pixels leave the screen alone.
    let clear = vec![0xFFu8; 33152];
    let mut buf = vec![7u8; VGA_SIZE];
    draw_a_car(&mut buf, &clear, 36);
    assert!(buf.iter().all(|&b| b == 7));
}

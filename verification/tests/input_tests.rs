use lotus::config::{Config, JoyState};
use lotus::input::{sub_575c, sub_c011, sub_d421, sub_d962, sub_d99e, sub_d9b4, sub_da94, sub_dad1, MouseState};
use lotus::palette::PaletteFade;
use lotus::race::{sub_537f, ARR_1F2A};
use lotus::config::{Course, Race};

#[test]
fn waiting_keys() {
    let mut pending = 0x1E61u16; // 'a'
    assert_eq!(sub_d421(&mut pending), b'A');
    assert_eq!(pending, 0);
    assert_eq!(sub_d421(&mut pending), 0);
    let mut pending = 0x4800u16; // up arrow: no ASCII code
    assert_eq!(sub_d421(&mut pending), 0xC8);
    let mut pending = 0x0231u16; // '1'
    assert_eq!(sub_d421(&mut pending), b'1');
}

#[test]
fn joystick_bits() {
    let mut j = JoyState::new();
    assert_eq!(sub_d9b4(&j), 0);
    j.byte0 = 0xFF;
    j.byte1 = 3;
    j.word2 = 50;
    j.word6 = 100;
    j.word8 = 200;
    j.word4 = 300;
    j.word10 = 100;
    j.word12 = 200;
    // Left (50 < 100) and down (200 < 300), both buttons.
    assert_eq!(sub_d9b4(&j), 0x30 | 1 | 8);
}

#[test]
fn keyboard_bits() {
    let codes = [0x4B, 0x4D, 0x48, 0x50, 0x1C, 0x52];
    let mut keys = [0u8; 128];
    assert_eq!(sub_d99e(&codes, &keys), 0);
    keys[0x4D] = 1;
    keys[0x1C] = 1;
    assert_eq!(sub_d99e(&codes, &keys), 2 | 0x10);
    keys[0x52] = 3;
    assert_eq!(sub_d99e(&codes, &keys), 2 | 0x10 | 0x20);
}

#[test]
fn taken_keys() {
    let mut cfg = Config::new();
    cfg.arr_172c[99] = 5;
    sub_da94(&mut cfg);
    assert_eq!(cfg.arr_172c[1], 0xFF);
    assert_eq!(cfg.arr_172c[25], 0xFF);
    assert_eq!(cfg.arr_172c[0x4B], 0xFF);
    assert_eq!(cfg.arr_172c[0x7F], 0xFF);
    assert_eq!(cfg.arr_172c[99], 0);
    assert_eq!(cfg.arr_172c[2], 0);
}

#[test]
fn mouse_bits() {
    let mut keys = [0u8; 128];
    let mut seen = MouseState { buttons: 0, x: 0, y: 0 };
    let m = MouseState { buttons: 0x0105, x: 0x250, y: 40 };
    // Left button in layout 0: bit 2 of the button pair, then right of the middle and
    // of the left quarter.
    assert_eq!(sub_dad1(true, &m, &keys, 0, &mut seen), 0b1_0011);
    assert_eq!(seen, MouseState { buttons: 1, x: 0x250, y: 40 });
    assert_eq!(sub_dad1(true, &m, &keys, 1, &mut seen), 0b0_0111);
    keys[72] = 1;
    let m = MouseState { buttons: 0, x: 0x10, y: 0 };
    assert_eq!(sub_dad1(true, &m, &keys, 0, &mut seen), 0b0_0100);
    assert_eq!(seen, MouseState { buttons: 0, x: 0x10, y: 0 });
}

#[test]
fn no_mouse_no_bits() {
    let keys = [1u8; 128];
    let mut seen = MouseState { buttons: 2, x: 7, y: 9 };
    let m = MouseState { buttons: 3, x: 0x250, y: 40 };
    assert_eq!(sub_dad1(false, &m, &keys, 0, &mut seen), 0);
    assert_eq!(seen, MouseState { buttons: 2, x: 7, y: 9 });
}

#[test]
fn players_control_bits() {
    let mut cfg = Config::new();
    let mut keys = [0u8; 128];
    keys[0x48] = 1; // player 1's "gear up" key is bit 2, swapped to bit 3
    cfg.word_1716 = 2;
    sub_d962(&mut cfg, &keys, 0, 0x14);
    assert_eq!(cfg.byte_16fe, 8);
    assert_eq!(cfg.byte_1715, 0x18);
}

#[test]
fn menu_bits_and_edges() {
    let mut prev = 0u8;
    let mut word = 0x1200u16;
    // Enter down (bit 1 of its state): the highest of the five bits.
    let r = sub_575c(&[2, 0, 0, 0, 0], 0, 0, 0, &mut prev, &mut word);
    assert_eq!(r, (0x1210, 0x10, 0));
    let r = sub_575c(&[2, 0, 0, 0, 0], 0, 0, 0, &mut prev, &mut word);
    assert_eq!(r, (0x1200, 0x10, 0));
    let r = sub_575c(&[0, 0, 0, 0, 2], 2, 0, 0x10, &mut prev, &mut word);
    assert_eq!(r, (0x1201, 0x11, 0x10));
}

#[test]
fn any_key_or_fire() {
    let mut keys = [0u8; 128];
    assert!(sub_c011(true, 0x39, &mut keys, 0, 0, 0));
    assert_eq!(keys[0x39], 0x80);
    assert!(!sub_c011(false, 0, &mut keys, 0x10, 0x10, 0));
    assert!(sub_c011(false, 0, &mut keys, 0, 0x20, 0));
    assert!(sub_c011(false, 0, &mut keys, 0, 0, 1));
}

#[test]
fn fades_toward_black_and_back() {
    let mut p = PaletteFade { pal: [40; 768], fade: [0; 1536], step: 0, ready: false, speed: 4, faded_out: false };
    let black = [0u8; 768];
    assert!(p.fade_toward(&black, true));
    assert_eq!((p.step, p.speed), (20, 20));
    assert_eq!(p.pal[0], 38);
    assert!(p.faded_out);
    assert!(!p.fade_toward(&black, true));
    assert_eq!(p.pal, black);
    let bright = [40u8; 768];
    assert!(p.fade_toward(&bright, false));
    assert!(!p.faded_out);
    p.fade_in_pal(&bright);
    assert!(!p.faded_out);
}

#[test]
fn race_start() {
    let r = sub_537f(Course::Circular, Race::Competition);
    assert_eq!(r.course_value, 1);
    assert_eq!(r.race, Race::Competition);
    assert_eq!(r.counters, [0; 7]);
    assert_eq!(sub_537f(Course::T1, Race::TimeLimit).course_value, ARR_1F2A[0]);
}

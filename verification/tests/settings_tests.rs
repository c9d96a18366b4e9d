use lotus::config::{Acceleration, Config, Controls, Course, Model, Player, Race, SoundSettings, Transmission};
use lotus::input::sub_d989;
use lotus::joystick::{finish_joystick_calibration, joy_count, joy_read_more, midpoint, set_joystick_calibration, sub_3faf_step, sub_3ff6, sub_d9eb_finish};
use lotus::state::{sub_d001, sub_d03e, sub_d085, ARR_3D4E};
use lotus::video::sub_d097;

#[test]
fn transmission_toggles_back() {
    let t = Transmission::Manual;
    assert_eq!(t.next(), Transmission::Automatic);
    assert_eq!(t.next().next(), t);
    assert_eq!(Transmission::Automatic.code(), 1);
}

#[test]
fn acceleration_and_race_toggle_back() {
    assert_eq!(Acceleration::Button.next().next(), Acceleration::Button);
    assert_eq!(Race::TimeLimit.next().next(), Race::TimeLimit);
    assert_ne!(Race::TimeLimit.next(), Race::TimeLimit);
}

#[test]
fn course_cycles_through_five() {
    let mut c = Course::T1;
    let mut codes = vec![];
    for _ in 0..5 {
        codes.push(c.code());
        c = c.next();
    }
    assert_eq!(c, Course::T1);
    assert_eq!(codes, vec![0, 1, 2, 3, 4]);
}

#[test]
fn model_next_and_prev_undo_each_other() {
    for m in [Model::Esprit, Model::Elan, Model::M200] {
        assert_eq!(m.next().prev(), m);
        assert_eq!(m.next().next().next(), m);
    }
    assert_eq!(Model::M200.next(), Model::Esprit);
}

#[test]
fn default_configuration() {
    let cfg = Config::new();
    assert_eq!(cfg.race_type, Race::TimeLimit);
    assert!(!cfg.is_2pl_mode);
    assert_eq!(cfg.course_type, Course::T1);
    assert_eq!(cfg.snd_setting, SoundSettings::PcSpeaker);
    assert_eq!(cfg.p1_kbd, [0x4B, 0x4D, 0x48, 0x50, 0x1C, 0x52]);
    assert_eq!(&cfg.p1_name, b"PLAYER 1    ");
    assert_eq!(&cfg.p2_name, b"PLAYER 2    ");
    assert_eq!(cfg.word_16ff, Controls::Keyboard.code());
}

#[test]
fn recs_percent_scale() {
    assert_eq!(sub_d097(0), 0);
    assert_eq!(sub_d097(12), 48);
    assert_eq!(sub_d097(13), 50);
    assert_eq!(sub_d097(14), 52);
    assert_eq!(sub_d097(15), 56);
    assert_eq!(sub_d097(26), 100);
}

#[test]
fn swapping_up_and_down_twice_is_identity() {
    assert_eq!(sub_d989(0x04), 0x08);
    assert_eq!(sub_d989(0x08), 0x04);
    assert_eq!(sub_d989(0x31), 0x31);
    for al in 0..=255u8 {
        assert_eq!(sub_d989(sub_d989(al)), al);
    }
}

#[test]
fn code_permutation_undoes_itself() {
    let mut arr = [0u8, 1, 2, 3, 13, 20, 24, 25, 26];
    let orig = arr;
    sub_d085(&mut arr);
    assert_eq!(arr[0], 0x18);
    assert_eq!(arr[4], 13);
    sub_d085(&mut arr);
    assert_eq!(arr, orig);
    for x in 0..27usize {
        assert_eq!(ARR_3D4E[ARR_3D4E[x] as usize] as usize, x);
    }
}

#[test]
fn course_code_of_values() {
    let mut code = [0u8; 12];
    sub_d001(&[0; 9], 5, &mut code);
    assert_eq!(&code, b"xxxxxxxxx-05");
    sub_d001(&[13; 9], 99, &mut code);
    assert_eq!(&code, b"         -99");
    sub_d001(&[13; 9], 123, &mut code);
    assert_eq!(&code[9..], b"-93");
}

#[test]
fn course_code_roundtrip() {
    let recs: [u16; 9] = [0, 26, 13, 7, 14, 1, 25, 12, 20];
    let mut code = [0u8; 12];
    sub_d001(&recs, 42, &mut code);
    let (back, difficulty) = sub_d03e(&code);
    assert_eq!(back, recs);
    assert_eq!(difficulty, 42);
}

#[test]
fn course_code_reads_capitals() {
    let (lower, d1) = sub_d03e(b"abcdefghi-12");
    let (upper, d2) = sub_d03e(b"ABCDEFGHI-12");
    assert_eq!(lower, upper);
    assert_eq!(d1, 12);
    assert_eq!(d2, 12);
}

#[test]
fn joystick_counts_axis_bits() {
    let mut counts = [0u16; 4];
    joy_count(&mut counts, 0x05);
    joy_count(&mut counts, 0x0F);
    joy_count(&mut counts, 0xF0);
    assert_eq!(counts, [2, 1, 2, 1]);
    let mut wrap = [0xFFFF, 0, 0, 0];
    joy_count(&mut wrap, 1);
    assert_eq!(wrap[0], 0);
}

#[test]
fn joystick_reading_stores_buttons_and_positions() {
    let mut cfg = Config::new();
    let mut mask = 0x0F;
    cfg.p1_joy.word2 = 100;
    // Second button of the first joystick (bit 5 clear) is down, everything else up.
    sub_d9eb_finish(&mut cfg, &mut mask, 0xD0, [300, 40, 0x1000, 8]);
    assert_eq!(mask, 0x03);
    assert_eq!(cfg.p1_joy.byte1, 1);
    assert_eq!(cfg.p2_joy.byte1, 0);
    assert_eq!(cfg.p1_joy.word2, 200);
    assert_eq!(cfg.p1_joy.word4, 20);
    assert_eq!(cfg.p2_joy.word2, 0x800);
    assert_eq!(cfg.p2_joy.word4, 4);
}

#[test]
fn joystick_reading_swapped() {
    let mut cfg = Config::new();
    cfg.word_16fc = 0xFFFF;
    let mut mask = 0x0F;
    // First button of the second joystick down.
    sub_d9eb_finish(&mut cfg, &mut mask, 0xB0, [2, 4, 6, 8]);
    assert_eq!(mask, 0x0F);
    assert_eq!(cfg.p1_joy.byte1, 2);
    assert_eq!(cfg.p2_joy.byte1, 0);
    assert_eq!(cfg.p1_joy.word2, 3);
    assert_eq!(cfg.p1_joy.word4, 4);
    assert_eq!(cfg.p2_joy.word2, 1);
    assert_eq!(cfg.p2_joy.word4, 2);
}

#[test]
fn joystick_midpoint_rounds_toward_centre() {
    assert_eq!(midpoint(10, 20), 15);
    assert_eq!(midpoint(11, 20), 16);
    assert_eq!(midpoint(21, 10), 15);
    assert_eq!(midpoint(0, 0xFFFF), 0x8000);
}

#[test]
fn joystick_calibration() {
    let mut cfg = Config::new();
    set_joystick_calibration(&mut cfg, Player::Two, (10, 20), (300, 400), (100, 200));
    assert_eq!(cfg.p2_joy.byte0, 0xFF);
    assert_eq!(cfg.p2_joy.word6, 55);
    assert_eq!(cfg.p2_joy.word10, 110);
    assert_eq!(cfg.p2_joy.word8, 200);
    assert_eq!(cfg.p2_joy.word12, 300);
    assert_eq!(cfg.p1_joy.byte0, 0);

    let mut cfg = Config::new();
    finish_joystick_calibration(&mut cfg, Player::One, (10, 20), (300, 400), (100, 200), 350);
    assert_eq!(cfg.word_16fa, 400);
    assert_eq!(cfg.p1_joy.word8, 200);
    finish_joystick_calibration(&mut cfg, Player::One, (10, 20), (300, 400), (100, 200), 500);
    assert_eq!(cfg.word_16fa, 500);
}

#[test]
fn joystick_calibration_cancelled_by_esc() {
    let mut cfg = Config::new();
    cfg.word_16ff = 1;
    cfg.word_16fa = 0xFFFF;
    let mut keys = [0u8; 128];
    assert!(!sub_3ff6(&mut keys, &mut cfg, Player::One, 123));
    assert_eq!(cfg.word_16fa, 0xFFFF);
    keys[1] = 1;
    assert!(sub_3ff6(&mut keys, &mut cfg, Player::One, 123));
    assert_eq!(keys[1], 0x80);
    assert_eq!(cfg.word_16fa, 123);
    assert_eq!(cfg.word_16ff, 0);
}

#[test]
fn joystick_confirm_waits_for_release_then_fire() {
    let mut cfg = Config::new();
    let mut released = false;
    cfg.p1_joy.byte1 = 1;
    assert_eq!(sub_3faf_step(&mut cfg, Player::One, &mut released), None);
    assert!(!released);
    cfg.p1_joy.byte1 = 0;
    assert_eq!(sub_3faf_step(&mut cfg, Player::One, &mut released), None);
    assert!(released);
    assert_eq!(sub_3faf_step(&mut cfg, Player::One, &mut released), None);
    cfg.p2_joy.byte1 = 2;
    cfg.p2_joy.word2 = 7;
    cfg.p2_joy.word4 = 9;
    assert_eq!(sub_3faf_step(&mut cfg, Player::One, &mut released), Some((7, 9)));
    assert_eq!(cfg.word_16fc, 0xFFFF);
    cfg.p1_joy.byte1 = 1;
    cfg.p1_joy.word2 = 3;
    assert_eq!(sub_3faf_step(&mut cfg, Player::One, &mut released), Some((3, 0)));
    assert_eq!(cfg.word_16fc, 0xFFFF);
}

#[test]
fn far_pointers() {
    let p = lotus::data::FarPointer::from_dword(0x1234_5678);
    assert_eq!((p.segment, p.offset), (0x1234, 0x5678));
    assert_eq!(p.to_dword(), 0x1234_5678);
    let q = lotus::data::FarPointer { offset: 0xFFFF, segment: 0xA000 };
    assert_eq!(lotus::data::FarPointer::from_dword(q.to_dword()), q);
    assert_eq!(lotus::data::FarPointer::new().to_dword(), 0);
}

#[test]
fn sceneries_by_number_and_menu() {
    assert_eq!(lotus::data::Scenario::Forest.index(), 0);
    assert_eq!(lotus::data::Scenario::Mountains.index(), 12);
    assert_eq!(lotus::data::scenario_of_menu_entry(0), lotus::data::Scenario::Rally);
    assert_eq!(lotus::data::scenario_of_menu_entry(4), lotus::data::Scenario::Mountains);
    assert_eq!(lotus::data::scenario_of_menu_entry(12), lotus::data::Scenario::Forest);
}

#[test]
fn cursor_mark_position() {
    let f = lotus::menu::InputField { len: 3, start: 0, end: 2, flags: 2 };
    let p = lotus::menu::input_cursor_pos(lotus::sprite::Point::xy(100, 50), &f, 1);
    assert_eq!((p.x, p.y), (107, 59));
    let p = lotus::menu::input_cursor_pos(lotus::sprite::Point::xy(100, 50), &f, 9);
    assert_eq!((p.x, p.y), (114, 59));
}

#[test]
fn saving_keeps_the_configuration() {
    let cfg = Config::new();
    cfg.save();
    assert_eq!(cfg.p1_name, *b"PLAYER 1    ");
    let j: lotus::config::JoyState = Default::default();
    assert_eq!(j.byte0, 0);
}

#[test]
fn joystick_reading_ends() {
    let mut cfg = Config::new();
    cfg.word_16fa = 0;
    // The first sample is always taken.
    assert!(joy_read_more(&cfg, 0x0F, 0, 0x0F));
    // A sample equal to the mask ends the reading.
    assert!(!joy_read_more(&cfg, 0x0F, 5, 0x0F));
    assert!(joy_read_more(&cfg, 0x0F, 5, 0x0E));
    // The timeout is at least 0x1000 samples, and one more.
    assert!(joy_read_more(&cfg, 0x0F, 0x1000, 0x0E));
    assert!(!joy_read_more(&cfg, 0x0F, 0x1001, 0x0E));
    cfg.word_16fa = 0x2000;
    assert!(joy_read_more(&cfg, 0x0F, 0x2000, 0x0E));
    assert!(!joy_read_more(&cfg, 0x0F, 0x2001, 0x0E));
}

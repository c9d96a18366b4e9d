use lotus::config::{Config, Player};
use lotus::menu::{
    code_digits_field, code_edit_next, code_entered, code_letters_field, name_field,
    protection_field, recs_key_step, CodeEdit, InputField, RecsKey, KBD_LEFT, KBD_RIGHT,
    define_key, set_player_key, start_key_definition,
};

#[test]
fn value_editor_leaves_without_fire() {
    let mut held = 0x12u16;
    let mut ticks = 40u16;
    assert_eq!(recs_key_step(&mut held, &mut ticks, 0x01, None), RecsKey::Leave);
    assert_eq!(held, 0x12);
    assert_eq!(ticks, 40);
}

#[test]
fn value_editor_acts_on_new_bits() {
    let mut held = 0x12u16;
    let mut ticks = 40u16;
    assert_eq!(recs_key_step(&mut held, &mut ticks, 0x11, None), RecsKey::Act(0x11));
    assert_eq!(held, 0x11);
    assert_eq!(ticks, 0);
}

#[test]
fn value_editor_repeats_held_bits() {
    let mut held = 0x11u16;
    let mut ticks = 0x40u16;
    assert_eq!(recs_key_step(&mut held, &mut ticks, 0x11, None), RecsKey::Wait);
    ticks = 0x90;
    assert_eq!(recs_key_step(&mut held, &mut ticks, 0x11, None), RecsKey::Act(0x11));
    ticks = 0x91;
    assert_eq!(recs_key_step(&mut held, &mut ticks, 0x11, None), RecsKey::Wait);
    assert_eq!(ticks, 0x91);
}

#[test]
fn value_editor_mouse_buttons_fire() {
    let mut held = 0u16;
    let mut ticks = 5u16;
    // Mouse buttons get the fire bit added; the menu bits are ignored.
    assert_eq!(recs_key_step(&mut held, &mut ticks, 0x00, Some(0x0102)), RecsKey::Act(0x12));
    assert_eq!(held, 0x12);
}

#[test]
fn text_fields() {
    assert_eq!(name_field(), InputField { len: 12, start: 0, end: 11, flags: 3 });
    assert_eq!(code_letters_field(), InputField { len: 12, start: 0, end: 8, flags: 2 });
    assert_eq!(code_digits_field(), InputField { len: 12, start: 10, end: 11, flags: 5 });
    assert_eq!(protection_field(), InputField { len: 3, start: 0, end: 2, flags: 3 });
}

#[test]
fn course_code_editing_moves_between_parts() {
    assert_eq!(code_edit_next(false, 13, 4), CodeEdit::Done(13));
    assert_eq!(code_edit_next(true, 27, 0), CodeEdit::Done(27));
    assert_eq!(code_edit_next(false, KBD_RIGHT, 4), CodeEdit::Digits);
    assert_eq!(code_edit_next(false, KBD_LEFT, 0), CodeEdit::Letters);
    assert_eq!(code_edit_next(true, KBD_LEFT, 11), CodeEdit::Letters);
}

#[test]
fn course_code_entered() {
    assert!(!code_entered(b"           0"));
    assert!(code_entered(b"TWINSPIN  10"));
}

#[test]
fn player_keys_are_set() {
    let mut cfg = Config::new();
    set_player_key(&mut cfg, Player::Two, 4, 0x1D);
    assert_eq!(cfg.p2_kbd, [0x7F, 0x7F, 0x7F, 0x7F, 0x1D, 0x7F]);
    assert_eq!(cfg.p1_kbd, [0x4B, 0x4D, 0x48, 0x50, 0x1C, 0x52]);
}

#[test]
fn defining_keys_refuses_taken_ones() {
    let mut cfg = Config::new();
    start_key_definition(&mut cfg, Player::Two);
    assert_eq!(cfg.p2_kbd, [0x7F; 6]);
    // Escape, Enter's slot, player one's keys and the cleared slot are taken.
    assert_eq!(cfg.arr_172c[1], 0xFF);
    assert_eq!(cfg.arr_172c[25], 0xFF);
    assert_eq!(cfg.arr_172c[0x4B], 0xFF);
    assert_eq!(cfg.arr_172c[0x7F], 0xFF);
    assert_eq!(cfg.arr_172c[0x1E], 0);
    // Player one's left key is refused.
    assert!(!define_key(&mut cfg, Player::Two, 0, 0x4B));
    assert_eq!(cfg.p2_kbd[0], 0x7F);
    // A free key is taken, and cannot be used twice.
    assert!(define_key(&mut cfg, Player::Two, 0, 0x1E));
    assert_eq!(cfg.p2_kbd[0], 0x1E);
    assert_eq!(cfg.arr_172c[0x1E], 1);
    assert!(!define_key(&mut cfg, Player::Two, 1, 0x1E));
    assert_eq!(cfg.p2_kbd[1], 0x7F);
}

#[test]
fn defined_keys_never_collide() {
    let mut cfg = Config::new();
    start_key_definition(&mut cfg, Player::Two);
    let presses = [0x1E, 0x1E, 0x4B, 0x20, 0x11, 0x1F, 0x11, 0x10, 0x01, 0x39];
    let mut n = 0usize;
    for &scan in presses.iter() {
        if n == 6 {
            break;
        }
        if define_key(&mut cfg, Player::Two, n, scan) {
            n += 1;
        }
    }
    assert_eq!(n, 6);
    assert_eq!(cfg.p2_kbd, [0x1E, 0x20, 0x11, 0x1F, 0x10, 0x39]);
    for i in 0..6 {
        for j in 0..6 {
            if i != j {
                assert_ne!(cfg.p2_kbd[i], cfg.p2_kbd[j]);
            }
            assert_ne!(cfg.p2_kbd[i], cfg.p1_kbd[j]);
        }
    }
}

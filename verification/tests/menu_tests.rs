use lotus::config::{Config, Controls, Model, Player, Race, SoundSettings, Transmission};
use lotus::menu::{
    define_keys_next, define_menu_step, dispatch_recs_menu_item, input_key, input_start_cursor, main_menu_step,
    mouse_options_step, pick_a_car_step, recs_adjust, recs_menu_step, settings_item_pictures, settings_menu_step,
    sound_menu_step, sub_3c63, sub_434e, sub_4339, CarAction, DefineAction, InputField, MainMenuAction, RecsAction,
    SettingsAction, KBD_DOWN, KBD_ENTER, KBD_UP,
};

#[test]
fn main_menu_moves_and_stops_at_the_edges() {
    let mut cfg = Config::new();
    let (mut col, mut row) = (0u16, 0u16);
    assert_eq!(main_menu_step(&mut cfg, &mut col, &mut row, 1, None), MainMenuAction::Moved);
    assert_eq!((col, row), (0, 0));
    main_menu_step(&mut cfg, &mut col, &mut row, 2, None);
    main_menu_step(&mut cfg, &mut col, &mut row, 2, None);
    main_menu_step(&mut cfg, &mut col, &mut row, 2, None);
    assert_eq!(col, 2);
    for _ in 0..6 {
        main_menu_step(&mut cfg, &mut col, &mut row, 4, None);
    }
    assert_eq!(row, 4);
    assert_eq!(main_menu_step(&mut cfg, &mut col, &mut row, 0, None), MainMenuAction::Stay);
    assert_eq!(main_menu_step(&mut cfg, &mut col, &mut row, 0x10, None), MainMenuAction::DefineMenu);
}

#[test]
fn main_menu_toggles_settings() {
    let mut cfg = Config::new();
    let (mut col, mut row) = (0u16, 1u16);
    assert_eq!(main_menu_step(&mut cfg, &mut col, &mut row, 0x20, None), MainMenuAction::Toggled);
    assert_eq!(cfg.p1_gears, Transmission::Manual);
    main_menu_step(&mut cfg, &mut col, &mut row, 0x20, None);
    assert_eq!(cfg.p1_gears, Transmission::Automatic);
    let (mut col, mut row) = (1u16, 1u16);
    main_menu_step(&mut cfg, &mut col, &mut row, 0x10, None);
    assert_eq!(cfg.race_type, Race::Competition);
    let (mut col, mut row) = (1u16, 3u16);
    main_menu_step(&mut cfg, &mut col, &mut row, 0x10, None);
    assert!(cfg.is_2pl_mode);
}

#[test]
fn main_menu_follows_the_mouse() {
    let mut cfg = Config::new();
    let (mut col, mut row) = (0u16, 0u16);
    assert_eq!(main_menu_step(&mut cfg, &mut col, &mut row, 0x10, Some((430, 90))), MainMenuAction::Moved);
    assert_eq!((col, row), (2, 2));
    assert_eq!(main_menu_step(&mut cfg, &mut col, &mut row, 0, Some((430, 90))), MainMenuAction::Stay);
    assert_eq!(main_menu_step(&mut cfg, &mut col, &mut row, 0x10, Some((220, 10))), MainMenuAction::Moved);
    assert_eq!(main_menu_step(&mut cfg, &mut col, &mut row, 0x10, Some((220, 10))), MainMenuAction::StartGame);
}

#[test]
fn settings_items_show_the_devices() {
    let mut cfg = Config::new();
    assert_eq!(settings_item_pictures(&cfg), [0, 3, 5, 12, 6, 9, 11, 15]);
    cfg.word_16ff = Controls::Mouse.code();
    cfg.word_1716 = Controls::Joystick.code();
    assert_eq!(settings_item_pictures(&cfg), [1, 2, 5, 13, 7, 9, 10, 17]);
    cfg.word_16ff = Controls::Joystick.code();
    cfg.word_1716 = Controls::Mouse.code();
    assert_eq!(settings_item_pictures(&cfg), [1, 3, 4, 14, 7, 8, 11, 16]);
}

#[test]
fn settings_menu_devices() {
    let mut cfg = Config::new();
    assert_eq!(sub_3c63(&mut cfg, 1, 0), SettingsAction::Poll);
    assert_eq!(cfg.word_16ff, 2);
    // The mouse is taken by player 1: player 2 cannot have it.
    assert_eq!(sub_3c63(&mut cfg, 1, 2), SettingsAction::Poll);
    assert_eq!(cfg.word_1716, 0);
    assert_eq!(sub_3c63(&mut cfg, 2, 2), SettingsAction::Poll);
    assert_eq!(cfg.word_1716, 1);
    assert_eq!(sub_3c63(&mut cfg, 3, 0), SettingsAction::MouseOptions);
    assert_eq!(sub_3c63(&mut cfg, 3, 2), SettingsAction::CalibrateJoystick(Player::Two));
    assert_eq!(sub_3c63(&mut cfg, 0, 0), SettingsAction::Poll);
    assert_eq!(sub_3c63(&mut cfg, 3, 0), SettingsAction::DefineKeys(Player::One));
    assert_eq!(sub_3c63(&mut cfg, 3, 1), SettingsAction::Exit);
}

#[test]
fn settings_menu_arrows() {
    let mut cfg = Config::new();
    let (mut col, mut row) = (0u16, 0u16);
    assert_eq!(settings_menu_step(&mut cfg, &mut col, &mut row, 2, None), SettingsAction::Poll);
    assert_eq!((col, row), (2, 0));
    settings_menu_step(&mut cfg, &mut col, &mut row, 4, None);
    settings_menu_step(&mut cfg, &mut col, &mut row, 4, None);
    settings_menu_step(&mut cfg, &mut col, &mut row, 4, None);
    settings_menu_step(&mut cfg, &mut col, &mut row, 4, None);
    assert_eq!((col, row), (2, 3));
    settings_menu_step(&mut cfg, &mut col, &mut row, 1, None);
    assert_eq!((col, row), (1, 3));
}

#[test]
fn sound_menu() {
    let mut snd = SoundSettings::PcSpeaker;
    assert!(!sound_menu_step(&mut snd, 8, None));
    assert_eq!(snd, SoundSettings::SoundBlaster);
    assert!(!sound_menu_step(&mut snd, 4, None));
    assert!(!sound_menu_step(&mut snd, 4, None));
    assert!(!sound_menu_step(&mut snd, 4, None));
    assert_eq!(snd, SoundSettings::Off);
    assert!(!sound_menu_step(&mut snd, 0x10, Some(45)));
    assert_eq!(snd, SoundSettings::Adlib);
    assert!(sound_menu_step(&mut snd, 0x10, Some(45)));
}

#[test]
fn mouse_options() {
    let mut cfg = Config::new();
    assert!(!mouse_options_step(&mut cfg, 2, None));
    assert_eq!(cfg.word_16f2, 1);
    assert!(!mouse_options_step(&mut cfg, 2, None));
    assert_eq!(cfg.word_16f2, 1);
    assert!(!mouse_options_step(&mut cfg, 0x10, Some(10)));
    assert_eq!(cfg.word_16f2, 0);
    assert!(mouse_options_step(&mut cfg, 0x10, Some(10)));
}

#[test]
fn define_menu() {
    let mut sel = 0u16;
    assert_eq!(define_menu_step(&mut sel, 4, None), DefineAction::Redraw);
    assert_eq!(sel, 1);
    assert_eq!(define_menu_step(&mut sel, 0, None), DefineAction::Poll);
    assert_eq!(define_menu_step(&mut sel, 0x10, None), DefineAction::EditKeys);
    assert_eq!(define_menu_step(&mut sel, 0x10, Some(0)), DefineAction::Redraw);
    assert_eq!(define_menu_step(&mut sel, 0x10, None), DefineAction::Exit);
    assert_eq!(define_keys_next(0, KBD_UP), Some(0));
    assert_eq!(define_keys_next(3, KBD_UP), Some(2));
    assert_eq!(define_keys_next(8, KBD_DOWN), Some(8));
    assert_eq!(define_keys_next(3, KBD_ENTER), None);
}

#[test]
fn recs_menu() {
    let (mut col, mut row) = (0u16, 0u16);
    assert_eq!(recs_menu_step(&mut col, &mut row, 4, None), RecsAction::Redraw);
    assert_eq!(recs_menu_step(&mut col, &mut row, 0x10, None), RecsAction::EditValue(0));
    assert_eq!(recs_menu_step(&mut col, &mut row, 0, None), RecsAction::Poll);
    assert_eq!(dispatch_recs_menu_item(3, 1), RecsAction::EditValue(8));
    assert_eq!(dispatch_recs_menu_item(0, 0), RecsAction::ToggleRoute);
    assert_eq!(dispatch_recs_menu_item(0, 1), RecsAction::Exit);
    assert_eq!(dispatch_recs_menu_item(4, 2), RecsAction::NextScenery);
}

#[test]
fn recs_route_and_scenery() {
    // The route is the lowest bit of the first value, 13 being skipped.
    assert_eq!(sub_4339(0), 1);
    assert_eq!(sub_4339(1), 0);
    assert_eq!(sub_4339(12), 14);
    assert_eq!(sub_4339(14), 12);
    assert_eq!(sub_4339(sub_4339(20)), 20);
    assert_eq!(sub_434e(0), 2);
    assert_eq!(sub_434e(10), 12);
    assert_eq!(sub_434e(12), 15);
    assert_eq!(sub_434e(26), 1);
}

#[test]
fn recs_values_step() {
    assert_eq!(recs_adjust(0, 0, 1), 0);
    assert_eq!(recs_adjust(0, 5, 1), 4);
    assert_eq!(recs_adjust(0, 26, 2), 26);
    assert_eq!(recs_adjust(8, 26, 2), 27);
    assert_eq!(recs_adjust(8, 3, 8), 99);
    assert_eq!(recs_adjust(0, 3, 8), 26);
    assert_eq!(recs_adjust(0, 3, 4), 0);
    assert_eq!(recs_adjust(0, 3, 0x10), 3);
}

#[test]
fn car_selection() {
    let mut car = Model::Esprit;
    assert_eq!(pick_a_car_step(&mut car, 1, None), CarAction::Changed);
    assert_eq!(car, Model::M200);
    assert_eq!(pick_a_car_step(&mut car, 2, None), CarAction::Changed);
    assert_eq!(car, Model::Esprit);
    assert_eq!(pick_a_car_step(&mut car, 0, Some((600, 10))), CarAction::Changed);
    assert_eq!(car, Model::Elan);
    assert_eq!(pick_a_car_step(&mut car, 0, Some((300, 50))), CarAction::Selected);
    assert_eq!(pick_a_car_step(&mut car, 0, Some((300, 150))), CarAction::Poll);
    assert_eq!(pick_a_car_step(&mut car, 0x20, None), CarAction::Selected);
}

#[test]
fn text_field_editing() {
    let f = InputField { len: 12, start: 0, end: 11, flags: 2 };
    let mut text = *b"AB          ";
    let mut cursor = input_start_cursor(&text, &f);
    assert_eq!(cursor, 2);
    assert_eq!(input_key(&mut text, &f, &mut cursor, b'C'), None);
    assert_eq!(&text, b"ABC         ");
    // Digits are not taken by a letters-only field.
    input_key(&mut text, &f, &mut cursor, b'7');
    assert_eq!(&text, b"ABC         ");
    input_key(&mut text, &f, &mut cursor, 8);
    input_key(&mut text, &f, &mut cursor, 8);
    assert_eq!(&text, b"A           ");
    assert_eq!(cursor, 1);
    assert_eq!(input_key(&mut text, &f, &mut cursor, KBD_ENTER), Some(KBD_ENTER));
}

#[test]
fn cycling_text_field() {
    let f = InputField { len: 3, start: 10, end: 11, flags: 1 | 4 };
    let mut text = *b"abcdefghi-00";
    let mut cursor = input_start_cursor(&text, &f);
    assert_eq!(cursor, 10);
    input_key(&mut text, &f, &mut cursor, b'4');
    input_key(&mut text, &f, &mut cursor, b'2');
    assert_eq!(cursor, 10);
    assert_eq!(&text, b"abcdefghi-42");
    input_key(&mut text, &f, &mut cursor, 8);
    assert_eq!(&text, b"abcdefghi-42");
}

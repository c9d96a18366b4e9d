use lotus::archive::{arc_seek_res, seek_is_defined};
use lotus::config::{Config, Player};
use lotus::crc::course_is_defined;
use lotus::mem::{align_up, DosAllocator};
use lotus::menu::{main_menu_step, settings_menu_step, MainMenuAction, SettingsAction};
use lotus::palette::PaletteFade;
use lotus::protection::secret_is_defined;
use lotus::video::sub_92a4;

#[test]
fn screen_buffer_is_cleared() {
    let mut buf = vec![0x5Au8; 67200];
    sub_92a4(&mut buf);
    assert_eq!(buf.len(), 67200);
    assert!(buf.iter().all(|&b| b == 0));
}

#[test]
fn configuration_image() {
    let mut cfg = Config::new();
    cfg.word_16ff = 0x0102;
    cfg.byte_1f08 = 0x77;
    let image = cfg.save();
    assert_eq!(image.len(), 2087);
    // Offsets from 16E2.
    assert_eq!(image[0x16FF - 0x16E2], 0x02);
    assert_eq!(image[0x1700 - 0x16E2], 0x01);
    assert_eq!(&image[0x1701 - 0x16E2..0x1707 - 0x16E2], &[0x4B, 0x4D, 0x48, 0x50, 0x1C, 0x52]);
    assert_eq!(&image[0x1718 - 0x16E2..0x171E - 0x16E2], &[0x7F; 6]);
    assert_eq!(&image[0x17AC - 0x16E2..0x17B8 - 0x16E2], b"PLAYER 1    ");
    assert_eq!(&image[0x17B8 - 0x16E2..0x17C4 - 0x16E2], b"PLAYER 2    ");
    assert_eq!(image[0x1F08 - 0x16E2], 0x77);
    // The first high score: 5,000,000 (0x4C4B40) with the Esprit.
    let s = 0x1B48 - 0x16E2;
    assert_eq!(&image[s + 12..s + 16], &[0x40, 0x4B, 0x4C, 0x00]);
}

#[test]
fn rounding_up_to_any_power_of_two() {
    assert_eq!(align_up(17, 16), 32);
    assert_eq!(align_up(9, 8), 16);
    assert_eq!(align_up(7, 1), 7);
    assert_eq!(align_up(usize::MAX - 15, 16), usize::MAX - 15);
}

#[test]
fn allocations_are_aligned() {
    let mut a = DosAllocator::new();
    a.init(0x105, 0);
    for size in [1usize, 17, 33, 100, 3] {
        let p = a.allocate(size).unwrap();
        assert_eq!(p % 16, 0);
    }
    let p = a.allocate(5).unwrap();
    let mut mem = vec![0u8; a.heap_end];
    let q = a.realloc(&mut mem, p, 5, 300).unwrap();
    assert_eq!(q % 16, 0);
}

#[test]
fn settings_menu_fire_carries_out_the_item() {
    let mut cfg = Config::new();
    let (mut col, mut row) = (2u16, 2u16);
    // Player 2 takes the joystick.
    assert_eq!(settings_menu_step(&mut cfg, &mut col, &mut row, 0x10, None), SettingsAction::Poll);
    assert_eq!(cfg.word_1716, 1);
    // The last row configures the device of the column's player.
    row = 3;
    assert_eq!(
        settings_menu_step(&mut cfg, &mut col, &mut row, 0x20, None),
        SettingsAction::CalibrateJoystick(Player::Two)
    );
    col = 1;
    assert_eq!(settings_menu_step(&mut cfg, &mut col, &mut row, 0x10, None), SettingsAction::Exit);
}

#[test]
fn main_menu_selection_stays_on_the_grid() {
    let mut cfg = Config::new();
    let (mut col, mut row) = (1u16, 0u16);
    let polls: [(u8, Option<(u16, u16)>); 9] =
        [(2, None), (2, None), (2, None), (4, None), (4, None), (4, None), (4, None), (4, None), (0, Some((641, 199)))];
    for (al, mouse) in polls {
        let a = main_menu_step(&mut cfg, &mut col, &mut row, al, mouse);
        assert!(col <= 2 && row <= 4);
        assert_ne!(a, MainMenuAction::StartGame);
    }
    assert_eq!((col, row), (2, 4));
}

#[test]
fn whole_fade_ends_near_target() {
    let mut p = PaletteFade { pal: [0; 768], fade: [0; 1536], step: 0, ready: false, speed: 7, faded_out: true };
    for (i, c) in p.pal.iter_mut().enumerate() {
        *c = ((i * 7) % 64) as u8;
    }
    let mut target = [0u8; 768];
    for (i, t) in target.iter_mut().enumerate() {
        *t = ((i * 13) % 64) as u8;
    }
    p.fade_by_color(&target);
    while p.fade_step() {}
    for i in 0..768 {
        assert!(p.pal[i] <= target[i] && target[i] <= p.pal[i] + 1);
    }
}

#[test]
fn exec_checks_of_the_preconditions() {
    // Window 1 (a kind-0 answer) is always defined; no window past 48 is.
    assert!(secret_is_defined(0, 3, 4));
    assert!(!secret_is_defined(48, 0, 0));
    for code in 0..48u16 {
        for a in 0..12u16 {
            for b in 0..12u16 {
                assert!(secret_is_defined(code, a, b));
            }
        }
    }
    // Route 27 names no scenery.
    let mut recs = [0u16, 13, 13, 13, 13, 13, 13, 13, 13];
    assert!(course_is_defined(&recs));
    recs[0] = 27;
    assert!(!course_is_defined(&recs));
    // A directory whose record ends before it starts.
    let mut header = vec![0u8; 22];
    header[2..10].copy_from_slice(b"Q00     ");
    header[10] = 5;
    header[20] = 4;
    assert!(!seek_is_defined(&header, b"Q00\0"));
    header[20] = 6;
    assert!(seek_is_defined(&header, b"Q00\0"));
    assert_eq!(arc_seek_res(&header, b"Q00\0"), Some((5 * 512, 512)));
}

//! Decisions of the menus: what a key, a joystick move or a mouse click does to the
//! selection and to the configuration. The menus themselves (drawing, waiting for the
//! timer, reading the devices) run this logic once per poll.
//!
//! Input bits as the input handlers deliver them: 1 left, 2 right, 4 down, 8 up,
//! 0x10 and 0x20 fire.

use vstd::prelude::*;

use crate::config::{Config, Controls, Model, Player, SoundSettings};
use crate::input::{key_taken, sub_da94};

verus! {

/// Key code of the Enter key as the keyboard handler delivers it.
pub const KBD_ENTER: u8 = 0xD;

/// Key code of the left arrow.
pub const KBD_LEFT: u8 = 0xCB;

/// Key code of the right arrow.
pub const KBD_RIGHT: u8 = 0xCD;

/// Key code of the up arrow.
pub const KBD_UP: u8 = 0xC8;

/// Key code of the down arrow.
pub const KBD_DOWN: u8 = 0xD0;

/// What the main menu does after a poll.
#[derive(Clone, Copy, Debug, PartialEq, Eq, Structural)]
pub enum MainMenuAction {
    /// Nothing to do: poll again.
    Stay,
    /// The selection moved: restart the timer and poll again.
    Moved,
    /// A setting was toggled in the configuration.
    Toggled,
    EditP1Name,
    EditP2Name,
    StartGame,
    SettingsMenu,
    SoundMenu,
    RecsMenu,
    EditGameCode,
    DefineMenu,
}

/// The main menu's selected column and row after a poll with input bits `al` and, when
/// the mouse is used, its position; and the action. See [`main_menu_step`].
pub open spec fn main_menu_next(
    col: u16,
    row: u16,
    al: u8,
    mouse: Option<(u16, u16)>,
) -> (u16, u16, MainMenuAction) {
    let moved_mouse = match mouse {
        Some((x, y)) => (x / 214 != col || y / 40 != row),
        None => false,
    };
    let (c, r) = match mouse {
        Some((x, y)) => ((x / 214) as u16, (y / 40) as u16),
        None => (col, row),
    };
    if moved_mouse {
        (c, r, MainMenuAction::Moved)
    } else if al & 1 != 0 {
        ((if c > 0 { c - 1 } else { 0 }) as u16, r, MainMenuAction::Moved)
    } else if al & 2 != 0 {
        ((if c + 1 < 2 { c + 1 } else { 2 }) as u16, r, MainMenuAction::Moved)
    } else if al & 8 != 0 {
        (c, (if r > 0 { r - 1 } else { 0 }) as u16, MainMenuAction::Moved)
    } else if al & 4 != 0 {
        (c, (if r + 1 < 4 { r + 1 } else { 4 }) as u16, MainMenuAction::Moved)
    } else if al & 0x30 != 0 {
        (c, r, main_menu_choice(r, c))
    } else {
        (c, r, MainMenuAction::Stay)
    }
}

/// The action of the main menu's item at row `r`, column `c`.
pub open spec fn main_menu_choice(r: u16, c: u16) -> MainMenuAction {
    if r == 0 && c == 0 {
        MainMenuAction::EditP1Name
    } else if r == 0 && c == 1 {
        MainMenuAction::StartGame
    } else if r == 0 && c == 2 {
        MainMenuAction::EditP2Name
    } else if r == 3 && c == 0 {
        MainMenuAction::SettingsMenu
    } else if r == 3 && c == 2 {
        MainMenuAction::SoundMenu
    } else if r == 4 && c == 0 {
        MainMenuAction::RecsMenu
    } else if r == 4 && c == 1 {
        MainMenuAction::EditGameCode
    } else if r == 4 && c == 2 {
        MainMenuAction::DefineMenu
    } else if r <= 3 && c <= 2 {
        MainMenuAction::Toggled
    } else {
        MainMenuAction::Stay
    }
}

/// The configuration after the main menu's toggle at row `r`, column `c`.
pub open spec fn main_menu_toggle(cfg: Config, r: u16, c: u16) -> Config {
    if r == 1 && c == 0 {
        Config { p1_gears: cfg.p1_gears.succ(), ..cfg }
    } else if r == 1 && c == 1 {
        Config { race_type: cfg.race_type.succ(), ..cfg }
    } else if r == 1 && c == 2 {
        Config { p2_gears: cfg.p2_gears.succ(), ..cfg }
    } else if r == 2 && c == 0 {
        Config { p1_accel: cfg.p1_accel.succ(), ..cfg }
    } else if r == 2 && c == 1 {
        Config { course_type: cfg.course_type.succ(), ..cfg }
    } else if r == 2 && c == 2 {
        Config { p2_accel: cfg.p2_accel.succ(), ..cfg }
    } else if r == 3 && c == 1 {
        Config { is_2pl_mode: !cfg.is_2pl_mode, ..cfg }
    } else {
        cfg
    }
}

/// 35B5 (one poll): moves the main menu's selection `(col, row)` by the mouse (when
/// `mouse` holds its position) or the input bits `al`, or carries out the selected item.
/// Toggles change `cfg` at once; the other items are returned as actions.
pub fn main_menu_step(cfg: &mut Config, col: &mut u16, row: &mut u16, al: u8, mouse: Option<(u16, u16)>) -> (a: MainMenuAction)
    ensures
        ({
            let (c, r, act) = main_menu_next(*old(col), *old(row), al, mouse);
            &&& *final(col) == c
            &&& *final(row) == r
            &&& a == act
            &&& act == MainMenuAction::Toggled ==> *final(cfg) == main_menu_toggle(*old(cfg), r, c)
            &&& act != MainMenuAction::Toggled ==> *final(cfg) == *old(cfg)
        }),
{
    if let Some((x, y)) = mouse {
        let cx = *col;
        let dx = *row;
        *col = x / 214;
        *row = y / 40;
        if cx != *col || dx != *row {
            return MainMenuAction::Moved;
        }
    }
    if al & 1 != 0 {
        *col = if *col > 0 {
            *col - 1
        } else {
            0
        };
        return MainMenuAction::Moved;
    }
    if al & 2 != 0 {
        *col = if *col < 2 {
            *col + 1
        } else {
            2
        };
        return MainMenuAction::Moved;
    }
    if al & 8 != 0 {
        *row = if *row > 0 {
            *row - 1
        } else {
            0
        };
        return MainMenuAction::Moved;
    }
    if al & 4 != 0 {
        *row = if *row < 4 {
            *row + 1
        } else {
            4
        };
        return MainMenuAction::Moved;
    }
    if al & 0x30 == 0 {
        return MainMenuAction::Stay;
    }
    let r = *row;
    let c = *col;
    if r == 0 && c == 0 {
        MainMenuAction::EditP1Name
    } else if r == 0 && c == 1 {
        MainMenuAction::StartGame
    } else if r == 0 && c == 2 {
        MainMenuAction::EditP2Name
    } else if r == 3 && c == 0 {
        MainMenuAction::SettingsMenu
    } else if r == 3 && c == 2 {
        MainMenuAction::SoundMenu
    } else if r == 4 && c == 0 {
        MainMenuAction::RecsMenu
    } else if r == 4 && c == 1 {
        MainMenuAction::EditGameCode
    } else if r == 4 && c == 2 {
        MainMenuAction::DefineMenu
    } else if r == 1 && c == 0 {
        cfg.p1_gears = cfg.p1_gears.next();
        MainMenuAction::Toggled
    } else if r == 1 && c == 1 {
        cfg.race_type = cfg.race_type.next();
        MainMenuAction::Toggled
    } else if r == 1 && c == 2 {
        cfg.p2_gears = cfg.p2_gears.next();
        MainMenuAction::Toggled
    } else if r == 2 && c == 0 {
        cfg.p1_accel = cfg.p1_accel.next();
        MainMenuAction::Toggled
    } else if r == 2 && c == 1 {
        cfg.course_type = cfg.course_type.next();
        MainMenuAction::Toggled
    } else if r == 2 && c == 2 {
        cfg.p2_accel = cfg.p2_accel.next();
        MainMenuAction::Toggled
    } else if r == 3 && c == 1 {
        cfg.is_2pl_mode = !cfg.is_2pl_mode;
        MainMenuAction::Toggled
    } else {
        MainMenuAction::Stay
    }
}

/// The main menu's selection after the polls `polls` (input bits and mouse position
/// each) from `(col, row)` (see [`main_menu_next`]).
pub open spec fn main_menu_after(col: u16, row: u16, polls: Seq<(u8, Option<(u16, u16)>)>) -> (u16, u16)
    decreases polls.len(),
{
    if polls.len() == 0 {
        (col, row)
    } else {
        let (c, r, _) = main_menu_next(col, row, polls[0].0, polls[0].1);
        main_menu_after(c, r, polls.drop_first())
    }
}

/// Whether every mouse position of the polls lies on the screen (the mouse driver's
/// columns 0 to 641, rows 0 to 199).
pub open spec fn polls_on_screen(polls: Seq<(u8, Option<(u16, u16)>)>) -> bool {
    forall|i: int|
        0 <= i < polls.len() ==> match #[trigger] polls[i].1 {
            Some((x, y)) => x < 642 && y < 200,
            None => true,
        }
}

/// The main menu's selection stays on its grid of three columns and five rows: from
/// any item of the grid (the menu starts at column 1, row 0), whatever the polls, as
/// long as the mouse stays on the screen.
pub proof fn lemma_main_menu_stays_in_grid(col: u16, row: u16, polls: Seq<(u8, Option<(u16, u16)>)>)
    requires
        col <= 2,
        row <= 4,
        polls_on_screen(polls),
    ensures
        main_menu_after(col, row, polls).0 <= 2,
        main_menu_after(col, row, polls).1 <= 4,
    decreases polls.len(),
{
    if polls.len() > 0 {
        let (c, r, _) = main_menu_next(col, row, polls[0].0, polls[0].1);
        let rest = polls.drop_first();
        assert forall|i: int| 0 <= i < rest.len() implies match #[trigger] rest[i].1 {
            Some((x, y)) => x < 642 && y < 200,
            None => true,
        } by {
            assert(rest[i] == polls[i + 1]);
        }
        match polls[0].1 {
            Some((x, y)) => {
                assert(x < 642 && y < 200);
                assert(x / 214 <= 2 && y / 40 <= 4);
            },
            None => {},
        }
        lemma_main_menu_stays_in_grid(c, r, rest);
    }
}

/// `cfg` with player 1's input device code set to `v`.
pub open spec fn with_p1_device(cfg: Config, v: u16) -> Config {
    Config { word_16ff: v, ..cfg }
}

/// `cfg` with player 2's input device code set to `v`.
pub open spec fn with_p2_device(cfg: Config, v: u16) -> Config {
    Config { word_1716: v, ..cfg }
}

/// `cfg` with the mouse button layout set to `v`.
pub open spec fn with_mouse_layout(cfg: Config, v: u16) -> Config {
    Config { word_16f2: v, ..cfg }
}

/// What the settings menu does after a poll.
#[derive(Clone, Copy, Debug, PartialEq, Eq, Structural)]
pub enum SettingsAction {
    /// Poll again (the selection or the configuration may have changed).
    Poll,
    /// Define the keys of a player.
    DefineKeys(Player),
    /// Calibrate the joystick of a player.
    CalibrateJoystick(Player),
    /// Open the mouse options.
    MouseOptions,
    /// Leave the settings menu.
    Exit,
}

/// 3D7C: player 1 takes input device `ctrl`, unless it is the mouse and player 2 has it.
pub fn sub_3d7c(cfg: &mut Config, ctrl: Controls)
    ensures
        (ctrl != Controls::Mouse || old(cfg).word_1716 != ctrl.spec_code()) ==> *final(cfg) == with_p1_device(*old(cfg), ctrl.spec_code()),
        !(ctrl != Controls::Mouse || old(cfg).word_1716 != ctrl.spec_code()) ==> *final(cfg) == *old(cfg),
{
    let code = ctrl.code();
    if ctrl != Controls::Mouse || cfg.word_1716 != code {
        cfg.word_16ff = code;
    }
}

/// 3D8C: player 2 takes input device `ctrl`, unless it is the mouse and player 1 has it.
pub fn sub_3d8c(cfg: &mut Config, ctrl: Controls)
    ensures
        (ctrl != Controls::Mouse || old(cfg).word_16ff != ctrl.spec_code()) ==> *final(cfg) == with_p2_device(*old(cfg), ctrl.spec_code()),
        !(ctrl != Controls::Mouse || old(cfg).word_16ff != ctrl.spec_code()) ==> *final(cfg) == *old(cfg),
{
    let code = ctrl.code();
    if ctrl != Controls::Mouse || cfg.word_16ff != code {
        cfg.word_1716 = code;
    }
}

/// What configuring player `p`'s input device means: defining keys, calibrating the
/// joystick or setting up the mouse; `None` for a device code the game does not know.
pub open spec fn configure_action(code: u16, p: Player) -> Option<SettingsAction> {
    if code == 0 {
        Some(SettingsAction::DefineKeys(p))
    } else if code == 1 {
        Some(SettingsAction::CalibrateJoystick(p))
    } else if code == 2 {
        Some(SettingsAction::MouseOptions)
    } else {
        None
    }
}

/// The input device code of the settings menu's rows: keyboard, mouse, joystick.
pub open spec fn settings_row_device(row: u16) -> u16 {
    if row == 0 {
        0
    } else if row == 1 {
        2
    } else {
        1
    }
}

/// What the settings menu's item at `(row, col)` does to `cfg`: the device items change
/// a player's input device (player 1 in the left column, player 2 in the right; not to
/// the mouse while the other player has it); the last row configures a player's device;
/// anything else leaves the menu.
pub open spec fn settings_item(cfg: Config, row: u16, col: u16) -> (SettingsAction, Config) {
    if row <= 2 && col == 0 {
        (SettingsAction::Poll, if row == 1 && cfg.word_1716 == 2 {
            cfg
        } else {
            with_p1_device(cfg, settings_row_device(row))
        })
    } else if row <= 2 && col == 2 {
        (SettingsAction::Poll, if row == 1 && cfg.word_16ff == 2 {
            cfg
        } else {
            with_p2_device(cfg, settings_row_device(row))
        })
    } else if row == 3 && col == 0 {
        (configure_action(cfg.word_16ff, Player::One).unwrap(), cfg)
    } else if row == 3 && col == 2 {
        (configure_action(cfg.word_1716, Player::Two).unwrap(), cfg)
    } else {
        (SettingsAction::Exit, cfg)
    }
}

/// 3C63: carries out the settings menu's item at `(row, col)` (see [`settings_item`]).
pub fn sub_3c63(cfg: &mut Config, row: u16, col: u16) -> (a: SettingsAction)
    requires
        row == 3 && col == 0 ==> configure_action(old(cfg).word_16ff, Player::One) is Some,
        row == 3 && col == 2 ==> configure_action(old(cfg).word_1716, Player::Two) is Some,
    ensures
        (a, *final(cfg)) == settings_item(*old(cfg), row, col),
{
    if row <= 2 && (col == 0 || col == 2) {
        let ctrl = if row == 0 {
            Controls::Keyboard
        } else if row == 1 {
            Controls::Mouse
        } else {
            Controls::Joystick
        };
        proof {
            assert(ctrl.spec_code() == settings_row_device(row));
        }
        if col == 0 {
            sub_3d7c(cfg, ctrl);
        } else {
            sub_3d8c(cfg, ctrl);
        }
        return SettingsAction::Poll;
    }
    if row == 3 && (col == 0 || col == 2) {
        let (code, p) = if col == 0 {
            (cfg.word_16ff, Player::One)
        } else {
            (cfg.word_1716, Player::Two)
        };
        return if code == 0 {
            SettingsAction::DefineKeys(p)
        } else if code == 1 {
            SettingsAction::CalibrateJoystick(p)
        } else {
            SettingsAction::MouseOptions
        };
    }
    SettingsAction::Exit
}

/// The settings menu's selection after a mouse report at `(x, y)`, if the mouse points
/// at an item it may select (the middle column only on the last row).
pub open spec fn settings_mouse_target(x: u16, y: u16) -> Option<(u16, u16)> {
    let cx = if x / 214 < 2 {
        x / 214
    } else {
        2
    };
    let dx = if y < 22 {
        0
    } else if (y - 22) / 39 < 3 {
        (y - 22) / 39
    } else {
        3
    };
    if dx == 3 || cx != 1 {
        Some((cx as u16, dx as u16))
    } else {
        None
    }
}

/// The settings menu's selection after the input bits `al` (without the fire bits).
pub open spec fn settings_arrow(col: u16, row: u16, al: u8) -> (u16, u16) {
    if al & 1 != 0 {
        (if col != 0 {
            if row == 3 {
                (col - 1) as u16
            } else {
                0
            }
        } else {
            col
        }, row)
    } else if al & 2 != 0 {
        (if col < 2 {
            if row == 3 {
                (col + 1) as u16
            } else {
                2
            }
        } else {
            col
        }, row)
    } else if al & 8 != 0 {
        (col, if col != 1 && row != 0 {
            (row - 1) as u16
        } else {
            row
        })
    } else if al & 4 != 0 {
        (col, if row < 3 {
            (row + 1) as u16
        } else {
            row
        })
    } else {
        (col, row)
    }
}

/// 3B4F (one poll): moves the settings menu's selection `(col, row)` by the mouse or the
/// input bits, or carries out the selected item (see [`sub_3c63`]).
pub fn settings_menu_step(cfg: &mut Config, col: &mut u16, row: &mut u16, al: u8, mouse: Option<(u16, u16)>) -> (a: SettingsAction)
    requires
        ({
            let (c, r) = match mouse {
                Some((x, y)) => match settings_mouse_target(x, y) {
                    Some(t) => t,
                    None => (*old(col), *old(row)),
                },
                None => (*old(col), *old(row)),
            };
            &&& r == 3 && c == 0 ==> configure_action(old(cfg).word_16ff, Player::One) is Some
            &&& r == 3 && c == 2 ==> configure_action(old(cfg).word_1716, Player::Two) is Some
        }),
    ensures
        ({
            let target = match mouse {
                Some((x, y)) => settings_mouse_target(x, y),
                None => None,
            };
            let (c, r) = match target {
                Some(t) => t,
                None => (*old(col), *old(row)),
            };
            if target is Some && (c, r) != (*old(col), *old(row)) {
                *final(col) == c && *final(row) == r && a == SettingsAction::Poll && *final(cfg) == *old(cfg)
            } else if al & 0x30 != 0 {
                *final(col) == c && *final(row) == r && (a, *final(cfg)) == settings_item(*old(cfg), r, c)
            } else {
                (*final(col), *final(row)) == settings_arrow(c, r, al) && a == SettingsAction::Poll
                    && *final(cfg) == *old(cfg)
            }
        }),
{
    if let Some((x, y)) = mouse {
        let cx: u16 = if x / 214 < 2 {
            x / 214
        } else {
            2
        };
        let dx: u16 = if y < 22 {
            0
        } else if (y - 22) / 39 < 3 {
            (y - 22) / 39
        } else {
            3
        };
        if dx == 3 || cx != 1 {
            let (pc, pr) = (*col, *row);
            *col = cx;
            *row = dx;
            if pc != *col || pr != *row {
                return SettingsAction::Poll;
            }
        }
    }
    if al & 0x30 != 0 {
        return sub_3c63(cfg, *row, *col);
    }
    if al & 1 != 0 {
        if *col != 0 {
            if *row == 3 {
                *col = *col - 1;
            } else {
                *col = 0;
            }
        }
    } else if al & 2 != 0 {
        if *col < 2 {
            if *row == 3 {
                *col = *col + 1;
            } else {
                *col = 2;
            }
        }
    } else if al & 8 != 0 {
        if *col != 1 && *row != 0 {
            *row = *row - 1;
        }
    } else if al & 4 != 0 {
        if *row < 3 {
            *row = *row + 1;
        }
    }
    SettingsAction::Poll
}

/// 3C87 (the choice of pictures): the pictures of the settings menu's eight items for
/// the input device codes of the two players: three device items and the
/// configuration item of player 1, then the same for player 2.
pub open spec fn settings_items(p1: u16, p2: u16) -> Seq<u8> {
    seq![
        if p1 == 0 { 0u8 } else { 1u8 },
        if p1 == 2 { 2u8 } else { 3u8 },
        if p1 == 1 { 4u8 } else { 5u8 },
        if p1 == 0 { 12u8 } else if p1 == 2 { 13u8 } else { 14u8 },
        if p2 == 0 { 6u8 } else { 7u8 },
        if p2 == 2 { 8u8 } else { 9u8 },
        if p2 == 1 { 10u8 } else { 11u8 },
        if p2 == 0 { 15u8 } else if p2 == 2 { 16u8 } else { 17u8 },
    ]
}

/// The pictures of the settings menu's items (see [`settings_items`]), for device
/// codes the game knows.
pub fn settings_item_pictures(cfg: &Config) -> (r: [u8; 8])
    requires
        cfg.word_16ff <= 2,
        cfg.word_1716 <= 2,
    ensures
        r@ == settings_items(cfg.word_16ff, cfg.word_1716),
{
    let p1 = cfg.word_16ff;
    let p2 = cfg.word_1716;
    let r = [
        if p1 == 0 { 0 } else { 1 },
        if p1 == 2 { 2 } else { 3 },
        if p1 == 1 { 4 } else { 5 },
        if p1 == 0 { 12 } else if p1 == 2 { 13 } else { 14 },
        if p2 == 0 { 6 } else { 7 },
        if p2 == 2 { 8 } else { 9 },
        if p2 == 1 { 10 } else { 11 },
        if p2 == 0 { 15 } else if p2 == 2 { 16 } else { 17 },
    ];
    assert(r@ =~= settings_items(p1, p2));
    r
}

/// Whether the sound menu can take the poll: a mouse row and a step up name a sound
/// device (codes 1 to 4).
pub open spec fn sound_step_defined(snd: SoundSettings, al: u8, mouse: Option<u16>) -> bool {
    match mouse {
        Some(y) => 1 <= (y / 40) % 256 <= 4 && (((y / 40) % 256) as u16 == snd.spec_code() ==> (al & 8 != 0
            ==> snd != SoundSettings::Adlib)),
        None => al & 8 != 0 ==> snd != SoundSettings::Adlib,
    }
}

/// The sound device with code `code` (1 to 4).
pub fn sound_from_code(code: u16) -> (r: SoundSettings)
    requires
        1 <= code <= 4,
    ensures
        r.spec_code() == code,
{
    if code == 1 {
        SoundSettings::Adlib
    } else if code == 2 {
        SoundSettings::SoundBlaster
    } else if code == 3 {
        SoundSettings::PcSpeaker
    } else {
        SoundSettings::Off
    }
}

/// 3AAC (one poll): moves the sound menu's selection by the mouse row `mouse` or the input
/// bits; returns `true` when the selection is confirmed, after which the device is taken
/// into use.
pub fn sound_menu_step(snd: &mut SoundSettings, al: u8, mouse: Option<u16>) -> (done: bool)
    requires
        sound_step_defined(*old(snd), al, mouse),
    ensures
        ({
            let picked = match mouse {
                Some(y) => ((y / 40) % 256) as u16,
                None => old(snd).spec_code(),
            };
            if picked != old(snd).spec_code() {
                final(snd).spec_code() == picked && !done
            } else if al & 8 != 0 {
                final(snd).spec_code() == picked - 1 && !done
            } else if al & 4 != 0 {
                final(snd).spec_code() == (if picked + 1 < 4 { picked + 1 } else { 4 }) && !done
            } else {
                *final(snd) == *old(snd) && done == (al & 0x30 != 0)
            }
        }),
{
    if let Some(y) = mouse {
        let prev = snd.code();
        let code = (y / 40) % 256;
        *snd = sound_from_code(code);
        if code != prev {
            return false;
        }
    }
    let code = snd.code();
    if al & 8 != 0 {
        *snd = sound_from_code(code - 1);
        return false;
    }
    if al & 4 != 0 {
        *snd = sound_from_code(if code + 1 < 4 {
            code + 1
        } else {
            4
        });
        return false;
    }
    al & 0x30 != 0
}

/// 3DCA (one poll): moves the mouse options' selection (0 or 1, the mouse button
/// layout) by the mouse's column or the input bits; returns `true` when it is confirmed.
pub fn mouse_options_step(cfg: &mut Config, al: u8, mouse: Option<u16>) -> (done: bool)
    ensures
        ({
            let picked = match mouse {
                Some(x) => if x >= 0x140 { 1u16 } else { 0u16 },
                None => old(cfg).word_16f2,
            };
            if picked != old(cfg).word_16f2 {
                *final(cfg) == with_mouse_layout(*old(cfg), picked) && !done
            } else if al & 1 != 0 {
                *final(cfg) == with_mouse_layout(*old(cfg), (if picked != 0 { picked - 1 } else { 0 }) as u16) && !done
            } else if al & 2 != 0 {
                *final(cfg) == with_mouse_layout(*old(cfg), (if picked < 1 { picked + 1 } else { picked as int }) as u16) && !done
            } else {
                *final(cfg) == *old(cfg) && done == (al & 0x30 != 0)
            }
        }),
{
    if let Some(x) = mouse {
        let prev = cfg.word_16f2;
        cfg.word_16f2 = if x >= 0x140 {
            1
        } else {
            0
        };
        if prev != cfg.word_16f2 {
            return false;
        }
    }
    if al & 1 != 0 {
        if cfg.word_16f2 != 0 {
            cfg.word_16f2 = cfg.word_16f2 - 1;
        }
        return false;
    }
    if al & 2 != 0 {
        if cfg.word_16f2 < 1 {
            cfg.word_16f2 = cfg.word_16f2 + 1;
        }
        return false;
    }
    al & 0x30 != 0
}

/// What the define menu does after a poll.
#[derive(Clone, Copy, Debug, PartialEq, Eq, Structural)]
pub enum DefineAction {
    Poll,
    Redraw,
    Exit,
    EditKeys,
}

/// 4019 (one poll): moves the define menu's selection (0: leave, 1: the course codes) by
/// the mouse row or the input bits, or carries it out.
pub fn define_menu_step(sel: &mut u16, al: u8, mouse: Option<u16>) -> (a: DefineAction)
    ensures
        ({
            let picked = match mouse {
                Some(y) => if y >= 0x2E { 1u16 } else { 0u16 },
                None => *old(sel),
            };
            if picked != *old(sel) {
                *final(sel) == picked && a == DefineAction::Redraw
            } else if al & 8 != 0 {
                *final(sel) == (if picked == 1 { 0 } else { picked }) && a == DefineAction::Redraw
            } else if al & 4 != 0 {
                *final(sel) == (if picked == 0 { 1 } else { picked }) && a == DefineAction::Redraw
            } else if al & 0x30 == 0 {
                *final(sel) == picked && a == DefineAction::Poll
            } else {
                *final(sel) == picked && a == (if picked == 0 { DefineAction::Exit } else { DefineAction::EditKeys })
            }
        }),
{
    if let Some(y) = mouse {
        let prev = *sel;
        *sel = if y >= 0x2E {
            1
        } else {
            0
        };
        if prev != *sel {
            return DefineAction::Redraw;
        }
    }
    if al & 8 != 0 {
        if *sel == 1 {
            *sel = 0;
        }
        return DefineAction::Redraw;
    }
    if al & 4 != 0 {
        if *sel == 0 {
            *sel = 1;
        }
        return DefineAction::Redraw;
    }
    if al & 0x30 == 0 {
        return DefineAction::Poll;
    }
    if *sel == 0 {
        DefineAction::Exit
    } else {
        DefineAction::EditKeys
    }
}

/// 4019 (the code list): after editing course code `ix` ended with key `chr`, the code
/// to edit next, or `None` to go back to the menu.
pub fn define_keys_next(ix: usize, chr: u8) -> (r: Option<usize>)
    ensures
        chr == KBD_UP ==> r == Some((if ix > 0 { ix - 1 } else { ix as int }) as usize),
        chr == KBD_DOWN ==> r == Some((if ix < 8 { ix + 1 } else { ix as int }) as usize),
        chr != KBD_UP && chr != KBD_DOWN ==> r is None,
{
    if chr == KBD_UP {
        Some(if ix > 0 {
            ix - 1
        } else {
            ix
        })
    } else if chr == KBD_DOWN {
        Some(if ix < 8 {
            ix + 1
        } else {
            ix
        })
    } else {
        None
    }
}

/// 3EBD: sets key `ix` (left, right, up, down, the two fire keys) of `player`'s keyboard
/// controls to scan code `scan`.
pub fn set_player_key(cfg: &mut Config, player: Player, ix: usize, scan: u8)
    requires
        ix < 6,
    ensures
        player == Player::One ==> final(cfg).p1_kbd@ == old(cfg).p1_kbd@.update(ix as int, scan)
            && *final(cfg) == (Config { p1_kbd: final(cfg).p1_kbd, ..*old(cfg) }),
        player == Player::Two ==> final(cfg).p2_kbd@ == old(cfg).p2_kbd@.update(ix as int, scan)
            && *final(cfg) == (Config { p2_kbd: final(cfg).p2_kbd, ..*old(cfg) }),
{
    match player {
        Player::One => {
            cfg.p1_kbd[ix] = scan;
        },
        Player::Two => {
            cfg.p2_kbd[ix] = scan;
        },
    }
}

/// The other player.
pub open spec fn other_player(player: Player) -> Player {
    match player {
        Player::One => Player::Two,
        Player::Two => Player::One,
    }
}

/// The keyboard controls of `player`.
pub open spec fn player_keys(cfg: Config, player: Player) -> Seq<u8> {
    match player {
        Player::One => cfg.p1_kbd@,
        Player::Two => cfg.p2_kbd@,
    }
}

/// 3E63 (start): clears `player`'s keys (scan code 0x7F, no key) and marks the keys that
/// stay taken: Escape, Enter and the other player's keys (see [`key_taken`]).
pub fn start_key_definition(cfg: &mut Config, player: Player)
    requires
        forall|i: int| 0 <= i < 6 ==> #[trigger] player_keys(*old(cfg), other_player(player))[i] < 128,
    ensures
        player_keys(*final(cfg), player) == Seq::new(6, |i: int| 0x7Fu8),
        player_keys(*final(cfg), other_player(player)) == player_keys(*old(cfg), other_player(player)),
        forall|k: int| 0 <= k < 128 ==> final(cfg).arr_172c@[k] == (if key_taken(*final(cfg), k) { 0xFFu8 } else { 0u8 }),
        *final(cfg) == (Config { p1_kbd: final(cfg).p1_kbd, p2_kbd: final(cfg).p2_kbd, arr_172c: final(cfg).arr_172c, ..*old(cfg) }),
        keys_apart(*final(cfg), player, 0),
{
    let mut ix: usize = 0;
    while ix < 6
        invariant
            ix <= 6,
            forall|i: int| 0 <= i < ix ==> player_keys(*cfg, player)[i] == 0x7Fu8,
            forall|i: int| ix <= i < 6 ==> player_keys(*cfg, player)[i] == player_keys(*old(cfg), player)[i],
            player_keys(*cfg, player).len() == 6,
            player_keys(*cfg, other_player(player)) == player_keys(*old(cfg), other_player(player)),
            *cfg == (Config { p1_kbd: cfg.p1_kbd, p2_kbd: cfg.p2_kbd, ..*old(cfg) }),
        decreases 6 - ix,
    {
        set_player_key(cfg, player, ix, 0x7F);
        ix = ix + 1;
    }
    assert(player_keys(*cfg, player) =~= Seq::new(6, |i: int| 0x7Fu8));
    let ghost c1 = *cfg;
    sub_da94(cfg);
    assert(player_keys(*cfg, player) == player_keys(c1, player));
    assert(player_keys(*cfg, other_player(player)) == player_keys(c1, other_player(player)));
    assert forall|k: int| 0 <= k < 128 implies cfg.arr_172c@[k] == (if key_taken(*cfg, k) { 0xFFu8 } else { 0u8 }) by {
        assert(cfg.p1_kbd == c1.p1_kbd && cfg.p2_kbd == c1.p2_kbd);
    }
}

/// What defining key `ix` of `player` with scan code `scan` does to the configuration
/// `c0`, giving `c1`: the key is accepted where it was not taken; either way it is taken
/// from now on.
pub open spec fn key_definition(c0: Config, player: Player, ix: int, scan: u8, c1: Config, accepted: bool) -> bool {
    &&& accepted == (c0.arr_172c@[scan as int] == 0)
    &&& c1.arr_172c@ == c0.arr_172c@.update(scan as int, 1u8)
    &&& accepted ==> player_keys(c1, player) == player_keys(c0, player).update(ix, scan)
    &&& !accepted ==> player_keys(c1, player) == player_keys(c0, player)
    &&& player_keys(c1, other_player(player)) == player_keys(c0, other_player(player))
    &&& c1 == (Config { p1_kbd: c1.p1_kbd, p2_kbd: c1.p2_kbd, arr_172c: c1.arr_172c, ..c0 })
}

/// 3E63 (a key): scan code `scan` pressed for key `ix` of `player` (see
/// [`key_definition`]).
pub fn define_key(cfg: &mut Config, player: Player, ix: usize, scan: u8) -> (accepted: bool)
    requires
        ix < 6,
        scan < 128,
    ensures
        key_definition(*old(cfg), player, ix as int, scan, *final(cfg), accepted),
{
    let used = cfg.arr_172c[scan as usize] != 0;
    cfg.arr_172c[scan as usize] = 1;
    if !used {
        set_player_key(cfg, player, ix, scan);
    }
    !used
}

/// While `player` defines keys, the first `n` defined: every key of the other player and
/// every defined key is a scan code marked taken, and no two of them are the same.
pub open spec fn keys_apart(cfg: Config, player: Player, n: int) -> bool {
    let mine = player_keys(cfg, player);
    let theirs = player_keys(cfg, other_player(player));
    &&& 0 <= n <= 6
    &&& forall|j: int| 0 <= j < 6 ==> #[trigger] theirs[j] < 128 && cfg.arr_172c@[theirs[j] as int] != 0
    &&& forall|i: int| 0 <= i < n ==> #[trigger] mine[i] < 128 && cfg.arr_172c@[mine[i] as int] != 0
    &&& forall|i: int, k: int| 0 <= i < k < n ==> #[trigger] mine[i] != #[trigger] mine[k]
    &&& forall|i: int, j: int| 0 <= i < n && 0 <= j < 6 ==> #[trigger] mine[i] != #[trigger] theirs[j]
}

/// Defining keys keeps them apart: starting from [`start_key_definition`], each key
/// pressed either is refused or becomes the next key, and no key of either player is
/// ever used twice.
pub proof fn lemma_define_key_keeps_keys_apart(c0: Config, player: Player, n: int, scan: u8, c1: Config, accepted: bool)
    requires
        keys_apart(c0, player, n),
        n < 6,
        scan < 128,
        key_definition(c0, player, n, scan, c1, accepted),
    ensures
        keys_apart(c1, player, if accepted { n + 1 } else { n }),
{
    let mine0 = player_keys(c0, player);
    let mine1 = player_keys(c1, player);
    let theirs = player_keys(c0, other_player(player));
    assert(player_keys(c1, other_player(player)) == theirs);
    assert forall|j: int| 0 <= j < 6 implies #[trigger] theirs[j] < 128 && c1.arr_172c@[theirs[j] as int] != 0 by {
        assert(theirs[j] < 128 && c0.arr_172c@[theirs[j] as int] != 0);
    }
    if accepted {
        assert forall|i: int| 0 <= i < n + 1 implies #[trigger] mine1[i] < 128 && c1.arr_172c@[mine1[i] as int] != 0 by {
            if i < n {
                assert(mine0[i] < 128 && c0.arr_172c@[mine0[i] as int] != 0);
            }
        }
        assert forall|i: int, k: int| 0 <= i < k < n + 1 implies #[trigger] mine1[i] != #[trigger] mine1[k] by {
            assert(mine0[i] < 128 && c0.arr_172c@[mine0[i] as int] != 0);
            if k < n {
                assert(mine0[i] != mine0[k]);
            }
        }
        assert forall|i: int, j: int| 0 <= i < n + 1 && 0 <= j < 6 implies #[trigger] mine1[i] != #[trigger] theirs[j] by {
            assert(theirs[j] < 128 && c0.arr_172c@[theirs[j] as int] != 0);
            if i < n {
                assert(mine0[i] != theirs[j]);
            }
        }
    } else {
        assert forall|i: int| 0 <= i < n implies #[trigger] mine1[i] < 128 && c1.arr_172c@[mine1[i] as int] != 0 by {
            assert(mine0[i] < 128 && c0.arr_172c@[mine0[i] as int] != 0);
        }
        assert forall|i: int, k: int| 0 <= i < k < n implies #[trigger] mine1[i] != #[trigger] mine1[k] by {
            assert(mine0[i] != mine0[k]);
        }
        assert forall|i: int, j: int| 0 <= i < n && 0 <= j < 6 implies #[trigger] mine1[i] != #[trigger] theirs[j] by {
            assert(mine0[i] != theirs[j]);
        }
    }
}

/// What the RECS menu does after a poll.
#[derive(Clone, Copy, Debug, PartialEq, Eq, Structural)]
pub enum RecsAction {
    Poll,
    Redraw,
    /// Toggle between a course from A to B and a circular one.
    ToggleRoute,
    /// Edit the course code.
    EditCode,
    /// Edit course value `ix` (8 is the difficulty).
    EditValue(usize),
    /// Select the next scenery.
    NextScenery,
    Exit,
}

/// The RECS menu item at `(row, col)`.
pub open spec fn recs_choice(row: u16, col: u16) -> RecsAction {
    if row == 0 && col == 0 {
        RecsAction::ToggleRoute
    } else if row == 0 && col == 2 {
        RecsAction::EditCode
    } else if row == 1 && col == 0 {
        RecsAction::EditValue(0)
    } else if row == 1 && col == 1 {
        RecsAction::EditValue(3)
    } else if row == 1 && col == 2 {
        RecsAction::EditValue(5)
    } else if row == 2 && col == 0 {
        RecsAction::EditValue(1)
    } else if row == 2 && col == 1 {
        RecsAction::EditValue(4)
    } else if row == 2 && col == 2 {
        RecsAction::EditValue(6)
    } else if row == 3 && col == 0 {
        RecsAction::EditValue(2)
    } else if row == 3 && col == 1 {
        RecsAction::EditValue(8)
    } else if row == 3 && col == 2 {
        RecsAction::EditValue(7)
    } else if row == 4 {
        RecsAction::NextScenery
    } else {
        RecsAction::Exit
    }
}

/// 4231: the RECS menu item at `(row, col)` (see [`recs_choice`]).
pub fn dispatch_recs_menu_item(row: u16, col: u16) -> (a: RecsAction)
    ensures
        a == recs_choice(row, col),
{
    if row == 0 && col == 0 {
        RecsAction::ToggleRoute
    } else if row == 0 && col == 2 {
        RecsAction::EditCode
    } else if row == 1 && col == 0 {
        RecsAction::EditValue(0)
    } else if row == 1 && col == 1 {
        RecsAction::EditValue(3)
    } else if row == 1 && col == 2 {
        RecsAction::EditValue(5)
    } else if row == 2 && col == 0 {
        RecsAction::EditValue(1)
    } else if row == 2 && col == 1 {
        RecsAction::EditValue(4)
    } else if row == 2 && col == 2 {
        RecsAction::EditValue(6)
    } else if row == 3 && col == 0 {
        RecsAction::EditValue(2)
    } else if row == 3 && col == 1 {
        RecsAction::EditValue(8)
    } else if row == 3 && col == 2 {
        RecsAction::EditValue(7)
    } else if row == 4 {
        RecsAction::NextScenery
    } else {
        RecsAction::Exit
    }
}

/// 4135 (one poll): moves the RECS menu's selection `(col, row)` by the mouse or the
/// input bits, or names the selected item.
pub fn recs_menu_step(col: &mut u16, row: &mut u16, al: u8, mouse: Option<(u16, u16)>) -> (a: RecsAction)
    ensures
        ({
            let (c, r) = match mouse {
                Some((x, y)) => ((x / 214) as u16, (y / 40) as u16),
                None => (*old(col), *old(row)),
            };
            if (c, r) != (*old(col), *old(row)) {
                *final(col) == c && *final(row) == r && a == RecsAction::Redraw
            } else if al & 1 != 0 {
                *final(col) == (if c > 0 { c - 1 } else { 0 }) && *final(row) == r && a == RecsAction::Redraw
            } else if al & 2 != 0 {
                *final(col) == (if c < 2 { c + 1 } else { c as int }) && *final(row) == r && a == RecsAction::Redraw
            } else if al & 8 != 0 {
                *final(col) == c && *final(row) == (if r > 0 { r - 1 } else { 0 }) && a == RecsAction::Redraw
            } else if al & 4 != 0 {
                *final(col) == c && *final(row) == (if r < 4 { r + 1 } else { r as int }) && a == RecsAction::Redraw
            } else if al & 0x30 == 0 {
                *final(col) == c && *final(row) == r && a == RecsAction::Poll
            } else {
                *final(col) == c && *final(row) == r && a == recs_choice(r, c)
            }
        }),
{
    if let Some((x, y)) = mouse {
        let (pc, pr) = (*col, *row);
        *col = x / 214;
        *row = y / 40;
        if pc != *col || pr != *row {
            return RecsAction::Redraw;
        }
    }
    if al & 1 != 0 {
        *col = if *col > 0 {
            *col - 1
        } else {
            0
        };
        return RecsAction::Redraw;
    }
    if al & 2 != 0 {
        if *col < 2 {
            *col = *col + 1;
        }
        return RecsAction::Redraw;
    }
    if al & 8 != 0 {
        *row = if *row > 0 {
            *row - 1
        } else {
            0
        };
        return RecsAction::Redraw;
    }
    if al & 4 != 0 {
        if *row < 4 {
            *row = *row + 1;
        }
        return RecsAction::Redraw;
    }
    if al & 0x30 == 0 {
        return RecsAction::Poll;
    }
    dispatch_recs_menu_item(*row, *col)
}

/// The route number (course value 0, where 13 is skipped) as the menu counts it.
pub open spec fn route_of(v: u16) -> int {
    let al = v % 256;
    if al >= 13 {
        al - 1
    } else {
        al as int
    }
}

/// The course value of route number `al`, skipping 13.
pub open spec fn value_of_route(al: int) -> u16 {
    if al >= 13 {
        ((al + 1) % 256) as u16
    } else {
        al as u16
    }
}

/// 4339: toggles the route between from A to B and circular (its lowest bit).
pub fn sub_4339(v: u16) -> (r: u16)
    ensures
        r == value_of_route(((route_of(v) as u8) ^ 1u8) as int),
{
    let mut al = (v % 256) as u8;
    if al >= 13 {
        al = al - 1;
    }
    al = al ^ 1;
    if al >= 13 {
        al = al.wrapping_add(1);
    }
    al as u16
}

/// 434E: selects the next scenery: the route number goes up by two, wrapping at 26.
pub fn sub_434e(v: u16) -> (r: u16)
    ensures
        ({
            let a = (route_of(v) + 2) % 256;
            let b = if a >= 26 { a - 26 } else { a };
            r == value_of_route(b)
        }),
{
    let mut al = (v % 256) as u8;
    if al >= 13 {
        al = al - 1;
    }
    al = al.wrapping_add(2);
    if al >= 0x1A {
        al = al - 0x1A;
    }
    if al >= 13 {
        al = al + 1;
    }
    al as u16
}

/// 4255 (one change): course value `value` of item `ix` after the input bits `bl`: one
/// down, one up (up to 99 for the difficulty, item 8, and 26 otherwise), to the top or
/// to zero.
pub fn recs_adjust(ix: usize, value: u16, bl: u8) -> (r: u16)
    ensures
        ({
            let max: u16 = if ix == 8 { 99 } else { 26 };
            if bl & 1 != 0 {
                r == (if value == 0 { 0 } else { value - 1 })
            } else if bl & 2 != 0 {
                r == (if value >= max { value as int } else { value + 1 })
            } else if bl & 8 != 0 {
                r == max
            } else if bl & 4 != 0 {
                r == 0
            } else {
                r == value
            }
        }),
{
    let max: u16 = if ix == 8 {
        99
    } else {
        26
    };
    if bl & 1 != 0 {
        if value == 0 {
            value
        } else {
            value - 1
        }
    } else if bl & 2 != 0 {
        if value >= max {
            value
        } else {
            value + 1
        }
    } else if bl & 8 != 0 {
        max
    } else if bl & 4 != 0 {
        0
    } else {
        value
    }
}

/// What the car selection does after a poll.
#[derive(Clone, Copy, Debug, PartialEq, Eq, Structural)]
pub enum CarAction {
    Poll,
    /// Another car was chosen: show it.
    Changed,
    /// The shown car was taken.
    Selected,
}

/// 467F (one poll): changes the car by the mouse (arrows at the top left and right, the
/// car in the middle) or the input bits, or takes it.
pub fn pick_a_car_step(car: &mut Model, al: u8, mouse: Option<(u16, u16)>) -> (a: CarAction)
    ensures
        match mouse {
            Some((x, y)) => if y < 36 && x < 80 {
                *final(car) == old(car).pred() && a == CarAction::Changed
            } else if y < 36 && x > 560 {
                *final(car) == old(car).succ() && a == CarAction::Changed
            } else if 80 <= x < 560 && 26 <= y < 86 {
                *final(car) == *old(car) && a == CarAction::Selected
            } else {
                *final(car) == *old(car) && a == CarAction::Poll
            },
            None => if al & 2 != 0 {
                *final(car) == old(car).succ() && a == CarAction::Changed
            } else if al & 1 != 0 {
                *final(car) == old(car).pred() && a == CarAction::Changed
            } else if al & 0x30 != 0 {
                *final(car) == *old(car) && a == CarAction::Selected
            } else {
                *final(car) == *old(car) && a == CarAction::Poll
            },
        },
{
    if let Some((x, y)) = mouse {
        if y < 36 {
            if x < 80 {
                *car = car.prev();
                return CarAction::Changed;
            }
            if x > 560 {
                *car = car.next();
                return CarAction::Changed;
            }
        }
        if x >= 80 && x - 80 < 480 && y >= 26 && y - 26 < 60 {
            return CarAction::Selected;
        }
        return CarAction::Poll;
    }
    if al & 2 != 0 {
        *car = car.next();
        return CarAction::Changed;
    }
    if al & 1 != 0 {
        *car = car.prev();
        return CarAction::Changed;
    }
    if al & 0x30 != 0 {
        return CarAction::Selected;
    }
    CarAction::Poll
}

/// How a text field is edited: its shown length, the first and the last position that
/// may be typed at, and which keys count (1: digits, 2: letters and space; 4: the
/// cursor cycles through a field of fixed length instead of growing and shrinking).
#[derive(Clone, Copy, Debug, PartialEq, Eq, Structural)]
pub struct InputField {
    pub len: u16,
    pub start: u16,
    pub end: u16,
    pub flags: u8,
}

/// The cursor after the last non-space character between `start` and `c`.
pub open spec fn trim_cursor(input: Seq<u8>, start: int, c: int) -> int
    decreases c - start,
{
    if c > start && input[c - 1] == 32 {
        trim_cursor(input, start, c - 1)
    } else {
        c
    }
}

/// 454C (start): where the cursor starts: at the first position of a cycling field, and
/// after the last non-space character of a growing one.
pub fn input_start_cursor(input: &[u8], f: &InputField) -> (c: u16)
    requires
        f.start <= f.end < 0xFFFF,
        f.end < input.len(),
    ensures
        f.flags & 4 != 0 ==> c == f.start,
        f.flags & 4 == 0 ==> c == trim_cursor(input@, f.start as int, f.end + 1),
{
    if f.flags & 4 != 0 {
        return f.start;
    }
    let mut c = f.end + 1;
    while c > f.start && input[(c - 1) as usize] == 32
        invariant
            f.start <= c <= f.end + 1,
            f.end < input.len(),
            trim_cursor(input@, f.start as int, f.end + 1) == trim_cursor(input@, f.start as int, c as int),
        decreases c,
    {
        c = c - 1;
    }
    c
}

/// Whether `c` is a key that a text field takes: space, a capital letter or a digit.
pub open spec fn typable(c: u8) -> bool {
    c == 32 || (65 <= c <= 90) || (48 <= c <= 57)
}

/// Whether `c` ends editing: an arrow key or Enter.
pub open spec fn ends_input(c: u8) -> bool {
    c == KBD_LEFT || c == KBD_RIGHT || c == KBD_UP || c == KBD_DOWN || c == KBD_ENTER
}

/// 454C (one key): edits the field with key `key` (0 when no key is waiting). Returns the
/// key when it ends editing. Backspace clears the character before the cursor of a
/// growing field; a key that the field takes is written at the cursor, which moves on
/// (a cycling field starts again at its first position after its last).
pub fn input_key(input: &mut [u8], f: &InputField, cursor: &mut u16, key: u8) -> (r: Option<u8>)
    requires
        f.start <= f.end < 0xFFFF,
        f.end < old(input)@.len(),
        f.start <= *old(cursor) <= f.end + 1,
        f.flags & 4 != 0 ==> *old(cursor) <= f.end,
    ensures
        f.start <= *final(cursor) <= f.end + 1,
        f.flags & 4 != 0 ==> *final(cursor) <= f.end,
        ends_input(key) ==> r == Some(key) && final(input)@ == old(input)@ && *final(cursor) == *old(cursor),
        !ends_input(key) ==> r is None,
        key == 8 && !ends_input(key) ==> if f.flags & 4 == 0 && *old(cursor) > f.start {
            *final(cursor) == *old(cursor) - 1 && final(input)@ == old(input)@.update(*old(cursor) - 1, 32u8)
        } else {
            *final(cursor) == *old(cursor) && final(input)@ == old(input)@
        },
        typable(key) ==> ({
            let mask: u8 = if 48 <= key <= 57 { 1 } else { 2 };
            if f.flags & mask == 0 || (f.flags & 4 == 0 && *old(cursor) > f.end) {
                *final(cursor) == *old(cursor) && final(input)@ == old(input)@
            } else {
                &&& final(input)@ == old(input)@.update(*old(cursor) as int, key)
                &&& *final(cursor) == (if f.flags & 4 != 0 && *old(cursor) + 1 > f.end {
                    f.start as int
                } else {
                    *old(cursor) + 1
                })
            }
        }),
        key != 8 && !typable(key) && !ends_input(key) ==> *final(cursor) == *old(cursor) && final(input)@
            == old(input)@,
{
    if key == KBD_LEFT || key == KBD_RIGHT || key == KBD_UP || key == KBD_DOWN || key == KBD_ENTER {
        return Some(key);
    }
    if key == 8 {
        if f.flags & 4 != 0 || *cursor <= f.start {
            return None;
        }
        *cursor = *cursor - 1;
        input[*cursor as usize] = 32;
        return None;
    }
    if key == 32 || (65 <= key && key <= 90) || (48 <= key && key <= 57) {
        let mask: u8 = if 48 <= key && key <= 57 {
            1
        } else {
            2
        };
        if f.flags & mask == 0 {
            return None;
        }
        if f.flags & 4 == 0 {
            if *cursor > f.end {
                return None;
            }
            input[*cursor as usize] = key;
            *cursor = *cursor + 1;
        } else {
            input[*cursor as usize] = key;
            *cursor = *cursor + 1;
            if *cursor > f.end {
                *cursor = f.start;
            }
        }
    }
    None
}

/// 4637 (the cursor): where the cursor mark is drawn for a field at `pos`: seven pixels
/// per character, at most at the field's last shown character, nine pixels lower.
pub fn input_cursor_pos(pos: crate::sprite::Point, f: &InputField, cursor: u16) -> (r: crate::sprite::Point)
    requires
        f.len >= 1,
        pos.x + 7 * f.len <= usize::MAX,
        pos.y + 9 <= usize::MAX,
    ensures
        r.x == pos.x + 7 * (if cursor < f.len - 1 { cursor as int } else { f.len - 1 }),
        r.y == pos.y + 9,
{
    let c = if cursor < f.len - 1 {
        cursor
    } else {
        f.len - 1
    };
    crate::sprite::Point::xy(pos.x + (c as usize) * 7, pos.y + 9)
}

/// What the course value editor does with a poll.
#[derive(Clone, Copy, Debug, PartialEq, Eq, Structural)]
pub enum RecsKey {
    /// No fire bit: editing ends and the menu goes on.
    Leave,
    /// The same bits are still held and it is not yet time to repeat.
    Wait,
    /// Change the value by these bits.
    Act(u8),
}

/// 4255 (one poll): the bits of the poll, from the menu controls `bits` or, where the
/// mouse drives the menu, its buttons `mouse` with a fire bit. Without a fire bit editing
/// ends; new bits act at once (and the timer `ticks` starts again); held bits act again
/// every sixteen ticks once 128 ticks have passed. `held` keeps the bits.
pub fn recs_key_step(held: &mut u16, ticks: &mut u16, bits: u8, mouse: Option<u16>) -> (k: RecsKey)
    ensures
        ({
            let bl: u8 = match mouse {
                Some(b) => ((b % 256) as u8) | 0x10,
                None => bits,
            };
            if bl & 0x30 == 0 {
                k == RecsKey::Leave && *final(held) == *old(held) && *final(ticks) == *old(ticks)
            } else if *old(held) != bl {
                k == RecsKey::Act(bl) && *final(held) == bl && *final(ticks) == 0
            } else {
                &&& *final(held) == bl
                &&& *final(ticks) == *old(ticks)
                &&& k == (if *old(ticks) >= 0x80 && *old(ticks) % 16 == 0 { RecsKey::Act(bl) } else { RecsKey::Wait })
            }
        }),
{
    let bl: u8 = match mouse {
        Some(b) => ((b % 256) as u8) | 0x10,
        None => bits,
    };
    if bl & 0x30 == 0 {
        return RecsKey::Leave;
    }
    let prev = *held;
    *held = bl as u16;
    if prev != bl as u16 {
        *ticks = 0;
        return RecsKey::Act(bl);
    }
    assert(*ticks & 0x0F == *ticks % 16) by (bit_vector);
    if *ticks >= 0x80 && *ticks & 0x0F == 0 {
        RecsKey::Act(bl)
    } else {
        RecsKey::Wait
    }
}

/// The players' name fields: twelve characters, letters, digits and spaces.
pub fn name_field() -> (f: InputField)
    ensures
        f == (InputField { len: 12, start: 0, end: 11, flags: 3 }),
{
    InputField { len: 12, start: 0, end: 11, flags: 3 }
}

/// The letters of a course code: the first nine characters.
pub fn code_letters_field() -> (f: InputField)
    ensures
        f == (InputField { len: 12, start: 0, end: 8, flags: 2 }),
{
    InputField { len: 12, start: 0, end: 8, flags: 2 }
}

/// The difficulty of a course code: its last two characters, digits, cycling.
pub fn code_digits_field() -> (f: InputField)
    ensures
        f == (InputField { len: 12, start: 10, end: 11, flags: 5 }),
{
    InputField { len: 12, start: 10, end: 11, flags: 5 }
}

/// The answer to the copy protection question: three characters.
pub fn protection_field() -> (f: InputField)
    ensures
        f == (InputField { len: 3, start: 0, end: 2, flags: 3 }),
{
    InputField { len: 3, start: 0, end: 2, flags: 3 }
}

/// Which part of a course code is edited next.
#[derive(Clone, Copy, Debug, PartialEq, Eq, Structural)]
pub enum CodeEdit {
    /// Editing ends with this key.
    Done(u8),
    /// Edit the letters (see [`code_letters_field`]).
    Letters,
    /// Edit the difficulty (see [`code_digits_field`]).
    Digits,
}

/// 3A66: after a part of a course code was edited (the digits where `in_digits`) and
/// editing ended with key `chr` at cursor `cursor`: the left and right arrows move
/// between the two parts (from the letters only once a letter was typed); any other
/// key ends editing.
pub fn code_edit_next(in_digits: bool, chr: u8, cursor: u16) -> (r: CodeEdit)
    ensures
        chr != KBD_LEFT && chr != KBD_RIGHT ==> r == CodeEdit::Done(chr),
        (chr == KBD_LEFT || chr == KBD_RIGHT) ==> r == (if in_digits || cursor == 0 {
            CodeEdit::Letters
        } else {
            CodeEdit::Digits
        }),
{
    if chr != KBD_LEFT && chr != KBD_RIGHT {
        return CodeEdit::Done(chr);
    }
    if in_digits || cursor == 0 {
        CodeEdit::Letters
    } else {
        CodeEdit::Digits
    }
}

/// 3A44: the game code is edited until it does not start with a space.
pub fn code_entered(code: &[u8; 12]) -> (r: bool)
    ensures
        r == (code@[0] != 32),
{
    code[0] != 32
}

} // verus!

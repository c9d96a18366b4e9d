//! Reading and calibrating the joysticks: what one sample of the game port adds to the
//! counts, what a finished reading leaves in the configuration, and what the
//! calibration screen decides on each poll.
//!
//! Game port bits: 0 to 3 the four axes (set while the axis' timer runs), 4 and 5 the
//! buttons of the first joystick, 6 and 7 those of the second (clear while pressed).

use vstd::prelude::*;

use crate::config::{Config, JoyState, Player};

verus! {

/// The counts after one more sample `al` of the game port: each of the four axis
/// counters (horizontal and vertical of the first joystick, then of the second) goes up
/// while its bit is set (16-bit arithmetic).
pub open spec fn counted(counts: [u16; 4], al: u8) -> [u16; 4] {
    [
        ((counts[0] + (al & 1)) % 65536) as u16,
        ((counts[1] + ((al >> 1u8) & 1)) % 65536) as u16,
        ((counts[2] + ((al >> 2u8) & 1)) % 65536) as u16,
        ((counts[3] + ((al >> 3u8) & 1)) % 65536) as u16,
    ]
}

/// D9EB (one sample): adds the axis bits of the sample `al` to the counts.
pub fn joy_count(counts: &mut [u16; 4], al: u8)
    ensures
        *final(counts) == counted(*old(counts), al),
{
    let b0: u16 = (al & 1) as u16;
    let b1: u16 = ((al >> 1u8) & 1) as u16;
    let b2: u16 = ((al >> 2u8) & 1) as u16;
    let b3: u16 = ((al >> 3u8) & 1) as u16;
    counts[0] = counts[0].wrapping_add(b0);
    counts[1] = counts[1].wrapping_add(b1);
    counts[2] = counts[2].wrapping_add(b2);
    counts[3] = counts[3].wrapping_add(b3);
}

/// D9EB (the loop): after `n` samples, the last of them `al`, whether to take another.
/// The first is always taken; then the reading ends once a sample equals the read mask
/// `mask` (every axis timer has run out), or once the read timeout has passed (see
/// [`joy_read_limit`]).
pub fn joy_read_more(cfg: &Config, mask: u8, n: u32, al: u8) -> (more: bool)
    ensures
        more == (n == 0 || (al != mask && n <= joy_read_limit(*cfg))),
{
    if n == 0 {
        return true;
    }
    let limit: u32 = if cfg.word_16fa > 0x1000 {
        cfg.word_16fa as u32
    } else {
        0x1000
    };
    al != mask && n <= limit
}

/// The number of samples that a reading takes at most, less one: the read timeout, at
/// least 0x1000.
pub open spec fn joy_read_limit(cfg: Config) -> int {
    if cfg.word_16fa > 0x1000 {
        cfg.word_16fa as int
    } else {
        0x1000
    }
}

/// The button bits of a joystick from the last sample `al`: bit 0 for its second
/// button, bit 1 for its first (`high` for the second joystick of the port).
pub open spec fn joy_buttons(al: u8, high: bool) -> u8 {
    let (first, second) = if high {
        (al & 0x40, al & 0x80)
    } else {
        (al & 0x10, al & 0x20)
    };
    (if second == 0 { 1u8 } else { 0u8 }) | (if first == 0 { 2u8 } else { 0u8 })
}

/// A joystick after a reading: the buttons of the sample, and each axis the mean of its
/// last value and the new count (16-bit arithmetic).
pub open spec fn joy_read(j: JoyState, al: u8, high: bool, h: u16, v: u16) -> JoyState {
    JoyState {
        byte1: joy_buttons(al, high),
        word2: (((j.word2 + h) % 65536) / 2) as u16,
        word4: (((j.word4 + v) % 65536) / 2) as u16,
        ..j
    }
}

/// The axis mask after a reading: the axes of a joystick whose horizontal count reached
/// 0x1000 (no joystick there) are no longer waited for.
pub open spec fn joy_mask_after(mask: u8, counts: [u16; 4]) -> u8 {
    let m1 = if counts[0] >= 0x1000 { mask & 0xFC } else { mask };
    if counts[2] >= 0x1000 { m1 & 0xF3 } else { m1 }
}

/// The 16-bit sum of two values, halved.
fn half_sum(a: u16, b: u16) -> (r: u16)
    ensures
        r == ((a + b) % 65536) / 2,
{
    let s = a.wrapping_add(b);
    assert(s >> 1u16 == s / 2) by (bit_vector);
    s >> 1u16
}

/// D9EB (end of a reading): with the last sample `al` and the counts of the four axes,
/// drops the missing joysticks from `mask` and stores buttons and positions of both
/// joysticks (the two swapped where the configuration says so).
pub fn sub_d9eb_finish(cfg: &mut Config, mask: &mut u8, al: u8, counts: [u16; 4])
    ensures
        *final(mask) == joy_mask_after(*old(mask), counts),
        old(cfg).word_16fc == 0 ==> final(cfg).p1_joy == joy_read(old(cfg).p1_joy, al, false, counts[0], counts[1])
            && final(cfg).p2_joy == joy_read(old(cfg).p2_joy, al, true, counts[2], counts[3]),
        old(cfg).word_16fc != 0 ==> final(cfg).p1_joy == joy_read(old(cfg).p1_joy, al, true, counts[2], counts[3])
            && final(cfg).p2_joy == joy_read(old(cfg).p2_joy, al, false, counts[0], counts[1]),
        *final(cfg) == (Config { p1_joy: final(cfg).p1_joy, p2_joy: final(cfg).p2_joy, ..*old(cfg) }),
{
    let mut bx = counts[0];
    let mut bp = counts[1];
    let mut si = counts[2];
    let mut di = counts[3];
    if bx >= 0x1000 {
        *mask = *mask & 0xFC;
    }
    if si >= 0x1000 {
        *mask = *mask & 0xF3;
    }
    let m: u8 = *mask;
    let w: u16 = ((m as u16) << 8u16) | (al as u16);
    let w2: u16 = w << 2u16;
    let lo: u8 = (w2 & 0xff) as u8;
    let hi: u8 = (w2 >> 8u16) as u8;
    let lo_r: u8 = (lo << 2u8) | (lo >> 6u8);
    let ax0: u16 = !(((hi as u16) << 8u16) | (lo_r as u16));
    let cx: u16 = (ax0 & 0x202) >> 1u16;
    let mut ax: u16 = ((ax0 & 0x101) << 1u16) | cx;
    assert((ax & 0xff) as u8 == joy_buttons(al, false) && (ax >> 8u16) as u8 == joy_buttons(al, true)) by (bit_vector)
        requires
            w == ((m as u16) << 8u16) | (al as u16),
            w2 == w << 2u16,
            lo == (w2 & 0xff) as u8,
            hi == (w2 >> 8u16) as u8,
            lo_r == (lo << 2u8) | (lo >> 6u8),
            ax0 == !(((hi as u16) << 8u16) | (lo_r as u16)),
            cx == (ax0 & 0x202) >> 1u16,
            ax == ((ax0 & 0x101) << 1u16) | cx,
    ;
    if cfg.word_16fc != 0 {
        let a1 = ax;
        ax = ((a1 & 0xff) << 8u16) | (a1 >> 8u16);
        assert((ax & 0xff) as u8 == joy_buttons(al, true) && (ax >> 8u16) as u8 == joy_buttons(al, false)) by (bit_vector)
            requires
                ax == ((a1 & 0xff) << 8u16) | (a1 >> 8u16),
                (a1 & 0xff) as u8 == joy_buttons(al, false),
                (a1 >> 8u16) as u8 == joy_buttons(al, true),
        ;
        let t = bx;
        bx = si;
        si = t;
        let t = bp;
        bp = di;
        di = t;
    }
    cfg.p1_joy.byte1 = (ax & 0xff) as u8;
    cfg.p2_joy.byte1 = (ax >> 8u16) as u8;
    cfg.p1_joy.word2 = half_sum(cfg.p1_joy.word2, bx);
    cfg.p1_joy.word4 = half_sum(cfg.p1_joy.word4, bp);
    cfg.p2_joy.word2 = half_sum(cfg.p2_joy.word2, si);
    cfg.p2_joy.word4 = half_sum(cfg.p2_joy.word4, di);
}

/// The midpoint of two readings, rounded toward `b`.
pub open spec fn joy_midpoint(a: u16, b: u16) -> u16 {
    if a >= b {
        (b + (a - b) / 2) as u16
    } else {
        (b - (b - a) / 2) as u16
    }
}

/// The midpoint of two readings (see [`joy_midpoint`]).
pub fn midpoint(a: u16, b: u16) -> (r: u16)
    ensures
        r == joy_midpoint(a, b),
        a <= r <= b || b <= r <= a,
{
    if a >= b {
        b + (a - b) / 2
    } else {
        b - (b - a) / 2
    }
}

/// A joystick calibrated from three readings: its thresholds halfway between each
/// corner and the centre, and marked as calibrated.
pub open spec fn calibrated(j: JoyState, top_left: (u16, u16), bottom_right: (u16, u16), centre: (u16, u16)) -> JoyState {
    JoyState {
        byte0: 0xFF,
        word6: joy_midpoint(top_left.0, centre.0),
        word10: joy_midpoint(top_left.1, centre.1),
        word8: joy_midpoint(bottom_right.0, centre.0),
        word12: joy_midpoint(bottom_right.1, centre.1),
        ..j
    }
}

fn calibrate(j: &mut JoyState, top_left: (u16, u16), bottom_right: (u16, u16), centre: (u16, u16))
    ensures
        *final(j) == calibrated(*old(j), top_left, bottom_right, centre),
{
    j.word6 = midpoint(top_left.0, centre.0);
    j.word10 = midpoint(top_left.1, centre.1);
    j.word8 = midpoint(bottom_right.0, centre.0);
    j.word12 = midpoint(bottom_right.1, centre.1);
    j.byte0 = 0xFF;
}

/// Calibrates the joystick of `player` from its top-left, bottom-right and centre
/// readings (see [`calibrated`]).
pub fn set_joystick_calibration(cfg: &mut Config, player: Player, top_left: (u16, u16), bottom_right: (u16, u16), centre: (u16, u16))
    ensures
        player == Player::One ==> *final(cfg) == (Config {
            p1_joy: calibrated(old(cfg).p1_joy, top_left, bottom_right, centre),
            ..*old(cfg)
        }),
        player == Player::Two ==> *final(cfg) == (Config {
            p2_joy: calibrated(old(cfg).p2_joy, top_left, bottom_right, centre),
            ..*old(cfg)
        }),
{
    match player {
        Player::One => calibrate(&mut cfg.p1_joy, top_left, bottom_right, centre),
        Player::Two => calibrate(&mut cfg.p2_joy, top_left, bottom_right, centre),
    }
}

/// 3F21 (end): after the three readings, calibrates the joystick and sets the read
/// timeout to the larger of the saved one and the bottom-right reading.
pub fn finish_joystick_calibration(
    cfg: &mut Config,
    player: Player,
    top_left: (u16, u16),
    bottom_right: (u16, u16),
    centre: (u16, u16),
    saved_timeout: u16,
)
    ensures
        ({
            let m = if bottom_right.0 >= bottom_right.1 { bottom_right.0 } else { bottom_right.1 };
            final(cfg).word_16fa == if saved_timeout >= m { saved_timeout } else { m }
        }),
        player == Player::One ==> *final(cfg) == (Config {
            p1_joy: calibrated(old(cfg).p1_joy, top_left, bottom_right, centre),
            word_16fa: final(cfg).word_16fa,
            ..*old(cfg)
        }),
        player == Player::Two ==> *final(cfg) == (Config {
            p2_joy: calibrated(old(cfg).p2_joy, top_left, bottom_right, centre),
            word_16fa: final(cfg).word_16fa,
            ..*old(cfg)
        }),
{
    set_joystick_calibration(cfg, player, top_left, bottom_right, centre);
    let m = if bottom_right.0 >= bottom_right.1 {
        bottom_right.0
    } else {
        bottom_right.1
    };
    cfg.word_16fa = if saved_timeout >= m {
        saved_timeout
    } else {
        m
    };
}

/// 3FF6: where Esc is down (bit 0 of its key state), the calibration is cancelled: the
/// key is marked as handled (0x80), the read timeout restored, and player 1 goes back to
/// the keyboard; the settings menu then starts again. Returns whether it was cancelled.
pub fn sub_3ff6(keys: &mut [u8; 128], cfg: &mut Config, player: Player, saved_timeout: u16) -> (cancelled: bool)
    ensures
        cancelled == (old(keys)[1] & 1 != 0),
        !cancelled ==> *final(keys) == *old(keys) && *final(cfg) == *old(cfg),
        cancelled ==> {
            &&& final(keys)@ == old(keys)@.update(1, 0x80)
            &&& *final(cfg) == (Config {
                word_16fa: saved_timeout,
                word_16ff: if player == Player::One { 0 } else { old(cfg).word_16ff },
                ..*old(cfg)
            })
        },
{
    if keys[1] & 1 == 0 {
        return false;
    }
    keys[1] = 0x80;
    cfg.word_16fa = saved_timeout;
    if player == Player::One {
        cfg.word_16ff = 0;
    }
    true
}

/// The button bits and the position of a player's joystick.
pub open spec fn joy_of(cfg: Config, player: Player) -> JoyState {
    if player == Player::One {
        cfg.p1_joy
    } else {
        cfg.p2_joy
    }
}

/// 3FAF (one poll, after the Esc check): first waits until no joystick button is down
/// (`released` turns true); then returns the position of `player`'s joystick once its
/// button is down, or that of the other joystick once the other's button is down, in
/// which case the two joysticks are swapped in the configuration.
pub fn sub_3faf_step(cfg: &mut Config, player: Player, released: &mut bool) -> (r: Option<(u16, u16)>)
    ensures
        !*old(released) ==> r is None && *final(cfg) == *old(cfg)
            && *final(released) == (old(cfg).p1_joy.byte1 == 0 && old(cfg).p2_joy.byte1 == 0),
        *old(released) ==> *final(released),
        *old(released) ==> ({
            let other = if player == Player::One { Player::Two } else { Player::One };
            let mine = joy_of(*old(cfg), player);
            let theirs = joy_of(*old(cfg), other);
            if mine.byte1 != 0 {
                r == Some((mine.word2, mine.word4)) && *final(cfg) == *old(cfg)
            } else if theirs.byte1 != 0 {
                r == Some((theirs.word2, theirs.word4))
                    && *final(cfg) == (Config { word_16fc: !old(cfg).word_16fc, ..*old(cfg) })
            } else {
                r is None && *final(cfg) == *old(cfg)
            }
        }),
{
    if !*released {
        if cfg.p1_joy.byte1 == 0 && cfg.p2_joy.byte1 == 0 {
            *released = true;
        }
        return None;
    }
    let (mine, theirs) = match player {
        Player::One => (cfg.p1_joy, cfg.p2_joy),
        Player::Two => (cfg.p2_joy, cfg.p1_joy),
    };
    if mine.byte1 != 0 {
        return Some((mine.word2, mine.word4));
    }
    if theirs.byte1 != 0 {
        cfg.word_16fc = !cfg.word_16fc;
        return Some((theirs.word2, theirs.word4));
    }
    None
}

} // verus!

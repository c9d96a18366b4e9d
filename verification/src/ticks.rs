//! What the interrupt handlers decide: the keyboard handler's key state, the timer
//! handler's counters and which hardware work a tick needs, and the replay of a demo's
//! recorded input.

use vstd::prelude::*;

use crate::config::Config;

verus! {

/// Scan code of the left Ctrl key.
pub const SCAN_CTRL: u8 = 0x1D;

/// Scan code of the left Shift key.
pub const SCAN_SHIFT: u8 = 0x2A;

/// Scan code of the keypad `*` (Print Screen).
pub const SCAN_ASTERISK: u8 = 0x37;

/// The keyboard state that the handler keeps.
pub struct KbdState {
    /// Whether the last key was pressed (rather than released).
    pub pressed: bool,
    /// Scan code of the last key.
    pub last: u8,
    /// Per scan code: 1 while the key is down.
    pub keys: [u8; 128],
}

/// D445: a scan code from the keyboard. Except the extended-code prefix and Shift, it
/// records whether the key was pressed, its code, and its state. Returns whether the
/// handler acknowledges the key itself (Ctrl, keypad `*` and code 0x7F) rather than
/// handing it to the BIOS.
pub fn kbd_scan(kbd: &mut KbdState, scan: u8) -> (own: bool)
    ensures
        ({
            let bl = scan % 128;
            &&& own == (bl == SCAN_ASTERISK || bl == SCAN_CTRL || bl == 0x7F)
            &&& (bl == 0x60 || bl == SCAN_SHIFT) ==> *final(kbd) == *old(kbd)
            &&& !(bl == 0x60 || bl == SCAN_SHIFT) ==> {
                &&& final(kbd).pressed == (scan < 0x80)
                &&& final(kbd).last == bl
                &&& final(kbd).keys@ == old(kbd).keys@.update(bl as int, if scan < 0x80 { 1u8 } else { 0u8 })
            }
        }),
{
    let bl = scan & 0x7F;
    assert(scan & 0x7F == scan % 128) by (bit_vector);
    if !(bl == 0x60 || bl == SCAN_SHIFT) {
        kbd.pressed = scan < 0x80;
        kbd.last = bl;
        let v: u8 = if kbd.pressed {
            1
        } else {
            0
        };
        if v != kbd.keys[bl as usize] {
            kbd.keys[bl as usize] = v;
        }
        assert(kbd.keys@ =~= old(kbd).keys@.update(bl as int, v));
    }
    bl == SCAN_ASTERISK || bl == SCAN_CTRL || bl == 0x7F
}

/// The timer handler's counters.
pub struct TickState {
    /// Which of four ticks this is (0 to 3).
    pub phase: u8,
    /// What is left before the BIOS clock's next tick.
    pub bios_left: u16,
    /// The countdown of the game's task switch.
    pub countdown: i8,
    /// Ticks since the program started.
    pub clock: u16,
    /// Ticks since the last reset (the menus' and the intro's timing).
    pub ticks: u16,
}

/// What a timer tick needs done besides the counters.
#[derive(Clone, Copy, Debug, PartialEq, Eq, Structural)]
pub struct TickWork {
    /// Program the timer anew after the display's retrace.
    pub reprogram: bool,
    /// Hand the tick to the BIOS clock (else acknowledge it directly).
    pub chain_bios: bool,
    /// Take a step of the palette fade.
    pub fade: bool,
}

/// The counters and the work of a timer tick (see [`timer_tick`]).
pub open spec fn tick_spec(st: TickState, step: u16, period: u16) -> (TickState, TickWork) {
    let p = (st.phase + 1) % 256;
    let phase = if p >= 4 { 0u8 } else { p as u8 };
    let chain = st.bios_left < step / 4;
    let bios_left = if chain { ((st.bios_left + period) % 65536) as u16 } else { (st.bios_left - step / 4) as u16 };
    let c1 = st.countdown - 1;
    let c1 = if c1 < -128 { c1 + 256 } else { c1 };
    let countdown = if c1 >= 0 {
        let c2 = c1 + 6;
        let c2 = if c2 > 127 { c2 - 256 } else { c2 };
        if c2 < 0 { 0 } else { c2 }
    } else {
        c1
    };
    (
        TickState {
            phase,
            bios_left,
            countdown: countdown as i8,
            clock: ((st.clock + 1) % 65536) as u16,
            ticks: ((st.ticks + 1) % 65536) as u16,
        },
        TickWork { reprogram: p >= 4, chain_bios: chain, fade: phase == 0 },
    )
}

/// D508: a timer tick with the timer's calibrated step `step` and the BIOS clock's
/// period `period`: every fourth tick the timer is programmed anew and the palette fade
/// takes a step; the BIOS clock gets a tick whenever the steps add up to its period;
/// the counters go on (8- and 16-bit arithmetic).
pub fn timer_tick(st: &mut TickState, step: u16, period: u16) -> (w: TickWork)
    ensures
        (*final(st), w) == tick_spec(*old(st), step, period),
{
    st.phase = st.phase.wrapping_add(1);
    let reprogram = st.phase >= 4;
    if reprogram {
        st.phase = 0;
    }
    let chain = st.bios_left < step / 4;
    if chain {
        st.bios_left = st.bios_left.wrapping_add(period);
    } else {
        st.bios_left = st.bios_left - step / 4;
    }
    st.countdown = st.countdown.wrapping_sub(1);
    if st.countdown >= 0 {
        st.countdown = st.countdown.wrapping_add(6);
        if st.countdown < 0 {
            st.countdown = 0;
        }
    }
    st.clock = st.clock.wrapping_add(1);
    st.ticks = st.ticks.wrapping_add(1);
    TickWork { reprogram, chain_bios: chain, fade: st.phase == 0 }
}

/// D92B (where to read): the offset of the next word of the demo's recorded input; the
/// first is at 916.
pub fn demo_offset(pos: u16) -> (r: u16)
    ensures
        r == (if pos != 0 { pos } else { 916 }),
{
    if pos != 0 {
        pos
    } else {
        916
    }
}

/// D92B (the word read): a recorded word `word` at offset `at` (see [`demo_offset`]) gives
/// both players' input bits, low byte to player 1, and the next offset is two further;
/// the end mark 0xFFFF ends the demo (returns `false`) and changes nothing.
pub fn demo_input(cfg: &mut Config, pos: &mut u16, at: u16, word: u16) -> (playing: bool)
    ensures
        playing == (word != 0xFFFF),
        !playing ==> *final(cfg) == *old(cfg) && *final(pos) == *old(pos),
        playing ==> {
            &&& *final(pos) == ((at + 2) % 65536) as u16
            &&& *final(cfg) == (Config { byte_16fe: (word % 256) as u8, byte_1715: (word / 256) as u8, ..*old(cfg) })
        },
{
    if word == 0xFFFF {
        return false;
    }
    *pos = at.wrapping_add(2);
    cfg.byte_16fe = (word % 256) as u8;
    cfg.byte_1715 = (word / 256) as u8;
    true
}

} // verus!

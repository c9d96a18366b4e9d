//! Input handling: keys from the keyboard handler, the players' control bits from the
//! keyboard, the joystick or the mouse, and the edges of the menu controls.
//!
//! Control bits of a player: 1 left, 2 right, 4 down, 8 up, 0x10 and 0x20 fire (as
//! the devices report them; [`sub_d989`] swaps up and down for the game).

use vstd::prelude::*;

use crate::config::{Config, JoyState};

verus! {

/// `c` in upper case when it is a lower-case ASCII letter.
pub open spec fn upper(c: u8) -> u8 {
    if 97 <= c <= 122 {
        (c - 32) as u8
    } else {
        c
    }
}

/// The character that the key word `w` of the keyboard handler stands for: its ASCII
/// code, or for a key without one its scan code with the high bit set; 0 when no key is
/// waiting.
pub open spec fn key_char(w: u16) -> u8 {
    let al = (w % 256) as u8;
    let ah = (w / 256) as u8;
    if w == 0 {
        0
    } else if al == 0 {
        ah | 0x80
    } else {
        upper(al)
    }
}

/// D421: takes the waiting key from `pending` (the keyboard handler's last key word) and
/// returns its character in upper case (see [`key_char`]).
pub fn sub_d421(pending: &mut u16) -> (r: u8)
    ensures
        r == key_char(*old(pending)),
        *final(pending) == 0,
{
    let w = *pending;
    if w == 0 {
        return 0;
    }
    let lo = (w % 256) as u8;
    let hi = (w / 256) as u8;
    let al = if lo == 0 {
        hi | 0x80
    } else {
        lo
    };
    *pending = 0;
    if lo != 0 && 97 <= al && al <= 122 {
        al - 32
    } else {
        al
    }
}

/// Swaps bits 2 and 3 of the input byte.
pub fn sub_d989(al: u8) -> (r: u8)
    ensures
        r == (al & 0xF3) | ((al & 8) >> 1u8) | ((al & 4) << 1u8),
        r & 4 == (al & 8) >> 1u8,
        r & 8 == (al & 4) << 1u8,
        r & 0xF3 == al & 0xF3,
{
    let bit3 = al & 8;
    let bit2 = al & 4;
    let r = al & 0b1111_0011 | ((bit3 >> 1) | (bit2 << 1));
    assert(r == (al & 0xF3) | ((al & 8) >> 1u8) | ((al & 4) << 1u8)) by (bit_vector)
        requires
            r == al & 0xF3 | (((al & 8) >> 1u8) | ((al & 4) << 1u8)),
    ;
    assert(r & 4 == (al & 8) >> 1u8 && r & 8 == (al & 4) << 1u8 && r & 0xF3 == al & 0xF3) by (bit_vector)
        requires
            r == (al & 0xF3) | ((al & 8) >> 1u8) | ((al & 4) << 1u8),
    ;
    r
}

/// Swapping bits 2 and 3 twice gives the byte back.
pub proof fn lemma_swap_bits_twice(al: u8)
    ensures
        ({
            let r = (al & 0xF3) | ((al & 8) >> 1u8) | ((al & 4) << 1u8);
            (r & 0xF3) | ((r & 8) >> 1u8) | ((r & 4) << 1u8) == al
        }),
{
    assert(({
        let r = (al & 0xF3) | ((al & 8) >> 1u8) | ((al & 4) << 1u8);
        (r & 0xF3) | ((r & 8) >> 1u8) | ((r & 4) << 1u8) == al
    })) by (bit_vector);
}

/// The joystick's direction bits: left, right, up, down, from its last reading and
/// thresholds.
pub open spec fn joy_dirs(j: JoyState) -> u8 {
    (if j.word2 < j.word6 { 1u8 } else { 0u8 }) | (if j.word8 < j.word2 { 2u8 } else { 0u8 }) | (if j.word4
        < j.word10 { 4u8 } else { 0u8 }) | (if j.word12 < j.word4 { 8u8 } else { 0u8 })
}

/// D9B4: the control bits of a joystick: its buttons (shifted to the fire bits, 8-bit)
/// and its direction bits; 0 for a joystick that has not been calibrated.
pub fn sub_d9b4(joy: &JoyState) -> (r: u8)
    ensures
        joy.byte0 == 0 ==> r == 0,
        joy.byte0 != 0 ==> r == (((joy.byte1 as int * 16) % 256) as u8) | joy_dirs(*joy),
{
    if joy.byte0 == 0 {
        return 0;
    }
    let t0: u8 = if joy.word2 < joy.word6 {
        0x80
    } else {
        0
    };
    let t1: u8 = if joy.word8 < joy.word2 {
        0x80
    } else {
        0
    };
    let t2: u8 = if joy.word4 < joy.word10 {
        0x80
    } else {
        0
    };
    let t3: u8 = if joy.word12 < joy.word4 {
        0x80
    } else {
        0
    };
    let mut dl: u8 = 0;
    dl = t0 | (dl >> 1);
    dl = t1 | (dl >> 1);
    dl = t2 | (dl >> 1);
    dl = t3 | (dl >> 1);
    let b1 = joy.byte1;
    let hi = b1 << 4;
    let r = hi | (dl >> 4);
    assert(r == hi | ((if t0 == 0x80 { 1u8 } else { 0u8 }) | (if t1 == 0x80 { 2u8 } else { 0u8 }) | (if t2 == 0x80 { 4u8 } else { 0u8 }) | (if t3 == 0x80 { 8u8 } else { 0u8 }))) by (bit_vector)
        requires
            t0 == 0 || t0 == 0x80,
            t1 == 0 || t1 == 0x80,
            t2 == 0 || t2 == 0x80,
            t3 == 0 || t3 == 0x80,
            r == hi | ((t3 | ((t2 | ((t1 | ((t0 | (0u8 >> 1u8)) >> 1u8)) >> 1u8)) >> 1u8)) >> 4u8),
    ;
    assert(hi == ((b1 as int * 16) % 256) as u8) by (bit_vector)
        requires
            hi == b1 << 4u8,
    ;
    r
}

/// The control bits of a keyboard player: bit `i` is the pressed flag (lowest bit) of the
/// key state of scan code `codes[i]`.
pub open spec fn kbd_bits(keys: Seq<u8>, codes: Seq<u8>) -> u8 {
    ((keys[codes[0] as int] & 1) | ((keys[codes[1] as int] & 1) << 1u8) | ((keys[codes[2] as int] & 1) << 2u8)
        | ((keys[codes[3] as int] & 1) << 3u8) | ((keys[codes[4] as int] & 1) << 4u8) | ((keys[codes[5] as int] & 1)
        << 5u8)) as u8
}

/// D99E: the control bits of a keyboard player whose keys (left, right, gear up, gear
/// down, accelerate, brake) have scan codes `codes`, from the key states `keys`.
pub fn sub_d99e(codes: &[u8; 6], keys: &[u8; 128]) -> (r: u8)
    requires
        forall|i: int| 0 <= i < 6 ==> codes@[i] < 128,
    ensures
        r == kbd_bits(keys@, codes@),
{
    let a0 = keys[codes[0] as usize];
    let a1 = keys[codes[1] as usize];
    let a2 = keys[codes[2] as usize];
    let a3 = keys[codes[3] as usize];
    let a4 = keys[codes[4] as usize];
    let a5 = keys[codes[5] as usize];
    let mut dl: u8 = 0;
    dl = ((a0 & 1) << 7) | (dl >> 1);
    dl = ((a1 & 1) << 7) | (dl >> 1);
    dl = ((a2 & 1) << 7) | (dl >> 1);
    dl = ((a3 & 1) << 7) | (dl >> 1);
    dl = ((a4 & 1) << 7) | (dl >> 1);
    dl = ((a5 & 1) << 7) | (dl >> 1);
    let r = dl >> 2;
    assert(r == ((a0 & 1) | ((a1 & 1) << 1u8) | ((a2 & 1) << 2u8) | ((a3 & 1) << 3u8) | ((a4 & 1) << 4u8) | ((a5 & 1) << 5u8))) by (bit_vector)
        requires
            r == (((a5 & 1) << 7u8) | ((((a4 & 1) << 7u8) | ((((a3 & 1) << 7u8) | ((((a2 & 1) << 7u8) | ((((a1 & 1) << 7u8) | ((((a0 & 1) << 7u8) | (0u8 >> 1u8)) >> 1u8)) >> 1u8)) >> 1u8)) >> 1u8)) >> 1u8)) >> 2u8,
    ;
    r
}

/// Whether scan code `k` is taken: Escape (1), Enter (25 in this table) or a key of a
/// player.
pub open spec fn key_taken(cfg: Config, k: int) -> bool {
    k == 1 || k == 25 || cfg.p1_kbd@.contains(k as u8) || cfg.p2_kbd@.contains(k as u8)
}

/// DA94: marks the scan codes that are taken (0xFF) in the table of taken keys.
pub fn sub_da94(cfg: &mut Config)
    requires
        forall|i: int| 0 <= i < 6 ==> old(cfg).p1_kbd@[i] < 128 && old(cfg).p2_kbd@[i] < 128,
    ensures
        forall|k: int| 0 <= k < 128 ==> final(cfg).arr_172c@[k] == (if key_taken(*old(cfg), k) { 0xFFu8 } else { 0u8 }),
        final(cfg).p1_kbd == old(cfg).p1_kbd,
        final(cfg).p2_kbd == old(cfg).p2_kbd,
        *final(cfg) == (Config { arr_172c: final(cfg).arr_172c, ..*old(cfg) }),
{
    let mut t = [0u8; 128];
    t[1] = 0xFF;
    t[25] = 0xFF;
    let mut i: usize = 0;
    while i < 6
        invariant
            i <= 6,
            forall|j: int| 0 <= j < 6 ==> cfg.p1_kbd@[j] < 128 && cfg.p2_kbd@[j] < 128,
            forall|k: int|
                0 <= k < 128 ==> t@[k] == (if k == 1 || k == 25 || exists|j: int| 0 <= j < i && cfg.p1_kbd@[j] == k as u8 {
                    0xFFu8
                } else {
                    0u8
                }),
        decreases 6 - i,
    {
        t[cfg.p1_kbd[i] as usize] = 0xFF;
        i = i + 1;
    }
    let mut i: usize = 0;
    while i < 6
        invariant
            i <= 6,
            forall|j: int| 0 <= j < 6 ==> cfg.p1_kbd@[j] < 128 && cfg.p2_kbd@[j] < 128,
            forall|k: int|
                0 <= k < 128 ==> t@[k] == (if k == 1 || k == 25 || cfg.p1_kbd@.contains(k as u8)
                    || exists|j: int| 0 <= j < i && cfg.p2_kbd@[j] == k as u8 {
                    0xFFu8
                } else {
                    0u8
                }),
        decreases 6 - i,
    {
        t[cfg.p2_kbd[i] as usize] = 0xFF;
        i = i + 1;
    }
    cfg.arr_172c = t;
}

/// The mouse as the mouse driver reports it.
#[derive(Clone, Copy, Debug, PartialEq, Eq, Structural)]
pub struct MouseState {
    /// Bit 0 left, bit 1 right.
    pub buttons: u16,
    /// Column, 0 to 639.
    pub x: u16,
    /// Row.
    pub y: u16,
}

/// The control bits of a mouse player (see [`sub_dad1`]).
pub open spec fn mouse_bits(m: MouseState, keys: Seq<u8>, layout: u16) -> u8 {
    let b = (m.buttons % 4) as u8;
    let two = (((keys[80] & 1) << 1u8) | (keys[72] & 1)) as u8;
    let al: u8 = if layout == 0 {
        ((b << 2u8) | two) as u8
    } else {
        ((two << 2u8) | b) as u8
    };
    let al2: u8 = ((al << 1u8) | (if m.x < 0x200 { 0u8 } else { 1u8 })) as u8;
    ((al2 << 1u8) | (if m.x < 0x80 { 0u8 } else { 1u8 })) as u8
}

/// DAD1: the control bits of a mouse player: the buttons (in the order that `layout`
/// chooses) and the Up and Down keys, then whether the mouse is in the right or in the
/// left quarter of the screen. The reading `m` is kept in `seen` (its two buttons
/// only); without a mouse (`present` false) the bits are 0 and `seen` stays.
pub fn sub_dad1(present: bool, m: &MouseState, keys: &[u8; 128], layout: u16, seen: &mut MouseState) -> (r: u8)
    ensures
        !present ==> r == 0 && *final(seen) == *old(seen),
        present ==> r == mouse_bits(*m, keys@, layout)
            && *final(seen) == (MouseState { buttons: m.buttons % 4, x: m.x, y: m.y }),
{
    if !present {
        return 0;
    }
    let b = (m.buttons & 3) as u8;
    proof {
        let mb = m.buttons;
        assert(mb & 3 == mb % 4) by (bit_vector);
    }
    *seen = MouseState { buttons: m.buttons & 3, x: m.x, y: m.y };
    let two = ((keys[80] & 1) << 1) | (keys[72] & 1);
    let mut al = if layout == 0 {
        (b << 2) | two
    } else {
        (two << 2) | b
    };
    al = (al << 1) | if m.x < 0x200 {
        0
    } else {
        1
    };
    al = (al << 1) | if m.x < 0x80 {
        0
    } else {
        1
    };
    al
}

/// The control bits of a player with input device `device` (0 keyboard, 1 joystick,
/// 2 mouse), before up and down are swapped.
pub open spec fn device_bits(device: u16, codes: Seq<u8>, joy: JoyState, keys: Seq<u8>, mouse: u8) -> u8 {
    if device == 0 {
        kbd_bits(keys, codes)
    } else if device == 1 {
        if joy.byte0 == 0 {
            0
        } else {
            (((joy.byte1 as int * 16) % 256) as u8) | joy_dirs(joy)
        }
    } else {
        mouse
    }
}

/// `al` with bits 2 and 3 swapped.
pub open spec fn swap23(al: u8) -> u8 {
    (al & 0xF3) | ((al & 8) >> 1u8) | ((al & 4) << 1u8)
}

/// D962: reads the control bits of both players from their input devices: the key
/// states `keys`, the joysticks in `cfg`, and the mouse bits `mouse1` and `mouse2` that
/// [`sub_dad1`] gave for each player that uses the mouse.
pub fn sub_d962(cfg: &mut Config, keys: &[u8; 128], mouse1: u8, mouse2: u8)
    requires
        old(cfg).word_16ff <= 2,
        old(cfg).word_1716 <= 2,
        forall|i: int| 0 <= i < 6 ==> old(cfg).p1_kbd@[i] < 128 && old(cfg).p2_kbd@[i] < 128,
    ensures
        final(cfg).byte_16fe == swap23(device_bits(old(cfg).word_16ff, old(cfg).p1_kbd@, old(cfg).p1_joy, keys@, mouse1)),
        final(cfg).byte_1715 == swap23(device_bits(old(cfg).word_1716, old(cfg).p2_kbd@, old(cfg).p2_joy, keys@, mouse2)),
        *final(cfg) == (Config { byte_16fe: final(cfg).byte_16fe, byte_1715: final(cfg).byte_1715, ..*old(cfg) }),
{
    let a = if cfg.word_16ff == 0 {
        sub_d99e(&cfg.p1_kbd, keys)
    } else if cfg.word_16ff == 1 {
        sub_d9b4(&cfg.p1_joy)
    } else {
        mouse1
    };
    cfg.byte_16fe = sub_d989(a);
    let b = if cfg.word_1716 == 0 {
        sub_d99e(&cfg.p2_kbd, keys)
    } else if cfg.word_1716 == 1 {
        sub_d9b4(&cfg.p2_joy)
    } else {
        mouse2
    };
    cfg.byte_1715 = sub_d989(b);
}

/// `al` shifted left with bit 1 of `ah` shifted in.
pub open spec fn shr_rcl(ah: u8, al: u8) -> u8 {
    ((al << 1u8) | ((ah >> 1u8) & 1)) as u8
}

/// The bits of the five menu keys: Enter, Up, Down, Right, Left.
pub open spec fn menu_key_bits(k: Seq<u8>) -> u8 {
    shr_rcl(k[4], shr_rcl(k[3], shr_rcl(k[2], shr_rcl(k[1], shr_rcl(k[0], 0)))))
}

/// 575C: the menu controls of player 1: the menu key bits (from the key states of
/// Enter, Up, Down, Right and Left in `keys5`), combined with the player's control bits
/// for a joystick and with the mouse buttons for a mouse. Returns the bits that are newly
/// on since the last call (in the low byte of the kept word), the bits, and whether the
/// mouse drives the menu; `prev` keeps the bits for the next call.
pub fn sub_575c(keys5: &[u8; 5], device: u16, player_bits: u8, mouse_buttons: u8, prev: &mut u8, word: &mut u16) -> (r: (u16, u8, u8))
    ensures
        ({
            let al = menu_key_bits(keys5@);
            let (bits, mouse_flag) = if device == 1 {
                ((al ^ player_bits) as u8, 0u8)
            } else if device == 2 {
                ((al | (mouse_buttons & 0x10)) as u8, mouse_buttons)
            } else {
                (al, 0u8)
            };
            let edges = ((*old(prev) ^ bits) & bits) as u8;
            &&& *final(word) == (*old(word) / 256) * 256 + edges
            &&& *final(prev) == bits
            &&& r == (*final(word), bits, mouse_flag)
        }),
{
    let mut al: u8 = 0;
    al = (al << 1) | ((keys5[0] >> 1) & 1);
    al = (al << 1) | ((keys5[1] >> 1) & 1);
    al = (al << 1) | ((keys5[2] >> 1) & 1);
    al = (al << 1) | ((keys5[3] >> 1) & 1);
    al = (al << 1) | ((keys5[4] >> 1) & 1);
    let (bits, flag) = if device == 1 {
        (al ^ player_bits, 0u8)
    } else if device == 2 {
        (al | (mouse_buttons & 0x10), mouse_buttons)
    } else {
        (al, 0u8)
    };
    let edges = (*prev ^ bits) & bits;
    *word = (*word / 256) * 256 + (edges as u16);
    *prev = bits;
    (*word, bits, flag)
}

/// C011 (the decision): whether waiting is to end: a key was pressed (its state is then
/// marked as seen, 0x80), or a fire bit came on between the player's bits `old_bits` and
/// `new_bits`, or a mouse button is down.
pub fn sub_c011(pressed: bool, last_scan: u8, keys: &mut [u8; 128], old_bits: u8, new_bits: u8, mouse_down: u8) -> (r: bool)
    requires
        pressed ==> last_scan < 128,
    ensures
        pressed ==> r && final(keys)@ == old(keys)@.update(last_scan as int, 0x80u8),
        !pressed ==> final(keys)@ == old(keys)@ && r == ((((old_bits ^ new_bits) & new_bits) & 0x30) != 0 || mouse_down != 0),
{
    if pressed {
        keys[last_scan as usize] = 0x80;
        return true;
    }
    let al = ((old_bits ^ new_bits) & new_bits) & 0x30;
    al != 0 || mouse_down != 0
}

} // verus!

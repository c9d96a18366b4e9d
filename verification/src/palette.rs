//! The screen palette and its fades: each colour component moves toward its target
//! in equal 8.8 fixed-point steps, one step per timer tick.

use vstd::prelude::*;

verus! {

/// The palette the screen shows, and the fade in progress.
pub struct PaletteFade {
    /// The colour components shown (or about to be).
    pub pal: [u8; 768],
    /// Per component: the step, then the current value, both in 8.8 fixed point.
    pub fade: [u16; 1536],
    /// Steps left in the fade.
    pub step: u16,
    /// Whether the palette waits to be shown.
    pub ready: bool,
    /// Steps per fade (more is slower).
    pub speed: u16,
    /// Whether the screen is faded to black.
    pub faded_out: bool,
}

/// `a / b` rounded toward zero.
pub open spec fn quot(a: int, b: int) -> int {
    if a >= 0 {
        a / b
    } else {
        -((-a) / b)
    }
}

/// The step of a component from `cur` to `target` in `speed` steps: the difference
/// (in 8 bits) read as a signed 8.8 value, divided by the steps, in 16 bits.
pub open spec fn fade_delta(target: u8, cur: u8, speed: u16) -> u16 {
    let d = ((target - cur + 256) % 256) * 256;
    let s = if d >= 32768 { d - 65536 } else { d };
    ((quot(s, speed as int) + 65536) % 65536) as u16
}

/// One step of every component: the value grows by the step (in 16 bits), and the
/// shown component is the value's high byte.
pub open spec fn stepped(fade: Seq<u16>) -> (Seq<u16>, Seq<u8>) {
    let f = Seq::new(
        1536,
        |i: int|
            if i % 2 == 1 {
                ((fade[i] + fade[i - 1]) % 65536) as u16
            } else {
                fade[i]
            },
    );
    (f, Seq::new(768, |i: int| (f[2 * i + 1] / 256) as u8))
}

/// The fade table for a fade toward `target` from the palette `pal` in `speed` steps;
/// the components past the target's keep their entries.
pub open spec fn fade_table(fade: Seq<u16>, pal: Seq<u8>, target: Seq<u8>, speed: u16) -> Seq<u16> {
    Seq::new(
        1536,
        |i: int|
            if i / 2 < target.len() {
                if i % 2 == 0 {
                    fade_delta(target[i / 2], pal[i / 2], speed)
                } else {
                    (pal[i / 2] * 256) as u16
                }
            } else {
                fade[i]
            },
    )
}

impl PaletteFade {
    /// D174: one step of the fade (see [`stepped`]).
    pub fn set_fade_vga_pal(&mut self)
        ensures
            (final(self).fade@, final(self).pal@) == stepped(old(self).fade@),
            final(self).step == old(self).step,
            final(self).ready == old(self).ready,
            final(self).speed == old(self).speed,
            final(self).faded_out == old(self).faded_out,
    {
        let ghost f0 = self.fade@;
        let mut i: usize = 0;
        while i < 768
            invariant
                i <= 768,
                self.fade@.len() == 1536,
                f0.len() == 1536,
                forall|j: int|
                    0 <= j < 1536 ==> #[trigger] self.fade@[j] == if j / 2 < i && j % 2 == 1 {
                        ((f0[j] + f0[j - 1]) % 65536) as u16
                    } else {
                        f0[j]
                    },
                forall|j: int| 0 <= j < i ==> #[trigger] self.pal@[j] == (stepped(f0).0[2 * j + 1] / 256) as u8,
                self.step == old(self).step,
                self.ready == old(self).ready,
                self.speed == old(self).speed,
                self.faded_out == old(self).faded_out,
            decreases 768 - i,
        {
            let v = self.fade[2 * i + 1].wrapping_add(self.fade[2 * i]);
            self.fade[2 * i + 1] = v;
            self.pal[i] = (v / 256) as u8;
            i = i + 1;
        }
        assert(self.fade@ =~= stepped(f0).0);
        assert(self.pal@ =~= stepped(f0).1);
    }

    /// D12C (once the previous fade has ended): starts a fade toward `target` in
    /// `speed` steps and takes its first step (see [`fade_table`]).
    pub fn fade_by_color(&mut self, target: &[u8])
        requires
            old(self).speed > 0,
            target@.len() <= 768,
        ensures
            (final(self).fade@, final(self).pal@) == stepped(
                fade_table(old(self).fade@, old(self).pal@, target@, old(self).speed),
            ),
            final(self).step == old(self).speed,
            final(self).ready,
            final(self).speed == old(self).speed,
            final(self).faded_out == old(self).faded_out,
    {
        let ghost f0 = self.fade@;
        let ghost p0 = self.pal@;
        let speed = self.speed;
        let mut bx: usize = 0;
        while bx < target.len()
            invariant
                bx <= target@.len() <= 768,
                speed > 0,
                speed == self.speed,
                self.pal@ == p0,
                self.fade@.len() == 1536,
                forall|j: int|
                    0 <= j < 1536 ==> #[trigger] self.fade@[j] == if j / 2 < bx {
                        fade_table(f0, p0, target@, speed)[j]
                    } else {
                        f0[j]
                    },
                self.faded_out == old(self).faded_out,
            decreases target@.len() - bx,
        {
            let cur = self.pal[bx];
            let d: u16 = (target[bx].wrapping_sub(cur) as u16) * 256;
            let s: i32 = if d >= 32768 {
                d as i32 - 65536
            } else {
                d as i32
            };
            let q: i32 = if s >= 0 {
                s / (speed as i32)
            } else {
                0 - ((0 - s) / (speed as i32))
            };
            self.fade[2 * bx] = ((q + 65536) % 65536) as u16;
            self.fade[2 * bx + 1] = (cur as u16) * 256;
            bx = bx + 1;
        }
        assert(self.fade@ =~= fade_table(f0, p0, target@, speed));
        self.set_fade_vga_pal();
        self.step = speed;
        self.ready = true;
    }

    /// D1B6: a timer tick of the fade: where a palette waits, one step is counted off
    /// and the palette is shown (returns `true`); the next step is taken while steps
    /// are left, else the palette no longer waits. Without a waiting palette the fade
    /// ends.
    pub fn fade_step(&mut self) -> (show: bool)
        ensures
            show == old(self).ready,
            !old(self).ready ==> final(self).step == 0 && final(self).fade == old(self).fade && final(self).pal
                == old(self).pal && !final(self).ready,
            old(self).ready ==> {
                &&& final(self).step == (if old(self).step > 0 { old(self).step - 1 } else { 0 })
                &&& final(self).step > 0 ==> (final(self).fade@, final(self).pal@) == stepped(old(self).fade@)
                    && final(self).ready
                &&& final(self).step == 0 ==> final(self).fade == old(self).fade && final(self).pal
                    == old(self).pal && !final(self).ready
            },
            final(self).speed == old(self).speed,
            final(self).faded_out == old(self).faded_out,
    {
        if !self.ready {
            self.step = 0;
            return false;
        }
        self.step = self.step.saturating_sub(1);
        if self.step > 0 {
            self.set_fade_vga_pal();
        } else {
            self.ready = false;
        }
        true
    }

    /// D0A7 / D0D8 (the decision, once the previous fade has ended): toward `pal`, the
    /// black palette where `dark`. Where the screen already is that way (faded out for
    /// `dark`, not faded out otherwise) the palette is shown at once and `false`
    /// returned; otherwise a fade of 20 steps starts (see
    /// [`PaletteFade::fade_by_color`]) and `true` is returned: the caller waits for its
    /// end where the game does.
    pub fn fade_toward(&mut self, pal: &[u8; 768], dark: bool) -> (fading: bool)
        ensures
            fading == (old(self).faded_out != dark),
            !fading ==> final(self).pal == *pal && final(self).ready && final(self).faded_out == dark
                && final(self).fade == old(self).fade && final(self).step == old(self).step
                && final(self).speed == old(self).speed,
            fading ==> {
                &&& (final(self).fade@, final(self).pal@) == stepped(fade_table(old(self).fade@, old(self).pal@, pal@, 20))
                &&& final(self).step == 20
                &&& final(self).speed == 20
                &&& final(self).ready
                &&& final(self).faded_out == dark
            },
    {
        if self.faded_out == dark {
            self.set_vga_pal(pal, dark);
            return false;
        }
        self.start_fade(pal, dark);
        true
    }

    /// D0C6: fades in toward `pal` in 20 steps whatever the screen shows (see
    /// [`PaletteFade::fade_by_color`]).
    pub fn fade_in_pal(&mut self, pal: &[u8; 768])
        ensures
            (final(self).fade@, final(self).pal@) == stepped(fade_table(old(self).fade@, old(self).pal@, pal@, 20)),
            final(self).step == 20,
            final(self).speed == 20,
            final(self).ready,
            !final(self).faded_out,
    {
        self.start_fade(pal, false);
    }

    /// A fade of 20 steps toward `pal`, the black palette where `dark`.
    fn start_fade(&mut self, pal: &[u8; 768], dark: bool)
        ensures
            (final(self).fade@, final(self).pal@) == stepped(fade_table(old(self).fade@, old(self).pal@, pal@, 20)),
            final(self).step == 20,
            final(self).speed == 20,
            final(self).ready,
            final(self).faded_out == dark,
    {
        self.speed = 20;
        self.fade_by_color(pal);
        self.faded_out = dark;
    }

    /// D18C (once the previous fade has ended): shows `pal` at once; `dark` tells
    /// whether it is the black palette.
    pub fn set_vga_pal(&mut self, pal: &[u8; 768], dark: bool)
        ensures
            final(self).pal == *pal,
            final(self).ready,
            final(self).faded_out == dark,
            final(self).fade == old(self).fade,
            final(self).step == old(self).step,
            final(self).speed == old(self).speed,
    {
        self.faded_out = dark;
        self.ready = false;
        self.pal = *pal;
        self.ready = true;
    }
}

/// A fade in one step reaches its target: after [`PaletteFade::fade_by_color`] with a
/// speed of one, every component of a full-length target is shown.
pub proof fn lemma_fade_one_step(fade: Seq<u16>, pal: Seq<u8>, target: Seq<u8>)
    requires
        fade.len() == 1536,
        pal.len() == 768,
        target.len() == 768,
    ensures
        stepped(fade_table(fade, pal, target, 1)).1 == target,
{
    let t = fade_table(fade, pal, target, 1);
    let r = stepped(t).1;
    assert forall|i: int| 0 <= i < 768 implies #[trigger] r[i] == target[i] by {
        let c = pal[i] as int;
        let g = target[i] as int;
        let d = ((g - c + 256) % 256) * 256;
        let s = if d >= 32768 { d - 65536 } else { d };
        assert(quot(s, 1) == s);
        assert(t[2 * i] == ((s + 65536) % 65536) as u16);
        assert(t[2 * i + 1] == (c * 256) as u16);
        assert(((c * 256 + (s + 65536) % 65536) % 65536) / 256 == g) by (nonlinear_arith)
            requires
                0 <= c < 256,
                0 <= g < 256,
                d == ((g - c + 256) % 256) * 256,
                s == (if d >= 32768 { d - 65536 } else { d }),
        ;
    }
    assert(r =~= target);
}

/// The fade table after `k` steps (see [`stepped`]).
pub open spec fn fade_after(t: Seq<u16>, k: nat) -> Seq<u16>
    decreases k,
{
    if k == 0 {
        t
    } else {
        stepped(fade_after(t, (k - 1) as nat)).0
    }
}

/// The palette shown after `k` steps of the fade table `t`: each component's value's
/// high byte.
pub open spec fn shown_after(t: Seq<u16>, k: nat) -> Seq<u8> {
    Seq::new(768, |i: int| (fade_after(t, k)[2 * i + 1] / 256) as u8)
}

/// After `k` steps a component's value has grown by `k` times its step (in 16 bits) and
/// its step is as it was.
proof fn lemma_fade_after_at(t: Seq<u16>, k: nat, i: int, q: int)
    requires
        t.len() == 1536,
        0 <= i < 768,
        t[2 * i] as int == (q + 65536) % 65536,
    ensures
        fade_after(t, k).len() == 1536,
        fade_after(t, k)[2 * i] == t[2 * i],
        fade_after(t, k)[2 * i + 1] as int == (t[2 * i + 1] + k * q) % 65536,
    decreases k,
{
    if k > 0 {
        let k1 = (k - 1) as nat;
        lemma_fade_after_at(t, k1, i, q);
        let f = fade_after(t, k1);
        let x = t[2 * i + 1] + k1 * q;
        assert(stepped(f).0[2 * i + 1] == ((f[2 * i + 1] + f[2 * i]) % 65536) as u16);
        vstd::arithmetic::div_mod::lemma_add_mod_noop(x, q + 65536, 65536);
        vstd::arithmetic::div_mod::lemma_mod_add_multiples_vanish(x + q, 65536);
        assert(x + q == t[2 * i + 1] + k * q) by (nonlinear_arith)
            requires
                x == t[2 * i + 1] + k1 * q,
                k1 == k - 1,
        ;
        assert((x % 65536 + (q + 65536) % 65536) % 65536 == (x + q) % 65536);
    }
}

/// A whole fade ends within one of its target: a fade of `speed` steps (at most 255)
/// between palettes of six-bit components (as the VGA's are), started by
/// [`PaletteFade::fade_by_color`] and stepped by [`PaletteFade::fade_step`] until no
/// step is left, shows every component at its target or one below it.
pub proof fn lemma_fade_ends_at_target(fade: Seq<u16>, pal: Seq<u8>, target: Seq<u8>, speed: u16)
    requires
        fade.len() == 1536,
        pal.len() == 768,
        target.len() == 768,
        1 <= speed <= 255,
        forall|i: int| 0 <= i < 768 ==> pal[i] <= 63 && target[i] <= 63,
    ensures
        forall|i: int|
            0 <= i < 768 ==> #[trigger] shown_after(fade_table(fade, pal, target, speed), speed as nat)[i]
                <= target[i] <= shown_after(fade_table(fade, pal, target, speed), speed as nat)[i] + 1,
{
    let t = fade_table(fade, pal, target, speed);
    assert forall|i: int| 0 <= i < 768 implies #[trigger] shown_after(t, speed as nat)[i] <= target[i]
        <= shown_after(t, speed as nat)[i] + 1 by {
        let c = pal[i] as int;
        let g = target[i] as int;
        let n = speed as int;
        let d = ((g - c + 256) % 256) * 256;
        let s = if d >= 32768 { d - 65536 } else { d };
        assert(s == (g - c) * 256) by (nonlinear_arith)
            requires
                0 <= c <= 63,
                0 <= g <= 63,
                d == ((g - c + 256) % 256) * 256,
                s == (if d >= 32768 { d - 65536 } else { d }),
        ;
        let q = quot(s, n);
        assert(t[2 * i] as int == (q + 65536) % 65536);
        assert(t[2 * i + 1] as int == c * 256);
        lemma_fade_after_at(t, speed as nat, i, q);
        let val = c * 256 + n * q;
        assert((s >= 0 ==> g * 256 - n < val <= g * 256) && (s < 0 ==> g * 256 <= val < g * 256 + n)) by (nonlinear_arith)
            requires
                s == (g - c) * 256,
                q == quot(s, n),
                1 <= n,
                val == c * 256 + n * q,
        {
            if s >= 0 {
                assert(q == s / n);
                assert(n * q <= s < n * q + n);
            } else {
                assert(q == -((-s) / n));
                assert(n * (-q) <= -s < n * (-q) + n);
            }
        }
        if s >= 0 {
            assert(q >= 0);
            assert(n * q >= 0) by (nonlinear_arith)
                requires
                    q >= 0,
                    n >= 1,
            ;
            assert(val >= 0);
        } else {
            assert(q <= 0);
            assert(val >= g * 256);
        }
        assert(val < g * 256 + 256);
        assert(0 <= val < 65536);
        assert(fade_after(t, speed as nat)[2 * i + 1] as int == val);
        assert(g * 256 - 256 < val < g * 256 + 256);
        assert(val / 256 <= g <= val / 256 + 1);
    }
}

} // verus!

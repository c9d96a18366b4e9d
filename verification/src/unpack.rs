//! The resource packer's format.
//!
//! A packed resource starts with a count `n` (not zero) and an escape byte, followed by
//! `n` pair definitions of three bytes each: a code and the two codes it stands for.
//! The rest is a stream of codes. Each code is expanded through the pair table to a
//! sequence of command bytes; the escape byte makes the byte after it a command byte
//! as it is. The command bytes drive a small machine ([`Action`]) that copies
//! literal runs and repeats bytes into the output.

use vstd::prelude::*;

use crate::stack::{code_stack_items, code_stack_new, code_stack_pop, code_stack_push, CodeStack};

verus! {

/// State of the command machine that turns command bytes into output.
#[derive(Clone, Copy, Debug, PartialEq, Eq, Structural)]
pub enum Action {
    /// Waiting for a command byte.
    Start,
    /// Copying this many more literal bytes.
    Unpack(u16),
    /// Waiting for the low byte of a long literal run whose high byte is kept here.
    KeepHighByte(u8),
    /// Waiting for the byte to repeat this many times.
    Extend(u16),
    /// Waiting for the low byte of a long repeat count whose high byte is kept here.
    KeepLowByte(u8),
}

/// What one command byte `al` does to the machine in state `a` with output `out` so far:
/// whether the stream ends, the next state and the output. `None` when the byte cannot
/// be processed (an output longer than memory). A literal run of length zero counts
/// down from 65535, as 16-bit arithmetic does.
pub open spec fn action_step(a: Action, out: Seq<u8>, al: u8) -> Option<(bool, Action, Seq<u8>)> {
    match a {
        Action::Start => {
            if al == 0 {
                Some((true, a, out))
            } else if al < 0x40 {
                Some((false, Action::Unpack((al % 64) as u16), out))
            } else if al < 0x80 {
                Some((false, Action::KeepHighByte(al % 64), out))
            } else if al < 0xC0 {
                Some((false, Action::Extend((al % 64) as u16), out))
            } else {
                Some((false, Action::KeepLowByte(al % 64), out))
            }
        },
        Action::Unpack(len) => {
            if len == 1 {
                Some((false, Action::Start, out.push(al)))
            } else {
                Some((false, Action::Unpack(((len + 65535) % 65536) as u16), out.push(al)))
            }
        },
        Action::KeepHighByte(hi) => Some((false, Action::Unpack((al + 256 * hi) as u16), out)),
        Action::Extend(len) => {
            if out.len() + len > usize::MAX {
                None
            } else {
                Some((false, Action::Start, out + Seq::new(len as nat, |i: int| al)))
            }
        },
        Action::KeepLowByte(lo) => Some((false, Action::Extend((al + 256 * lo) as u16), out)),
    }
}

impl Action {
    /// Feeds one command byte to the machine. Returns `true` when the stream ends.
    pub fn step(&mut self, unpacked: &mut Vec<u8>, al: u8) -> (stop: bool)
        requires
            action_step(*old(self), old(unpacked)@, al) is Some,
        ensures
            action_step(*old(self), old(unpacked)@, al) == Some((stop, *final(self), final(unpacked)@)),
    {
        let next = match *self {
            Action::Start => {
                if al == 0 {
                    return true;
                } else if al < 0x40 {
                    Action::Unpack((al & 0x3F) as u16)
                } else if al < 0x80 {
                    Action::KeepHighByte(al & 0x3F)
                } else if al < 0xC0 {
                    Action::Extend((al & 0x3F) as u16)
                } else {
                    Action::KeepLowByte(al & 0x3F)
                }
            },
            Action::Unpack(len) => {
                unpacked.push(al);
                let len = len.wrapping_sub(1);
                if len == 0 {
                    Action::Start
                } else {
                    Action::Unpack(len)
                }
            },
            Action::KeepHighByte(hi) => Action::Unpack((al as u16) + (hi as u16) * 256),
            Action::Extend(len) => {
                let ghost before = unpacked@;
                let mut i: u16 = 0;
                while i < len
                    invariant
                        i <= len,
                        before.len() + len <= usize::MAX,
                        unpacked@ == before + Seq::new(i as nat, |j: int| al),
                    decreases len - i,
                {
                    unpacked.push(al);
                    i = i + 1;
                    assert(unpacked@ =~= before + Seq::new(i as nat, |j: int| al));
                }
                Action::Start
            },
            Action::KeepLowByte(lo) => Action::Extend((al as u16) + (lo as u16) * 256),
        };
        proof {
            assert(al & 0x3F == al % 64) by (bit_vector);
        }
        *self = next;
        false
    }
}

/// The command machine after the command bytes `cmds` from state `a` with output `out`:
/// whether the stream ended, the state and the output; `None` where a byte cannot be
/// processed. Bytes after the end command are not read.
pub open spec fn run_commands(a: Action, out: Seq<u8>, cmds: Seq<u8>) -> Option<(bool, Action, Seq<u8>)>
    decreases cmds.len(),
{
    if cmds.len() == 0 {
        Some((false, a, out))
    } else {
        match action_step(a, out, cmds[0]) {
            None => None,
            Some(r) => if r.0 {
                Some(r)
            } else {
                run_commands(r.1, r.2, cmds.drop_first())
            },
        }
    }
}

/// While `k` literal bytes are due, the next `k` bytes are copied to the output and the
/// machine then waits for a command.
proof fn lemma_literal_run(k: int, out: Seq<u8>, bytes: Seq<u8>, rest: Seq<u8>)
    requires
        1 <= k <= 65535,
        bytes.len() == k,
    ensures
        run_commands(Action::Unpack(k as u16), out, bytes + rest) == run_commands(Action::Start, out + bytes, rest),
    decreases k,
{
    let all = bytes + rest;
    assert(all[0] == bytes[0]);
    assert(all.drop_first() =~= bytes.drop_first() + rest);
    if k == 1 {
        assert(bytes.drop_first() =~= Seq::<u8>::empty());
        assert(bytes.drop_first() + rest =~= rest);
        assert(out.push(bytes[0]) =~= out + bytes);
    } else {
        assert(((k + 65535) % 65536) as u16 == (k - 1) as u16);
        lemma_literal_run(k - 1, out.push(bytes[0]), bytes.drop_first(), rest);
        assert(out.push(bytes[0]) + bytes.drop_first() =~= out + bytes);
    }
}

/// A short literal command `n` (1 to 63) copies the `n` bytes after it to the output,
/// and the end command then ends the stream.
pub proof fn lemma_short_literal(n: u8, out: Seq<u8>, bytes: Seq<u8>)
    requires
        1 <= n < 64,
        bytes.len() == n,
    ensures
        run_commands(Action::Start, out, seq![n] + bytes + seq![0u8]) == Some((true, Action::Start, out + bytes)),
{
    let cmds = seq![n] + bytes + seq![0u8];
    assert(cmds[0] == n);
    assert(cmds.drop_first() =~= bytes + seq![0u8]);
    lemma_literal_run(n as int, out, bytes, seq![0u8]);
    assert(seq![0u8].drop_first() =~= Seq::<u8>::empty());
}

/// A long literal command `0x40 | h` followed by the byte `l` copies the next
/// `l + 256 h` bytes to the output (the byte after the command is the low byte of the
/// count), and the end command then ends the stream.
pub proof fn lemma_long_literal(h: u8, l: u8, out: Seq<u8>, bytes: Seq<u8>)
    requires
        h < 64,
        1 <= l + 256 * h,
        bytes.len() == l + 256 * h,
    ensures
        run_commands(Action::Start, out, seq![(0x40 + h) as u8, l] + bytes + seq![0u8]) == Some(
            (true, Action::Start, out + bytes),
        ),
{
    let cmds = seq![(0x40 + h) as u8, l] + bytes + seq![0u8];
    let c1 = cmds.drop_first();
    let c2 = c1.drop_first();
    assert(cmds[0] == (0x40 + h) as u8);
    assert(c1[0] == l);
    assert(c2 =~= bytes + seq![0u8]);
    assert(((0x40 + h) as u8) % 64 == h);
    assert(action_step(Action::Start, out, cmds[0]) == Some((false, Action::KeepHighByte(h), out)));
    assert(run_commands(Action::Start, out, cmds) == run_commands(Action::KeepHighByte(h), out, c1));
    let k = (l + 256 * h) as u16;
    assert(action_step(Action::KeepHighByte(h), out, l) == Some((false, Action::Unpack(k), out)));
    assert(run_commands(Action::KeepHighByte(h), out, c1) == run_commands(Action::Unpack(k), out, c2));
    lemma_literal_run(l + 256 * h, out, bytes, seq![0u8]);
    assert(seq![0u8].drop_first() =~= Seq::<u8>::empty());
    assert(run_commands(Action::Start, out + bytes, seq![0u8]) == Some((true, Action::Start, out + bytes)));
}

/// A short repeat command `0x80 | n` followed by the byte `b` appends `n` copies of `b`.
pub proof fn lemma_short_repeat(n: u8, b: u8, out: Seq<u8>)
    requires
        n < 64,
        out.len() + n <= usize::MAX,
    ensures
        run_commands(Action::Start, out, seq![(0x80 + n) as u8, b, 0u8]) == Some(
            (true, Action::Start, out + Seq::new(n as nat, |i: int| b)),
        ),
{
    let cmds = seq![(0x80 + n) as u8, b, 0u8];
    let c1 = cmds.drop_first();
    let c2 = c1.drop_first();
    assert(c1 =~= seq![b, 0u8]);
    assert(c2 =~= seq![0u8]);
    assert(((0x80 + n) as u8) % 64 == n);
    assert(action_step(Action::Start, out, cmds[0]) == Some((false, Action::Extend(n as u16), out)));
    assert(run_commands(Action::Start, out, cmds) == run_commands(Action::Extend(n as u16), out, c1));
    let o2 = out + Seq::new(n as nat, |i: int| b);
    assert(action_step(Action::Extend(n as u16), out, b) == Some((false, Action::Start, o2)));
    assert(run_commands(Action::Extend(n as u16), out, c1) == run_commands(Action::Start, o2, c2));
    assert(c2.drop_first() =~= Seq::<u8>::empty());
    assert(run_commands(Action::Start, o2, c2) == Some((true, Action::Start, o2)));
}

/// A long repeat command `0xC0 | h` followed by the bytes `l` and `b` appends
/// `l + 256 h` copies of `b` (the byte after the command is the low byte of the count).
pub proof fn lemma_long_repeat(h: u8, l: u8, b: u8, out: Seq<u8>)
    requires
        h < 64,
        out.len() + l + 256 * h <= usize::MAX,
    ensures
        run_commands(Action::Start, out, seq![(0xC0 + h) as u8, l, b, 0u8]) == Some(
            (true, Action::Start, out + Seq::new((l + 256 * h) as nat, |i: int| b)),
        ),
{
    let cmds = seq![(0xC0 + h) as u8, l, b, 0u8];
    let c1 = cmds.drop_first();
    let c2 = c1.drop_first();
    let c3 = c2.drop_first();
    assert(c1 =~= seq![l, b, 0u8]);
    assert(c2 =~= seq![b, 0u8]);
    assert(c3 =~= seq![0u8]);
    assert(((0xC0 + h) as u8) % 64 == h);
    assert(action_step(Action::Start, out, cmds[0]) == Some((false, Action::KeepLowByte(h), out)));
    assert(run_commands(Action::Start, out, cmds) == run_commands(Action::KeepLowByte(h), out, c1));
    let k = (l + 256 * h) as u16;
    assert(action_step(Action::KeepLowByte(h), out, l) == Some((false, Action::Extend(k), out)));
    assert(run_commands(Action::KeepLowByte(h), out, c1) == run_commands(Action::Extend(k), out, c2));
    let o2 = out + Seq::new((l + 256 * h) as nat, |i: int| b);
    assert(action_step(Action::Extend(k), out, b) == Some((false, Action::Start, o2)));
    assert(run_commands(Action::Extend(k), out, c2) == run_commands(Action::Start, o2, c3));
    assert(c3.drop_first() =~= Seq::<u8>::empty());
    assert(run_commands(Action::Start, o2, c3) == Some((true, Action::Start, o2)));
}

/// The pair table before any definition: every code stands for itself.
pub open spec fn initial_table() -> Seq<(u16, u16)> {
    Seq::new(256, |i: int| (i as u16, 0u16))
}

/// Builds the initial pair table: entry `i` holds `(i, 0)`, a code that stands for itself.
pub fn create_table() -> (t: [(u16, u16); 256])
    ensures
        t@ == initial_table(),
{
    let mut t: [(u16, u16); 256] = [(0u16, 0u16); 256];
    let mut i: usize = 0;
    while i < 256
        invariant
            i <= 256,
            forall|j: int| 0 <= j < i ==> t@[j] == (j as u16, 0u16),
            forall|j: int| i <= j < 256 ==> t@[j] == (0u16, 0u16),
        decreases 256 - i,
    {
        t[i] = (i as u16, 0u16);
        i = i + 1;
    }
    assert(t@ =~= initial_table());
    t
}

/// The high byte that marks the half of a pair as a further pair (2) or a plain code (1).
pub open spec fn pair_flag(table: Seq<(u16, u16)>, code: u8) -> int {
    if table[code as int].1 != 0 {
        2
    } else {
        1
    }
}

/// The table after code `ix` is defined as the pair `lo`, `hi`.
pub open spec fn define_pair(table: Seq<(u16, u16)>, ix: u8, lo: u8, hi: u8) -> Seq<(u16, u16)> {
    table.update(
        ix as int,
        ((lo + 256 * pair_flag(table, lo)) as u16, (hi + 256 * pair_flag(table, hi)) as u16),
    )
}

/// The table after the first `k` pair definitions of `data`.
pub open spec fn table_after(data: Seq<u8>, k: nat) -> Seq<(u16, u16)>
    decreases k,
{
    if k == 0 {
        initial_table()
    } else {
        let t = table_after(data, (k - 1) as nat);
        let p = 2 + 3 * (k - 1);
        define_pair(t, data[p], data[p + 1], data[p + 2])
    }
}

/// Whether `data` holds a complete header: a non-zero count, the escape byte and the
/// pair definitions.
pub open spec fn header_ok(data: Seq<u8>) -> bool {
    data.len() >= 2 && data[0] != 0 && 2 + 3 * data[0] <= data.len()
}

/// Where the decoder is: reading the next code, expanding a code through the table, or
/// emitting the first half of a pair; and the three ends.
#[derive(PartialEq, Eq, Structural)]
pub enum Mode {
    Read,
    Expand(u8),
    Drain(u16),
    /// The stream ended: the output is complete.
    Done,
    /// The input ended after an escape byte: there is no result.
    Fail,
    /// The input cannot be decoded (a pair nests too deep or a command fails).
    Stuck,
}

/// The decoder's state.
pub ghost struct Machine {
    pub pos: int,
    pub table: Seq<(u16, u16)>,
    pub stack: Seq<u16>,
    pub mode: Mode,
    pub action: Action,
    pub out: Seq<u8>,
}

/// Whether the decoder has stopped.
pub open spec fn halted(m: Machine) -> bool {
    m.mode is Done || m.mode is Fail || m.mode is Stuck
}

/// The decoder after the header of `data`.
pub open spec fn initial_machine(data: Seq<u8>) -> Machine {
    Machine {
        pos: 2 + 3 * data[0],
        table: table_after(data, data[0] as nat),
        stack: Seq::empty(),
        mode: Mode::Read,
        action: Action::Start,
        out: Seq::empty(),
    }
}

/// Feeds a command byte to the decoder's command machine, then continues with `next`.
pub open spec fn feed(m: Machine, al: u8, next: Mode) -> Machine {
    match action_step(m.action, m.out, al) {
        None => Machine { mode: Mode::Stuck, ..m },
        Some(r) => Machine {
            action: r.1,
            out: r.2,
            mode: if r.0 {
                Mode::Done
            } else {
                next
            },
            ..m
        },
    }
}

/// One step of the decoder on `data`.
pub open spec fn machine_step(data: Seq<u8>, m: Machine) -> Machine {
    match m.mode {
        Mode::Read => {
            if m.pos >= data.len() {
                Machine { mode: Mode::Done, ..m }
            } else if data[m.pos] == data[1] {
                if m.pos + 1 >= data.len() {
                    Machine { mode: Mode::Fail, ..m }
                } else {
                    feed(Machine { pos: m.pos + 2, ..m }, data[m.pos + 1], Mode::Read)
                }
            } else {
                Machine { pos: m.pos + 1, stack: Seq::empty(), mode: Mode::Expand(data[m.pos]), ..m }
            }
        },
        Mode::Expand(al) => {
            let (ax, bx) = m.table[al as int];
            if ax / 256 == 0 {
                feed(m, (ax % 256) as u8, Mode::Read)
            } else if m.stack.len() >= 16 {
                Machine { mode: Mode::Stuck, ..m }
            } else {
                Machine { stack: m.stack.push(bx), mode: Mode::Drain(ax), ..m }
            }
        },
        Mode::Drain(ax) => {
            if ax / 256 == 1 {
                if m.stack.len() > 0 {
                    feed(
                        Machine { stack: m.stack.drop_last(), ..m },
                        (ax % 256) as u8,
                        Mode::Drain(m.stack.last()),
                    )
                } else {
                    feed(m, (ax % 256) as u8, Mode::Read)
                }
            } else {
                Machine { mode: Mode::Expand((ax % 256) as u8), ..m }
            }
        },
        _ => m,
    }
}

/// The decoder on `data` after `n` steps from `m`.
pub open spec fn machine_run(data: Seq<u8>, m: Machine, n: nat) -> Machine
    decreases n,
{
    if n == 0 {
        m
    } else {
        machine_step(data, machine_run(data, m, (n - 1) as nat))
    }
}

/// Whether decoding `data` ends, with a result or with none: the header is incomplete,
/// or the decoder reaches its end without getting stuck.
pub open spec fn unpack_terminates(data: Seq<u8>) -> bool {
    !header_ok(data) || exists|n: nat| {
        let m = #[trigger] machine_run(data, initial_machine(data), n);
        m.mode is Done || m.mode is Fail
    }
}

/// The decoder's final state on `data`, for `data` on which it ends.
pub open spec fn final_machine(data: Seq<u8>) -> Machine {
    let n = choose|n: nat| {
        let m = #[trigger] machine_run(data, initial_machine(data), n);
        m.mode is Done || m.mode is Fail
    };
    machine_run(data, initial_machine(data), n)
}

/// The unpacked resource, or `None` when the header is incomplete or the input ends
/// after an escape byte.
pub open spec fn unpack_spec(data: Seq<u8>) -> Option<Seq<u8>> {
    if !header_ok(data) {
        None
    } else if final_machine(data).mode is Done {
        Some(final_machine(data).out)
    } else {
        None
    }
}

/// Once the decoder has stopped it stays where it is.
proof fn lemma_halted_stays(data: Seq<u8>, m: Machine, a: nat, b: nat)
    requires
        a <= b,
        halted(machine_run(data, m, a)),
    ensures
        machine_run(data, m, b) == machine_run(data, m, a),
    decreases b - a,
{
    if a < b {
        lemma_halted_stays(data, m, a, (b - 1) as nat);
    }
}

/// Any stopping point of the decoder gives the final state.
proof fn lemma_final_machine(data: Seq<u8>, n: nat)
    requires
        machine_run(data, initial_machine(data), n).mode is Done
            || machine_run(data, initial_machine(data), n).mode is Fail,
    ensures
        final_machine(data) == machine_run(data, initial_machine(data), n),
{
    let m0 = initial_machine(data);
    assert({
        let m = machine_run(data, m0, n);
        m.mode is Done || m.mode is Fail
    });
    let n2 = choose|n: nat| {
        let m = #[trigger] machine_run(data, initial_machine(data), n);
        m.mode is Done || m.mode is Fail
    };
    if n2 <= n {
        lemma_halted_stays(data, m0, n2, n);
    } else {
        lemma_halted_stays(data, m0, n, n2);
    }
}

/// Expands the pair table with the definitions in the header of `data`; returns the
/// table and the position after the header.
fn read_header(data: &[u8]) -> (r: Option<([(u16, u16); 256], usize)>)
    ensures
        match r {
            None => !header_ok(data@),
            Some((t, p)) => header_ok(data@) && t@ == table_after(data@, data@[0] as nat) && p
                == 2 + 3 * data@[0],
        },
{
    if data.len() < 2 || data[0] == 0 {
        return None;
    }
    let len = data[0];
    let mut table = create_table();
    let mut k: u8 = 0;
    let mut pos: usize = 2;
    while k < len
        invariant
            k <= len,
            len == data@[0],
            pos == 2 + 3 * k,
            data@.len() >= 2,
            table@ == table_after(data@, k as nat),
        decreases len - k,
    {
        if pos + 3 > data.len() {
            return None;
        }
        let ix = data[pos];
        let lo = data[pos + 1];
        let hi = data[pos + 2];
        let f_lo: u16 = if table[lo as usize].1 != 0 {
            2
        } else {
            1
        };
        let f_hi: u16 = if table[hi as usize].1 != 0 {
            2
        } else {
            1
        };
        table[ix as usize] = ((lo as u16) + f_lo * 256, (hi as u16) + f_hi * 256);
        k = k + 1;
        pos = pos + 3;
        assert(table@ =~= table_after(data@, k as nat));
    }
    if pos > data.len() {
        return None;
    }
    Some((table, pos))
}

/// The decoder's position, as the program keeps it.
enum Cursor {
    Read,
    Expand(u8),
    Drain(u16),
}

/// The decoder state that the program's variables stand for.
spec fn machine_of(
    pos: usize,
    table: Seq<(u16, u16)>,
    stack: Seq<u16>,
    cursor: Cursor,
    action: Action,
    out: Seq<u8>,
) -> Machine {
    Machine {
        pos: pos as int,
        table,
        stack,
        mode: match cursor {
            Cursor::Read => Mode::Read,
            Cursor::Expand(al) => Mode::Expand(al),
            Cursor::Drain(ax) => Mode::Drain(ax),
        },
        action,
        out,
    }
}

/// Performs one decoder step. Returns `None` when decoding goes on, `Some(true)` when
/// the stream has ended and `Some(false)` when the input ended after an escape byte.
fn decode_step(
    data: &[u8],
    table: &[(u16, u16); 256],
    pos: &mut usize,
    stack: &mut CodeStack,
    cursor: &mut Cursor,
    action: &mut Action,
    unpacked: &mut Vec<u8>,
) -> (r: Option<bool>)
    requires
        data@.len() >= 2,
        code_stack_items(*old(stack)).len() <= 16,
        !(machine_step(
            data@,
            machine_of(*old(pos), table@, code_stack_items(*old(stack)), *old(cursor), *old(action), old(unpacked)@),
        ).mode is Stuck),
    ensures
        ({
            let m = machine_step(
                data@,
                machine_of(*old(pos), table@, code_stack_items(*old(stack)), *old(cursor), *old(action), old(unpacked)@),
            );
            &&& r is None ==> m == machine_of(*final(pos), table@, code_stack_items(*final(stack)), *final(cursor), *final(action), final(unpacked)@)
            &&& r == Some(true) ==> m.mode is Done && m.out == final(unpacked)@
            &&& r == Some(false) ==> m.mode is Fail
        }),
        code_stack_items(*final(stack)).len() <= 16,
{
    match *cursor {
        Cursor::Read => {
            if *pos >= data.len() {
                return Some(true);
            }
            let al = data[*pos];
            if al == data[1] {
                if *pos + 1 >= data.len() {
                    return Some(false);
                }
                let b = data[*pos + 1];
                *pos = *pos + 2;
                if action.step(unpacked, b) {
                    return Some(true);
                }
            } else {
                *pos = *pos + 1;
                *stack = code_stack_new();
                *cursor = Cursor::Expand(al);
            }
        },
        Cursor::Expand(al) => {
            let (ax, bx) = table[al as usize];
            if ax / 256 == 0 {
                if action.step(unpacked, (ax % 256) as u8) {
                    return Some(true);
                }
                *cursor = Cursor::Read;
            } else {
                let _ = code_stack_push(stack, bx);
                *cursor = Cursor::Drain(ax);
            }
        },
        Cursor::Drain(ax) => {
            if ax / 256 == 1 {
                let popped = code_stack_pop(stack);
                if action.step(unpacked, (ax % 256) as u8) {
                    return Some(true);
                }
                *cursor = match popped {
                    Some(a) => Cursor::Drain(a),
                    None => Cursor::Read,
                };
            } else {
                *cursor = Cursor::Expand((ax % 256) as u8);
            }
        },
    }
    None
}

/// Unpacks a packed resource.
///
/// Returns `None` when the data is empty, starts with a zero count, ends inside the
/// header, or ends right after an escape byte.
pub fn arc_unpack_res(data: &[u8]) -> (r: Option<Vec<u8>>)
    requires
        unpack_terminates(data@),
    ensures
        match r {
            Some(v) => unpack_spec(data@) == Some(v@),
            None => unpack_spec(data@) is None,
        },
{
    let (table, start) = match read_header(data) {
        None => return None,
        Some(h) => h,
    };
    let ghost d = data@;
    let ghost m0 = initial_machine(d);
    let ghost n = choose|n: nat| {
        let m = #[trigger] machine_run(data@, initial_machine(data@), n);
        m.mode is Done || m.mode is Fail
    };
    let ghost mut k: nat = 0;
    let mut pos: usize = start;
    let mut stack: CodeStack = code_stack_new();
    let mut cursor = Cursor::Read;
    let mut action = Action::Start;
    let mut unpacked: Vec<u8> = Vec::with_capacity(64768);
    assert(machine_run(d, m0, 0) == machine_of(pos, table@, code_stack_items(stack), cursor, action, unpacked@));
    loop
        invariant
            d == data@,
            header_ok(d),
            m0 == initial_machine(d),
            machine_run(d, m0, n).mode is Done || machine_run(d, m0, n).mode is Fail,
            machine_run(d, m0, k) == machine_of(pos, table@, code_stack_items(stack), cursor, action, unpacked@),
            code_stack_items(stack).len() <= 16,
            k <= n,
        decreases n - k,
    {
        proof {
            if k == n {
                assert(false);
            }
            assert(machine_run(d, m0, k + 1) == machine_step(d, machine_run(d, m0, k)));
            if machine_run(d, m0, k + 1).mode is Stuck {
                lemma_halted_stays(d, m0, k + 1, n);
                assert(false);
            }
        }
        let r = decode_step(data, &table, &mut pos, &mut stack, &mut cursor, &mut action, &mut unpacked);
        match r {
            Some(done) => {
                proof {
                    lemma_halted_stays(d, m0, k + 1, n);
                    lemma_final_machine(d, n);
                }
                if done {
                    return Some(unpacked);
                } else {
                    return None;
                }
            },
            None => {},
        }
        proof {
            k = k + 1;
        }
    }
}

} // verus!

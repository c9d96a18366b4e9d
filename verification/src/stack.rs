//! Fixed-capacity vectors of the `heapless` crate, as the library uses them.

use vstd::prelude::*;

verus! {

/// `heapless::Vec`: a vector with a capacity fixed by its type, kept inline.
#[verifier::external_type_specification]
#[verifier::external_body]
#[verifier::reject_recursive_types(T)]
pub struct ExHeaplessVec<T, const N: usize>(heapless::Vec<T, N>);

/// The stack of pending pair halves while a code is expanded.
pub type CodeStack = heapless::Vec<u16, 16>;

/// The items of a code stack, bottom first.
pub uninterp spec fn code_stack_items(s: heapless::Vec<u16, 16>) -> Seq<u16>;

/// `heapless::Vec::new`: an empty vector.
#[verifier::external_body]
pub(crate) fn code_stack_new() -> (s: CodeStack)
    ensures
        code_stack_items(s) == Seq::<u16>::empty(),
{
    heapless::Vec::new()
}

/// `heapless::Vec::push`: appends the item when fewer than 16 are held (the capacity)
/// and returns `Ok`; otherwise leaves the vector as it is and hands the item back.
#[verifier::external_body]
pub(crate) fn code_stack_push(s: &mut CodeStack, x: u16) -> (r: Result<(), u16>)
    requires
        code_stack_items(*old(s)).len() <= 16,
    ensures
        code_stack_items(*old(s)).len() < 16 ==> r is Ok
            && code_stack_items(*final(s)) == code_stack_items(*old(s)).push(x),
        code_stack_items(*old(s)).len() == 16 ==> (r matches Err(y) && y == x)
            && code_stack_items(*final(s)) == code_stack_items(*old(s)),
{
    s.push(x)
}

/// `heapless::Vec::pop`: removes and returns the last item, or returns `None` when
/// the vector is empty.
#[verifier::external_body]
pub(crate) fn code_stack_pop(s: &mut CodeStack) -> (r: Option<u16>)
    ensures
        code_stack_items(*old(s)).len() > 0 ==> r == Some(code_stack_items(*old(s)).last())
            && code_stack_items(*final(s)) == code_stack_items(*old(s)).drop_last(),
        code_stack_items(*old(s)).len() == 0 ==> r is None && code_stack_items(*final(s))
            == code_stack_items(*old(s)),
{
    s.pop()
}

/// The three characters of an answer to the protection question.
pub type SecretVec = heapless::Vec<u8, 3>;

/// The items of an answer vector, first first.
pub uninterp spec fn secret_items(s: heapless::Vec<u8, 3>) -> Seq<u8>;

/// `heapless::Vec::new`: an empty vector.
#[verifier::external_body]
pub(crate) fn secret_new() -> (s: SecretVec)
    ensures
        secret_items(s) == Seq::<u8>::empty(),
{
    heapless::Vec::new()
}

/// `heapless::Vec::push`: appends the item when fewer than 3 are held (the capacity)
/// and returns `Ok`; otherwise leaves the vector as it is and hands the item back.
#[verifier::external_body]
pub(crate) fn secret_push(s: &mut SecretVec, x: u8) -> (r: Result<(), u8>)
    requires
        secret_items(*old(s)).len() <= 3,
    ensures
        secret_items(*old(s)).len() < 3 ==> r is Ok && secret_items(*final(s)) == secret_items(*old(s)).push(x),
        secret_items(*old(s)).len() == 3 ==> (r matches Err(y) && y == x) && secret_items(*final(s))
            == secret_items(*old(s)),
{
    s.push(x)
}

/// `heapless::Vec::resize`: for a length up to the capacity 3, appends copies of the
/// value up to that length (or cuts the vector to it) and returns `Ok`; for a longer
/// length leaves the vector as it is and returns `Err`.
#[verifier::external_body]
pub(crate) fn secret_resize(s: &mut SecretVec, new_len: usize, value: u8) -> (r: Result<(), ()>)
    requires
        secret_items(*old(s)).len() <= 3,
    ensures
        new_len <= 3 ==> r is Ok && secret_items(*final(s)) == (if new_len <= secret_items(*old(s)).len() {
            secret_items(*old(s)).subrange(0, new_len as int)
        } else {
            secret_items(*old(s)) + Seq::new((new_len - secret_items(*old(s)).len()) as nat, |i: int| value)
        }),
        new_len > 3 ==> r is Err && secret_items(*final(s)) == secret_items(*old(s)),
{
    s.resize(new_len, value)
}

} // verus!

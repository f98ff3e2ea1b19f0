//! Fixed-capacity buffers from `heapless` and the contracts this crate relies on.
//!
//! Two instantiations of `heapless::Vec` carry data that the library reads:
//! the typed amount (`Chars11`) and the chunk pipe (`MsgPipe`). Their
//! contents are named by `chars11` and `pipe_rows`; every method that the
//! logic calls on them goes through one of the wrappers below.
use vstd::prelude::*;

verus! {

#[verifier::external_type_specification]
#[verifier::external_body]
#[verifier::reject_recursive_types(T)]
pub struct ExHeaplessVec<T, const N: usize>(heapless::Vec<T, N>);

/// The amount typed on the keypad: at most 11 characters.
pub type Chars11 = heapless::Vec<char, 11>;

/// The chunks received from one BLE peer: at most 20 chunks of at most 16 bytes.
pub type MsgPipe = heapless::Vec<heapless::Vec<u8, 16>, 20>;

/// The price chunks kept for one BLE peer: at most 5 chunks of at most 16 bytes.
pub type PricePipe = heapless::Vec<heapless::Vec<u8, 16>, 5>;

/// The characters held by a `Chars11`, in order.
pub uninterp spec fn chars11(v: heapless::Vec<char, 11>) -> Seq<char>;

/// The chunks held by a `MsgPipe`, in order, each as its bytes.
pub uninterp spec fn pipe_rows(p: heapless::Vec<heapless::Vec<u8, 16>, 20>) -> Seq<Seq<u8>>;

/// `heapless::Vec::<char, 11>::new`: an empty vector.
#[verifier::external_body]
pub(crate) fn chars11_new() -> (r: Chars11)
    ensures
        chars11(r) == Seq::<char>::empty(),
{
    heapless::Vec::new()
}

/// The slice length of a `Chars11` (through `Deref`): the number of
/// characters held, which never exceeds the capacity 11.
#[verifier::external_body]
pub(crate) fn chars11_len(v: &Chars11) -> (r: usize)
    ensures
        r == chars11(*v).len(),
        r <= 11,
{
    v.len()
}

/// Indexing a `Chars11` (through `Deref` to a slice): the `i`-th character.
#[verifier::external_body]
pub(crate) fn chars11_get(v: &Chars11, i: usize) -> (r: char)
    requires
        i < chars11(*v).len(),
    ensures
        r == chars11(*v)[i as int],
{
    v[i]
}

/// `heapless::Vec::push` on a `Chars11`: appends when fewer than 11
/// characters are held and reports `true`; otherwise leaves the vector as it
/// was and reports `false` (the crate hands the item back in `Err`).
#[verifier::external_body]
pub(crate) fn chars11_push(v: &mut Chars11, c: char) -> (r: bool)
    ensures
        r == (chars11(*old(v)).len() < 11),
        r ==> chars11(*final(v)) == chars11(*old(v)).push(c),
        !r ==> chars11(*final(v)) == chars11(*old(v)),
{
    v.push(c).is_ok()
}

/// `heapless::Vec::pop` on a `Chars11`: removes and returns the last
/// character, or returns `None` when the vector is empty.
#[verifier::external_body]
pub(crate) fn chars11_pop(v: &mut Chars11) -> (r: Option<char>)
    ensures
        chars11(*old(v)).len() == 0 ==> r is None && chars11(*final(v)) == chars11(*old(v)),
        chars11(*old(v)).len() > 0 ==> r == Some(chars11(*old(v)).last())
            && chars11(*final(v)) == chars11(*old(v)).drop_last(),
{
    v.pop()
}

/// `heapless::Vec::clear` on a `Chars11`: removes every character.
#[verifier::external_body]
pub(crate) fn chars11_clear(v: &mut Chars11)
    ensures
        chars11(*final(v)) == Seq::<char>::empty(),
{
    v.clear()
}

/// `heapless::Vec::<_, 20>::new` for a `MsgPipe`: no chunk.
#[verifier::external_body]
pub(crate) fn pipe_new() -> (r: MsgPipe)
    ensures
        pipe_rows(r) == Seq::<Seq<u8>>::empty(),
{
    heapless::Vec::new()
}

/// The slice length of a `MsgPipe`: the number of chunks, at most 20.
#[verifier::external_body]
pub(crate) fn pipe_len(p: &MsgPipe) -> (r: usize)
    ensures
        r == pipe_rows(*p).len(),
        r <= 20,
{
    p.len()
}

/// Indexing a `MsgPipe`: the bytes of the `i`-th chunk, copied out into a
/// `Vec` (a chunk holds at most 16 bytes).
#[verifier::external_body]
pub(crate) fn pipe_row(p: &MsgPipe, i: usize) -> (r: Vec<u8>)
    requires
        i < pipe_rows(*p).len(),
    ensures
        r@ == pipe_rows(*p)[i as int],
        r@.len() <= 16,
{
    p[i].to_vec()
}

/// `heapless::Vec::push` on a `MsgPipe`, of the chunk made from `row` (which
/// fits the 16-byte chunk capacity): appends when fewer than 20 chunks are
/// held and reports `true`; otherwise leaves the pipe as it was.
#[verifier::external_body]
pub(crate) fn pipe_push(p: &mut MsgPipe, row: &[u8]) -> (r: bool)
    requires
        row@.len() <= 16,
    ensures
        r == (pipe_rows(*old(p)).len() < 20),
        r ==> pipe_rows(*final(p)) == pipe_rows(*old(p)).push(row@),
        !r ==> pipe_rows(*final(p)) == pipe_rows(*old(p)),
{
    p.push(heapless::Vec::from_slice(row).unwrap()).is_ok()
}

/// `heapless::Vec::clear` on a `MsgPipe`: removes every chunk.
#[verifier::external_body]
pub(crate) fn pipe_clear(p: &mut MsgPipe)
    ensures
        pipe_rows(*final(p)) == Seq::<Seq<u8>>::empty(),
{
    p.clear()
}

/// `core::mem::take` on a `MsgPipe`: returns the pipe and leaves the
/// default (empty) pipe in its place.
#[verifier::external_body]
pub(crate) fn pipe_take(p: &mut MsgPipe) -> (r: MsgPipe)
    ensures
        pipe_rows(r) == pipe_rows(*old(p)),
        pipe_rows(*final(p)) == Seq::<Seq<u8>>::empty(),
{
    core::mem::take(p)
}

} // verus!

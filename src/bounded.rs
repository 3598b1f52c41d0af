//! Fixed-capacity storage from `heapless`: the character buffer of one line
//! and the ring of past lines. Each operation the library uses stands here
//! with what `heapless::Vec` does, over the contents named below.

use vstd::prelude::*;

verus! {

#[verifier::external_type_specification]
#[verifier::external_body]
#[verifier::reject_recursive_types(T)]
pub struct ExHeaplessVec<T, const N: usize>(heapless::Vec<T, N>);

/// Most characters one line holds.
pub const LINE_CAPACITY: usize = 256;

/// Most lines the history holds.
pub const HISTORY_CAPACITY: usize = 32;

/// The characters held by a line store, in order.
pub uninterp spec fn line_chars(v: heapless::Vec<char, 256>) -> Seq<char>;

/// The lines held by a history store, oldest first.
pub uninterp spec fn stored_lines(v: heapless::Vec<heapless::Vec<char, 256>, 32>) -> Seq<Seq<char>>;

/// Relies on `heapless::Vec::new`: a new vector is empty.
#[verifier::external_body]
pub(crate) fn line_new() -> (r: heapless::Vec<char, 256>)
    ensures
        line_chars(r) == Seq::<char>::empty(),
{
    heapless::Vec::new()
}

/// Relies on `heapless::Vec::as_slice`: the slice is the contents, which
/// never exceed the capacity.
#[verifier::external_body]
pub(crate) fn line_as_slice(v: &heapless::Vec<char, 256>) -> (r: &[char])
    ensures
        r@ == line_chars(*v),
        r@.len() <= 256,
{
    v.as_slice()
}

/// Relies on `heapless::Vec::push`: appends when below capacity, else
/// leaves the vector as it was and hands the item back.
#[verifier::external_body]
pub(crate) fn line_push(v: &mut heapless::Vec<char, 256>, c: char) -> (r: Result<(), char>)
    ensures
        r is Ok <==> line_chars(*old(v)).len() < 256,
        r is Ok ==> line_chars(*final(v)) == line_chars(*old(v)).push(c),
        r is Err ==> line_chars(*final(v)) == line_chars(*old(v)),
{
    v.push(c)
}

/// Relies on `heapless::Vec::pop`: removes and returns the last item, or
/// returns `None` on an empty vector.
#[verifier::external_body]
pub(crate) fn line_pop(v: &mut heapless::Vec<char, 256>) -> (r: Option<char>)
    ensures
        line_chars(*old(v)).len() > 0 ==> r == Some(line_chars(*old(v)).last()) && line_chars(*final(v)) == line_chars(*old(v)).drop_last(),
        line_chars(*old(v)).len() == 0 ==> r is None && line_chars(*final(v)) == line_chars(*old(v)),
{
    v.pop()
}

/// Relies on `heapless::Vec::clear`: the vector becomes empty.
#[verifier::external_body]
pub(crate) fn line_clear(v: &mut heapless::Vec<char, 256>)
    ensures
        line_chars(*final(v)) == Seq::<char>::empty(),
{
    v.clear()
}

/// Relies on `heapless::Vec::extend_from_slice`: appends the whole slice when
/// it fits, else leaves the vector as it was and returns `Err`.
#[verifier::external_body]
pub(crate) fn line_extend(v: &mut heapless::Vec<char, 256>, s: &[char]) -> (r: Result<(), ()>)
    ensures
        line_chars(*old(v)).len() + s@.len() <= 256 ==> r is Ok && line_chars(*final(v)) == line_chars(*old(v)) + s@,
        line_chars(*old(v)).len() + s@.len() > 256 ==> r is Err && line_chars(*final(v)) == line_chars(*old(v)),
{
    v.extend_from_slice(s)
}

/// Relies on `heapless::Vec::new`: a new vector is empty.
#[verifier::external_body]
pub(crate) fn history_new() -> (r: heapless::Vec<heapless::Vec<char, 256>, 32>)
    ensures
        stored_lines(r) == Seq::<Seq<char>>::empty(),
{
    heapless::Vec::new()
}

/// Relies on `heapless::Vec::as_slice`: the slice is the contents, which
/// never exceed the capacity.
#[verifier::external_body]
pub(crate) fn history_as_slice(v: &heapless::Vec<heapless::Vec<char, 256>, 32>) -> (r: &[heapless::Vec<char, 256>])
    ensures
        r@.len() == stored_lines(*v).len(),
        r@.len() <= 32,
        forall|i: int| 0 <= i < r@.len() ==> #[trigger] line_chars(r@[i]) == stored_lines(*v)[i],
{
    v.as_slice()
}

/// Relies on `heapless::Vec::push`: appends when below capacity, else
/// leaves the vector as it was and hands the item back.
#[verifier::external_body]
pub(crate) fn history_push(v: &mut heapless::Vec<heapless::Vec<char, 256>, 32>, item: heapless::Vec<char, 256>) -> (r: bool)
    ensures
        stored_lines(*old(v)).len() < 32 ==> r && stored_lines(*final(v)) == stored_lines(*old(v)).push(line_chars(item)),
        stored_lines(*old(v)).len() >= 32 ==> !r && stored_lines(*final(v)) == stored_lines(*old(v)),
{
    v.push(item).is_ok()
}

/// Relies on `heapless::Vec::remove`: takes out the item at `index` and
/// shifts the later ones down; it panics out of bounds, hence the bound.
#[verifier::external_body]
pub(crate) fn history_remove(v: &mut heapless::Vec<heapless::Vec<char, 256>, 32>, index: usize)
    requires
        index < stored_lines(*old(v)).len(),
    ensures
        stored_lines(*final(v)) == stored_lines(*old(v)).remove(index as int),
{
    v.remove(index);
}

} // verus!

//! The bounded table behind a world's palette, stored by `arrayvec`.
//!
//! Each entry is the `(red, green, blue)` triple of a material's color. The
//! functions here are thin, unverified bindings: each body is a single
//! `ArrayVec` call and its contract records what that call is documented to
//! do, over the one name `table_entries`.

use vstd::prelude::*;

verus! {

/// Most entries a palette can hold: one for every value of a voxel id.
pub const CAPACITY: usize = 256;

/// `arrayvec::ArrayVec`: a vector of at most `CAP` elements, stored inline.
#[verifier::external_type_specification]
#[verifier::external_body]
#[verifier::reject_recursive_types(T)]
pub struct ExArrayVec<T, const CAP: usize>(arrayvec::ArrayVec<T, CAP>);

/// The entries of the table, oldest first.
pub uninterp spec fn table_entries(t: arrayvec::ArrayVec<(u8, u8, u8), 256>) -> Seq<(u8, u8, u8)>;

/// `ArrayVec::new`: a table without entries.
#[verifier::external_body]
pub(crate) fn table_new() -> (t: arrayvec::ArrayVec<(u8, u8, u8), 256>)
    ensures
        table_entries(t) == Seq::<(u8, u8, u8)>::empty(),
{
    arrayvec::ArrayVec::new()
}

/// `ArrayVec::len`: the number of entries, which never exceeds the capacity.
#[verifier::external_body]
pub(crate) fn table_len(t: &arrayvec::ArrayVec<(u8, u8, u8), 256>) -> (n: usize)
    ensures
        n == table_entries(*t).len(),
        n <= 256,
{
    t.len()
}

/// `ArrayVec::push`: the entry is appended. The call panics on a full table,
/// which the precondition excludes.
#[verifier::external_body]
pub(crate) fn table_push(t: &mut arrayvec::ArrayVec<(u8, u8, u8), 256>, entry: (u8, u8, u8))
    requires
        table_entries(*old(t)).len() < 256,
    ensures
        table_entries(*final(t)) == table_entries(*old(t)).push(entry),
{
    t.push(entry)
}

/// Indexing an `ArrayVec` as a slice: the entry at `index`. The index
/// operator panics past the last entry, which the precondition excludes.
#[verifier::external_body]
pub(crate) fn table_get(t: &arrayvec::ArrayVec<(u8, u8, u8), 256>, index: usize) -> (entry: (u8, u8, u8))
    requires
        index < table_entries(*t).len(),
    ensures
        entry == table_entries(*t)[index as int],
{
    t[index]
}

} // verus!

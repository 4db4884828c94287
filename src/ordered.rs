//! An insertion-ordered map from names to positions, kept in an `IndexMap`.
use vstd::prelude::*;
use indexmap::IndexMap;

verus! {

#[verifier::external_type_specification]
#[verifier::external_body]
#[verifier::reject_recursive_types(K)]
#[verifier::reject_recursive_types(V)]
#[verifier::reject_recursive_types(S)]
pub struct ExIndexMap<K, V, S>(IndexMap<K, V, S>);

#[verifier::external_type_specification]
#[verifier::external_body]
pub struct ExAHashState(ahash::RandomState);

/// The entries of an ordered name map, in insertion order.
pub uninterp spec fn entries(m: IndexMap<String, usize, ahash::RandomState>) -> Seq<(Seq<char>, usize)>;

/// The first position of key `k` among `e`, or -1.
pub open spec fn key_index(e: Seq<(Seq<char>, usize)>, k: Seq<char>) -> int
    decreases e.len(),
{
    if e.len() == 0 {
        -1
    } else {
        let prev = key_index(e.drop_last(), k);
        if prev >= 0 {
            prev
        } else if e.last().0 == k {
            e.len() - 1
        } else {
            -1
        }
    }
}

/// The entries after `k` is inserted with `v`: an existing key keeps its
/// place and takes the new value; a new key goes last.
pub open spec fn insert_spec(e: Seq<(Seq<char>, usize)>, k: Seq<char>, v: usize) -> Seq<(Seq<char>, usize)> {
    if key_index(e, k) >= 0 {
        e.update(key_index(e, k), (k, v))
    } else {
        e.push((k, v))
    }
}

/// Relies on `IndexMap::default` (with ahash's `RandomState::default` as the
/// hasher): a new map holds no entry.
#[verifier::external_body]
pub(crate) fn new_name_map() -> (r: IndexMap<String, usize, ahash::RandomState>)
    ensures
        entries(r) == Seq::<(Seq<char>, usize)>::empty(),
{
    IndexMap::default()
}

/// Relies on `IndexMap::insert`: an existing key keeps its place, its value
/// is replaced and the old value returned; a new key is put last and `None`
/// is returned.
#[verifier::external_body]
pub(crate) fn insert_name(m: &mut IndexMap<String, usize, ahash::RandomState>, k: String, v: usize) -> (r: Option<usize>)
    ensures
        entries(*final(m)) == insert_spec(entries(*old(m)), k@, v),
        r is None <==> key_index(entries(*old(m)), k@) < 0,
        r matches Some(o) ==> o == entries(*old(m))[key_index(entries(*old(m)), k@)].1,
{
    m.insert(k, v)
}

} // verus!

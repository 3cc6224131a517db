//! Ordered string attribute maps, held in an `indexmap::IndexMap`.
//!
//! The library reads a map only through the functions below; their model is
//! the sequence of `(key, value)` entries in insertion order.

use indexmap::IndexMap;
use vstd::prelude::*;
use crate::text::opt_str_view;

verus! {

#[verifier::external_type_specification]
#[verifier::external_body]
#[verifier::reject_recursive_types(K)]
#[verifier::reject_recursive_types(V)]
#[verifier::reject_recursive_types(S)]
pub struct ExIndexMap<K, V, S>(IndexMap<K, V, S>);

/// An ordered map from attribute name to value.
pub type AttrMap = IndexMap<String, String>;

/// The entries of an attribute map, in iteration order.
pub uninterp spec fn attr_entries(m: IndexMap<String, String>) -> Seq<(Seq<char>, Seq<char>)>;

pub type Entries = Seq<(Seq<char>, Seq<char>)>;

/// No key occurs twice.
pub open spec fn keys_unique(s: Entries) -> bool {
    forall|i: int, j: int| 0 <= i < s.len() && 0 <= j < s.len() && i != j ==> s[i].0 != s[j].0
}

/// Position of the entry whose key is `k`, or -1 when there is none.
pub open spec fn entry_index(s: Entries, k: Seq<char>) -> int
    decreases s.len(),
{
    if s.len() == 0 {
        -1
    } else if s.last().0 == k {
        s.len() - 1
    } else {
        entry_index(s.drop_last(), k)
    }
}

/// The value stored under `k`.
pub open spec fn entry_get(s: Entries, k: Seq<char>) -> Option<Seq<char>> {
    let i = entry_index(s, k);
    if i < 0 {
        None
    } else {
        Some(s[i].1)
    }
}

/// Insert-or-replace: an existing key keeps its place and gets the new value;
/// a new key is appended.
pub open spec fn entry_insert(s: Entries, k: Seq<char>, v: Seq<char>) -> Entries {
    let i = entry_index(s, k);
    if i < 0 {
        s.push((k, v))
    } else {
        s.update(i, (k, v))
    }
}

/// Removal that moves the last entry into the removed entry's place.
pub open spec fn entry_swap_remove(s: Entries, k: Seq<char>) -> Entries {
    let i = entry_index(s, k);
    if i < 0 {
        s
    } else if i == s.len() - 1 {
        s.drop_last()
    } else {
        s.update(i, s.last()).drop_last()
    }
}

/// Removal that keeps the relative order of the remaining entries.
pub open spec fn entry_shift_remove(s: Entries, k: Seq<char>) -> Entries {
    let i = entry_index(s, k);
    if i < 0 {
        s
    } else {
        s.remove(i)
    }
}

/// Two entry lists hold the same key/value pairs, whatever their order.
pub open spec fn same_entries(a: Entries, b: Entries) -> bool {
    &&& a.len() == b.len()
    &&& forall|i: int| 0 <= i < a.len() ==> entry_get(b, #[trigger] a[i].0) == Some(a[i].1)
}

pub proof fn lemma_entry_index_bounds(s: Entries, k: Seq<char>)
    ensures
        -1 <= entry_index(s, k) < s.len(),
        entry_index(s, k) >= 0 ==> s[entry_index(s, k)].0 == k,
        entry_index(s, k) < 0 ==> forall|j: int| 0 <= j < s.len() ==> s[j].0 != k,
    decreases s.len(),
{
    if s.len() > 0 {
        lemma_entry_index_bounds(s.drop_last(), k);
        if entry_index(s, k) < 0 {
            assert forall|j: int| 0 <= j < s.len() implies s[j].0 != k by {
                if j < s.len() - 1 {
                    assert(s.drop_last()[j] == s[j]);
                }
            }
        }
    }
}

/// An empty attribute map (`IndexMap::new`).
#[verifier::external_body]
pub(crate) fn attrs_new() -> (m: AttrMap)
    ensures
        attr_entries(m) == Seq::<(Seq<char>, Seq<char>)>::empty(),
{
    IndexMap::new()
}

/// `IndexMap::get`, cloning the value out.
#[verifier::external_body]
pub(crate) fn attrs_get(m: &AttrMap, k: &str) -> (r: Option<String>)
    ensures
        opt_str_view(r) == entry_get(attr_entries(*m), k@),
{
    m.get(k).cloned()
}

/// `IndexMap::insert`: an existing key keeps its position, a new one goes last.
#[verifier::external_body]
pub(crate) fn attrs_insert(m: &mut AttrMap, k: String, v: String)
    ensures
        attr_entries(*final(m)) == entry_insert(attr_entries(*old(m)), k@, v@),
{
    m.insert(k, v);
}

/// `IndexMap::swap_remove`.
#[verifier::external_body]
pub(crate) fn attrs_swap_remove(m: &mut AttrMap, k: &str) -> (r: Option<String>)
    ensures
        attr_entries(*final(m)) == entry_swap_remove(attr_entries(*old(m)), k@),
        opt_str_view(r) == entry_get(attr_entries(*old(m)), k@),
{
    m.swap_remove(k)
}

/// `IndexMap::shift_remove`.
#[verifier::external_body]
pub(crate) fn attrs_shift_remove(m: &mut AttrMap, k: &str) -> (r: Option<String>)
    ensures
        attr_entries(*final(m)) == entry_shift_remove(attr_entries(*old(m)), k@),
        opt_str_view(r) == entry_get(attr_entries(*old(m)), k@),
{
    m.shift_remove(k)
}

/// `IndexMap::iter`, each entry copied out as a pair of strings.
#[verifier::external_body]
pub(crate) fn attrs_entries(m: &AttrMap) -> (r: Vec<(String, String)>)
    ensures
        r.deep_view() == attr_entries(*m),
        keys_unique(r.deep_view()),
{
    m.iter().map(|(k, v)| (k.clone(), v.clone())).collect()
}

/// `IndexMap::clone`.
#[verifier::external_body]
pub(crate) fn attrs_clone(m: &AttrMap) -> (r: AttrMap)
    ensures
        attr_entries(r) == attr_entries(*m),
{
    m.clone()
}

/// `IndexMap::eq`: same length and every entry of `a` found in `b`.
#[verifier::external_body]
pub(crate) fn attrs_eq(a: &AttrMap, b: &AttrMap) -> (r: bool)
    ensures
        r == same_entries(attr_entries(*a), attr_entries(*b)),
{
    a == b
}

} // verus!

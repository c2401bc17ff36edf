//! The ordered set of findings and the ordered id catalog, both held in
//! `indexmap` collections, with their contents as sequences.

use vstd::prelude::*;
use indexmap::{IndexMap, IndexSet};
use crate::message::{MSG, Message, MessageView, MsgView};

verus! {

#[verifier::external_type_specification]
#[verifier::external_body]
#[verifier::reject_recursive_types(T)]
#[verifier::reject_recursive_types(S)]
pub struct ExIndexSet<T, S>(IndexSet<T, S>);

#[verifier::external_type_specification]
#[verifier::external_body]
#[verifier::reject_recursive_types(K)]
#[verifier::reject_recursive_types(V)]
#[verifier::reject_recursive_types(S)]
pub struct ExIndexMap<K, V, S>(IndexMap<K, V, S>);

/// The findings a set holds, in insertion order.
pub uninterp spec fn message_set_items(s: IndexSet<Message>) -> Seq<MessageView>;

/// The entries of a catalog, id and entry, in insertion order.
pub uninterp spec fn catalog_entries(m: IndexMap<String, MSG>) -> Seq<(Seq<char>, MsgView)>;

/// The position of the first entry with key `k`, if there is one.
pub open spec fn key_index(e: Seq<(Seq<char>, MsgView)>, k: Seq<char>) -> Option<int>
    decreases e.len(),
{
    if e.len() == 0 {
        None
    } else {
        match key_index(e.drop_last(), k) {
            Some(j) => Some(j),
            None => if e.last().0 == k {
                Some(e.len() - 1)
            } else {
                None
            },
        }
    }
}

/// How `key_index` steps over an entry added last.
pub proof fn lemma_key_index_push(e: Seq<(Seq<char>, MsgView)>, x: (Seq<char>, MsgView), k: Seq<char>)
    ensures
        key_index(e.push(x), k) == match key_index(e, k) {
            Some(j) => Some(j),
            None => if x.0 == k {
                Some(e.len() as int)
            } else {
                None
            },
        },
{
    assert(e.push(x).drop_last() =~= e);
}

/// The catalog entry for `k`, if there is one.
pub open spec fn catalog_lookup(e: Seq<(Seq<char>, MsgView)>, k: Seq<char>) -> Option<MsgView> {
    match key_index(e, k) {
        Some(j) => Some(e[j].1),
        None => None,
    }
}

/// The entries after inserting `k` with `v`: an existing key keeps its
/// place and takes the new entry, a new key goes last.
pub open spec fn catalog_inserted(e: Seq<(Seq<char>, MsgView)>, k: Seq<char>, v: MsgView) -> Seq<
    (Seq<char>, MsgView),
> {
    match key_index(e, k) {
        Some(j) => e.update(j, (k, v)),
        None => e.push((k, v)),
    }
}

/// The items after inserting `m`: unchanged if an equal item is held,
/// else `m` goes last.
pub open spec fn set_inserted(s: Seq<MessageView>, m: MessageView) -> Seq<MessageView> {
    if s.contains(m) {
        s
    } else {
        s.push(m)
    }
}

/// Relies on `IndexSet::new`: a new set is empty.
#[verifier::external_body]
pub(crate) fn new_message_set() -> (r: IndexSet<Message>)
    ensures
        message_set_items(r) == Seq::<MessageView>::empty(),
{
    IndexSet::new()
}

/// Relies on `IndexSet::insert`: an item equal to one already held (derived
/// `Eq`, so field by field) leaves the set unchanged and `false` is returned;
/// otherwise the item is added last and `true` is returned.
#[verifier::external_body]
pub(crate) fn message_set_insert(s: &mut IndexSet<Message>, m: Message) -> (r: bool)
    ensures
        r == !message_set_items(*old(s)).contains(m@),
        message_set_items(*final(s)) == set_inserted(message_set_items(*old(s)), m@),
{
    s.insert(m)
}

/// Relies on `IndexSet::len`: the number of items held.
#[verifier::external_body]
pub(crate) fn message_set_len(s: &IndexSet<Message>) -> (r: usize)
    ensures
        r == message_set_items(*s).len(),
{
    s.len()
}

/// Relies on `IndexSet::get_index`: the item at position `i`, if `i` is
/// below the length.
#[verifier::external_body]
pub(crate) fn message_set_get(s: &IndexSet<Message>, i: usize) -> (r: Option<&Message>)
    ensures
        i < message_set_items(*s).len() ==> r.is_some() && r.unwrap()@ == message_set_items(*s)[i as int],
        i >= message_set_items(*s).len() ==> r.is_none(),
{
    s.get_index(i)
}

/// Relies on `IndexMap::new`: a new map is empty.
#[verifier::external_body]
pub(crate) fn new_catalog() -> (r: IndexMap<String, MSG>)
    ensures
        catalog_entries(r) == Seq::<(Seq<char>, MsgView)>::empty(),
{
    IndexMap::new()
}

/// Relies on `IndexMap::insert`: an existing key keeps its place and its
/// entry is replaced; a new key is added last.
#[verifier::external_body]
pub(crate) fn catalog_insert(m: &mut IndexMap<String, MSG>, k: String, v: MSG)
    ensures
        catalog_entries(*final(m)) == catalog_inserted(catalog_entries(*old(m)), k@, v@),
{
    m.insert(k, v);
}

/// Relies on `IndexMap::get`: the entry stored under `k`, if any.
#[verifier::external_body]
pub(crate) fn catalog_get<'a>(m: &'a IndexMap<String, MSG>, k: &String) -> (r: Option<&'a MSG>)
    ensures
        match catalog_lookup(catalog_entries(*m), k@) {
            Some(v) => r.is_some() && r.unwrap()@ == v,
            None => r.is_none(),
        },
{
    m.get(k)
}

/// Relies on `IndexMap::len`: the number of entries.
#[verifier::external_body]
pub(crate) fn catalog_len(m: &IndexMap<String, MSG>) -> (r: usize)
    ensures
        r == catalog_entries(*m).len(),
{
    m.len()
}

/// Relies on `IndexMap::get_index`: the key and entry at position `i`, if
/// `i` is below the length.
#[verifier::external_body]
pub(crate) fn catalog_get_index<'a>(m: &'a IndexMap<String, MSG>, i: usize) -> (r: Option<
    (&'a String, &'a MSG),
>)
    ensures
        i < catalog_entries(*m).len() ==> r.is_some() && r.unwrap().0@ == catalog_entries(
            *m,
        )[i as int].0 && r.unwrap().1@ == catalog_entries(*m)[i as int].1,
        i >= catalog_entries(*m).len() ==> r.is_none(),
{
    m.get_index(i)
}

} // verus!

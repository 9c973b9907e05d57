//! The insertion-ordered maps of the model (`indexmap::IndexMap`), keyed by
//! name.
use vstd::prelude::*;
use indexmap::IndexMap;
use crate::model::{ActorDef, ActorDefView, TraitDef, TraitDefView};

verus! {

#[verifier::external_type_specification]
#[verifier::external_body]
#[verifier::reject_recursive_types(K)]
#[verifier::reject_recursive_types(V)]
#[verifier::reject_recursive_types(S)]
pub struct ExIndexMap<K, V, S>(IndexMap<K, V, S>);

/// The entries of an actor map, in order: each key and the view of its
/// value.
pub uninterp spec fn actor_entries(m: IndexMap<String, ActorDef>) -> Seq<(Seq<char>, ActorDefView)>;

/// The entries of a trait map, in order: each key and the view of its value.
pub uninterp spec fn trait_entries(m: IndexMap<String, TraitDef>) -> Seq<(Seq<char>, TraitDefView)>;

/// The index of the first entry with key `k`, if there is one.
pub open spec fn key_index<V>(entries: Seq<(Seq<char>, V)>, k: Seq<char>) -> Option<int>
    decreases entries.len(),
{
    if entries.len() == 0 {
        None
    } else if entries[0].0 == k {
        Some(0)
    } else {
        match key_index(entries.skip(1), k) {
            Some(i) => Some(i + 1),
            None => None,
        }
    }
}

/// The entries after inserting `(k, v)`: the value of an entry with key `k`
/// is replaced in place, or the pair goes last.
pub open spec fn inserted<V>(entries: Seq<(Seq<char>, V)>, k: Seq<char>, v: V) -> Seq<(Seq<char>, V)> {
    match key_index(entries, k) {
        Some(i) => entries.update(i, (k, v)),
        None => entries.push((k, v)),
    }
}

/// The index of a key is the index of an entry with that key.
pub proof fn lemma_key_index<V>(entries: Seq<(Seq<char>, V)>, k: Seq<char>)
    ensures
        key_index(entries, k) matches Some(i) ==> 0 <= i < entries.len() && entries[i].0 == k,
        key_index(entries, k) is None ==> forall|j: int| 0 <= j < entries.len() ==> entries[j].0 != k,
    decreases entries.len(),
{
    if entries.len() > 0 && entries[0].0 != k {
        lemma_key_index(entries.skip(1), k);
        if key_index(entries, k) is None {
            assert forall|j: int| 0 <= j < entries.len() implies entries[j].0 != k by {
                if j > 0 {
                    assert(entries.skip(1)[j - 1] == entries[j]);
                }
            }
        }
    }
}

/// Replacing the value at the index of a key keeps that index.
pub proof fn lemma_key_index_update<V>(entries: Seq<(Seq<char>, V)>, k: Seq<char>, i: int, v: V)
    requires
        key_index(entries, k) == Some(i),
    ensures
        key_index(entries.update(i, (k, v)), k) == Some(i),
    decreases entries.len(),
{
    lemma_key_index(entries, k);
    if i > 0 {
        lemma_key_index_update(entries.skip(1), k, i - 1, v);
        assert(entries.update(i, (k, v)).skip(1) =~= entries.skip(1).update(i - 1, (k, v)));
    }
}

/// A key that no entry has is at the end after it is added.
pub proof fn lemma_key_index_push<V>(entries: Seq<(Seq<char>, V)>, k: Seq<char>, v: V)
    requires
        key_index(entries, k) is None,
    ensures
        key_index(entries.push((k, v)), k) == Some(entries.len() as int),
    decreases entries.len(),
{
    if entries.len() > 0 {
        lemma_key_index_push(entries.skip(1), k, v);
        assert(entries.push((k, v)).skip(1) =~= entries.skip(1).push((k, v)));
    }
}

/// `IndexMap::new` for actors: an empty map.
#[verifier::external_body]
pub(crate) fn new_actor_map() -> (m: IndexMap<String, ActorDef>)
    ensures
        actor_entries(m) == Seq::<(Seq<char>, ActorDefView)>::empty(),
{
    IndexMap::new()
}

/// `IndexMap::len` for actors: the number of entries.
#[verifier::external_body]
pub(crate) fn actor_map_len(m: &IndexMap<String, ActorDef>) -> (n: usize)
    ensures
        n == actor_entries(*m).len(),
{
    m.len()
}

/// `IndexMap::get_index` for actors: the entry at index `i`, if there is one.
#[verifier::external_body]
pub(crate) fn actor_map_get_index(m: &IndexMap<String, ActorDef>, i: usize) -> (r: Option<(&String, &ActorDef)>)
    ensures
        r is Some <==> i < actor_entries(*m).len(),
        r matches Some((k, v)) ==> (k@, v@) == actor_entries(*m)[i as int],
{
    m.get_index(i)
}

/// `IndexMap::insert` for actors: replaces the value of the entry with key
/// `k` in place and returns the old value, or adds the pair last.
#[verifier::external_body]
pub(crate) fn actor_map_insert(m: &mut IndexMap<String, ActorDef>, k: String, v: ActorDef) -> (r: Option<ActorDef>)
    ensures
        actor_entries(*final(m)) == inserted(actor_entries(*old(m)), k@, v@),
        match key_index(actor_entries(*old(m)), k@) {
            Some(i) => r matches Some(o) && o@ == actor_entries(*old(m))[i].1,
            None => r is None,
        },
{
    m.insert(k, v)
}

/// `IndexMap::retain` for actors: keeps, in order, the actors that have a
/// handler or a trait implementation.
#[verifier::external_body]
pub(crate) fn actor_map_retain_active(m: &mut IndexMap<String, ActorDef>)
    ensures
        actor_entries(*final(m)) == actor_entries(*old(m)).filter(
            |e: (Seq<char>, ActorDefView)| e.1.is_active(),
        ),
{
    m.retain(|_, v| v.is_active())
}

/// `IndexMap::new` for traits: an empty map.
#[verifier::external_body]
pub(crate) fn new_trait_map() -> (m: IndexMap<String, TraitDef>)
    ensures
        trait_entries(m) == Seq::<(Seq<char>, TraitDefView)>::empty(),
{
    IndexMap::new()
}

/// `IndexMap::len` for traits: the number of entries.
#[verifier::external_body]
pub(crate) fn trait_map_len(m: &IndexMap<String, TraitDef>) -> (n: usize)
    ensures
        n == trait_entries(*m).len(),
{
    m.len()
}

/// `IndexMap::get_index` for traits: the entry at index `i`, if there is one.
#[verifier::external_body]
pub(crate) fn trait_map_get_index(m: &IndexMap<String, TraitDef>, i: usize) -> (r: Option<(&String, &TraitDef)>)
    ensures
        r is Some <==> i < trait_entries(*m).len(),
        r matches Some((k, v)) ==> (k@, v@) == trait_entries(*m)[i as int],
{
    m.get_index(i)
}

/// `IndexMap::insert` for traits: replaces the value of the entry with key
/// `k` in place and returns the old value, or adds the pair last.
#[verifier::external_body]
pub(crate) fn trait_map_insert(m: &mut IndexMap<String, TraitDef>, k: String, v: TraitDef) -> (r: Option<TraitDef>)
    ensures
        trait_entries(*final(m)) == inserted(trait_entries(*old(m)), k@, v@),
        match key_index(trait_entries(*old(m)), k@) {
            Some(i) => r matches Some(o) && o@ == trait_entries(*old(m))[i].1,
            None => r is None,
        },
{
    m.insert(k, v)
}

/// `IndexMap::retain` for traits: keeps, in order, the traits that have a
/// handler.
#[verifier::external_body]
pub(crate) fn trait_map_retain_active(m: &mut IndexMap<String, TraitDef>)
    ensures
        trait_entries(*final(m)) == trait_entries(*old(m)).filter(
            |e: (Seq<char>, TraitDefView)| e.1.is_active(),
        ),
{
    m.retain(|_, v| v.is_active())
}

} // verus!

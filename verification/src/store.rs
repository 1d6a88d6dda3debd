//! The document store: for each open document, by its URI, the text it has
//! now. A `put` replaces what was there; nothing older is kept.
//!
//! The texts are kept in a `dashmap::DashMap`. The store writes to it through
//! `&mut self` only, so what it holds changes only where a contract says so.

use crate::text::rope_text;
use dashmap::DashMap;
use ropey::Rope;
use vstd::prelude::*;

verus! {

/// `dashmap::DashMap`, named so that it can stand in fields and signatures.
/// What a map holds is known only through `stored_texts`.
#[verifier::external_type_specification]
#[verifier::external_body]
#[verifier::reject_recursive_types(K)]
#[verifier::reject_recursive_types(V)]
#[verifier::reject_recursive_types(S)]
pub struct ExDashMap<K, V, S>(DashMap<K, V, S>);

/// What a map of documents holds: for each URI in it, the characters of the
/// rope stored under that URI.
pub uninterp spec fn stored_texts(map: &DashMap<String, Rope>) -> Map<Seq<char>, Seq<char>>;

/// `DashMap::new` makes a map that holds nothing.
#[verifier::external_body]
fn map_new() -> (map: DashMap<String, Rope>)
    ensures
        (stored_texts(&map) == Map::<Seq<char>, Seq<char>>::empty()),
{
    DashMap::new()
}

/// `DashMap::insert` stores `value` under `key`, in place of what the map held
/// under that key, and hands back what it held there.
#[verifier::external_body]
fn map_insert(map: &mut DashMap<String, Rope>, key: String, value: Rope) -> (previous: Option<Rope>)
    ensures
        stored_texts(final(map)) == stored_texts(old(map)).insert(key@, rope_text(&value)),
        previous is Some <==> stored_texts(old(map)).contains_key(key@),
        previous matches Some(rope) ==> rope_text(&rope) == stored_texts(old(map))[key@],
{
    map.insert(key, value)
}

/// `DashMap::get` finds the entry stored under `key`, if there is one; the
/// rope in it is cloned, so that no reference into the map is kept.
#[verifier::external_body]
fn map_get(map: &DashMap<String, Rope>, key: &str) -> (value: Option<Rope>)
    ensures
        value is Some <==> stored_texts(map).contains_key(key@),
        value matches Some(rope) ==> rope_text(&rope) == stored_texts(map)[key@],
{
    map.get(key).map(|entry| entry.value().clone())
}

/// `DashMap::remove` takes the entry stored under `key` out of the map, if
/// there is one, and hands it back.
#[verifier::external_body]
fn map_remove(map: &mut DashMap<String, Rope>, key: &str) -> (removed: Option<(String, Rope)>)
    ensures
        stored_texts(final(map)) == stored_texts(old(map)).remove(key@),
        removed is Some <==> stored_texts(old(map)).contains_key(key@),
        removed matches Some(entry) ==> entry.0@ == key@ && rope_text(&entry.1) == stored_texts(
            old(map),
        )[key@],
{
    map.remove(key)
}

/// The texts of the open documents, by URI.
pub struct DocumentStore {
    documents: DashMap<String, Rope>,
}

impl View for DocumentStore {
    type V = Map<Seq<char>, Seq<char>>;

    /// For each URI in the store, the characters of the text stored under it.
    closed spec fn view(&self) -> Map<Seq<char>, Seq<char>> {
        stored_texts(&self.documents)
    }
}

impl DocumentStore {
    /// A store without documents.
    pub fn new() -> (store: DocumentStore)
        ensures
            (store@ == Map::<Seq<char>, Seq<char>>::empty()),
    {
        DocumentStore { documents: map_new() }
    }

    /// The text stored under `uri`, or `None` when the store has no such
    /// document.
    pub fn get(&self, uri: &str) -> (text: Option<Rope>)
        ensures
            text is Some <==> self@.contains_key(uri@),
            text matches Some(rope) ==> rope_text(&rope) == self@[uri@],
    {
        map_get(&self.documents, uri)
    }

    /// Stores `text` under `uri`, in place of the text that was there, if any.
    /// The other documents stay as they are.
    pub fn put(&mut self, uri: String, text: Rope)
        ensures
            final(self)@ == old(self)@.insert(uri@, rope_text(&text)),
    {
        let _ = map_insert(&mut self.documents, uri, text);
    }

    /// Takes the document stored under `uri` out of the store. Says whether
    /// there was one.
    pub fn remove(&mut self, uri: &str) -> (removed: bool)
        ensures
            final(self)@ == old(self)@.remove(uri@),
            removed == old(self)@.contains_key(uri@),
    {
        map_remove(&mut self.documents, uri).is_some()
    }
}

} // verus!

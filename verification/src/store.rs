//! The header store: the names and values of the header lines read so far,
//! kept in a `chashmap::CHashMap`.
//!
//! The map is opaque to the verifier. What it holds is named by
//! [`store_contents`], and the four functions below state what the map's
//! own methods do to it. They are taken on trust from the map's source.
//!
//! The map is used by one owner at a time here: no guard that it hands out
//! outlives the call that asked for it, so none of its locks is ever held
//! when the next call comes. The map places its entries by a hash that is
//! keyed anew for every map; which entries it holds does not depend on the
//! key.

use chashmap::CHashMap;
use vstd::prelude::*;

verus! {

/// `chashmap::CHashMap`, made known so that a map can stand in a field and
/// be handed to the functions below. Nothing inside it is seen.
#[verifier::external_type_specification]
#[verifier::external_body]
#[verifier::reject_recursive_types(K)]
#[verifier::reject_recursive_types(V)]
pub struct ExCHashMap<K, V>(CHashMap<K, V>);

/// Header names with their values, as plain text.
pub type Headers = Map<Seq<char>, Seq<char>>;

/// The entries of the map: each name with the value last inserted for it.
pub uninterp spec fn store_contents(store: CHashMap<String, String>) -> Map<Seq<char>, Seq<char>>;

/// `CHashMap::new`: a map without entries.
#[verifier::external_body]
pub(crate) fn store_new() -> (fresh: CHashMap<String, String>)
    ensures
        store_contents(fresh) == Headers::empty(),
{
    CHashMap::new()
}

/// `CHashMap::get`: the value stored for `name`, copied out of the guard
/// that the map hands back, or `None` where the map has no such key. The
/// map is left as it was.
#[verifier::external_body]
pub(crate) fn store_get(store: &CHashMap<String, String>, name: &str) -> (value: Option<String>)
    ensures
        value.is_some() == store_contents(*store).contains_key(name@),
        value.is_some() ==> value.unwrap()@ == store_contents(*store)[name@],
{
    match store.get(name) {
        Some(guard) => Some((*guard).clone()),
        None => None,
    }
}

/// `CHashMap::contains_key`: whether the map holds the key `name`. The map
/// is left as it was.
#[verifier::external_body]
pub(crate) fn store_contains(store: &CHashMap<String, String>, name: &str) -> (held: bool)
    ensures
        held == store_contents(*store).contains_key(name@),
{
    store.contains_key(name)
}

/// `CHashMap::insert`: after the call the map holds `value` for `name`,
/// whether or not it held the name before, and every other entry as before.
#[verifier::external_body]
pub(crate) fn store_insert(store: &mut CHashMap<String, String>, name: String, value: String)
    ensures
        store_contents(*final(store)) == store_contents(*old(store)).insert(name@, value@),
{
    store.insert(name, value);
}

} // verus!

//! A bounded cache by three numbers, which holds the ways on from a node or
//! the panoramas of a tile.

use vstd::prelude::*;
use std::sync::Arc;
use quick_cache::sync::Cache;
use quick_cache::sync::DefaultLifecycle;
use quick_cache::UnitWeighter;
use rustc_hash::FxBuildHasher;
use crate::model::PanoWithBothLocations;
use crate::roadtrip::PanoOptionRes;

verus! {

/// `quick_cache::sync::Cache`: a bounded cache. Opaque here; what it holds is
/// named by [`store_entries`].
#[verifier::external_type_specification]
#[verifier::external_body]
#[verifier::reject_recursive_types(Key)]
#[verifier::reject_recursive_types(Val)]
#[verifier::reject_recursive_types(We)]
#[verifier::reject_recursive_types(B)]
#[verifier::reject_recursive_types(L)]
pub struct ExCache<Key, Val, We, B, L>(Cache<Key, Val, We, B, L>);

/// `quick_cache::UnitWeighter`: every entry weighs one. Opaque here.
#[verifier::external_type_specification]
#[verifier::external_body]
pub struct ExUnitWeighter(UnitWeighter);

/// `quick_cache::sync::DefaultLifecycle`: what the cache does with evicted
/// entries, which is to drop them. Opaque here.
#[verifier::external_type_specification]
#[verifier::external_body]
#[verifier::reject_recursive_types(Key)]
#[verifier::reject_recursive_types(Val)]
pub struct ExDefaultLifecycle<Key, Val>(DefaultLifecycle<Key, Val>);

/// What a cache holds under a key.
#[derive(Clone, Debug)]
pub enum Cached {
    /// The ways on from a node.
    Options(Vec<PanoOptionRes>),
    /// The panoramas of a tile, or `None` for a tile that holds too many to
    /// list.
    Tile(Option<Arc<Vec<PanoWithBothLocations>>>),
}

/// A cached value as contracts see it.
pub enum CachedView {
    Options(Seq<PanoOptionRes>),
    Tile(Option<Seq<PanoWithBothLocations>>),
}

impl View for Cached {
    type V = CachedView;

    open spec fn view(&self) -> CachedView {
        match *self {
            Cached::Options(options) => CachedView::Options(options@),
            Cached::Tile(None) => CachedView::Tile(None),
            Cached::Tile(Some(panos)) => CachedView::Tile(Some(panos@)),
        }
    }
}

/// The outside cache.
pub type Store = Cache<
    (i64, u32, u32),
    Cached,
    UnitWeighter,
    FxBuildHasher,
    DefaultLifecycle<(i64, u32, u32), Cached>,
>;

/// What a cache holds: under each key, what was stored under it and has not
/// been evicted since.
pub uninterp spec fn store_entries(store: Store) -> Map<(i64, u32, u32), CachedView>;

/// `Cache::with`: a cache for about `capacity` entries that holds nothing.
#[verifier::external_body]
pub(crate) fn store_with(capacity: usize) -> (store: Store)
    ensures
        store_entries(store) == (Map::<(i64, u32, u32), CachedView>::empty()),
{
    Cache::with(capacity, capacity as u64, UnitWeighter, FxBuildHasher, DefaultLifecycle::default())
}

/// `Cache::get`: a clone of the value held under `key`, if one is held.
#[verifier::external_body]
pub(crate) fn store_get(store: &Store, key: (i64, u32, u32)) -> (value: Option<Cached>)
    ensures
        value.is_some() == store_entries(*store).contains_key(key),
        value.is_some() ==> value.unwrap()@ == store_entries(*store)[key],
{
    store.get(&key)
}

/// `Cache::insert`: afterwards the cache holds nothing but what it held
/// before and the new entry, which takes the place of an entry with the same
/// key. Which entries are evicted is left open, the new one included.
#[verifier::external_body]
pub(crate) fn store_insert(store: &mut Store, key: (i64, u32, u32), value: Cached)
    ensures
        store_entries(*final(store)).submap_of(store_entries(*old(store)).insert(key, value@)),
{
    store.insert(key, value)
}

/// `Cache::remove`: afterwards the cache holds nothing under `key`, and
/// nothing but what it held before.
#[verifier::external_body]
pub(crate) fn store_remove(store: &mut Store, key: (i64, u32, u32))
    ensures
        store_entries(*final(store)).submap_of(store_entries(*old(store)).remove(key)),
{
    store.remove(&key);
}

} // verus!

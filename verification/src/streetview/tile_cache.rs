//! The panoramas of the tiles that were asked for of late, and the search for
//! the tile that answers for a small tile.

use vstd::prelude::*;
use std::sync::Arc;
use crate::cache::store_entries;
use crate::cache::store_get;
use crate::cache::store_insert;
use crate::cache::store_remove;
use crate::cache::store_with;
use crate::cache::Cached;
use crate::cache::CachedView;
use crate::cache::Store;
use crate::db::decode_listentityphotos;
use crate::db::listentityphotos_of;
use crate::model::PanoWithBothLocations;
use crate::model::SizedTile;
use crate::model::SmallTile;

verus! {

/// What the cache holds for a tile: the panoramas of the tile, or `None` for
/// a tile that holds too many to list.
pub type TileEntry = Option<Arc<Vec<PanoWithBothLocations>>>;

/// An entry as contracts see it.
pub open spec fn entry_view(entry: TileEntry) -> Option<Seq<PanoWithBothLocations>> {
    match entry {
        None => None,
        Some(panos) => Some(panos@),
    }
}

/// The key under which a tile is held.
pub open spec fn tile_store_key(key: (u8, u32, u32)) -> (i64, u32, u32) {
    (key.0 as i64, key.1, key.2)
}

/// The tiles that a cache holds, by zoom, `x` and `y`.
pub open spec fn held_tiles(entries: Map<(i64, u32, u32), CachedView>) -> Map<
    (u8, u32, u32),
    Option<Seq<PanoWithBothLocations>>,
> {
    Map::new(
        |key: (u8, u32, u32)|
            entries.contains_key(tile_store_key(key)) && entries[tile_store_key(key)] is Tile,
        |key: (u8, u32, u32)| entries[tile_store_key(key)]->Tile_0,
    )
}

/// How many tiles the cache of tiles is made for.
pub const TILE_CACHE_SIZE: usize = 1024;

/// What a tile is held by: its zoom, `x` and `y`.
pub open spec fn key_of(tile: SizedTile) -> (u8, u32, u32) {
    (tile.size, tile.x, tile.y)
}

/// The tiles that were asked for of late.
pub struct TileCache {
    entries: Store,
}

impl View for TileCache {
    type V = Map<(u8, u32, u32), Option<Seq<PanoWithBothLocations>>>;

    closed spec fn view(&self) -> Map<(u8, u32, u32), Option<Seq<PanoWithBothLocations>>> {
        held_tiles(store_entries(self.entries))
    }
}

impl TileCache {
    /// A cache for about `capacity` tiles that holds nothing.
    pub fn new(capacity: usize) -> (cache: TileCache)
        ensures
            cache@ == (Map::<(u8, u32, u32), Option<Seq<PanoWithBothLocations>>>::empty()),
    {
        let cache = TileCache { entries: store_with(capacity) };
        proof {
            assert(cache@ =~= Map::<(u8, u32, u32), Option<Seq<PanoWithBothLocations>>>::empty());
        }
        cache
    }

    /// What the cache holds for `tile`.
    pub fn get(&self, tile: &SizedTile) -> (value: Option<TileEntry>)
        ensures
            value.is_some() == self@.contains_key(key_of(*tile)),
            value.is_some() ==> entry_view(value.unwrap()) == self@[key_of(*tile)],
    {
        match store_get(&self.entries, (tile.size as i64, tile.x, tile.y)) {
            Some(Cached::Tile(entry)) => Some(entry),
            _ => None,
        }
    }

    /// Stores `value` for `tile`. The cache may evict any entry to make room.
    pub fn insert(&mut self, tile: &SizedTile, value: TileEntry)
        ensures
            final(self)@.submap_of(old(self)@.insert(key_of(*tile), entry_view(value))),
    {
        let ghost held = entry_view(value);
        store_insert(&mut self.entries, (tile.size as i64, tile.x, tile.y), Cached::Tile(value));
        proof {
            let key = key_of(*tile);
            let before = store_entries(old(self).entries);
            let after = store_entries(self.entries);
            assert forall|k: (u8, u32, u32)| #[trigger] self@.dom().contains(k) implies old(
                self,
            )@.insert(key, held).dom().contains(k) && self@[k] == old(self)@.insert(key, held)[k] by {
                assert(after.dom().contains(tile_store_key(k)));
                assert(before.insert(tile_store_key(key), CachedView::Tile(held)).dom().contains(
                    tile_store_key(k),
                ));
                if k != key {
                    assert(tile_store_key(k) != tile_store_key(key));
                    assert(before.contains_key(tile_store_key(k)));
                }
            }
        }
    }

    /// Drops what the cache holds for `tile`.
    pub fn remove(&mut self, tile: &SizedTile)
        ensures
            final(self)@.submap_of(old(self)@.remove(key_of(*tile))),
            !final(self)@.contains_key(key_of(*tile)),
    {
        store_remove(&mut self.entries, (tile.size as i64, tile.x, tile.y));
        proof {
            let key = key_of(*tile);
            let before = store_entries(old(self).entries);
            let after = store_entries(self.entries);
            assert forall|k: (u8, u32, u32)| #[trigger] self@.dom().contains(k) implies old(
                self,
            )@.remove(key).dom().contains(k) && self@[k] == old(self)@.remove(key)[k] by {
                assert(after.dom().contains(tile_store_key(k)));
                assert(before.remove(tile_store_key(key)).dom().contains(tile_store_key(k)));
            }
            if self@.contains_key(key) {
                assert(self@.dom().contains(key));
                assert(old(self)@.remove(key).dom().contains(key));
            }
        }
    }
}

/// What the caller has to tell a search for a tile.
pub enum TileEvent {
    /// The search begins.
    Begin,
    /// The row of the tile table for the tile that was to be looked up, or
    /// `None` where the table has no row for it.
    Row(Option<Vec<u8>>),
    /// The panoramas that the provider listed for the tile that was to be
    /// fetched, in order of latitude, or `None` where it listed too many.
    Fetched(Option<Vec<PanoWithBothLocations>>),
}

/// What a search for a tile asks of the caller, or what it ends with.
pub enum TileAction {
    /// Read the row of the tile table for this tile.
    Lookup(SizedTile),
    /// Ask the provider for the panoramas of this tile, and store the answer.
    Fetch(SizedTile),
    /// This tile answers, with these panoramas.
    Done(SizedTile, Arc<Vec<PanoWithBothLocations>>),
    /// Every zoom holds too many panoramas.
    Exhausted,
    /// The row handed in cannot be read.
    Corrupt,
}

/// An action as contracts see it.
pub enum ActionView {
    Lookup(SizedTile),
    Fetch(SizedTile),
    Done(SizedTile, Seq<PanoWithBothLocations>),
    Exhausted,
    Corrupt,
}

impl View for TileAction {
    type V = ActionView;

    open spec fn view(&self) -> ActionView {
        match *self {
            TileAction::Lookup(tile) => ActionView::Lookup(tile),
            TileAction::Fetch(tile) => ActionView::Fetch(tile),
            TileAction::Done(tile, panos) => ActionView::Done(tile, panos@),
            TileAction::Exhausted => ActionView::Exhausted,
            TileAction::Corrupt => ActionView::Corrupt,
        }
    }
}

/// Whether the cache marks the tile as holding too many panoramas.
pub open spec fn marked_too_many(
    entries: Map<(u8, u32, u32), Option<Seq<PanoWithBothLocations>>>,
    tile: SizedTile,
) -> bool {
    entries.contains_key(key_of(tile)) && entries[key_of(tile)].is_none()
}

/// The first place from `from` on whose tile the cache does not mark as
/// holding too many, or the number of tiles where there is none.
pub open spec fn first_open(
    sizes: Seq<SizedTile>,
    from: int,
    entries: Map<(u8, u32, u32), Option<Seq<PanoWithBothLocations>>>,
) -> int
    decreases sizes.len() - from,
{
    if from >= sizes.len() {
        sizes.len() as int
    } else if marked_too_many(entries, sizes[from]) {
        first_open(sizes, from + 1, entries)
    } else {
        from
    }
}

/// What the search does at place `at`: it ends with the tile if the cache
/// holds its panoramas, and asks for its row otherwise.
pub open spec fn action_at(
    sizes: Seq<SizedTile>,
    at: int,
    entries: Map<(u8, u32, u32), Option<Seq<PanoWithBothLocations>>>,
) -> ActionView {
    if at >= sizes.len() {
        ActionView::Exhausted
    } else if entries.contains_key(key_of(sizes[at])) && entries[key_of(sizes[at])].is_some() {
        ActionView::Done(sizes[at], entries[key_of(sizes[at])].unwrap())
    } else {
        ActionView::Lookup(sizes[at])
    }
}

/// The search for the tile that answers for a small tile: the coarsest of
/// the tiles that cover it which does not hold too many panoramas.
pub struct TileSearch {
    sizes: Vec<SizedTile>,
    next: usize,
}

impl TileSearch {
    /// The tiles that the search goes through, from the coarsest.
    pub closed spec fn sizes(&self) -> Seq<SizedTile> {
        self.sizes@
    }

    /// The place of the tile that the search is at.
    pub closed spec fn position(&self) -> int {
        self.next as int
    }

    /// The place is at most the number of tiles.
    pub closed spec fn wf(&self) -> bool {
        self.next <= self.sizes@.len()
    }

    /// A search for the tile that answers for `base_tile`.
    pub fn new(base_tile: SmallTile) -> (search: TileSearch)
        ensures
            search.wf(),
            search.position() == 0,
            search.sizes().len() == 4,
            forall|i: int|
                0 <= i < 4 ==> (#[trigger] search.sizes()[i]) == base_tile.covering((13 + i) as u8),
    {
        TileSearch { sizes: base_tile.get_all_sizes(), next: 0 }
    }

    fn advance(&mut self, cache: &TileCache) -> (action: TileAction)
        requires
            old(self).wf(),
        ensures
            final(self).wf(),
            final(self).sizes() == old(self).sizes(),
            final(self).position() == first_open(old(self).sizes(), old(self).position(), cache@),
            action@ == action_at(final(self).sizes(), final(self).position(), cache@),
    {
        while self.next < self.sizes.len()
            invariant
                self.wf(),
                self.sizes@ == old(self).sizes@,
                old(self).next <= self.next,
                first_open(self.sizes@, self.next as int, cache@) == first_open(
                    old(self).sizes@,
                    old(self).next as int,
                    cache@,
                ),
            decreases self.sizes@.len() - self.next,
        {
            let tile = self.sizes[self.next];
            match cache.get(&tile) {
                Some(Some(panos)) => {
                    return TileAction::Done(tile, panos);
                },
                Some(None) => {
                    self.next = self.next + 1;
                },
                None => {
                    return TileAction::Lookup(tile);
                },
            }
        }
        TileAction::Exhausted
    }

    /// Takes what the caller tells and says what to do next.
    ///
    /// At the beginning, and after a tile turned out to hold too many
    /// panoramas, the search goes on to the next tile that the cache does not
    /// mark so. It ends with that tile if the cache holds its panoramas, and
    /// asks for its row otherwise. A row that lists panoramas ends the search
    /// and is put into the cache; a row that marks the tile is put into the
    /// cache and the search goes on; a missing row has the tile fetched. A
    /// fetch that lists panoramas ends the search and is put into the cache;
    /// one that lists too many has the search go on.
    pub fn step(&mut self, cache: &mut TileCache, event: TileEvent) -> (action: TileAction)
        requires
            old(self).wf(),
        ensures
            final(self).wf(),
            final(self).sizes() == old(self).sizes(),
            stepped(
                old(self).sizes(),
                old(self).position(),
                old(cache)@,
                event,
                final(self).position(),
                final(cache)@,
                action@,
            ),
    {
        if let TileEvent::Begin = event {
            return self.advance(cache);
        }
        if self.next >= self.sizes.len() {
            return TileAction::Exhausted;
        }
        let tile = self.sizes[self.next];
        match event {
            TileEvent::Begin => TileAction::Exhausted,
            TileEvent::Row(None) => TileAction::Fetch(tile),
            TileEvent::Row(Some(row)) => {
                match decode_listentityphotos(row.as_slice()) {
                    Err(_) => TileAction::Corrupt,
                    Ok(Some(panos)) => {
                        let shared = Arc::new(panos);
                        cache.insert(&tile, Some(shared.clone()));
                        TileAction::Done(tile, shared)
                    },
                    Ok(None) => {
                        cache.insert(&tile, None);
                        self.next = self.next + 1;
                        self.advance(cache)
                    },
                }
            },
            TileEvent::Fetched(Some(panos)) => {
                let shared = Arc::new(panos);
                cache.insert(&tile, Some(shared.clone()));
                TileAction::Done(tile, shared)
            },
            TileEvent::Fetched(None) => {
                self.next = self.next + 1;
                self.advance(cache)
            },
        }
    }
}

/// What a step of the search does: see [`TileSearch::step`].
pub open spec fn stepped(
    sizes: Seq<SizedTile>,
    position: int,
    entries: Map<(u8, u32, u32), Option<Seq<PanoWithBothLocations>>>,
    event: TileEvent,
    new_position: int,
    new_entries: Map<(u8, u32, u32), Option<Seq<PanoWithBothLocations>>>,
    action: ActionView,
) -> bool {
    match event {
        TileEvent::Begin => {
            &&& new_entries == entries
            &&& new_position == first_open(sizes, position, entries)
            &&& action == action_at(sizes, new_position, entries)
        },
        _ => if position >= sizes.len() {
            new_entries == entries && new_position == position && action == ActionView::Exhausted
        } else {
            let tile = sizes[position];
            match event {
                TileEvent::Begin => true,
                TileEvent::Row(None) => {
                    &&& new_entries == entries
                    &&& new_position == position
                    &&& action == ActionView::Fetch(tile)
                },
                TileEvent::Row(Some(row)) => match listentityphotos_of(row@) {
                    Err(_) => {
                        &&& new_entries == entries
                        &&& new_position == position
                        &&& action == ActionView::Corrupt
                    },
                    Ok(Some(panos)) => {
                        &&& new_entries.submap_of(entries.insert(key_of(tile), Some(panos)))
                        &&& new_position == position
                        &&& action == ActionView::Done(tile, panos)
                    },
                    Ok(None) => {
                        &&& new_entries.submap_of(entries.insert(key_of(tile), None))
                        &&& new_position == first_open(sizes, position + 1, new_entries)
                        &&& action == action_at(sizes, new_position, new_entries)
                    },
                },
                TileEvent::Fetched(Some(panos)) => {
                    &&& new_entries.submap_of(entries.insert(key_of(tile), Some(panos@)))
                    &&& new_position == position
                    &&& action == ActionView::Done(tile, panos@)
                },
                TileEvent::Fetched(None) => {
                    &&& new_entries == entries
                    &&& new_position == first_open(sizes, position + 1, entries)
                    &&& action == action_at(sizes, new_position, entries)
                },
            }
        },
    }
}

} // verus!

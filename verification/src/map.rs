//! The world as a store of sectors: squares of 32 by 32 tiles, made when a tile inside them is
//! first asked for.

use crate::opentibia::binaryfile::{lemma_stream_keeps, spec_stream};
use crate::opentibia::map::{
    copy_items, flush, item_models, spec_load, tile_pass, Item, ItemModel, LoaderModel, TilePass,
    TileSink,
};
use crate::opentibia::Position;
use std::collections::hash_map::Entry;
use std::collections::HashMap;
use vstd::prelude::*;

verus! {

/// The sectors of the world, by their origin.
pub struct WorldMap {
    sectors: HashMap<u64, Sector>,
}

/// A square of tiles. Its origin is a multiple of the sector size in both directions.
pub struct Sector {
    origin: Position,
    tiles: Vec<Vec<Item>>,
}

/// What a [`Sector`] stands for.
pub struct SectorModel {
    pub origin: Position,
    /// The items of each tile, column by column.
    pub tiles: Seq<Seq<ItemModel>>,
}

/// The origin of the sector that holds `pos`.
pub open spec fn sector_origin(pos: Position) -> Position {
    Position { x: (pos.x - pos.x % 32) as u16, y: (pos.y - pos.y % 32) as u16, z: pos.z }
}

/// The place of the tile at `pos` within its sector.
pub open spec fn tile_index(pos: Position) -> int {
    (pos.x % 32) * 32 + pos.y % 32
}

/// A sector in which no tile holds an item.
pub open spec fn empty_sector(origin: Position) -> SectorModel {
    SectorModel { origin, tiles: Seq::new(1024, |i: int| Seq::<ItemModel>::empty()) }
}

/// The position of tile `index` of a sector at `origin`.
pub open spec fn tile_position(origin: Position, index: int) -> Position {
    Position { x: (origin.x + index / 32) as u16, y: (origin.y + index % 32) as u16, z: origin.z }
}

/// The number under which a sector is kept.
pub open spec fn spec_key(origin: Position) -> u64 {
    (origin.x + 65536 * origin.y + 4294967296 * origin.z) as u64
}

fn key(origin: Position) -> (k: u64)
    ensures
        k == spec_key(origin),
{
    origin.x as u64 + 65536 * (origin.y as u64) + 4294967296 * (origin.z as u64)
}

impl View for Sector {
    type V = SectorModel;

    closed spec fn view(&self) -> SectorModel {
        SectorModel {
            origin: self.origin,
            tiles: Seq::new(self.tiles@.len(), |i: int| item_models(self.tiles@[i]@)),
        }
    }
}

impl Sector {
    /// The tiles along one side of a sector.
    pub const SIZE: u16 = 32;

    #[verifier::type_invariant]
    spec fn inv(self) -> bool {
        self.tiles@.len() == 1024 && self.origin.x % 32 == 0 && self.origin.y % 32 == 0
    }

    /// An empty sector at `origin`.
    pub fn new(origin: Position) -> (sector: Sector)
        requires
            origin.x % 32 == 0,
            origin.y % 32 == 0,
        ensures
            sector@ == empty_sector(origin),
    {
        let mut tiles: Vec<Vec<Item>> = Vec::new();
        let mut i: usize = 0;
        while i < 1024
            invariant
                i <= 1024,
                tiles@.len() == i,
                forall|j: int| 0 <= j < i ==> (#[trigger] tiles@[j])@.len() == 0,
            decreases 1024 - i,
        {
            tiles.push(Vec::new());
            i = i + 1;
        }
        let sector = Sector { origin, tiles };
        assert(sector@.tiles =~= empty_sector(origin).tiles) by {
            assert forall|j: int| 0 <= j < 1024 implies (#[trigger] sector@.tiles[j])
                == Seq::<ItemModel>::empty() by {
                assert(item_models(sector.tiles@[j]@) =~= Seq::<ItemModel>::empty());
            }
        }
        sector
    }

    /// The origin of the sector that holds `pos`.
    pub fn get_sector_pos(pos: &Position) -> (origin: Position)
        ensures
            origin == sector_origin(*pos),
            origin.x % 32 == 0,
            origin.y % 32 == 0,
    {
        let x = pos.x;
        let y = pos.y;
        assert(x & !31u16 == x - x % 32) by (bit_vector);
        assert(y & !31u16 == y - y % 32) by (bit_vector);
        Position { x: pos.x & !(Sector::SIZE - 1), y: pos.y & !(Sector::SIZE - 1), z: pos.z }
    }

    /// The position of the first tile of the sector.
    pub fn origin(&self) -> (origin: Position)
        ensures
            origin == self@.origin,
            origin.x % 32 == 0,
            origin.y % 32 == 0,
            self@.tiles.len() == 1024,
    {
        proof {
            use_type_invariant(self);
        }
        self.origin
    }

    /// The items of the tile at `pos`, for reading.
    pub fn tile(&self, pos: &Position) -> (items: &[Item])
        ensures
            item_models(items@) == self@.tiles[tile_index(*pos)],
    {
        proof {
            use_type_invariant(self);
        }
        let index = ((pos.x % Sector::SIZE) * Sector::SIZE + (pos.y % Sector::SIZE)) as usize;
        self.tiles[index].as_slice()
    }

    /// The items of the tile at `pos`, for writing.
    pub fn get_tile(&mut self, pos: &Position) -> (items: &mut Vec<Item>)
        ensures
            item_models(items@) == old(self)@.tiles[tile_index(*pos)],
            old(self)@.tiles.len() == 1024,
            final(self)@.origin == old(self)@.origin,
            final(self)@.tiles == old(self)@.tiles.update(
                tile_index(*pos),
                item_models(final(items)@),
            ),
    {
        proof {
            use_type_invariant(&*self);
        }
        let index = ((pos.x % Sector::SIZE) * Sector::SIZE + (pos.y % Sector::SIZE)) as usize;
        &mut self.tiles[index]
    }

    /// A walk over the tiles of the sector, from its first.
    pub fn iter(&self) -> (walk: SectorTileIterator<'_>)
        ensures
            walk.sector() == self@,
            walk.index() == 0,
    {
        SectorTileIterator { sector: self, index: 0 }
    }
}

/// A walk over the tiles of a sector.
pub struct SectorTileIterator<'a> {
    sector: &'a Sector,
    index: u16,
}

impl<'a> SectorTileIterator<'a> {
    #[verifier::type_invariant]
    spec fn inv(self) -> bool {
        self.index <= 1024
    }

    /// The sector that is walked.
    pub closed spec fn sector(&self) -> SectorModel {
        self.sector@
    }

    /// The number of tiles handed out.
    pub closed spec fn index(&self) -> int {
        self.index as int
    }

    /// The next tile: its position and its items. The tiles come column by column, 1024 in
    /// all.
    pub fn next(&mut self) -> (tile: Option<(Position, &'a [Item])>)
        ensures
            final(self).sector() == old(self).sector(),
            match tile {
                Some((pos, items)) => old(self).index() < 1024 && final(self).index() == old(
                    self,
                ).index() + 1 && pos == tile_position(
                    old(self).sector().origin,
                    old(self).index(),
                ) && item_models(items@) == old(self).sector().tiles[old(self).index()],
                None => old(self).index() >= 1024 && final(self).index() == old(self).index(),
            },
    {
        proof {
            use_type_invariant(&*self);
            use_type_invariant(self.sector);
        }
        if self.index < 1024 {
            let pos = Position {
                x: self.sector.origin.x + self.index / Sector::SIZE,
                y: self.sector.origin.y + self.index % Sector::SIZE,
                z: self.sector.origin.z,
            };
            let items = self.sector.tiles[self.index as usize].as_slice();
            self.index = self.index + 1;
            Some((pos, items))
        } else {
            None
        }
    }
}

impl View for WorldMap {
    type V = Map<Position, SectorModel>;

    /// The sectors by the position that their key stands for.
    closed spec fn view(&self) -> Map<Position, SectorModel> {
        Map::new(
            |p: Position| self.sectors@.contains_key(spec_key(p)),
            |p: Position| self.sectors@[spec_key(p)]@,
        )
    }
}

/// Every sector is kept under its own origin and has all its tiles.
pub open spec fn well_formed(m: Map<Position, SectorModel>) -> bool {
    forall|p: Position|
        m.contains_key(p) ==> (#[trigger] m[p]).origin == p && m[p].tiles.len() == 1024
}

/// The store after the tile at `pos` was given `items` more: its sector, made if it was not
/// there, with the items added behind those of the tile.
pub open spec fn with_tile(m: Map<Position, SectorModel>, pos: Position, items: Seq<ItemModel>) -> Map<
    Position,
    SectorModel,
> {
    let origin = sector_origin(pos);
    let sector = if m.contains_key(origin) {
        m[origin]
    } else {
        empty_sector(origin)
    };
    m.insert(
        origin,
        SectorModel {
            origin: sector.origin,
            tiles: sector.tiles.update(tile_index(pos), sector.tiles[tile_index(pos)] + items),
        },
    )
}

impl WorldMap {
    /// A store without sectors.
    pub fn new() -> (m: WorldMap)
        ensures
            m@ == Map::<Position, SectorModel>::empty(),
            well_formed(m@),
    {
        let m = WorldMap { sectors: HashMap::new() };
        m
    }

    /// The sector that holds `pos`, if it was made.
    pub fn get(&self, pos: &Position) -> (sector: Option<&Sector>)
        ensures
            match sector {
                Some(s) => self@.contains_key(sector_origin(*pos)) && s@ == self@[sector_origin(
                    *pos,
                )],
                None => !self@.contains_key(sector_origin(*pos)),
            },
    {
        broadcast use vstd::std_specs::hash::group_hash_axioms;

        let sector_pos = Sector::get_sector_pos(pos);
        let k = key(sector_pos);
        self.sectors.get(&k)
    }

    /// The sector that holds `pos`, for writing, if it was made.
    pub fn get_mut(&mut self, pos: &Position) -> (sector: Option<&mut Sector>)
        ensures
            match sector {
                Some(s) => old(self)@.contains_key(sector_origin(*pos)) && s@ == old(
                    self,
                )@[sector_origin(*pos)] && final(self)@ == old(self)@.insert(
                    sector_origin(*pos),
                    final(s)@,
                ),
                None => !old(self)@.contains_key(sector_origin(*pos)) && final(self)@ == old(
                    self,
                )@,
            },
    {
        broadcast use vstd::std_specs::hash::group_hash_axioms;

        let sector_pos = Sector::get_sector_pos(pos);
        let k = key(sector_pos);
        let ghost before = self.sectors@;
        match self.sectors.entry(k) {
            Entry::Occupied(o) => {
                let s = o.into_mut();
                proof {
                    lemma_view_insert(before, sector_pos, *final(s));
                }
                Some(s)
            },
            Entry::Vacant(_) => {
                None
            },
        }
    }

    /// The sector that holds `pos`, made empty if it was not there.
    pub fn get_or_create(&mut self, pos: &Position) -> (sector: &mut Sector)
        ensures
            sector@ == (if old(self)@.contains_key(sector_origin(*pos)) {
                old(self)@[sector_origin(*pos)]
            } else {
                empty_sector(sector_origin(*pos))
            }),
            final(self)@ == old(self)@.insert(sector_origin(*pos), final(sector)@),
    {
        broadcast use vstd::std_specs::hash::group_hash_axioms;

        let sector_pos = Sector::get_sector_pos(pos);
        let k = key(sector_pos);
        let ghost before = self.sectors@;
        match self.sectors.entry(k) {
            Entry::Occupied(o) => {
                let s = o.into_mut();
                proof {
                    lemma_view_insert(before, sector_pos, *final(s));
                }
                s
            },
            Entry::Vacant(v) => {
                let s = v.insert(Sector::new(sector_pos));
                proof {
                    lemma_view_insert(before, sector_pos, *final(s));
                }
                s
            },
        }
    }
}

/// The positions behind the keys follow an insertion.
proof fn lemma_view_insert(before: Map<u64, Sector>, origin: Position, sector: Sector)
    ensures
        Map::new(
            |p: Position| before.insert(spec_key(origin), sector).contains_key(spec_key(p)),
            |p: Position| before.insert(spec_key(origin), sector)[spec_key(p)]@,
        ) == Map::new(
            |p: Position| before.contains_key(spec_key(p)),
            |p: Position| before[spec_key(p)]@,
        ).insert(origin, sector@),
{
    let a = Map::new(
        |p: Position| before.insert(spec_key(origin), sector).contains_key(spec_key(p)),
        |p: Position| before.insert(spec_key(origin), sector)[spec_key(p)]@,
    );
    let b = Map::new(
        |p: Position| before.contains_key(spec_key(p)),
        |p: Position| before[spec_key(p)]@,
    ).insert(origin, sector@);
}

impl TileSink for WorldMap {
    type V = Map<Position, SectorModel>;

    open spec fn model(&self) -> Map<Position, SectorModel> {
        self@
    }

    open spec fn accept(v: Map<Position, SectorModel>, pos: Position, items: Seq<ItemModel>) -> Map<
        Position,
        SectorModel,
    > {
        with_tile(v, pos, items)
    }

    /// Adds copies of `items` to the tile at `pos`.
    fn tile(&mut self, pos: Position, items: &[Item]) {
        let mut copy = copy_items(items);
        let sector = self.get_or_create(&pos);
        let tile = sector.get_tile(&pos);
        let ghost before = tile@;
        tile.append(&mut copy);
        assert(item_models(tile@) =~= item_models(before) + item_models(items@));
    }
}

/// Two positions lie in the same sector exactly when they agree on the floor and on their
/// coordinates divided by the sector size.
pub proof fn lemma_same_sector(p: Position, q: Position)
    ensures
        sector_origin(p) == sector_origin(q) <==> (p.x / 32 == q.x / 32 && p.y / 32 == q.y / 32
            && p.z == q.z),
        sector_origin(sector_origin(p)) == sector_origin(p),
{
}

/// Giving a tile items makes at most one sector, the one that holds the tile: asking twice for
/// the same sector never makes a second one.
pub proof fn lemma_with_tile_sectors(
    m: Map<Position, SectorModel>,
    pos: Position,
    items: Seq<ItemModel>,
)
    ensures
        with_tile(m, pos, items).dom() == m.dom().insert(sector_origin(pos)),
        with_tile(with_tile(m, pos, items), pos, items).dom() == with_tile(m, pos, items).dom(),
{
}

/// A well-formed store stays so when a tile is given items, and the items arrive behind those
/// that the tile had.
pub proof fn lemma_with_tile_keeps(
    m: Map<Position, SectorModel>,
    pos: Position,
    items: Seq<ItemModel>,
)
    requires
        well_formed(m),
    ensures
        well_formed(with_tile(m, pos, items)),
        with_tile(m, pos, items)[sector_origin(pos)].tiles[tile_index(pos)] == (if m.contains_key(
            sector_origin(pos),
        ) {
            m[sector_origin(pos)].tiles[tile_index(pos)]
        } else {
            Seq::empty()
        }) + items,
{
}

/// The state of a tile pass that fills a store, of which the store is well-formed.
pub open spec fn filling() -> spec_fn(TilePass<WorldMap>) -> bool {
    |st: TilePass<WorldMap>| well_formed(st.1)
}

/// A tile pass that fills a well-formed store leaves it well-formed.
pub proof fn lemma_load_keeps(loader: LoaderModel, world: Map<Position, SectorModel>, s: Seq<u8>)
    requires
        well_formed(world),
    ensures
        spec_load::<WorldMap>((loader, world), s) matches Ok(((_, filled), _)) ==> well_formed(
            filled,
        ),
{
    let step = tile_pass::<WorldMap>();
    lemma_stream_keeps(step, filling(), (loader, world), s, true);
    if let Ok((st, _)) = spec_stream(step, (loader, world), s, true) {
        lemma_flush_keeps(st);
    }
}

proof fn lemma_flush_keeps(st: TilePass<WorldMap>)
    requires
        well_formed(st.1),
    ensures
        well_formed(flush::<WorldMap>(st).1),
{
    if let Some(pos) = st.0.tile {
        lemma_with_tile_keeps(st.1, pos, st.0.items);
    }
}

} // verus!

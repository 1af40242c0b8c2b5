//! The map file: a header pass and a tile pass over the flat node walk.
//!
//! Both passes are stated as step functions over a model of the loader, so that a whole pass
//! is the fold of its step function over the nodes that the walk hands out.

use super::binaryfile::{
    handled, handler_step, read_payload, spec_stream, stream_from, streamed, streaming_parser,
    lemma_span_consumes, NodeHandler, Step,
};
use super::{spec_position, Position};
use crate::helpers::{
    decoded, decoded_view, spec_i32, spec_string, spec_u16, spec_u32, spec_u8, u16_le,
    u32_le, DecodeError, Parsed, Reader,
};
use vstd::prelude::*;

verus! {

/// The tags of the nodes of a map file.
#[derive(Clone, Copy, Debug, PartialEq, Eq, Structural)]
pub enum NodeKind {
    Root,
    MapData,
    ItemDef,
    TileArea,
    Tile,
    Item,
    TileSquare,
    TileRef,
    Spawns,
    SpawnArea,
    Monster,
    Towns,
    Town,
    HouseTile,
    WayPoints,
    WayPoint,
}

impl NodeKind {
    /// The kind that a tag byte names.
    pub open spec fn spec_from_u8(b: u8) -> Option<NodeKind> {
        match b {
            0 => Some(NodeKind::Root),
            2 => Some(NodeKind::MapData),
            3 => Some(NodeKind::ItemDef),
            4 => Some(NodeKind::TileArea),
            5 => Some(NodeKind::Tile),
            6 => Some(NodeKind::Item),
            7 => Some(NodeKind::TileSquare),
            8 => Some(NodeKind::TileRef),
            9 => Some(NodeKind::Spawns),
            10 => Some(NodeKind::SpawnArea),
            11 => Some(NodeKind::Monster),
            12 => Some(NodeKind::Towns),
            13 => Some(NodeKind::Town),
            14 => Some(NodeKind::HouseTile),
            15 => Some(NodeKind::WayPoints),
            16 => Some(NodeKind::WayPoint),
            _ => None,
        }
    }

    /// The kind that a tag byte names, if it names one.
    #[verifier::when_used_as_spec(spec_from_u8)]
    pub fn from_u8(b: u8) -> (r: Option<NodeKind>)
        ensures
            r == Self::spec_from_u8(b),
    {
        match b {
            0 => Some(NodeKind::Root),
            2 => Some(NodeKind::MapData),
            3 => Some(NodeKind::ItemDef),
            4 => Some(NodeKind::TileArea),
            5 => Some(NodeKind::Tile),
            6 => Some(NodeKind::Item),
            7 => Some(NodeKind::TileSquare),
            8 => Some(NodeKind::TileRef),
            9 => Some(NodeKind::Spawns),
            10 => Some(NodeKind::SpawnArea),
            11 => Some(NodeKind::Monster),
            12 => Some(NodeKind::Towns),
            13 => Some(NodeKind::Town),
            14 => Some(NodeKind::HouseTile),
            15 => Some(NodeKind::WayPoints),
            16 => Some(NodeKind::WayPoint),
            _ => None,
        }
    }
}

/// The tags of the attributes inside the payload of a map node.
#[derive(Clone, Copy, Debug, PartialEq, Eq, Structural)]
pub enum NodeAttributeKind {
    MapDescription,
    TileFlags,
    ItemActionId,
    ItemUniqueId,
    ItemText,
    ItemDescription,
    Teleport,
    Item,
    DepotId,
    HouseFile,
    RuneCharges,
    SpawnFile,
    HouseDoorId,
    ItemCount,
    ItemDuration,
    ItemDecayingState,
    ItemWrittenDate,
    ItemWrittenBy,
    SleeperGuid,
    SleepStart,
    ItemCharges,
    ContainerItems,
    ItemName,
    ItemArticle,
    ItemPluralName,
    ItemWeight,
    ItemAttack,
    ItemDefense,
    ItemExtraDefense,
    ItemArmor,
    ItemHitChance,
    ItemShootRange,
    AttributeMap,
}

impl NodeAttributeKind {
    /// The kind that a tag byte names.
    pub open spec fn spec_from_u8(b: u8) -> Option<NodeAttributeKind> {
        match b {
            1 => Some(NodeAttributeKind::MapDescription),
            3 => Some(NodeAttributeKind::TileFlags),
            4 => Some(NodeAttributeKind::ItemActionId),
            5 => Some(NodeAttributeKind::ItemUniqueId),
            6 => Some(NodeAttributeKind::ItemText),
            7 => Some(NodeAttributeKind::ItemDescription),
            8 => Some(NodeAttributeKind::Teleport),
            9 => Some(NodeAttributeKind::Item),
            10 => Some(NodeAttributeKind::DepotId),
            11 => Some(NodeAttributeKind::HouseFile),
            12 => Some(NodeAttributeKind::RuneCharges),
            13 => Some(NodeAttributeKind::SpawnFile),
            14 => Some(NodeAttributeKind::HouseDoorId),
            15 => Some(NodeAttributeKind::ItemCount),
            16 => Some(NodeAttributeKind::ItemDuration),
            17 => Some(NodeAttributeKind::ItemDecayingState),
            18 => Some(NodeAttributeKind::ItemWrittenDate),
            19 => Some(NodeAttributeKind::ItemWrittenBy),
            20 => Some(NodeAttributeKind::SleeperGuid),
            21 => Some(NodeAttributeKind::SleepStart),
            22 => Some(NodeAttributeKind::ItemCharges),
            23 => Some(NodeAttributeKind::ContainerItems),
            24 => Some(NodeAttributeKind::ItemName),
            25 => Some(NodeAttributeKind::ItemArticle),
            26 => Some(NodeAttributeKind::ItemPluralName),
            27 => Some(NodeAttributeKind::ItemWeight),
            28 => Some(NodeAttributeKind::ItemAttack),
            29 => Some(NodeAttributeKind::ItemDefense),
            30 => Some(NodeAttributeKind::ItemExtraDefense),
            31 => Some(NodeAttributeKind::ItemArmor),
            32 => Some(NodeAttributeKind::ItemHitChance),
            33 => Some(NodeAttributeKind::ItemShootRange),
            128 => Some(NodeAttributeKind::AttributeMap),
            _ => None,
        }
    }

    /// The kind that a tag byte names, if it names one.
    #[verifier::when_used_as_spec(spec_from_u8)]
    pub fn from_u8(b: u8) -> (r: Option<NodeAttributeKind>)
        ensures
            r == Self::spec_from_u8(b),
    {
        match b {
            1 => Some(NodeAttributeKind::MapDescription),
            3 => Some(NodeAttributeKind::TileFlags),
            4 => Some(NodeAttributeKind::ItemActionId),
            5 => Some(NodeAttributeKind::ItemUniqueId),
            6 => Some(NodeAttributeKind::ItemText),
            7 => Some(NodeAttributeKind::ItemDescription),
            8 => Some(NodeAttributeKind::Teleport),
            9 => Some(NodeAttributeKind::Item),
            10 => Some(NodeAttributeKind::DepotId),
            11 => Some(NodeAttributeKind::HouseFile),
            12 => Some(NodeAttributeKind::RuneCharges),
            13 => Some(NodeAttributeKind::SpawnFile),
            14 => Some(NodeAttributeKind::HouseDoorId),
            15 => Some(NodeAttributeKind::ItemCount),
            16 => Some(NodeAttributeKind::ItemDuration),
            17 => Some(NodeAttributeKind::ItemDecayingState),
            18 => Some(NodeAttributeKind::ItemWrittenDate),
            19 => Some(NodeAttributeKind::ItemWrittenBy),
            20 => Some(NodeAttributeKind::SleeperGuid),
            21 => Some(NodeAttributeKind::SleepStart),
            22 => Some(NodeAttributeKind::ItemCharges),
            23 => Some(NodeAttributeKind::ContainerItems),
            24 => Some(NodeAttributeKind::ItemName),
            25 => Some(NodeAttributeKind::ItemArticle),
            26 => Some(NodeAttributeKind::ItemPluralName),
            27 => Some(NodeAttributeKind::ItemWeight),
            28 => Some(NodeAttributeKind::ItemAttack),
            29 => Some(NodeAttributeKind::ItemDefense),
            30 => Some(NodeAttributeKind::ItemExtraDefense),
            31 => Some(NodeAttributeKind::ItemArmor),
            32 => Some(NodeAttributeKind::ItemHitChance),
            33 => Some(NodeAttributeKind::ItemShootRange),
            128 => Some(NodeAttributeKind::AttributeMap),
            _ => None,
        }
    }
}

/// One attribute of an item on the map.
#[derive(Clone, Debug, PartialEq)]
pub enum ItemAttribute {
    Count(u8),
    ActionId(u16),
    UniqueId(u16),
    Text(String),
    Description(String),
    Teleport(Position),
    DepotId(u16),
    HouseDoorId(u8),
    Duration(i32),
    DecayingState(u8),
    WrittenDate(u32),
    WrittenBy(String),
    SleeperGuid(u32),
    SleepStart(u32),
    Charges(u16),
    Name(String),
    Article(String),
    PluralName(String),
    Weight(u32),
    Attack(i32),
    Defense(i32),
    ExtraDefense(i32),
    Armor(i32),
    HitChance(u8),
    ShootRange(u8),
}

/// How the value of an attribute is spelled in the file.
pub enum Layout {
    U8,
    U16,
    U32,
    I32,
    Text,
    Place,
}

/// The value of an attribute, whatever its width.
pub enum Value {
    Number(int),
    Text(Seq<char>),
    Place(Position),
}

/// What an [`ItemAttribute`] stands for: which attribute it is, named by its tag, and its value.
pub struct AttrModel {
    pub kind: NodeAttributeKind,
    pub value: Value,
}

impl View for ItemAttribute {
    type V = AttrModel;

    open spec fn view(&self) -> AttrModel {
        match *self {
            ItemAttribute::Count(v) => AttrModel {
                kind: NodeAttributeKind::ItemCount,
                value: Value::Number(v as int),
            },
            ItemAttribute::ActionId(v) => AttrModel {
                kind: NodeAttributeKind::ItemActionId,
                value: Value::Number(v as int),
            },
            ItemAttribute::UniqueId(v) => AttrModel {
                kind: NodeAttributeKind::ItemUniqueId,
                value: Value::Number(v as int),
            },
            ItemAttribute::Text(v) => AttrModel {
                kind: NodeAttributeKind::ItemText,
                value: Value::Text(v@),
            },
            ItemAttribute::Description(v) => AttrModel {
                kind: NodeAttributeKind::ItemDescription,
                value: Value::Text(v@),
            },
            ItemAttribute::Teleport(v) => AttrModel {
                kind: NodeAttributeKind::Teleport,
                value: Value::Place(v),
            },
            ItemAttribute::DepotId(v) => AttrModel {
                kind: NodeAttributeKind::DepotId,
                value: Value::Number(v as int),
            },
            ItemAttribute::HouseDoorId(v) => AttrModel {
                kind: NodeAttributeKind::HouseDoorId,
                value: Value::Number(v as int),
            },
            ItemAttribute::Duration(v) => AttrModel {
                kind: NodeAttributeKind::ItemDuration,
                value: Value::Number(v as int),
            },
            ItemAttribute::DecayingState(v) => AttrModel {
                kind: NodeAttributeKind::ItemDecayingState,
                value: Value::Number(v as int),
            },
            ItemAttribute::WrittenDate(v) => AttrModel {
                kind: NodeAttributeKind::ItemWrittenDate,
                value: Value::Number(v as int),
            },
            ItemAttribute::WrittenBy(v) => AttrModel {
                kind: NodeAttributeKind::ItemWrittenBy,
                value: Value::Text(v@),
            },
            ItemAttribute::SleeperGuid(v) => AttrModel {
                kind: NodeAttributeKind::SleeperGuid,
                value: Value::Number(v as int),
            },
            ItemAttribute::SleepStart(v) => AttrModel {
                kind: NodeAttributeKind::SleepStart,
                value: Value::Number(v as int),
            },
            ItemAttribute::Charges(v) => AttrModel {
                kind: NodeAttributeKind::ItemCharges,
                value: Value::Number(v as int),
            },
            ItemAttribute::Name(v) => AttrModel {
                kind: NodeAttributeKind::ItemName,
                value: Value::Text(v@),
            },
            ItemAttribute::Article(v) => AttrModel {
                kind: NodeAttributeKind::ItemArticle,
                value: Value::Text(v@),
            },
            ItemAttribute::PluralName(v) => AttrModel {
                kind: NodeAttributeKind::ItemPluralName,
                value: Value::Text(v@),
            },
            ItemAttribute::Weight(v) => AttrModel {
                kind: NodeAttributeKind::ItemWeight,
                value: Value::Number(v as int),
            },
            ItemAttribute::Attack(v) => AttrModel {
                kind: NodeAttributeKind::ItemAttack,
                value: Value::Number(v as int),
            },
            ItemAttribute::Defense(v) => AttrModel {
                kind: NodeAttributeKind::ItemDefense,
                value: Value::Number(v as int),
            },
            ItemAttribute::ExtraDefense(v) => AttrModel {
                kind: NodeAttributeKind::ItemExtraDefense,
                value: Value::Number(v as int),
            },
            ItemAttribute::Armor(v) => AttrModel {
                kind: NodeAttributeKind::ItemArmor,
                value: Value::Number(v as int),
            },
            ItemAttribute::HitChance(v) => AttrModel {
                kind: NodeAttributeKind::ItemHitChance,
                value: Value::Number(v as int),
            },
            ItemAttribute::ShootRange(v) => AttrModel {
                kind: NodeAttributeKind::ItemShootRange,
                value: Value::Number(v as int),
            },
        }
    }
}

/// An item on a tile.
#[derive(Clone, Debug)]
pub struct Item {
    pub id: u16,
    pub attributes: Vec<ItemAttribute>,
}

/// What an [`Item`] stands for.
pub struct ItemModel {
    pub id: u16,
    pub attributes: Seq<AttrModel>,
}

impl View for Item {
    type V = ItemModel;

    open spec fn view(&self) -> ItemModel {
        ItemModel {
            id: self.id,
            attributes: Seq::new(self.attributes@.len(), |i: int| self.attributes@[i]@),
        }
    }
}

/// The models of a run of items, in order.
pub open spec fn item_models(items: Seq<Item>) -> Seq<ItemModel> {
    Seq::new(items.len(), |i: int| items[i]@)
}

/// The attribute that a tag of a standalone item node stands for, and the layout of its value.
/// Two tags give a count. A tag without an entry ends the decode with `UnknownTag`, since the
/// attributes carry no length by which one could be skipped.
pub open spec fn item_attribute(tag: u8) -> Option<(NodeAttributeKind, Layout)> {
    match NodeAttributeKind::spec_from_u8(tag) {
        Some(NodeAttributeKind::ItemCount) | Some(NodeAttributeKind::RuneCharges) => Some(
            (NodeAttributeKind::ItemCount, Layout::U8),
        ),
        Some(NodeAttributeKind::ItemCharges) => Some((NodeAttributeKind::ItemCharges, Layout::U16)),
        Some(NodeAttributeKind::ItemText) => Some((NodeAttributeKind::ItemText, Layout::Text)),
        Some(NodeAttributeKind::ItemActionId) => Some(
            (NodeAttributeKind::ItemActionId, Layout::U16),
        ),
        Some(NodeAttributeKind::ItemUniqueId) => Some(
            (NodeAttributeKind::ItemUniqueId, Layout::U16),
        ),
        Some(NodeAttributeKind::ItemWrittenDate) => Some(
            (NodeAttributeKind::ItemWrittenDate, Layout::U32),
        ),
        Some(NodeAttributeKind::ItemWrittenBy) => Some(
            (NodeAttributeKind::ItemWrittenBy, Layout::Text),
        ),
        Some(NodeAttributeKind::ItemDescription) => Some(
            (NodeAttributeKind::ItemDescription, Layout::Text),
        ),
        Some(NodeAttributeKind::ItemDuration) => Some(
            (NodeAttributeKind::ItemDuration, Layout::I32),
        ),
        Some(NodeAttributeKind::ItemDecayingState) => Some(
            (NodeAttributeKind::ItemDecayingState, Layout::U8),
        ),
        Some(NodeAttributeKind::ItemName) => Some((NodeAttributeKind::ItemName, Layout::Text)),
        Some(NodeAttributeKind::ItemArticle) => Some(
            (NodeAttributeKind::ItemArticle, Layout::Text),
        ),
        Some(NodeAttributeKind::ItemPluralName) => Some(
            (NodeAttributeKind::ItemPluralName, Layout::Text),
        ),
        Some(NodeAttributeKind::ItemWeight) => Some((NodeAttributeKind::ItemWeight, Layout::U32)),
        Some(NodeAttributeKind::ItemAttack) => Some((NodeAttributeKind::ItemAttack, Layout::I32)),
        Some(NodeAttributeKind::ItemDefense) => Some((NodeAttributeKind::ItemDefense, Layout::I32)),
        Some(NodeAttributeKind::ItemExtraDefense) => Some(
            (NodeAttributeKind::ItemExtraDefense, Layout::I32),
        ),
        Some(NodeAttributeKind::ItemArmor) => Some((NodeAttributeKind::ItemArmor, Layout::I32)),
        Some(NodeAttributeKind::ItemHitChance) => Some(
            (NodeAttributeKind::ItemHitChance, Layout::U8),
        ),
        Some(NodeAttributeKind::ItemShootRange) => Some(
            (NodeAttributeKind::ItemShootRange, Layout::U8),
        ),
        Some(NodeAttributeKind::Teleport) => Some((NodeAttributeKind::Teleport, Layout::Place)),
        Some(NodeAttributeKind::HouseDoorId) => Some((NodeAttributeKind::HouseDoorId, Layout::U8)),
        Some(NodeAttributeKind::DepotId) => Some((NodeAttributeKind::DepotId, Layout::U16)),
        _ => None,
    }
}

/// A value in the given layout.
pub open spec fn spec_value(layout: Layout, s: Seq<u8>) -> Parsed<Value> {
    match layout {
        Layout::U8 => match spec_u8(s) {
            Ok((v, rest)) => Ok((Value::Number(v as int), rest)),
            Err(e) => Err(e),
        },
        Layout::U16 => match spec_u16(s) {
            Ok((v, rest)) => Ok((Value::Number(v as int), rest)),
            Err(e) => Err(e),
        },
        Layout::U32 => match spec_u32(s) {
            Ok((v, rest)) => Ok((Value::Number(v as int), rest)),
            Err(e) => Err(e),
        },
        Layout::I32 => match spec_i32(s) {
            Ok((v, rest)) => Ok((Value::Number(v as int), rest)),
            Err(e) => Err(e),
        },
        Layout::Text => match spec_string(s) {
            Ok((v, rest)) => Ok((Value::Text(v), rest)),
            Err(e) => Err(e),
        },
        Layout::Place => match spec_position(s) {
            Ok((v, rest)) => Ok((Value::Place(v), rest)),
            Err(e) => Err(e),
        },
    }
}

/// One attribute of a standalone item node: its tag, then its value.
pub open spec fn spec_item_attribute(s: Seq<u8>) -> Parsed<AttrModel> {
    if s.len() == 0 {
        Err(DecodeError::UnexpectedEnd)
    } else {
        match item_attribute(s[0]) {
            None => Err(DecodeError::UnknownTag(s[0])),
            Some((kind, layout)) => match spec_value(layout, s.skip(1)) {
                Ok((value, rest)) => Ok((AttrModel { kind, value }, rest)),
                Err(e) => Err(e),
            },
        }
    }
}

/// A decoded value leaves no more bytes than it was given.
pub proof fn lemma_value_consumes(layout: Layout, s: Seq<u8>)
    ensures
        spec_value(layout, s) matches Ok((_, rest)) ==> rest.len() <= s.len(),
{
}

/// The attributes of a standalone item node, to the end of its payload.
pub open spec fn spec_item_attributes(s: Seq<u8>, acc: Seq<AttrModel>) -> Result<
    Seq<AttrModel>,
    DecodeError,
>
    decreases s.len(),
{
    if s.len() == 0 {
        Ok(acc)
    } else {
        match spec_item_attribute(s) {
            Ok((attr, rest)) => {
                proof {
                    lemma_value_consumes(item_attribute(s[0])->Some_0.1, s.skip(1));
                }
                spec_item_attributes(rest, acc.push(attr))
            },
            Err(e) => Err(e),
        }
    }
}

impl ItemAttribute {
    /// Reads one attribute of a standalone item node.
    pub fn deserialize(r: &mut Reader) -> (res: Result<ItemAttribute, DecodeError>)
        ensures
            decoded_view(spec_item_attribute(old(r)@), res, final(r)@),
    {
        let raw = r.read_byte()?;
        let attribute = match NodeAttributeKind::from_u8(raw) {
            Some(NodeAttributeKind::ItemCount) | Some(NodeAttributeKind::RuneCharges) => {
                ItemAttribute::Count(r.read_byte()?)
            },
            Some(NodeAttributeKind::ItemCharges) => ItemAttribute::Charges(r.read_u16()?),
            Some(NodeAttributeKind::ItemText) => ItemAttribute::Text(r.read_string()?),
            Some(NodeAttributeKind::ItemActionId) => ItemAttribute::ActionId(r.read_u16()?),
            Some(NodeAttributeKind::ItemUniqueId) => ItemAttribute::UniqueId(r.read_u16()?),
            Some(NodeAttributeKind::ItemWrittenDate) => ItemAttribute::WrittenDate(r.read_u32()?),
            Some(NodeAttributeKind::ItemWrittenBy) => ItemAttribute::WrittenBy(r.read_string()?),
            Some(NodeAttributeKind::ItemDescription) => ItemAttribute::Description(
                r.read_string()?,
            ),
            Some(NodeAttributeKind::ItemDuration) => ItemAttribute::Duration(r.read_i32()?),
            Some(NodeAttributeKind::ItemDecayingState) => ItemAttribute::DecayingState(
                r.read_byte()?,
            ),
            Some(NodeAttributeKind::ItemName) => ItemAttribute::Name(r.read_string()?),
            Some(NodeAttributeKind::ItemArticle) => ItemAttribute::Article(r.read_string()?),
            Some(NodeAttributeKind::ItemPluralName) => ItemAttribute::PluralName(r.read_string()?),
            Some(NodeAttributeKind::ItemWeight) => ItemAttribute::Weight(r.read_u32()?),
            Some(NodeAttributeKind::ItemAttack) => ItemAttribute::Attack(r.read_i32()?),
            Some(NodeAttributeKind::ItemDefense) => ItemAttribute::Defense(r.read_i32()?),
            Some(NodeAttributeKind::ItemExtraDefense) => ItemAttribute::ExtraDefense(
                r.read_i32()?,
            ),
            Some(NodeAttributeKind::ItemArmor) => ItemAttribute::Armor(r.read_i32()?),
            Some(NodeAttributeKind::ItemHitChance) => ItemAttribute::HitChance(r.read_byte()?),
            Some(NodeAttributeKind::ItemShootRange) => ItemAttribute::ShootRange(r.read_byte()?),
            Some(NodeAttributeKind::Teleport) => ItemAttribute::Teleport(Position::deserialize(r)?),
            Some(NodeAttributeKind::HouseDoorId) => ItemAttribute::HouseDoorId(r.read_byte()?),
            Some(NodeAttributeKind::DepotId) => ItemAttribute::DepotId(r.read_u16()?),
            _ => {
                return Err(DecodeError::UnknownTag(raw));
            },
        };
        Ok(attribute)
    }
}

/// A town of the map.
#[derive(Debug)]
pub struct Town {
    pub id: u32,
    pub name: String,
    pub temple_position: Position,
}

/// What a [`Town`] stands for.
pub struct TownModel {
    pub id: u32,
    pub name: Seq<char>,
    pub temple_position: Position,
}

impl View for Town {
    type V = TownModel;

    open spec fn view(&self) -> TownModel {
        TownModel { id: self.id, name: self.name@, temple_position: self.temple_position }
    }
}

/// A town record: its id, its name, the position of its temple.
pub open spec fn spec_town(s: Seq<u8>) -> Parsed<TownModel> {
    match spec_u32(s) {
        Err(e) => Err(e),
        Ok((id, s1)) => match spec_string(s1) {
            Err(e) => Err(e),
            Ok((name, s2)) => match spec_position(s2) {
                Err(e) => Err(e),
                Ok((temple_position, rest)) => Ok((TownModel { id, name, temple_position }, rest)),
            },
        },
    }
}

impl Town {
    /// Reads one record.
    pub fn deserialize(r: &mut Reader) -> (res: Result<Town, DecodeError>)
        ensures
            decoded_view(spec_town(old(r)@), res, final(r)@),
    {
        let id = r.read_u32()?;
        let name = r.read_string()?;
        let temple_position = Position::deserialize(r)?;
        Ok(Town { id, name, temple_position })
    }
}

/// A named place of the map.
#[derive(Debug)]
pub struct Waypoint {
    pub name: String,
    pub position: Position,
}

/// What a [`Waypoint`] stands for.
pub struct WaypointModel {
    pub name: Seq<char>,
    pub position: Position,
}

impl View for Waypoint {
    type V = WaypointModel;

    open spec fn view(&self) -> WaypointModel {
        WaypointModel { name: self.name@, position: self.position }
    }
}

/// A waypoint record: its name, then its position.
pub open spec fn spec_waypoint(s: Seq<u8>) -> Parsed<WaypointModel> {
    match spec_string(s) {
        Err(e) => Err(e),
        Ok((name, s1)) => match spec_position(s1) {
            Err(e) => Err(e),
            Ok((position, rest)) => Ok((WaypointModel { name, position }, rest)),
        },
    }
}

impl Waypoint {
    /// Reads one record.
    pub fn deserialize(r: &mut Reader) -> (res: Result<Waypoint, DecodeError>)
        ensures
            decoded_view(spec_waypoint(old(r)@), res, final(r)@),
    {
        let name = r.read_string()?;
        let position = Position::deserialize(r)?;
        Ok(Waypoint { name, position })
    }
}

/// Reads a map file in two passes: [`Loader::open`] takes the headers, [`Loader::load`] the
/// tiles.
#[derive(Debug)]
pub struct Loader {
    pub version: u32,
    pub width: u16,
    pub height: u16,
    pub items_version: (u32, u32),
    pub description: Vec<String>,
    pub house_file: Vec<String>,
    pub spawn_file: Vec<String>,
    pub towns: Vec<Town>,
    pub waypoints: Vec<Waypoint>,
    /// The origin of the tile area that the tile pass is in.
    pub current_tile_origin: Option<Position>,
    /// The position of the tile in progress.
    pub current_tile: Option<Position>,
    /// The items of the tile in progress.
    pub current_tile_items: Vec<Item>,
}

/// What a [`Loader`] holds: the headers, the records found so far, and the tile in progress.
pub struct LoaderModel {
    pub version: u32,
    pub width: u16,
    pub height: u16,
    pub items_version: (u32, u32),
    pub description: Seq<Seq<char>>,
    pub house_file: Seq<Seq<char>>,
    pub spawn_file: Seq<Seq<char>>,
    pub towns: Seq<TownModel>,
    pub waypoints: Seq<WaypointModel>,
    /// The origin of the current tile area.
    pub origin: Option<Position>,
    /// The position of the tile in progress.
    pub tile: Option<Position>,
    /// The items of the tile in progress.
    pub items: Seq<ItemModel>,
}

/// The texts of a run of strings, in order.
pub open spec fn texts(v: Seq<String>) -> Seq<Seq<char>> {
    Seq::new(v.len(), |i: int| v[i]@)
}

/// The models of a run of towns, in order.
pub open spec fn town_models(v: Seq<Town>) -> Seq<TownModel> {
    Seq::new(v.len(), |i: int| v[i]@)
}

/// The models of a run of waypoints, in order.
pub open spec fn waypoint_models(v: Seq<Waypoint>) -> Seq<WaypointModel> {
    Seq::new(v.len(), |i: int| v[i]@)
}

/// A loader that has read nothing.
pub open spec fn fresh_loader() -> LoaderModel {
    LoaderModel {
        version: 0,
        width: 0,
        height: 0,
        items_version: (0, 0),
        description: Seq::empty(),
        house_file: Seq::empty(),
        spawn_file: Seq::empty(),
        towns: Seq::empty(),
        waypoints: Seq::empty(),
        origin: None,
        tile: None,
        items: Seq::empty(),
    }
}

impl View for Loader {
    type V = LoaderModel;

    open spec fn view(&self) -> LoaderModel {
        LoaderModel {
            version: self.version,
            width: self.width,
            height: self.height,
            items_version: self.items_version,
            description: texts(self.description@),
            house_file: texts(self.house_file@),
            spawn_file: texts(self.spawn_file@),
            towns: town_models(self.towns@),
            waypoints: waypoint_models(self.waypoints@),
            origin: self.current_tile_origin,
            tile: self.current_tile,
            items: item_models(self.current_tile_items@),
        }
    }
}

/// The payload of the root node: the version of the map, its width and height, and the two
/// numbers of the item version.
pub open spec fn spec_root(s: Seq<u8>, m: LoaderModel) -> Result<LoaderModel, DecodeError> {
    if s.len() < 16 {
        Err(DecodeError::UnexpectedEnd)
    } else {
        Ok(
            LoaderModel {
                version: u32_le(s) as u32,
                width: u16_le(s.skip(4)) as u16,
                height: u16_le(s.skip(6)) as u16,
                items_version: (u32_le(s.skip(8)) as u32, u32_le(s.skip(12)) as u32),
                ..m
            },
        )
    }
}

/// The payload of the map data node: tagged texts to its end. Any tag but the three header
/// tags is an error.
pub open spec fn spec_map_data(s: Seq<u8>, m: LoaderModel) -> Result<LoaderModel, DecodeError>
    decreases s.len(),
{
    if s.len() == 0 {
        Ok(m)
    } else {
        match NodeAttributeKind::spec_from_u8(s[0]) {
            Some(NodeAttributeKind::MapDescription) => match spec_string(s.skip(1)) {
                Ok((text, rest)) => spec_map_data(
                    rest,
                    LoaderModel { description: m.description.push(text), ..m },
                ),
                Err(e) => Err(e),
            },
            Some(NodeAttributeKind::HouseFile) => match spec_string(s.skip(1)) {
                Ok((text, rest)) => spec_map_data(
                    rest,
                    LoaderModel { house_file: m.house_file.push(text), ..m },
                ),
                Err(e) => Err(e),
            },
            Some(NodeAttributeKind::SpawnFile) => match spec_string(s.skip(1)) {
                Ok((text, rest)) => spec_map_data(
                    rest,
                    LoaderModel { spawn_file: m.spawn_file.push(text), ..m },
                ),
                Err(e) => Err(e),
            },
            _ => Err(DecodeError::UnknownTag(s[0])),
        }
    }
}

/// One node of the header pass. The root node sets the headers and the walk goes on; the map
/// data node adds its texts and ends the walk. A node of another kind is out of place here,
/// and a tag that names no kind is unknown.
pub open spec fn header_step(m: LoaderModel, kind: u8, data: Seq<u8>) -> Result<
    (LoaderModel, bool),
    DecodeError,
> {
    match NodeKind::spec_from_u8(kind) {
        Some(NodeKind::Root) => match spec_root(data, m) {
            Ok(m2) => Ok((m2, true)),
            Err(e) => Err(e),
        },
        Some(NodeKind::MapData) => match spec_map_data(data, m) {
            Ok(m2) => Ok((m2, false)),
            Err(e) => Err(e),
        },
        Some(_) => Err(DecodeError::PreconditionViolation),
        None => Err(DecodeError::UnknownTag(kind)),
    }
}

/// What [`Loader::open`] makes of the bytes: the loader after the header pass, and the bytes
/// at which the tile pass begins.
pub open spec fn spec_open(s: Seq<u8>) -> Parsed<LoaderModel> {
    spec_stream(handler_step::<Loader>(), fresh_loader(), s, false)
}

impl NodeHandler for Loader {
    type V = LoaderModel;

    open spec fn model(&self) -> LoaderModel {
        self@
    }

    open spec fn step(v: LoaderModel, kind: u8, data: Seq<u8>) -> Result<
        (LoaderModel, bool),
        DecodeError,
    > {
        header_step(v, kind, data)
    }

    fn handle(&mut self, kind: u8, data: &[u8]) -> (r: Result<bool, DecodeError>) {
        self.load_headers_callback(kind, data)
    }
}

impl Loader {
    /// A loader that has read nothing.
    pub fn new() -> (loader: Loader)
        ensures
            loader@ == fresh_loader(),
    {
        let loader = Loader {
            version: 0,
            width: 0,
            height: 0,
            items_version: (0, 0),
            description: Vec::new(),
            house_file: Vec::new(),
            spawn_file: Vec::new(),
            towns: Vec::new(),
            waypoints: Vec::new(),
            current_tile_origin: None,
            current_tile: None,
            current_tile_items: Vec::new(),
        };
        proof {
            assert(loader@.description =~= fresh_loader().description);
            assert(loader@.towns =~= fresh_loader().towns);
            assert(loader@.waypoints =~= fresh_loader().waypoints);
            assert(loader@.items =~= fresh_loader().items);
        }
        loader
    }

    /// The header pass: reads the root node and the map data node, and stops behind the start
    /// byte of the node that follows them.
    pub fn open(r: &mut Reader) -> (res: Result<Loader, DecodeError>)
        ensures
            decoded_view(spec_open(old(r)@), res, final(r)@),
    {
        let mut loader = Loader::new();
        streaming_parser(r, false, &mut loader)?;
        Ok(loader)
    }

    /// One node of the header pass.
    pub fn load_headers_callback(&mut self, kind: u8, data: &[u8]) -> (r: Result<
        bool,
        DecodeError,
    >)
        ensures
            handled(header_step(old(self)@, kind, data@), r, final(self)@),
    {
        let mut input = Reader::new(data);
        match NodeKind::from_u8(kind) {
            Some(NodeKind::Root) => {
                let version = input.read_u32()?;
                let width = input.read_u16()?;
                let height = input.read_u16()?;
                let first = input.read_u32()?;
                let second = input.read_u32()?;
                proof {
                    let s = data@;
                }
                self.version = version;
                self.width = width;
                self.height = height;
                self.items_version = (first, second);
                Ok(true)
            },
            Some(NodeKind::MapData) => {
                let ghost goal = spec_map_data(data@, self@);
                while !input.is_empty()
                    invariant
                        spec_map_data(input@, self@) == goal,
                        goal == spec_map_data(data@, old(self)@),
                        header_step(old(self)@, kind, data@) == (match goal {
                            Ok(m2) => Ok((m2, false)),
                            Err(e) => Err(e),
                        }),
                    decreases input@.len(),
                {
                    let ghost before = self@;
                    let raw = input.read_byte()?;
                    match NodeAttributeKind::from_u8(raw) {
                        Some(NodeAttributeKind::MapDescription) => {
                            let text = input.read_string()?;
                            self.description.push(text);
                            assert(self@.description =~= before.description.push(text@));
                        },
                        Some(NodeAttributeKind::HouseFile) => {
                            let text = input.read_string()?;
                            self.house_file.push(text);
                            assert(self@.house_file =~= before.house_file.push(text@));
                        },
                        Some(NodeAttributeKind::SpawnFile) => {
                            let text = input.read_string()?;
                            self.spawn_file.push(text);
                            assert(self@.spawn_file =~= before.spawn_file.push(text@));
                        },
                        _ => {
                            return Err(DecodeError::UnknownTag(raw));
                        },
                    }
                }
                Ok(false)
            },
            Some(_) => Err(DecodeError::PreconditionViolation),
            None => Err(DecodeError::UnknownTag(kind)),
        }
    }
}

/// Receives the tiles that [`Loader::load`] completes. What a sink does with a tile is stated
/// over a model of its state.
pub trait TileSink {
    type V;

    spec fn model(&self) -> Self::V;

    /// The state after it was given the tile at `pos` with `items`.
    spec fn accept(v: Self::V, pos: Position, items: Seq<ItemModel>) -> Self::V;

    fn tile(&mut self, pos: Position, items: &[Item])
        ensures
            final(self).model() == Self::accept(old(self).model(), pos, item_models(items@)),
    ;
}

/// The state of the tile pass: the loader and the sink it feeds.
pub type TilePass<S> = (LoaderModel, <S as TileSink>::V);

/// Hands the tile in progress, if there is one, to the sink, and leaves no tile in progress.
pub open spec fn flush<S: TileSink>(st: TilePass<S>) -> TilePass<S> {
    match st.0.tile {
        Some(pos) => (
            LoaderModel { tile: None, items: Seq::empty(), ..st.0 },
            S::accept(st.1, pos, st.0.items),
        ),
        None => st,
    }
}

/// The attributes in the payload of a tile node, to its end: flags, which are passed over, and
/// items without attributes, which are added to `items`. Any other tag is an error.
pub open spec fn spec_tile_attributes(s: Seq<u8>, items: Seq<ItemModel>) -> Result<
    Seq<ItemModel>,
    DecodeError,
>
    decreases s.len(),
{
    if s.len() == 0 {
        Ok(items)
    } else {
        match NodeAttributeKind::spec_from_u8(s[0]) {
            Some(NodeAttributeKind::TileFlags) => match spec_u32(s.skip(1)) {
                Ok((_, rest)) => spec_tile_attributes(rest, items),
                Err(e) => Err(e),
            },
            Some(NodeAttributeKind::Item) => match spec_u16(s.skip(1)) {
                Ok((id, rest)) => spec_tile_attributes(
                    rest,
                    items.push(ItemModel { id, attributes: Seq::empty() }),
                ),
                Err(e) => Err(e),
            },
            _ => Err(DecodeError::UnknownTag(s[0])),
        }
    }
}

/// A tile node. Its two offset bytes are added to the origin of the tile area; a tile outside a
/// tile area is out of place, and one whose position passes the end of the coordinate range is
/// malformed. The tile that was in progress goes to the sink, and the new tile begins with the
/// items among its attributes. A house tile has a house id before them.
pub open spec fn spec_tile_node<S: TileSink>(st: TilePass<S>, data: Seq<u8>, house: bool) -> Result<
    TilePass<S>,
    DecodeError,
> {
    if data.len() < 2 {
        Err(DecodeError::UnexpectedEnd)
    } else {
        match st.0.origin {
            None => Err(DecodeError::PreconditionViolation),
            Some(origin) => if origin.x + data[0] > 0xFFFF || origin.y + data[1] > 0xFFFF {
                Err(DecodeError::MalformedStream)
            } else if house && data.len() < 6 {
                Err(DecodeError::UnexpectedEnd)
            } else {
                let flushed = flush::<S>(st);
                let pos = Position {
                    x: (origin.x + data[0]) as u16,
                    y: (origin.y + data[1]) as u16,
                    z: origin.z,
                };
                let attributes = if house {
                    data.skip(6)
                } else {
                    data.skip(2)
                };
                match spec_tile_attributes(attributes, flushed.0.items) {
                    Ok(items) => Ok(
                        (LoaderModel { tile: Some(pos), items, ..flushed.0 }, flushed.1),
                    ),
                    Err(e) => Err(e),
                }
            },
        }
    }
}

/// A standalone item node: an item id and attributes to the end of the payload. It joins the
/// tile in progress; without one it is out of place.
pub open spec fn spec_item_node(m: LoaderModel, data: Seq<u8>) -> Result<LoaderModel, DecodeError> {
    match m.tile {
        None => Err(DecodeError::PreconditionViolation),
        Some(_) => match spec_u16(data) {
            Err(e) => Err(e),
            Ok((id, rest)) => match spec_item_attributes(rest, Seq::empty()) {
                Err(e) => Err(e),
                Ok(attributes) => Ok(
                    LoaderModel { items: m.items.push(ItemModel { id, attributes }), ..m },
                ),
            },
        },
    }
}

/// One node of the tile pass. A tile area sets the origin and closes the tile in progress; a
/// tile or house tile closes it and opens the next; an item joins the open tile; towns and
/// waypoints are recorded. Every other node is passed over. The walk always goes on.
pub open spec fn tile_step<S: TileSink>(st: TilePass<S>, kind: u8, data: Seq<u8>) -> Result<
    (TilePass<S>, bool),
    DecodeError,
> {
    match NodeKind::spec_from_u8(kind) {
        Some(NodeKind::TileArea) => match spec_position(data) {
            Ok((origin, _)) => {
                let flushed = flush::<S>(st);
                Ok(((LoaderModel { origin: Some(origin), ..flushed.0 }, flushed.1), true))
            },
            Err(e) => Err(e),
        },
        Some(NodeKind::Tile) => match spec_tile_node::<S>(st, data, false) {
            Ok(st2) => Ok((st2, true)),
            Err(e) => Err(e),
        },
        Some(NodeKind::HouseTile) => match spec_tile_node::<S>(st, data, true) {
            Ok(st2) => Ok((st2, true)),
            Err(e) => Err(e),
        },
        Some(NodeKind::Item) => match spec_item_node(st.0, data) {
            Ok(m) => Ok(((m, st.1), true)),
            Err(e) => Err(e),
        },
        Some(NodeKind::Town) => match spec_town(data) {
            Ok((town, _)) => Ok(((LoaderModel { towns: st.0.towns.push(town), ..st.0 }, st.1), true)),
            Err(e) => Err(e),
        },
        Some(NodeKind::WayPoint) => match spec_waypoint(data) {
            Ok((waypoint, _)) => Ok(
                ((LoaderModel { waypoints: st.0.waypoints.push(waypoint), ..st.0 }, st.1), true),
            ),
            Err(e) => Err(e),
        },
        _ => Ok((st, true)),
    }
}

/// [`tile_step`] as a step function of the flat walk.
pub open spec fn tile_pass<S: TileSink>() -> Step<TilePass<S>> {
    |st: TilePass<S>, kind: u8, data: Seq<u8>| tile_step::<S>(st, kind, data)
}

/// What [`Loader::load`] makes of the bytes: the fold of [`tile_step`] over the nodes, and then
/// the tile in progress handed to the sink.
pub open spec fn spec_load<S: TileSink>(st: TilePass<S>, s: Seq<u8>) -> Parsed<TilePass<S>> {
    match spec_stream(tile_pass::<S>(), st, s, true) {
        Ok((st2, rest)) => Ok((flush::<S>(st2), rest)),
        Err(e) => Err(e),
    }
}

/// A tile with one item among its attributes is handed to the sink with that item, at the
/// position that its offsets give, when the next tile or tile area begins or the pass ends,
/// and not before.
pub proof fn lemma_tile_handed_over<S: TileSink>(
    st: TilePass<S>,
    origin: Position,
    dx: u8,
    dy: u8,
    low: u8,
    high: u8,
    next: Seq<u8>,
)
    requires
        st.0.origin == Some(origin),
        st.0.tile is None,
        st.0.items.len() == 0,
        origin.x + dx <= 0xFFFF,
        origin.y + dy <= 0xFFFF,
    ensures
        ({
            let pos = Position { x: (origin.x + dx) as u16, y: (origin.y + dy) as u16, z: origin.z };
            let items = seq![ItemModel { id: (low + 256 * high) as u16, attributes: Seq::empty() }];
            let handed = S::accept(st.1, pos, items);
            &&& tile_step::<S>(st, 5, seq![dx, dy, 9, low, high]) matches Ok((open, go))
            &&& go
            &&& open.0.tile == Some(pos)
            &&& open.0.items == items
            &&& open.1 == st.1
            &&& flush::<S>(open).1 == handed
            &&& flush::<S>(open).0.tile is None
            &&& tile_step::<S>(open, 5, next) matches Ok((after, _)) ==> after.1 == handed
            &&& tile_step::<S>(open, 14, next) matches Ok((after, _)) ==> after.1 == handed
            &&& tile_step::<S>(open, 4, next) matches Ok((after, _)) ==> after.1 == handed
        }),
{
    let data = seq![dx, dy, 9, low, high];
    let attributes = data.skip(2);
    let id = (low + 256 * high) as u16;
    assert(st.0.items =~= Seq::empty());
    let items = Seq::<ItemModel>::empty().push(ItemModel { id, attributes: Seq::empty() });
    assert(spec_tile_attributes(attributes.skip(1).skip(2), items) == Ok::<
        Seq<ItemModel>,
        DecodeError,
    >(items));
}

/// Reads the attributes of a tile node to the end of `input`.
fn read_tile_attributes(input: &mut Reader, items: &mut Vec<Item>) -> (res: Result<
    (),
    DecodeError,
>)
    ensures
        match spec_tile_attributes(old(input)@, item_models(old(items)@)) {
            Ok(all) => res is Ok && item_models(final(items)@) == all,
            Err(e) => res == Err::<(), DecodeError>(e),
        },
{
    let ghost goal = spec_tile_attributes(input@, item_models(items@));
    while !input.is_empty()
        invariant
            spec_tile_attributes(input@, item_models(items@)) == goal,
            goal == spec_tile_attributes(old(input)@, item_models(old(items)@)),
        decreases input@.len(),
    {
        let ghost before = item_models(items@);
        let raw = input.read_byte()?;
        match NodeAttributeKind::from_u8(raw) {
            Some(NodeAttributeKind::TileFlags) => {
                let _flags = input.read_u32()?;
            },
            Some(NodeAttributeKind::Item) => {
                let id = input.read_u16()?;
                let item = Item { id, attributes: Vec::new() };
                assert(item@.attributes =~= Seq::empty());
                items.push(item);
                assert(item_models(items@) =~= before.push(item@));
            },
            _ => {
                return Err(DecodeError::UnknownTag(raw));
            },
        }
    }
    Ok(())
}

/// Reads the attributes of a standalone item node to the end of `input`.
fn read_item_attributes(input: &mut Reader) -> (res: Result<Vec<ItemAttribute>, DecodeError>)
    ensures
        match spec_item_attributes(old(input)@, Seq::empty()) {
            Ok(all) => res matches Ok(v) && Seq::new(v@.len(), |i: int| v@[i]@) == all,
            Err(e) => res matches Err(f) && f == e,
        },
{
    let mut attributes: Vec<ItemAttribute> = Vec::new();
    let ghost goal = spec_item_attributes(input@, Seq::empty());
    assert(Seq::new(attributes@.len(), |i: int| attributes@[i]@) =~= Seq::<AttrModel>::empty());
    while !input.is_empty()
        invariant
            spec_item_attributes(
                input@,
                Seq::new(attributes@.len(), |i: int| attributes@[i]@),
            ) == goal,
            goal == spec_item_attributes(old(input)@, Seq::empty()),
        decreases input@.len(),
    {
        let ghost before = Seq::new(attributes@.len(), |i: int| attributes@[i]@);
        let ghost bytes = input@;
        let attribute = ItemAttribute::deserialize(input)?;
        proof {
            lemma_value_consumes(item_attribute(bytes[0])->Some_0.1, bytes.skip(1));
        }
        attributes.push(attribute);
        assert(Seq::new(attributes@.len(), |i: int| attributes@[i]@) =~= before.push(
            attribute@,
        ));
    }
    Ok(attributes)
}

impl Loader {
    /// Hands the tile in progress, if there is one, to the sink.
    pub fn flush<S: TileSink>(&mut self, sink: &mut S)
        ensures
            (final(self)@, final(sink).model()) == flush::<S>((old(self)@, old(sink).model())),
    {
        if let Some(pos) = self.current_tile {
            sink.tile(pos, self.current_tile_items.as_slice());
            self.current_tile_items.clear();
            self.current_tile = None;
            assert(self@.items =~= Seq::empty());
        }
    }

    /// One node of the tile pass.
    pub fn load_callback<S: TileSink>(&mut self, kind: u8, data: &[u8], sink: &mut S) -> (r: Result<
        bool,
        DecodeError,
    >)
        ensures
            handled(
                tile_step::<S>((old(self)@, old(sink).model()), kind, data@),
                r,
                (final(self)@, final(sink).model()),
            ),
    {
        let mut input = Reader::new(data);
        match NodeKind::from_u8(kind) {
            Some(NodeKind::TileArea) => {
                let origin = Position::deserialize(&mut input)?;
                self.flush(sink);
                self.current_tile_origin = Some(origin);
            },
            Some(NodeKind::Tile) => {
                self.open_tile(&mut input, false, sink)?;
            },
            Some(NodeKind::HouseTile) => {
                self.open_tile(&mut input, true, sink)?;
            },
            Some(NodeKind::Item) => {
                if self.current_tile.is_none() {
                    return Err(DecodeError::PreconditionViolation);
                }
                let ghost before = self@.items;
                let id = input.read_u16()?;
                let attributes = read_item_attributes(&mut input)?;
                let item = Item { id, attributes };
                self.current_tile_items.push(item);
                assert(self@.items =~= before.push(item@));
            },
            Some(NodeKind::Town) => {
                let ghost before = self@.towns;
                let town = Town::deserialize(&mut input)?;
                self.towns.push(town);
                assert(self@.towns =~= before.push(town@));
            },
            Some(NodeKind::WayPoint) => {
                let ghost before = self@.waypoints;
                let waypoint = Waypoint::deserialize(&mut input)?;
                self.waypoints.push(waypoint);
                assert(self@.waypoints =~= before.push(waypoint@));
            },
            _ => {},
        }
        Ok(true)
    }

    /// A tile node or, with `house`, a house tile node.
    fn open_tile<S: TileSink>(&mut self, input: &mut Reader, house: bool, sink: &mut S) -> (r:
        Result<(), DecodeError>)
        ensures
            match spec_tile_node::<S>((old(self)@, old(sink).model()), old(input)@, house) {
                Ok(st) => r is Ok && (final(self)@, final(sink).model()) == st,
                Err(e) => r == Err::<(), DecodeError>(e),
            },
    {
        let ghost data = input@;
        let x_offset = input.read_byte()?;
        let y_offset = input.read_byte()?;
        let origin = match self.current_tile_origin {
            Some(origin) => origin,
            None => {
                return Err(DecodeError::PreconditionViolation);
            },
        };
        if origin.x > 0xFFFF - (x_offset as u16) || origin.y > 0xFFFF - (y_offset as u16) {
            return Err(DecodeError::MalformedStream);
        }
        if house {
            let _house_id = input.read_u32()?;
        }
        proof {
            assert(data.skip(1).skip(1) == data.skip(2));
            if house {
                assert(data.skip(2).skip(4) == data.skip(6));
            }
        }
        self.flush(sink);
        self.current_tile = Some(
            Position { x: origin.x + x_offset as u16, y: origin.y + y_offset as u16, z: origin.z },
        );
        read_tile_attributes(input, &mut self.current_tile_items)
    }

    /// The tile pass: walks the nodes from where the header pass stopped and hands each
    /// completed tile to `sink`, the last one when the input ends.
    pub fn load<S: TileSink>(&mut self, r: &mut Reader, sink: &mut S) -> (res: Result<
        (),
        DecodeError,
    >)
        ensures
            streamed(
                spec_load::<S>((old(self)@, old(sink).model()), old(r)@),
                res,
                (final(self)@, final(sink).model()),
                final(r)@,
            ),
    {
        let mut kind = r.read_byte()?;
        let mut data: Vec<u8> = Vec::new();
        let ghost step = tile_pass::<S>();
        let ghost goal = stream_from(step, (self@, sink.model()), kind, r@);
        loop
            invariant
                step == tile_pass::<S>(),
                stream_from(step, (self@, sink.model()), kind, r@) == goal,
                goal == spec_stream(step, (old(self)@, old(sink).model()), old(r)@, true),
            decreases r@.len(),
        {
            let ghost before = r@;
            data.clear();
            let more = read_payload(r, &mut data)?;
            proof {
                lemma_span_consumes(before, Seq::empty());
            }
            let go = self.load_callback(kind, data.as_slice(), sink)?;
            if !more || !go {
                self.flush(sink);
                return Ok(());
            }
            kind = r.read_byte()?;
        }
    }
}

/// A sink that keeps every tile it is given.
#[derive(Debug)]
pub struct TileLog {
    pub tiles: Vec<(Position, Vec<Item>)>,
}

/// The tiles that a [`TileLog`] holds, in the order in which it was given them.
pub open spec fn logged(tiles: Seq<(Position, Vec<Item>)>) -> Seq<(Position, Seq<ItemModel>)> {
    Seq::new(tiles.len(), |i: int| (tiles[i].0, item_models(tiles[i].1@)))
}

impl TileLog {
    /// A log without tiles.
    pub fn new() -> (log: TileLog)
        ensures
            log.model() == Seq::<(Position, Seq<ItemModel>)>::empty(),
    {
        let log = TileLog { tiles: Vec::new() };
        log
    }
}

impl TileSink for TileLog {
    type V = Seq<(Position, Seq<ItemModel>)>;

    open spec fn model(&self) -> Seq<(Position, Seq<ItemModel>)> {
        logged(self.tiles@)
    }

    open spec fn accept(
        v: Seq<(Position, Seq<ItemModel>)>,
        pos: Position,
        items: Seq<ItemModel>,
    ) -> Seq<(Position, Seq<ItemModel>)> {
        v.push((pos, items))
    }

    fn tile(&mut self, pos: Position, items: &[Item]) {
        let copy = copy_items(items);
        self.tiles.push((pos, copy));
        assert(self.model() =~= old(self).model().push((pos, item_models(items@))));
    }
}

impl ItemAttribute {
    /// A copy with the same value.
    pub fn duplicate(&self) -> (copy: ItemAttribute)
        ensures
            copy@ == self@,
    {
        match self {
            ItemAttribute::Count(v) => ItemAttribute::Count(*v),
            ItemAttribute::ActionId(v) => ItemAttribute::ActionId(*v),
            ItemAttribute::UniqueId(v) => ItemAttribute::UniqueId(*v),
            ItemAttribute::Text(v) => ItemAttribute::Text(v.clone()),
            ItemAttribute::Description(v) => ItemAttribute::Description(v.clone()),
            ItemAttribute::Teleport(v) => ItemAttribute::Teleport(*v),
            ItemAttribute::DepotId(v) => ItemAttribute::DepotId(*v),
            ItemAttribute::HouseDoorId(v) => ItemAttribute::HouseDoorId(*v),
            ItemAttribute::Duration(v) => ItemAttribute::Duration(*v),
            ItemAttribute::DecayingState(v) => ItemAttribute::DecayingState(*v),
            ItemAttribute::WrittenDate(v) => ItemAttribute::WrittenDate(*v),
            ItemAttribute::WrittenBy(v) => ItemAttribute::WrittenBy(v.clone()),
            ItemAttribute::SleeperGuid(v) => ItemAttribute::SleeperGuid(*v),
            ItemAttribute::SleepStart(v) => ItemAttribute::SleepStart(*v),
            ItemAttribute::Charges(v) => ItemAttribute::Charges(*v),
            ItemAttribute::Name(v) => ItemAttribute::Name(v.clone()),
            ItemAttribute::Article(v) => ItemAttribute::Article(v.clone()),
            ItemAttribute::PluralName(v) => ItemAttribute::PluralName(v.clone()),
            ItemAttribute::Weight(v) => ItemAttribute::Weight(*v),
            ItemAttribute::Attack(v) => ItemAttribute::Attack(*v),
            ItemAttribute::Defense(v) => ItemAttribute::Defense(*v),
            ItemAttribute::ExtraDefense(v) => ItemAttribute::ExtraDefense(*v),
            ItemAttribute::Armor(v) => ItemAttribute::Armor(*v),
            ItemAttribute::HitChance(v) => ItemAttribute::HitChance(*v),
            ItemAttribute::ShootRange(v) => ItemAttribute::ShootRange(*v),
        }
    }
}

impl Item {
    /// A copy with the same id and attributes.
    pub fn duplicate(&self) -> (copy: Item)
        ensures
            copy@ == self@,
    {
        let mut attributes: Vec<ItemAttribute> = Vec::new();
        let mut i: usize = 0;
        while i < self.attributes.len()
            invariant
                i <= self.attributes@.len(),
                attributes@.len() == i,
                forall|j: int| 0 <= j < i ==> (#[trigger] attributes@[j])@ == self.attributes@[j]@,
            decreases self.attributes@.len() - i,
        {
            attributes.push(self.attributes[i].duplicate());
            i = i + 1;
        }
        let copy = Item { id: self.id, attributes };
        assert(copy@.attributes =~= self@.attributes);
        copy
    }
}

/// Copies of `items`, in order.
pub fn copy_items(items: &[Item]) -> (copy: Vec<Item>)
    ensures
        item_models(copy@) == item_models(items@),
{
    let mut copy: Vec<Item> = Vec::new();
    let mut i: usize = 0;
    while i < items.len()
        invariant
            i <= items@.len(),
            copy@.len() == i,
            forall|j: int| 0 <= j < i ==> (#[trigger] copy@[j])@ == items@[j]@,
        decreases items@.len() - i,
    {
        copy.push(items[i].duplicate());
        i = i + 1;
    }
    copy
}

} // verus!

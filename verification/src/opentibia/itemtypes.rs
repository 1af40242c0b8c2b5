//! The item-type table: a node tree whose root carries the version of the table and whose
//! children are one item record each.

use super::binaryfile::{lemma_models, spec_node, Node, NodeModel};
use crate::helpers::{
    decoded_view, spec_fixed_string, u16_le, u32_le, DecodeError, Parsed, Reader,
};
use vec_map::VecMap;
use vstd::prelude::*;
use vstd::string::*;

verus! {

/// The tags of the attributes of an item record.
#[derive(Clone, Copy, Debug, PartialEq, Eq, Structural)]
pub enum AttributeKind {
    ServerId,
    ClientId,
    Name,
    Description,
    Speed,
    Slot,
    MaxItems,
    Weight,
    Weapon,
    Ammunition,
    Armor,
    MagicLevel,
    MagicFieldType,
    Writeable,
    RotateTo,
    Decay,
    SpriteHash,
    MinimapColor,
    Attr07,
    Attr08,
    Light,
    Decay2,
    Weapon2,
    Ammunition2,
    Armor2,
    Writeable2,
    Light2,
    TopOrder,
    Writeable3,
    WareId,
}

impl AttributeKind {
    /// The attribute that a tag byte names.
    pub open spec fn spec_from_u8(b: u8) -> Option<AttributeKind> {
        match b {
            0x10 => Some(AttributeKind::ServerId),
            0x11 => Some(AttributeKind::ClientId),
            0x12 => Some(AttributeKind::Name),
            0x13 => Some(AttributeKind::Description),
            0x14 => Some(AttributeKind::Speed),
            0x15 => Some(AttributeKind::Slot),
            0x16 => Some(AttributeKind::MaxItems),
            0x17 => Some(AttributeKind::Weight),
            0x18 => Some(AttributeKind::Weapon),
            0x19 => Some(AttributeKind::Ammunition),
            0x1A => Some(AttributeKind::Armor),
            0x1B => Some(AttributeKind::MagicLevel),
            0x1C => Some(AttributeKind::MagicFieldType),
            0x1D => Some(AttributeKind::Writeable),
            0x1E => Some(AttributeKind::RotateTo),
            0x1F => Some(AttributeKind::Decay),
            0x20 => Some(AttributeKind::SpriteHash),
            0x21 => Some(AttributeKind::MinimapColor),
            0x22 => Some(AttributeKind::Attr07),
            0x23 => Some(AttributeKind::Attr08),
            0x24 => Some(AttributeKind::Light),
            0x25 => Some(AttributeKind::Decay2),
            0x26 => Some(AttributeKind::Weapon2),
            0x27 => Some(AttributeKind::Ammunition2),
            0x28 => Some(AttributeKind::Armor2),
            0x29 => Some(AttributeKind::Writeable2),
            0x2A => Some(AttributeKind::Light2),
            0x2B => Some(AttributeKind::TopOrder),
            0x2C => Some(AttributeKind::Writeable3),
            0x2D => Some(AttributeKind::WareId),
            _ => None,
        }
    }

    /// The attribute that a tag byte names, if it names one.
    #[verifier::when_used_as_spec(spec_from_u8)]
    pub fn from_u8(b: u8) -> (r: Option<AttributeKind>)
        ensures
            r == Self::spec_from_u8(b),
    {
        match b {
            0x10 => Some(AttributeKind::ServerId),
            0x11 => Some(AttributeKind::ClientId),
            0x12 => Some(AttributeKind::Name),
            0x13 => Some(AttributeKind::Description),
            0x14 => Some(AttributeKind::Speed),
            0x15 => Some(AttributeKind::Slot),
            0x16 => Some(AttributeKind::MaxItems),
            0x17 => Some(AttributeKind::Weight),
            0x18 => Some(AttributeKind::Weapon),
            0x19 => Some(AttributeKind::Ammunition),
            0x1A => Some(AttributeKind::Armor),
            0x1B => Some(AttributeKind::MagicLevel),
            0x1C => Some(AttributeKind::MagicFieldType),
            0x1D => Some(AttributeKind::Writeable),
            0x1E => Some(AttributeKind::RotateTo),
            0x1F => Some(AttributeKind::Decay),
            0x20 => Some(AttributeKind::SpriteHash),
            0x21 => Some(AttributeKind::MinimapColor),
            0x22 => Some(AttributeKind::Attr07),
            0x23 => Some(AttributeKind::Attr08),
            0x24 => Some(AttributeKind::Light),
            0x25 => Some(AttributeKind::Decay2),
            0x26 => Some(AttributeKind::Weapon2),
            0x27 => Some(AttributeKind::Ammunition2),
            0x28 => Some(AttributeKind::Armor2),
            0x29 => Some(AttributeKind::Writeable2),
            0x2A => Some(AttributeKind::Light2),
            0x2B => Some(AttributeKind::TopOrder),
            0x2C => Some(AttributeKind::Writeable3),
            0x2D => Some(AttributeKind::WareId),
            _ => None,
        }
    }
}

/// One entry of the table. An item without a client id has no sprite.
#[derive(Clone, Copy, Debug, PartialEq, Eq, Structural)]
pub struct Item {
    pub server_id: u16,
    pub client_id: Option<u16>,
}

/// `vec_map::VecMap`, which the table is kept in. Its contents are not visible here: they go
/// by the name [`table`].
#[verifier::external_type_specification]
#[verifier::external_body]
#[verifier::reject_recursive_types(V)]
pub struct ExVecMap<V>(VecMap<V>);

/// The entries that a table holds, by key.
pub uninterp spec fn table(m: VecMap<Item>) -> Map<int, Item>;

/// `VecMap::new`: a table without entries.
#[verifier::external_body]
fn table_new() -> (m: VecMap<Item>)
    ensures
        table(m) == (Map::<int, Item>::empty()),
{
    VecMap::new()
}

/// `VecMap::insert`: the entry at `key` becomes `value`, the other entries stay, and the entry
/// that was at `key` is returned. The table grows to hold `key`; the bound keeps that small.
#[verifier::external_body]
fn table_insert(m: &mut VecMap<Item>, key: usize, value: Item) -> (was: Option<Item>)
    requires
        key <= 0xFFFF,
    ensures
        table(*final(m)) == table(*old(m)).insert(key as int, value),
        was == (if table(*old(m)).contains_key(key as int) {
            Some(table(*old(m))[key as int])
        } else {
            None
        }),
{
    m.insert(key, value)
}

/// `VecMap::get`: the entry at `key`, if there is one.
#[verifier::external_body]
fn table_get(m: &VecMap<Item>, key: usize) -> (entry: Option<&Item>)
    ensures
        match entry {
            Some(item) => table(*m).contains_key(key as int) && *item == table(*m)[key as int],
            None => !table(*m).contains_key(key as int),
        },
{
    m.get(key)
}

/// The item-type table.
#[derive(Debug)]
pub struct Container {
    pub flags: u32,
    pub version: (u32, u32, u32),
    pub description: String,
    pub items: VecMap<Item>,
}

/// What a [`Container`] stands for.
pub struct ContainerModel {
    pub flags: u32,
    pub version: (u32, u32, u32),
    pub description: Seq<char>,
    pub items: Map<int, Item>,
}

impl View for Container {
    type V = ContainerModel;

    open spec fn view(&self) -> ContainerModel {
        ContainerModel {
            flags: self.flags,
            version: self.version,
            description: self.description@,
            items: table(self.items),
        }
    }
}

/// The index of the first null character of `text` at or behind `from`, its length where there
/// is none.
pub open spec fn nul_from(text: Seq<char>, from: int) -> int
    decreases text.len() - from,
{
    if from >= text.len() {
        text.len() as int
    } else if text[from] == '\0' {
        from
    } else {
        nul_from(text, from + 1)
    }
}

/// `text` up to its first null character.
pub open spec fn until_nul(text: Seq<char>) -> Seq<char> {
    text.take(nul_from(text, 0))
}

/// What the payload of the root says of the table.
pub struct Header {
    pub flags: u32,
    pub version: (u32, u32, u32),
    pub description: Seq<char>,
}

/// The payload of the root: flags and a tag byte. Where the tag is 1, a version block follows:
/// its length, which must be 140, three version numbers, and a description of 128 bytes that
/// ends at its first null character.
pub open spec fn spec_header(s: Seq<u8>) -> Result<Header, DecodeError> {
    if s.len() < 5 {
        Err(DecodeError::UnexpectedEnd)
    } else if s[4] != 1 {
        Ok(Header { flags: u32_le(s) as u32, version: (0, 0, 0), description: Seq::empty() })
    } else if s.len() < 7 {
        Err(DecodeError::UnexpectedEnd)
    } else if u16_le(s.skip(5)) != 140 {
        Err(DecodeError::MalformedStream)
    } else if s.len() < 19 {
        Err(DecodeError::UnexpectedEnd)
    } else {
        match spec_fixed_string(s.skip(19), 128) {
            Err(e) => Err(e),
            Ok((text, _)) => Ok(
                Header {
                    flags: u32_le(s) as u32,
                    version: (
                        u32_le(s.skip(7)) as u32,
                        u32_le(s.skip(11)) as u32,
                        u32_le(s.skip(15)) as u32,
                    ),
                    description: until_nul(text),
                },
            ),
        }
    }
}

/// The attributes of an item record, to the end of its payload: a tag, a length, a value. The
/// server id and the client id are taken as 16 bit numbers; the value of any other tag is
/// passed over by its length.
pub open spec fn spec_item_attributes(s: Seq<u8>, item: Item) -> Result<Item, DecodeError>
    decreases s.len(),
{
    if s.len() == 0 {
        Ok(item)
    } else if s.len() < 3 {
        Err(DecodeError::UnexpectedEnd)
    } else {
        match AttributeKind::spec_from_u8(s[0]) {
            Some(AttributeKind::ServerId) => if s.len() < 5 {
                Err(DecodeError::UnexpectedEnd)
            } else {
                spec_item_attributes(
                    s.skip(5),
                    Item { server_id: u16_le(s.skip(3)) as u16, client_id: item.client_id },
                )
            },
            Some(AttributeKind::ClientId) => if s.len() < 5 {
                Err(DecodeError::UnexpectedEnd)
            } else {
                spec_item_attributes(
                    s.skip(5),
                    Item { server_id: item.server_id, client_id: Some(u16_le(s.skip(3)) as u16) },
                )
            },
            _ => if s.len() < 3 + u16_le(s.skip(1)) {
                Err(DecodeError::UnexpectedEnd)
            } else {
                spec_item_attributes(s.skip(3 + u16_le(s.skip(1))), item)
            },
        }
    }
}

/// An item record: flags, which are passed over, and attributes.
pub open spec fn spec_item(s: Seq<u8>) -> Result<Item, DecodeError> {
    if s.len() < 4 {
        Err(DecodeError::UnexpectedEnd)
    } else {
        spec_item_attributes(s.skip(4), Item { server_id: 0, client_id: None })
    }
}

/// The records of `children` from index `from` on, entered into `acc` by server id. A later
/// record with the same server id takes the place of an earlier one.
pub open spec fn spec_items(children: Seq<NodeModel>, from: int, acc: Map<int, Item>) -> Result<
    Map<int, Item>,
    DecodeError,
>
    decreases children.len() - from,
{
    if from < 0 || from >= children.len() {
        Ok(acc)
    } else {
        match spec_item(children[from].data) {
            Ok(item) => spec_items(children, from + 1, acc.insert(item.server_id as int, item)),
            Err(e) => Err(e),
        }
    }
}

/// The table that a node tree spells.
pub open spec fn spec_container(root: NodeModel) -> Result<ContainerModel, DecodeError> {
    match spec_header(root.data) {
        Err(e) => Err(e),
        Ok(header) => match spec_items(root.children, 0, Map::empty()) {
            Err(e) => Err(e),
            Ok(items) => Ok(
                ContainerModel {
                    flags: header.flags,
                    version: header.version,
                    description: header.description,
                    items,
                },
            ),
        },
    }
}

/// The table that the bytes spell: a node tree, read as a table.
pub open spec fn spec_table(s: Seq<u8>) -> Parsed<ContainerModel> {
    match spec_node(s, false) {
        Err(e) => Err(e),
        Ok((root, rest)) => match spec_container(root) {
            Err(e) => Err(e),
            Ok(container) => Ok((container, rest)),
        },
    }
}

/// A record that gives a server id and a client id enters the table under the server id,
/// with both.
pub proof fn lemma_record_enters(
    flags: Seq<u8>,
    server: (u8, u8),
    client: (u8, u8),
    before: Map<int, Item>,
    kind: u8,
)
    requires
        flags.len() == 4,
    ensures
        ({
            let record = flags + seq![0x10u8, 2, 0, server.0, server.1, 0x11, 2, 0, client.0, client.1];
            let item = Item {
                server_id: (server.0 + 256 * server.1) as u16,
                client_id: Some((client.0 + 256 * client.1) as u16),
            };
            let children = seq![NodeModel { kind, data: record, children: Seq::empty() }];
            &&& spec_item(record) == Ok::<Item, DecodeError>(item)
            &&& spec_items(children, 0, before) matches Ok(table)
            &&& table == before.insert(item.server_id as int, item)
            &&& table[item.server_id as int] == item
        }),
{
    let record = flags + seq![0x10u8, 2, 0, server.0, server.1, 0x11, 2, 0, client.0, client.1];
    let attributes = record.skip(4);
    let second = attributes.skip(5);
    let first = Item { server_id: (server.0 + 256 * server.1) as u16, client_id: None };
    let item = Item { server_id: first.server_id, client_id: Some((client.0 + 256 * client.1) as u16) };
    assert(spec_item_attributes(second.skip(5), item) == Ok::<Item, DecodeError>(item));
    assert(spec_item_attributes(second, first) == Ok::<Item, DecodeError>(item));
    let children = seq![NodeModel { kind, data: record, children: Seq::empty() }];
    assert(spec_items(children, 1, before.insert(item.server_id as int, item)) == Ok::<
        Map<int, Item>,
        DecodeError,
    >(before.insert(item.server_id as int, item)));
}

/// Cuts `text` at its first null character.
fn truncate_at_nul(text: String) -> (cut: String)
    ensures
        cut@ == until_nul(text@),
{
    let len = text.as_str().unicode_len();
    let mut i: usize = 0;
    while i < len
        invariant
            i <= len,
            len == text@.len(),
            nul_from(text@, i as int) == nul_from(text@, 0),
        decreases len - i,
    {
        if text.as_str().get_char(i) == '\0' {
            let head = text.as_str().substring_char(0, i);
            return String::from_str(head);
        }
        i = i + 1;
    }
    text
}

/// Reads the payload of the root.
fn read_header(data: &[u8]) -> (res: Result<(u32, (u32, u32, u32), String), DecodeError>)
    ensures
        match spec_header(data@) {
            Ok(header) => res matches Ok(got) && got.0 == header.flags && got.1 == header.version
                && got.2@ == header.description,
            Err(e) => res matches Err(f) && f == e,
        },
{
    let ghost s = data@;
    let mut input = Reader::new(data);
    let flags = input.read_u32()?;
    let tag = input.read_byte()?;
    if tag != 1 {
        return Ok((flags, (0, 0, 0), String::new()));
    }
    let length = input.read_u16()?;
    if length != 140 {
        return Err(DecodeError::MalformedStream);
    }
    let major = input.read_u32()?;
    let minor = input.read_u32()?;
    let build = input.read_u32()?;
    assert(input@ == s.skip(19));
    let text = input.read_fixed_string(128)?;
    Ok((flags, (major, minor, build), truncate_at_nul(text)))
}

/// Reads an item record.
fn read_item(data: &[u8]) -> (res: Result<Item, DecodeError>)
    ensures
        res == spec_item(data@),
{
    let mut input = Reader::new(data);
    let _flags = input.read_u32()?;
    let mut item = Item { server_id: 0, client_id: None };
    let ghost goal = spec_item_attributes(input@, item);
    while !input.is_empty()
        invariant
            spec_item_attributes(input@, item) == goal,
            goal == spec_item(data@),
        decreases input@.len(),
    {
        let ghost s = input@;
        let raw = input.read_byte()?;
        let length = input.read_u16()?;
        assert(input@ == s.skip(3));
        match AttributeKind::from_u8(raw) {
            Some(AttributeKind::ServerId) => {
                item.server_id = input.read_u16()?;
                assert(s.skip(3).skip(2) == s.skip(5));
            },
            Some(AttributeKind::ClientId) => {
                item.client_id = Some(input.read_u16()?);
                assert(s.skip(3).skip(2) == s.skip(5));
            },
            _ => {
                match input.skip(length as usize) {
                    Ok(_) => {},
                    Err(e) => {
                        return Err(e);
                    },
                }
                assert(s.skip(3).skip(length as int) == s.skip(3 + length));
            },
        }
    }
    Ok(item)
}

impl Container {
    /// Decodes the table from the bytes of its node tree.
    pub fn new(r: &mut Reader) -> (res: Result<Container, DecodeError>)
        ensures
            decoded_view(spec_table(old(r)@), res, final(r)@),
    {
        let root = Node::deserialize(r, false)?;
        match Container::from_node(&root) {
            Ok(container) => Ok(container),
            Err(e) => Err(e),
        }
    }

    /// Reads a decoded node tree as a table.
    pub fn from_node(root: &Node) -> (res: Result<Container, DecodeError>)
        ensures
            match spec_container(root@) {
                Ok(container) => res matches Ok(got) && got@ == container,
                Err(e) => res matches Err(f) && f == e,
            },
    {
        let (flags, version, description) = read_header(root.data.as_slice())?;
        let mut items = table_new();
        let mut i: usize = 0;
        let ghost goal = spec_items(root@.children, 0, Map::empty());
        proof {
            lemma_models(root.children@);
        }
        while i < root.children.len()
            invariant
                i <= root.children@.len(),
                root@.children.len() == root.children@.len(),
                forall|j: int|
                    0 <= j < root.children@.len() ==> (#[trigger] root@.children[j])
                        == root.children@[j]@,
                spec_items(root@.children, i as int, table(items)) == goal,
                goal == spec_items(root@.children, 0, Map::empty()),
                spec_header(root@.data) is Ok,
            decreases root.children@.len() - i,
        {
            let item = read_item(root.children[i].data.as_slice())?;
            table_insert(&mut items, item.server_id as usize, item);
            i = i + 1;
        }
        Ok(Container { flags, version, description, items })
    }

    /// The entry of a server id, if the table has one.
    pub fn get(&self, server_id: u16) -> (entry: Option<&Item>)
        ensures
            match entry {
                Some(item) => self@.items.contains_key(server_id as int) && *item
                    == self@.items[server_id as int],
                None => !self@.items.contains_key(server_id as int),
            },
    {
        table_get(&self.items, server_id as usize)
    }
}

} // verus!

//! The item-metadata container: one attribute-tagged record per client id, from 100 up.

use crate::helpers::{
    decoded_view, spec_string, spec_u32s, u16_le, u32_le, DecodeError, Parsed, Reader,
};
use vstd::prelude::*;

verus! {

/// The metadata of all items: `items[0]` belongs to client id 100.
pub struct DatContainer {
    pub signature: u32,
    pub items: Vec<Thing>,
}

/// The tags of the attributes of a record.
#[derive(Clone, Copy, Debug, PartialEq, Eq, Structural)]
pub enum Attribute {
    Ground,
    GroundBorder,
    OnBottom,
    OnTop,
    Container,
    Stackable,
    ForceUse,
    MultiUse,
    Writable,
    WritableOnce,
    FluidContainer,
    Splash,
    NotWalkable,
    NotMovable,
    BlockProjectile,
    NotPathable,
    NoMoveAnimation,
    Pickupable,
    Hangable,
    HookSouth,
    HookEast,
    Rotateable,
    Light,
    DontHide,
    Translucent,
    Displacement,
    Elevation,
    LyingCorpse,
    AnimateAlways,
    MinimapColor,
    LensHelp,
    FullGround,
    LookThrough,
    Cloth,
    Market,
    DefaultAction,
    Usable,
    End,
}

impl Attribute {
    /// The attribute that a tag byte names.
    pub open spec fn spec_from_u8(b: u8) -> Option<Attribute> {
        match b {
            0 => Some(Attribute::Ground),
            1 => Some(Attribute::GroundBorder),
            2 => Some(Attribute::OnBottom),
            3 => Some(Attribute::OnTop),
            4 => Some(Attribute::Container),
            5 => Some(Attribute::Stackable),
            6 => Some(Attribute::ForceUse),
            7 => Some(Attribute::MultiUse),
            8 => Some(Attribute::Writable),
            9 => Some(Attribute::WritableOnce),
            10 => Some(Attribute::FluidContainer),
            11 => Some(Attribute::Splash),
            12 => Some(Attribute::NotWalkable),
            13 => Some(Attribute::NotMovable),
            14 => Some(Attribute::BlockProjectile),
            15 => Some(Attribute::NotPathable),
            16 => Some(Attribute::NoMoveAnimation),
            17 => Some(Attribute::Pickupable),
            18 => Some(Attribute::Hangable),
            19 => Some(Attribute::HookSouth),
            20 => Some(Attribute::HookEast),
            21 => Some(Attribute::Rotateable),
            22 => Some(Attribute::Light),
            23 => Some(Attribute::DontHide),
            24 => Some(Attribute::Translucent),
            25 => Some(Attribute::Displacement),
            26 => Some(Attribute::Elevation),
            27 => Some(Attribute::LyingCorpse),
            28 => Some(Attribute::AnimateAlways),
            29 => Some(Attribute::MinimapColor),
            30 => Some(Attribute::LensHelp),
            31 => Some(Attribute::FullGround),
            32 => Some(Attribute::LookThrough),
            33 => Some(Attribute::Cloth),
            34 => Some(Attribute::Market),
            35 => Some(Attribute::DefaultAction),
            0xFE => Some(Attribute::Usable),
            0xFF => Some(Attribute::End),
            _ => None,
        }
    }

    /// The attribute that a tag byte names, if it names one.
    #[verifier::when_used_as_spec(spec_from_u8)]
    pub fn from_u8(b: u8) -> (r: Option<Attribute>)
        ensures
            r == Self::spec_from_u8(b),
    {
        match b {
            0 => Some(Attribute::Ground),
            1 => Some(Attribute::GroundBorder),
            2 => Some(Attribute::OnBottom),
            3 => Some(Attribute::OnTop),
            4 => Some(Attribute::Container),
            5 => Some(Attribute::Stackable),
            6 => Some(Attribute::ForceUse),
            7 => Some(Attribute::MultiUse),
            8 => Some(Attribute::Writable),
            9 => Some(Attribute::WritableOnce),
            10 => Some(Attribute::FluidContainer),
            11 => Some(Attribute::Splash),
            12 => Some(Attribute::NotWalkable),
            13 => Some(Attribute::NotMovable),
            14 => Some(Attribute::BlockProjectile),
            15 => Some(Attribute::NotPathable),
            16 => Some(Attribute::NoMoveAnimation),
            17 => Some(Attribute::Pickupable),
            18 => Some(Attribute::Hangable),
            19 => Some(Attribute::HookSouth),
            20 => Some(Attribute::HookEast),
            21 => Some(Attribute::Rotateable),
            22 => Some(Attribute::Light),
            23 => Some(Attribute::DontHide),
            24 => Some(Attribute::Translucent),
            25 => Some(Attribute::Displacement),
            26 => Some(Attribute::Elevation),
            27 => Some(Attribute::LyingCorpse),
            28 => Some(Attribute::AnimateAlways),
            29 => Some(Attribute::MinimapColor),
            30 => Some(Attribute::LensHelp),
            31 => Some(Attribute::FullGround),
            32 => Some(Attribute::LookThrough),
            33 => Some(Attribute::Cloth),
            34 => Some(Attribute::Market),
            35 => Some(Attribute::DefaultAction),
            0xFE => Some(Attribute::Usable),
            0xFF => Some(Attribute::End),
            _ => None,
        }
    }
}

/// How an item is drawn: the grid of cells it covers, its layers and pattern axes, where it is
/// drawn relative to its tile, and the sprite of every cell of every variation and frame.
#[derive(Debug)]
pub struct Thing {
    pub width: u8,
    pub height: u8,
    pub layers: u8,
    pub pattern_width: u8,
    pub pattern_height: u8,
    pub pattern_depth: u8,
    pub displacement: (u16, u16),
    pub elevation: u16,
    pub sprite_ids: Vec<u32>,
}

/// What a [`Thing`] stands for.
pub struct ThingModel {
    pub width: u8,
    pub height: u8,
    pub layers: u8,
    pub pattern_width: u8,
    pub pattern_height: u8,
    pub pattern_depth: u8,
    pub displacement: (u16, u16),
    pub elevation: u16,
    pub sprite_ids: Seq<u32>,
}

impl View for Thing {
    type V = ThingModel;

    open spec fn view(&self) -> ThingModel {
        ThingModel {
            width: self.width,
            height: self.height,
            layers: self.layers,
            pattern_width: self.pattern_width,
            pattern_height: self.pattern_height,
            pattern_depth: self.pattern_depth,
            displacement: self.displacement,
            elevation: self.elevation,
            sprite_ids: self.sprite_ids@,
        }
    }
}

/// The two values that the attributes of a record leave behind.
pub struct Placing {
    pub displacement: (u16, u16),
    pub elevation: u16,
}

/// The attributes of a record, up to and including the end tag. Displacement and elevation
/// are kept; the other payloads are passed over. A tag that the format does not know is an
/// error, since nothing tells how long its payload is.
pub open spec fn spec_thing_attributes(s: Seq<u8>, acc: Placing) -> Parsed<Placing>
    decreases s.len(),
{
    if s.len() == 0 {
        Err(DecodeError::UnexpectedEnd)
    } else {
        match Attribute::spec_from_u8(s[0]) {
            None => Err(DecodeError::UnknownTag(s[0])),
            Some(Attribute::End) => Ok((acc, s.skip(1))),
            Some(Attribute::Ground)
            | Some(Attribute::Writable)
            | Some(Attribute::WritableOnce)
            | Some(Attribute::DefaultAction)
            | Some(Attribute::MinimapColor)
            | Some(Attribute::Cloth)
            | Some(Attribute::LensHelp) => if s.len() < 3 {
                Err(DecodeError::UnexpectedEnd)
            } else {
                spec_thing_attributes(s.skip(3), acc)
            },
            Some(Attribute::Light) => if s.len() < 5 {
                Err(DecodeError::UnexpectedEnd)
            } else {
                spec_thing_attributes(s.skip(5), acc)
            },
            Some(Attribute::Displacement) => if s.len() < 5 {
                Err(DecodeError::UnexpectedEnd)
            } else {
                spec_thing_attributes(
                    s.skip(5),
                    Placing {
                        displacement: (u16_le(s.skip(1)) as u16, u16_le(s.skip(3)) as u16),
                        elevation: acc.elevation,
                    },
                )
            },
            Some(Attribute::Elevation) => if s.len() < 3 {
                Err(DecodeError::UnexpectedEnd)
            } else {
                spec_thing_attributes(
                    s.skip(3),
                    Placing {
                        displacement: acc.displacement,
                        elevation: u16_le(s.skip(1)) as u16,
                    },
                )
            },
            Some(Attribute::Market) => if s.len() < 5 {
                Err(DecodeError::UnexpectedEnd)
            } else {
                match spec_string(s.skip(5)) {
                    Err(e) => Err(e),
                    Ok((_, rest)) => if rest.len() < 4 {
                        Err(DecodeError::UnexpectedEnd)
                    } else {
                        spec_thing_attributes(rest.skip(4), acc)
                    },
                }
            },
            Some(_) => spec_thing_attributes(s.skip(1), acc),
        }
    }
}

/// The number of bytes of animation timing behind the animation length: a flag, a loop count
/// and a start phase, then two durations per frame; nothing for a single frame.
pub open spec fn timing_len(animation_length: u8) -> int {
    if animation_length > 1 {
        6 + 8 * animation_length
    } else {
        0
    }
}

/// The number of sprites of a record.
pub open spec fn sprite_count(
    width: u8,
    height: u8,
    pattern_width: u8,
    pattern_height: u8,
    pattern_depth: u8,
    layers: u8,
    animation_length: u8,
) -> int {
    width * height * pattern_width * pattern_height * pattern_depth * layers * animation_length
}

/// What follows the attributes of a record: width and height, a byte more where either
/// exceeds 1, layers and the three pattern axes, the animation length with its timing, and as
/// many sprite ids as the product of the seven numbers.
pub open spec fn spec_thing_shape(s: Seq<u8>, placing: Placing) -> Parsed<ThingModel> {
    if s.len() < 2 {
        Err(DecodeError::UnexpectedEnd)
    } else {
        let extra: int = if s[0] > 1 || s[1] > 1 {
            1
        } else {
            0
        };
        if s.len() < 7 + extra {
            Err(DecodeError::UnexpectedEnd)
        } else {
            let t = s.skip(2 + extra);
            let count = sprite_count(s[0], s[1], t[1], t[2], t[3], t[0], t[4]);
            let ids = t.skip(5 + timing_len(t[4]));
            if t.len() < 5 + timing_len(t[4]) + 4 * count {
                Err(DecodeError::UnexpectedEnd)
            } else {
                Ok(
                    (
                        ThingModel {
                            width: s[0],
                            height: s[1],
                            layers: t[0],
                            pattern_width: t[1],
                            pattern_height: t[2],
                            pattern_depth: t[3],
                            displacement: placing.displacement,
                            elevation: placing.elevation,
                            sprite_ids: spec_u32s(ids, count),
                        },
                        ids.skip(4 * count),
                    ),
                )
            }
        }
    }
}

/// One record.
pub open spec fn spec_thing(s: Seq<u8>) -> Parsed<ThingModel> {
    match spec_thing_attributes(s, Placing { displacement: (0, 0), elevation: 0 }) {
        Ok((placing, rest)) => spec_thing_shape(rest, placing),
        Err(e) => Err(e),
    }
}

/// The number of sprites of a thing with `frames` animation frames.
pub open spec fn sprites_for(thing: ThingModel, frames: int) -> int {
    thing.width * thing.height * thing.pattern_width * thing.pattern_height
        * thing.pattern_depth * thing.layers * frames
}

/// A decoded record holds one sprite for every cell of every layer, variation and frame.
pub proof fn lemma_thing_sprites(s: Seq<u8>)
    ensures
        spec_thing(s) matches Ok((thing, _)) ==> exists|frames: int|
            0 <= frames <= 255 && thing.sprite_ids.len() == #[trigger] sprites_for(thing, frames),
{
    if let Ok((placing, rest)) = spec_thing_attributes(
        s,
        Placing { displacement: (0, 0), elevation: 0 },
    ) {
        if let Ok((thing, _)) = spec_thing_shape(rest, placing) {
            let extra: int = if rest[0] > 1 || rest[1] > 1 {
                1
            } else {
                0
            };
            let t = rest.skip(2 + extra);
            let frames = t[4] as int;
            assert(thing.sprite_ids.len() == sprites_for(thing, frames)) by {
                let count = sprite_count(rest[0], rest[1], t[1], t[2], t[3], t[0], t[4]);
            }
        }
    }
}

/// A record of one cell, one layer, one pattern and one frame holds one sprite: behind its
/// seven numbers exactly one sprite id is consumed.
pub proof fn lemma_single_cell(s: Seq<u8>, placing: Placing)
    requires
        s.len() >= 11,
        forall|i: int| 0 <= i < 7 ==> s[i] == 1,
    ensures
        sprite_count(1, 1, 1, 1, 1, 1, 1) == 1,
        spec_thing_shape(s, placing) matches Ok((thing, rest)) && thing.sprite_ids == seq![
            u32_le(s.skip(7)) as u32,
        ] && rest == s.skip(11),
{
    let t = s.skip(2);
    assert(t[0] == s[2] && t[1] == s[3] && t[2] == s[4] && t[3] == s[5] && t[4] == s[6]);
    let ids = t.skip(5);
}

/// `n` records in a row, added to `acc`.
pub open spec fn spec_things(s: Seq<u8>, n: nat, acc: Seq<ThingModel>) -> Parsed<Seq<ThingModel>>
    decreases n,
{
    if n == 0 {
        Ok((acc, s))
    } else {
        match spec_thing(s) {
            Ok((thing, rest)) => spec_things(rest, (n - 1) as nat, acc.push(thing)),
            Err(e) => Err(e),
        }
    }
}

/// What a [`DatContainer`] stands for.
pub struct DatModel {
    pub signature: u32,
    pub items: Seq<ThingModel>,
}

impl View for DatContainer {
    type V = DatModel;

    open spec fn view(&self) -> DatModel {
        DatModel {
            signature: self.signature,
            items: Seq::new(self.items@.len(), |i: int| self.items@[i]@),
        }
    }
}

/// The number of records behind an item count: one for each client id from 100 to the count.
pub open spec fn record_count(item_count: u16) -> nat {
    if item_count >= 100 {
        (item_count - 99) as nat
    } else {
        0
    }
}

/// The container: a signature, the item count, three counts that are passed over, and the
/// records.
pub open spec fn spec_dat(s: Seq<u8>) -> Parsed<DatModel> {
    if s.len() < 12 {
        Err(DecodeError::UnexpectedEnd)
    } else {
        match spec_things(s.skip(12), record_count(u16_le(s.skip(4)) as u16), Seq::empty()) {
            Ok((items, rest)) => Ok((DatModel { signature: u32_le(s) as u32, items }, rest)),
            Err(e) => Err(e),
        }
    }
}

/// Reads the attributes of a record, up to and including the end tag.
fn read_thing_attributes(r: &mut Reader) -> (res: Result<((u16, u16), u16), DecodeError>)
    ensures
        match spec_thing_attributes(old(r)@, Placing { displacement: (0, 0), elevation: 0 }) {
            Ok((placing, rest)) => res == Ok::<((u16, u16), u16), DecodeError>(
                (placing.displacement, placing.elevation),
            ) && final(r)@ == rest,
            Err(e) => res == Err::<((u16, u16), u16), DecodeError>(e),
        },
{
    let mut displacement: (u16, u16) = (0, 0);
    let mut elevation: u16 = 0;
    let ghost goal = spec_thing_attributes(r@, Placing { displacement, elevation });
    loop
        invariant
            spec_thing_attributes(r@, Placing { displacement, elevation }) == goal,
            goal == spec_thing_attributes(
                old(r)@,
                Placing { displacement: (0, 0), elevation: 0 },
            ),
        decreases r@.len(),
    {
        let ghost s = r@;
        let raw = r.read_byte()?;
        match Attribute::from_u8(raw) {
            None => {
                return Err(DecodeError::UnknownTag(raw));
            },
            Some(Attribute::End) => {
                return Ok((displacement, elevation));
            },
            Some(Attribute::Ground)
            | Some(Attribute::Writable)
            | Some(Attribute::WritableOnce)
            | Some(Attribute::DefaultAction)
            | Some(Attribute::MinimapColor)
            | Some(Attribute::Cloth)
            | Some(Attribute::LensHelp) => {
                let _value = r.read_u16()?;
                assert(s.skip(1).skip(2) == s.skip(3));
            },
            Some(Attribute::Light) => {
                let _intensity = r.read_u16()?;
                let _color = r.read_u16()?;
                assert(s.skip(1).skip(2).skip(2) == s.skip(5));
            },
            Some(Attribute::Displacement) => {
                let x = r.read_u16()?;
                let y = r.read_u16()?;
                assert(s.skip(1).skip(2) == s.skip(3));
                assert(s.skip(3).skip(2) == s.skip(5));
                displacement = (x, y);
            },
            Some(Attribute::Elevation) => {
                elevation = r.read_u16()?;
                assert(s.skip(1).skip(2) == s.skip(3));
            },
            Some(Attribute::Market) => {
                let _category = r.read_u16()?;
                let _trade_id = r.read_u16()?;
                assert(s.skip(1).skip(2).skip(2) == s.skip(5));
                let _name = r.read_string()?;
                let ghost rest = r@;
                let _vocation = r.read_u16()?;
                let _level = r.read_u16()?;
                assert(rest.skip(2).skip(2) == rest.skip(4));
            },
            Some(_) => {},
        }
    }
}

impl Thing {
    /// Decodes one record.
    pub fn deserialize(r: &mut Reader) -> (res: Result<Thing, DecodeError>)
        ensures
            decoded_view(spec_thing(old(r)@), res, final(r)@),
    {
        let (displacement, elevation) = read_thing_attributes(r)?;
        let ghost s = r@;
        let width = r.read_byte()?;
        let height = r.read_byte()?;
        if width > 1 || height > 1 {
            let _reserved = r.read_byte()?;
        }
        let ghost extra: int = if width > 1 || height > 1 {
            1
        } else {
            0
        };
        let ghost t = s.skip(2 + extra);
        let layers = r.read_byte()?;
        let pattern_width = r.read_byte()?;
        let pattern_height = r.read_byte()?;
        let pattern_depth = r.read_byte()?;
        let animation_length = r.read_byte()?;
        let total = cells(
            width,
            height,
            pattern_width,
            pattern_height,
            pattern_depth,
            layers,
            animation_length,
        );
        if animation_length > 1 {
            let timing: usize = 6 + 8 * (animation_length as usize);
            match r.skip(timing) {
                Ok(_) => {},
                Err(e) => {
                    return Err(e);
                },
            }
        }
        let ghost ids = t.skip(5 + timing_len(animation_length));
        if total > (r.remaining() / 4) as u64 {
            return Err(DecodeError::UnexpectedEnd);
        }
        let wanted = total as usize;
        let mut sprite_ids: Vec<u32> = Vec::new();
        let mut i: usize = 0;
        while i < wanted
            invariant
                i <= wanted,
                4 * wanted <= ids.len(),
                r@ == ids.skip(4 * i),
                sprite_ids@ == spec_u32s(ids, i as int),
            decreases wanted - i,
        {
            let id = r.read_u32()?;
            sprite_ids.push(id);
            i = i + 1;
        }
        Ok(
            Thing {
                width,
                height,
                layers,
                pattern_width,
                pattern_height,
                pattern_depth,
                displacement,
                elevation,
                sprite_ids,
            },
        )
    }
}

/// The number of sprites of a record, computed without overflow.
fn cells(
    width: u8,
    height: u8,
    pattern_width: u8,
    pattern_height: u8,
    pattern_depth: u8,
    layers: u8,
    animation_length: u8,
) -> (total: u64)
    ensures
        total == sprite_count(
            width,
            height,
            pattern_width,
            pattern_height,
            pattern_depth,
            layers,
            animation_length,
        ),
{
    assert(width * height <= 0xFFFF) by (nonlinear_arith)
        requires
            width <= 255,
            height <= 255,
    ;
    let a: u64 = (width as u64) * (height as u64);
    assert(a * pattern_width <= 0xFF_FFFF) by (nonlinear_arith)
        requires
            a <= 0xFFFF,
            pattern_width <= 255,
    ;
    let b: u64 = a * (pattern_width as u64);
    assert(b * pattern_height <= 0xFFFF_FFFF) by (nonlinear_arith)
        requires
            b <= 0xFF_FFFF,
            pattern_height <= 255,
    ;
    let c: u64 = b * (pattern_height as u64);
    assert(c * pattern_depth <= 0xFF_FFFF_FFFF) by (nonlinear_arith)
        requires
            c <= 0xFFFF_FFFF,
            pattern_depth <= 255,
    ;
    let d: u64 = c * (pattern_depth as u64);
    assert(d * layers <= 0xFFFF_FFFF_FFFF) by (nonlinear_arith)
        requires
            d <= 0xFF_FFFF_FFFF,
            layers <= 255,
    ;
    let e: u64 = d * (layers as u64);
    assert(e * animation_length <= 0xFF_FFFF_FFFF_FFFF) by (nonlinear_arith)
        requires
            e <= 0xFFFF_FFFF_FFFF,
            animation_length <= 255,
    ;
    e * (animation_length as u64)
}

impl DatContainer {
    /// Decodes the container.
    pub fn new(r: &mut Reader) -> (res: Result<DatContainer, DecodeError>)
        ensures
            decoded_view(spec_dat(old(r)@), res, final(r)@),
    {
        let ghost s = r@;
        let signature = r.read_u32()?;
        let num_items = r.read_u16()?;
        let _num_creatures = r.read_u16()?;
        let _num_magic_effects = r.read_u16()?;
        let _num_distance_effects = r.read_u16()?;
        assert(r@ == s.skip(12));
        let mut items: Vec<Thing> = Vec::new();
        let count: u16 = if num_items >= 100 {
            num_items - 99
        } else {
            0
        };
        let mut done: u16 = 0;
        let ghost goal = spec_things(r@, count as nat, Seq::empty());
        assert(Seq::new(items@.len(), |i: int| items@[i]@) =~= Seq::<ThingModel>::empty());
        while done < count
            invariant
                done <= count,
                spec_things(
                    r@,
                    (count - done) as nat,
                    Seq::new(items@.len(), |i: int| items@[i]@),
                ) == goal,
                goal == spec_things(s.skip(12), record_count(num_items), Seq::empty()),
                s == old(r)@,
                s.len() >= 12,
                signature == u32_le(s) as u32,
                num_items == u16_le(s.skip(4)) as u16,
            decreases count - done,
        {
            let ghost before = Seq::new(items@.len(), |i: int| items@[i]@);
            let thing = Thing::deserialize(r)?;
            items.push(thing);
            assert(Seq::new(items@.len(), |i: int| items@[i]@) =~= before.push(thing@));
            done = done + 1;
        }
        Ok(DatContainer { signature, items })
    }

    /// The record of a client id, if the container has one.
    pub fn get(&self, client_id: u16) -> (thing: Option<&Thing>)
        ensures
            thing == (if 100 <= client_id < 100 + self.items@.len() {
                Some(&self.items@[client_id - 100])
            } else {
                None
            }),
    {
        if client_id >= 100 && ((client_id - 100) as usize) < self.items.len() {
            Some(&self.items[(client_id - 100) as usize])
        } else {
            None
        }
    }
}

} // verus!

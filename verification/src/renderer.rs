//! How a drawing layer picks sprites out of the decoded data.

use crate::datcontainer::{DatContainer, Thing, ThingModel};
use crate::opentibia::itemtypes::{Container, Item as ItemType};
use crate::opentibia::map::{item_models, Item, ItemModel};
use crate::opentibia::Position;
use vstd::prelude::*;

verus! {

/// The place of a sprite in the sprite list of a thing. The list is laid out as a number in
/// mixed radix: the animation frame is the most significant digit, then the pattern row and
/// column, the layer, and the cell row and column, which is the least significant.
pub open spec fn sprite_index(
    thing: ThingModel,
    frame: int,
    pattern_y: int,
    pattern_x: int,
    layer: int,
    y: int,
    x: int,
) -> int {
    ((((((frame % 4096) * thing.pattern_height + pattern_y % (thing.pattern_height as int))
        * thing.pattern_width + pattern_x % (thing.pattern_width as int)) * thing.layers + layer)
        * thing.height + y) * thing.width + x) % (thing.sprite_ids.len() as int)
}

/// The place of the sprite of a cell in the first animation frame.
pub fn get_sprite_id(obj: &Thing, layer: u8, pattern_x: u16, pattern_y: u16, x: u8, y: u8) -> (index:
    usize)
    requires
        obj.pattern_width > 0,
        obj.pattern_height > 0,
        obj.sprite_ids@.len() > 0,
    ensures
        index == sprite_index(
            obj@,
            0,
            pattern_y as int,
            pattern_x as int,
            layer as int,
            y as int,
            x as int,
        ),
        index < obj.sprite_ids@.len(),
{
    let row: u64 = (pattern_y % (obj.pattern_height as u16)) as u64;
    let column: u64 = (pattern_x % (obj.pattern_width as u16)) as u64;
    assert(row * obj.pattern_width <= 0xFFFF) by (nonlinear_arith)
        requires
            row <= 255,
            obj.pattern_width <= 255,
    ;
    let a: u64 = row * (obj.pattern_width as u64) + column;
    assert(a * obj.layers <= 0x200_0000) by (nonlinear_arith)
        requires
            a <= 0x2_0000,
            obj.layers <= 255,
    ;
    let b: u64 = a * (obj.layers as u64) + layer as u64;
    assert(b * obj.height <= 0x4_0000_0000) by (nonlinear_arith)
        requires
            b <= 0x400_0000,
            obj.height <= 255,
    ;
    let c: u64 = b * (obj.height as u64) + y as u64;
    assert(c * obj.width <= 0x800_0000_0000) by (nonlinear_arith)
        requires
            c <= 0x8_0000_0000,
            obj.width <= 255,
    ;
    let d: u64 = c * (obj.width as u64) + x as u64;
    assert(0int * (obj.pattern_height as int) == 0);
    (d % (obj.sprite_ids.len() as u64)) as usize
}

/// The first coordinate in view: the middle of the view less half its extent, not below zero,
/// and cut to 16 bits.
pub open spec fn view_start(middle: i32, extent: u16) -> int {
    if middle - extent / 2 < 0 {
        0
    } else {
        (middle - extent / 2) % 65536
    }
}

/// The number of sectors that a view of `extent` tiles touches in one direction.
pub open spec fn sectors_across(extent: u16) -> int {
    (extent + 62) / 32
}

/// The sectors that a view touches, on the ground floor: the view is `size` tiles wide and
/// high around `ul`, and the sectors come column by column, 32 tiles apart.
pub fn get_visible_sectors(ul: (i32, i32), size: (u16, u16)) -> (sectors: Vec<Position>)
    requires
        ul.0 - size.0 / 2 >= i32::MIN,
        ul.1 - size.1 / 2 >= i32::MIN,
        size.0 <= 65504,
        size.1 <= 65504,
        view_start(ul.0, size.0) + 32 * (sectors_across(size.0) - 1) <= 0xFFFF,
        view_start(ul.1, size.1) + 32 * (sectors_across(size.1) - 1) <= 0xFFFF,
    ensures
        sectors@.len() == sectors_across(size.0) * sectors_across(size.1),
        forall|a: int, b: int|
            0 <= a < sectors_across(size.0) && 0 <= b < sectors_across(size.1) ==> (
            #[trigger] sectors@[a * sectors_across(size.1) + b]) == (Position {
                x: (view_start(ul.0, size.0) + 32 * a) as u16,
                y: (view_start(ul.1, size.1) + 32 * b) as u16,
                z: 7,
            }),
{
    let (w, h) = size;
    let left = ul.0 - (w / 2) as i32;
    let top = ul.1 - (h / 2) as i32;
    let u: u16 = if left < 0 {
        0
    } else {
        (left % 65536) as u16
    };
    let l: u16 = if top < 0 {
        0
    } else {
        (top % 65536) as u16
    };
    let w_ceil: u32 = w as u32 + 31;
    let h_ceil: u32 = h as u32 + 31;
    let ghost nx = sectors_across(w);
    let ghost ny = sectors_across(h);
    let mut sectors: Vec<Position> = Vec::new();
    let mut x: u32 = 0;
    let ghost mut a: int = 0;
    while x < w_ceil
        invariant
            w_ceil == w + 31,
            h_ceil == h + 31,
            w <= 65504,
            h <= 65504,
            nx == sectors_across(w),
            ny == sectors_across(h),
            ny >= 1,
            u == view_start(ul.0, w),
            l == view_start(ul.1, h),
            u + 32 * (nx - 1) <= 0xFFFF,
            l + 32 * (ny - 1) <= 0xFFFF,
            x == 32 * a,
            0 <= a,
            a > 0 ==> 32 * (a - 1) < w_ceil,
            sectors@.len() == a * ny,
            forall|i: int, j: int|
                0 <= i < a && 0 <= j < ny ==> (#[trigger] sectors@[i * ny + j]) == (Position {
                    x: (u + 32 * i) as u16,
                    y: (l + 32 * j) as u16,
                    z: 7,
                }),
        decreases nx - a,
    {
        let mut y: u32 = 0;
        let ghost mut b: int = 0;
        let ghost row = sectors@;
        while y < h_ceil
            invariant
                h_ceil == h + 31,
                h <= 65504,
                ny == sectors_across(h),
                l + 32 * (ny - 1) <= 0xFFFF,
                u + x <= 0xFFFF,
                x == 32 * a,
                0 <= a,
                y == 32 * b,
                0 <= b,
                b > 0 ==> 32 * (b - 1) < h_ceil,
                row.len() == a * ny,
                sectors@.len() == a * ny + b,
                forall|k: int| 0 <= k < row.len() ==> sectors@[k] == row[k],
                forall|j: int|
                    0 <= j < b ==> (#[trigger] sectors@[a * ny + j]) == (Position {
                        x: (u + x) as u16,
                        y: (l + 32 * j) as u16,
                        z: 7,
                    }),
            decreases ny - b,
        {
            sectors.push(Position { x: u + x as u16, y: l + y as u16, z: 7 });
            y = y + 32;
            proof {
                b = b + 1;
            }
        }
        proof {
            assert((a + 1) * ny == a * ny + ny) by (nonlinear_arith);
            assert forall|i: int, j: int| 0 <= i < a + 1 && 0 <= j < ny implies (
            #[trigger] sectors@[i * ny + j]) == (Position {
                x: (u + 32 * i) as u16,
                y: (l + 32 * j) as u16,
                z: 7,
            }) by {
                if i < a {
                    assert(i * ny + j < a * ny) by (nonlinear_arith)
                        requires
                            0 <= i < a,
                            0 <= j < ny,
                    ;
                    assert(sectors@[i * ny + j] == row[i * ny + j]);
                }
            }
        }
        x = x + 32;
        proof {
            a = a + 1;
        }
    }
    sectors
}

/// One sprite to draw: the tile it belongs to, the cell of the thing it shows, how far it is
/// moved away from the tile in pixels, and the sprite.
#[derive(Clone, Copy, Debug, PartialEq, Eq, Structural)]
pub struct Placement {
    pub tile: Position,
    /// The column of the cell, counted away from the tile.
    pub x: u8,
    /// The row of the cell, counted away from the tile.
    pub y: u8,
    /// The displacement of the thing and the elevation of the things below it, to the left.
    pub offset_x: u16,
    /// The same, upwards.
    pub offset_y: u16,
    pub sprite_id: u32,
}

/// The sprite of a cell of a thing that lies at `pos`: the pattern is chosen by the position.
pub open spec fn cell_sprite(thing: ThingModel, pos: Position, layer: int, y: int, x: int) -> u32 {
    thing.sprite_ids[sprite_index(thing, 0, pos.y as int, pos.x as int, layer, y, x)]
}

/// The sprites of the cells of a thing from cell (`layer`, `y`, `x`) on, added to `acc`: layer
/// by layer, row by row. A cell whose sprite is 0 shows nothing. `None` where the thing has
/// cells and no sprites, or where a sprite to draw is moved further than 16 bits hold.
pub open spec fn spec_cells(
    thing: ThingModel,
    pos: Position,
    elevation: int,
    layer: int,
    y: int,
    x: int,
    acc: Seq<Placement>,
) -> Option<Seq<Placement>>
    decreases thing.layers - layer, thing.height - y, thing.width - x,
{
    if layer >= thing.layers || layer < 0 || y < 0 || x < 0 {
        Some(acc)
    } else if y >= thing.height {
        spec_cells(thing, pos, elevation, layer + 1, 0, 0, acc)
    } else if x >= thing.width {
        spec_cells(thing, pos, elevation, layer, y + 1, 0, acc)
    } else if thing.sprite_ids.len() == 0 {
        None
    } else if cell_sprite(thing, pos, layer, y, x) == 0 {
        spec_cells(thing, pos, elevation, layer, y, x + 1, acc)
    } else if thing.displacement.0 + elevation > 0xFFFF || thing.displacement.1 + elevation
        > 0xFFFF {
        None
    } else {
        spec_cells(
            thing,
            pos,
            elevation,
            layer,
            y,
            x + 1,
            acc.push(
                Placement {
                    tile: pos,
                    x: x as u8,
                    y: y as u8,
                    offset_x: (thing.displacement.0 + elevation) as u16,
                    offset_y: (thing.displacement.1 + elevation) as u16,
                    sprite_id: cell_sprite(thing, pos, layer, y, x),
                },
            ),
        )
    }
}

/// The sprites of a thing at `pos`. `None` where a pattern axis of the thing is 0.
pub open spec fn spec_thing_sprites(
    thing: ThingModel,
    pos: Position,
    elevation: int,
    acc: Seq<Placement>,
) -> Option<Seq<Placement>> {
    if thing.pattern_width == 0 || thing.pattern_height == 0 {
        None
    } else {
        spec_cells(thing, pos, elevation, 0, 0, 0, acc)
    }
}

/// The sprites of the items of a tile from item `from` on. An item is looked up in the item
/// types by its id, and its client id in the things; an item without a client id shows
/// nothing. Each thing lifts the things above it by its elevation. `None` where a lookup
/// fails, a thing cannot be drawn, or the elevation passes 16 bits.
pub open spec fn spec_tile_sprites(
    types: Map<int, ItemType>,
    things: Seq<ThingModel>,
    pos: Position,
    items: Seq<ItemModel>,
    from: int,
    elevation: int,
    acc: Seq<Placement>,
) -> Option<Seq<Placement>>
    decreases items.len() - from,
{
    if from < 0 || from >= items.len() {
        Some(acc)
    } else if !types.contains_key(items[from].id as int) {
        None
    } else {
        match types[items[from].id as int].client_id {
            None => spec_tile_sprites(types, things, pos, items, from + 1, elevation, acc),
            Some(client_id) => if client_id < 100 || client_id - 100 >= things.len() {
                None
            } else {
                match spec_thing_sprites(things[client_id - 100], pos, elevation, acc) {
                    None => None,
                    Some(drawn) => if elevation + things[client_id - 100].elevation > 0xFFFF {
                        None
                    } else {
                        spec_tile_sprites(
                            types,
                            things,
                            pos,
                            items,
                            from + 1,
                            elevation + things[client_id - 100].elevation,
                            drawn,
                        )
                    },
                }
            },
        }
    }
}

/// Adds the sprites of a thing at `pos` to `out`. Returns whether the thing could be drawn.
fn thing_sprites(obj: &Thing, pos: Position, elevation: u16, out: &mut Vec<Placement>) -> (ok: bool)
    ensures
        match spec_thing_sprites(obj@, pos, elevation as int, old(out)@) {
            Some(all) => ok && final(out)@ == all,
            None => !ok,
        },
{
    if obj.pattern_width == 0 || obj.pattern_height == 0 {
        return false;
    }
    let ghost goal = spec_cells(obj@, pos, elevation as int, 0, 0, 0, out@);
    let mut layer: u8 = 0;
    while layer < obj.layers
        invariant
            obj.pattern_width > 0,
            obj.pattern_height > 0,
            layer <= obj.layers,
            spec_cells(obj@, pos, elevation as int, layer as int, 0, 0, out@) == goal,
            goal == spec_thing_sprites(obj@, pos, elevation as int, old(out)@),
        decreases obj.layers - layer,
    {
        let mut y: u8 = 0;
        while y < obj.height
            invariant
                obj.pattern_width > 0,
                obj.pattern_height > 0,
                layer < obj.layers,
                y <= obj.height,
                spec_cells(obj@, pos, elevation as int, layer as int, y as int, 0, out@) == goal,
                goal == spec_thing_sprites(obj@, pos, elevation as int, old(out)@),
            decreases obj.height - y,
        {
            let mut x: u8 = 0;
            while x < obj.width
                invariant
                    obj.pattern_width > 0,
                    obj.pattern_height > 0,
                    layer < obj.layers,
                    y < obj.height,
                    x <= obj.width,
                    spec_cells(obj@, pos, elevation as int, layer as int, y as int, x as int, out@)
                        == goal,
                    goal == spec_thing_sprites(obj@, pos, elevation as int, old(out)@),
                decreases obj.width - x,
            {
                if obj.sprite_ids.len() == 0 {
                    return false;
                }
                let index = get_sprite_id(obj, layer, pos.x, pos.y, x, y);
                let sprite_id = obj.sprite_ids[index];
                if sprite_id != 0 {
                    if obj.displacement.0 > 0xFFFF - elevation || obj.displacement.1 > 0xFFFF
                        - elevation {
                        return false;
                    }
                    out.push(
                        Placement {
                            tile: pos,
                            x,
                            y,
                            offset_x: obj.displacement.0 + elevation,
                            offset_y: obj.displacement.1 + elevation,
                            sprite_id,
                        },
                    );
                }
                x = x + 1;
            }
            y = y + 1;
        }
        layer = layer + 1;
    }
    true
}

/// The sprites that show the items of the tile at `pos`, from the lowest item up. `None` where
/// the tables do not know an item of the tile or hold a thing that cannot be drawn.
pub fn tile_sprites(otb: &Container, dat: &DatContainer, pos: Position, items: &[Item]) -> (sprites:
    Option<Vec<Placement>>)
    ensures
        match spec_tile_sprites(otb@.items, dat@.items, pos, item_models(items@), 0, 0, Seq::empty()) {
            Some(all) => sprites matches Some(v) && v@ == all,
            None => sprites is None,
        },
{
    let mut out: Vec<Placement> = Vec::new();
    let mut elevation: u16 = 0;
    let mut i: usize = 0;
    let ghost goal = spec_tile_sprites(
        otb@.items,
        dat@.items,
        pos,
        item_models(items@),
        0,
        0,
        Seq::empty(),
    );
    while i < items.len()
        invariant
            i <= items@.len(),
            spec_tile_sprites(
                otb@.items,
                dat@.items,
                pos,
                item_models(items@),
                i as int,
                elevation as int,
                out@,
            ) == goal,
            goal == spec_tile_sprites(
                otb@.items,
                dat@.items,
                pos,
                item_models(items@),
                0,
                0,
                Seq::empty(),
            ),
        decreases items@.len() - i,
    {
        let client_id = match otb.get(items[i].id) {
            None => {
                return None;
            },
            Some(entry) => entry.client_id,
        };
        if let Some(client_id) = client_id {
            let obj = match dat.get(client_id) {
                None => {
                    return None;
                },
                Some(obj) => obj,
            };
            if !thing_sprites(obj, pos, elevation, &mut out) {
                return None;
            }
            if obj.elevation > 0xFFFF - elevation {
                return None;
            }
            elevation = elevation + obj.elevation;
        }
        i = i + 1;
    }
    Some(out)
}

} // verus!

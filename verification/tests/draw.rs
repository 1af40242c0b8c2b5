use tibia_formats::datcontainer::{DatContainer, Thing};
use tibia_formats::opentibia::itemtypes::{Container, Item as ItemType};
use tibia_formats::opentibia::map::Item;
use tibia_formats::opentibia::Position;
use tibia_formats::renderer::{tile_sprites, Placement};
use vec_map::VecMap;

fn types(entries: &[(u16, Option<u16>)]) -> Container {
    let mut items = VecMap::new();
    for &(server_id, client_id) in entries {
        items.insert(server_id as usize, ItemType { server_id, client_id });
    }
    Container { flags: 0, version: (0, 0, 0), description: String::new(), items }
}

fn cell(sprite_id: u32) -> Thing {
    Thing {
        width: 1,
        height: 1,
        layers: 1,
        pattern_width: 1,
        pattern_height: 1,
        pattern_depth: 1,
        displacement: (0, 0),
        elevation: 0,
        sprite_ids: vec![sprite_id],
    }
}

fn things(items: Vec<Thing>) -> DatContainer {
    DatContainer { signature: 0, items }
}

fn bare(id: u16) -> Item {
    Item { id, attributes: Vec::new() }
}

const HERE: Position = Position { x: 10, y: 21, z: 7 };

#[test]
fn item_is_drawn_with_the_sprite_of_its_thing() {
    let otb = types(&[(500, Some(100))]);
    let dat = things(vec![cell(77)]);
    assert_eq!(
        tile_sprites(&otb, &dat, HERE, &[bare(500)]),
        Some(vec![Placement { tile: HERE, x: 0, y: 0, offset_x: 0, offset_y: 0, sprite_id: 77 }])
    );
}

#[test]
fn empty_tile_shows_nothing() {
    let otb = types(&[]);
    let dat = things(vec![]);
    assert_eq!(tile_sprites(&otb, &dat, HERE, &[]), Some(vec![]));
}

#[test]
fn item_without_client_id_shows_nothing() {
    let otb = types(&[(500, None), (501, Some(100))]);
    let dat = things(vec![cell(77)]);
    let sprites = tile_sprites(&otb, &dat, HERE, &[bare(500), bare(501), bare(500)]).unwrap();
    assert_eq!(sprites.len(), 1);
    assert_eq!(sprites[0].sprite_id, 77);
}

#[test]
fn sprite_zero_shows_nothing() {
    let otb = types(&[(1, Some(100)), (2, Some(101))]);
    let dat = things(vec![cell(0), cell(5)]);
    let sprites = tile_sprites(&otb, &dat, HERE, &[bare(1), bare(2)]).unwrap();
    assert_eq!(sprites.iter().map(|p| p.sprite_id).collect::<Vec<_>>(), vec![5]);
}

#[test]
fn things_lift_the_things_above_them() {
    let mut table = cell(1);
    table.elevation = 8;
    table.displacement = (2, 3);
    let mut vase = cell(2);
    vase.elevation = 4;
    let mut flower = cell(3);
    flower.displacement = (1, 1);
    let otb = types(&[(1, Some(100)), (2, Some(101)), (3, Some(102))]);
    let dat = things(vec![table, vase, flower]);
    let sprites = tile_sprites(&otb, &dat, HERE, &[bare(1), bare(2), bare(3)]).unwrap();
    assert_eq!(
        sprites,
        vec![
            Placement { tile: HERE, x: 0, y: 0, offset_x: 2, offset_y: 3, sprite_id: 1 },
            Placement { tile: HERE, x: 0, y: 0, offset_x: 8, offset_y: 8, sprite_id: 2 },
            Placement { tile: HERE, x: 0, y: 0, offset_x: 13, offset_y: 13, sprite_id: 3 },
        ]
    );
}

#[test]
fn cells_come_layer_by_layer_and_row_by_row() {
    let thing = Thing {
        width: 2,
        height: 2,
        layers: 2,
        pattern_width: 1,
        pattern_height: 1,
        pattern_depth: 1,
        displacement: (0, 0),
        elevation: 0,
        sprite_ids: (10..18).collect(),
    };
    let otb = types(&[(1, Some(100))]);
    let dat = things(vec![thing]);
    let sprites = tile_sprites(&otb, &dat, HERE, &[bare(1)]).unwrap();
    let seen: Vec<(u8, u8, u32)> = sprites.iter().map(|p| (p.x, p.y, p.sprite_id)).collect();
    assert_eq!(
        seen,
        vec![
            (0, 0, 10),
            (1, 0, 11),
            (0, 1, 12),
            (1, 1, 13),
            (0, 0, 14),
            (1, 0, 15),
            (0, 1, 16),
            (1, 1, 17),
        ]
    );
}

#[test]
fn pattern_is_chosen_by_the_position() {
    let thing = Thing {
        width: 1,
        height: 1,
        layers: 1,
        pattern_width: 2,
        pattern_height: 3,
        pattern_depth: 1,
        displacement: (0, 0),
        elevation: 0,
        sprite_ids: (100..106).collect(),
    };
    let otb = types(&[(1, Some(100))]);
    let dat = things(vec![thing]);
    for (x, y, expected) in [(0u16, 0u16, 100u32), (1, 0, 101), (0, 1, 102), (1, 2, 105), (3, 5, 105), (2, 3, 100)] {
        let pos = Position { x, y, z: 7 };
        let sprites = tile_sprites(&otb, &dat, pos, &[bare(1)]).unwrap();
        assert_eq!(sprites.len(), 1);
        assert_eq!(sprites[0].sprite_id, expected);
        assert_eq!(sprites[0].tile, pos);
    }
}

#[test]
fn item_that_the_types_do_not_know_cannot_be_drawn() {
    let otb = types(&[(500, Some(100))]);
    let dat = things(vec![cell(77)]);
    assert_eq!(tile_sprites(&otb, &dat, HERE, &[bare(500), bare(501)]), None);
}

#[test]
fn client_id_without_a_thing_cannot_be_drawn() {
    let dat = things(vec![cell(77)]);
    assert_eq!(tile_sprites(&types(&[(1, Some(99))]), &dat, HERE, &[bare(1)]), None);
    assert_eq!(tile_sprites(&types(&[(1, Some(0))]), &dat, HERE, &[bare(1)]), None);
    assert_eq!(tile_sprites(&types(&[(1, Some(101))]), &dat, HERE, &[bare(1)]), None);
    assert!(tile_sprites(&types(&[(1, Some(100))]), &dat, HERE, &[bare(1)]).is_some());
}

#[test]
fn thing_with_an_empty_pattern_axis_cannot_be_drawn() {
    let otb = types(&[(1, Some(100))]);
    let mut thing = cell(7);
    thing.pattern_width = 0;
    assert_eq!(tile_sprites(&otb, &things(vec![thing]), HERE, &[bare(1)]), None);
    let mut thing = cell(7);
    thing.pattern_height = 0;
    assert_eq!(tile_sprites(&otb, &things(vec![thing]), HERE, &[bare(1)]), None);
}

#[test]
fn thing_with_cells_and_no_sprites_cannot_be_drawn() {
    let otb = types(&[(1, Some(100))]);
    let mut thing = cell(7);
    thing.sprite_ids = vec![];
    assert_eq!(tile_sprites(&otb, &things(vec![thing]), HERE, &[bare(1)]), None);
    // without cells nothing is looked up
    let mut thing = cell(7);
    thing.sprite_ids = vec![];
    thing.width = 0;
    assert_eq!(tile_sprites(&otb, &things(vec![thing]), HERE, &[bare(1)]), Some(vec![]));
}

#[test]
fn offsets_beyond_16_bits_cannot_be_drawn() {
    let otb = types(&[(1, Some(100)), (2, Some(101))]);
    let mut high = cell(1);
    high.elevation = 65535;
    let mut moved = cell(2);
    moved.displacement = (1, 0);
    assert_eq!(tile_sprites(&otb, &things(vec![high, moved]), HERE, &[bare(1), bare(2)]), None);
    let mut high = cell(1);
    high.elevation = 65535;
    let mut still = cell(2);
    still.elevation = 1;
    // the second thing is drawn, but the elevation above it passes 16 bits
    assert_eq!(tile_sprites(&otb, &things(vec![high, still]), HERE, &[bare(1), bare(2)]), None);
    let mut high = cell(1);
    high.elevation = 65535;
    let sprites = tile_sprites(&otb, &things(vec![high, cell(2)]), HERE, &[bare(1), bare(2)]).unwrap();
    assert_eq!(sprites[1].offset_x, 65535);
    assert_eq!(sprites[1].offset_y, 65535);
}

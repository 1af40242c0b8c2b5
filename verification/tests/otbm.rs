use tibia_formats::helpers::{DecodeError, Reader};
use tibia_formats::map::WorldMap;
use tibia_formats::opentibia::binaryfile::{END, ESCAPE, START};
use tibia_formats::opentibia::map::{
    copy_items, Item, ItemAttribute, Loader, NodeAttributeKind, NodeKind, TileLog, TileSink, Town,
    Waypoint,
};
use tibia_formats::opentibia::Position;

fn escape_into(out: &mut Vec<u8>, data: &[u8]) {
    for &b in data {
        if b == START || b == END || b == ESCAPE {
            out.push(ESCAPE);
        }
        out.push(b);
    }
}

/// A node that is left open: start byte, tag, payload.
fn open_node(kind: u8, payload: &[u8]) -> Vec<u8> {
    let mut bytes = vec![START, kind];
    escape_into(&mut bytes, payload);
    bytes
}

/// A node without children.
fn node(kind: u8, payload: &[u8]) -> Vec<u8> {
    let mut bytes = open_node(kind, payload);
    bytes.push(END);
    bytes
}

fn text(tag: u8, s: &str) -> Vec<u8> {
    let mut bytes = vec![tag];
    bytes.extend_from_slice(&(s.len() as u16).to_le_bytes());
    bytes.extend_from_slice(s.as_bytes());
    bytes
}

fn position(x: u16, y: u16, z: u8) -> Vec<u8> {
    let mut bytes = Vec::new();
    bytes.extend_from_slice(&x.to_le_bytes());
    bytes.extend_from_slice(&y.to_le_bytes());
    bytes.push(z);
    bytes
}

fn root_payload() -> Vec<u8> {
    let mut bytes = Vec::new();
    bytes.extend_from_slice(&2u32.to_le_bytes());
    bytes.extend_from_slice(&2048u16.to_le_bytes());
    bytes.extend_from_slice(&1024u16.to_le_bytes());
    bytes.extend_from_slice(&3u32.to_le_bytes());
    bytes.extend_from_slice(&57u32.to_le_bytes());
    bytes
}

fn map_data_payload() -> Vec<u8> {
    let mut bytes = Vec::new();
    bytes.extend_from_slice(&text(1, "first line"));
    bytes.extend_from_slice(&text(1, "second line"));
    bytes.extend_from_slice(&text(13, "map-spawn.xml"));
    bytes.extend_from_slice(&text(11, "map-house.xml"));
    bytes
}

/// The headers of a map file, left open for what follows the map data.
fn headers() -> Vec<u8> {
    let mut bytes = open_node(0, &root_payload());
    bytes.extend_from_slice(&open_node(2, &map_data_payload()));
    bytes
}

fn tile_pass(bytes: &[u8]) -> (Loader, Result<(), DecodeError>, TileLog) {
    let mut r = Reader::new(bytes);
    let mut loader = Loader::new();
    let mut log = TileLog::new();
    let result = loader.load(&mut r, &mut log);
    (loader, result, log)
}

/// Nodes for the tile pass: the start byte of the first is taken off, as the header pass
/// consumes it.
fn behind_headers(nodes: &[Vec<u8>]) -> Vec<u8> {
    let mut bytes = Vec::new();
    for n in nodes {
        bytes.extend_from_slice(n);
    }
    bytes.remove(0);
    bytes
}

#[test]
fn open_reads_the_headers() {
    let mut bytes = headers();
    bytes.extend_from_slice(&node(4, &position(100, 200, 7)));
    let mut r = Reader::new(&bytes);
    let loader = Loader::open(&mut r).unwrap();
    assert_eq!(loader.version, 2);
    assert_eq!(loader.width, 2048);
    assert_eq!(loader.height, 1024);
    assert_eq!(loader.items_version, (3, 57));
    assert_eq!(loader.description, vec!["first line", "second line"]);
    assert_eq!(loader.spawn_file, vec!["map-spawn.xml"]);
    assert_eq!(loader.house_file, vec!["map-house.xml"]);
    assert!(loader.towns.is_empty());
    assert!(loader.waypoints.is_empty());
    // the start byte of the tile area is consumed, its tag is next
    assert_eq!(r.read_byte(), Ok(4));
}

#[test]
fn open_takes_map_data_at_the_end_of_input() {
    let bytes = headers();
    let mut r = Reader::new(&bytes);
    let loader = Loader::open(&mut r).unwrap();
    assert_eq!(loader.description.len(), 2);
    assert!(r.is_empty());
}

#[test]
fn open_with_a_root_only_leaves_the_texts_empty() {
    let bytes = node(0, &root_payload());
    let mut r = Reader::new(&bytes);
    let loader = Loader::open(&mut r).unwrap();
    assert_eq!(loader.width, 2048);
    assert!(loader.description.is_empty());
}

#[test]
fn open_fails_on_a_short_root() {
    let bytes = node(0, &root_payload()[..15]);
    let mut r = Reader::new(&bytes);
    assert_eq!(Loader::open(&mut r).err(), Some(DecodeError::UnexpectedEnd));
}

#[test]
fn open_fails_on_an_unknown_header_attribute() {
    let mut bytes = open_node(0, &root_payload());
    bytes.extend_from_slice(&open_node(2, &text(3, "x")));
    let mut r = Reader::new(&bytes);
    assert_eq!(Loader::open(&mut r).err(), Some(DecodeError::UnknownTag(3)));
    let mut bytes = open_node(0, &root_payload());
    bytes.extend_from_slice(&open_node(2, &text(200, "x")));
    let mut r = Reader::new(&bytes);
    assert_eq!(Loader::open(&mut r).err(), Some(DecodeError::UnknownTag(200)));
}

#[test]
fn open_fails_on_a_cut_header_text() {
    let mut bytes = open_node(0, &root_payload());
    bytes.extend_from_slice(&open_node(2, &[1, 5, 0, b'a']));
    let mut r = Reader::new(&bytes);
    assert_eq!(Loader::open(&mut r).err(), Some(DecodeError::UnexpectedEnd));
}

#[test]
fn open_fails_on_a_node_that_is_no_header() {
    let mut bytes = open_node(0, &root_payload());
    bytes.extend_from_slice(&node(4, &position(1, 2, 3)));
    bytes.extend_from_slice(&node(2, &[]));
    let mut r = Reader::new(&bytes);
    assert_eq!(Loader::open(&mut r).err(), Some(DecodeError::PreconditionViolation));
}

#[test]
fn open_fails_on_a_tag_that_names_no_kind() {
    let mut bytes = open_node(1, &[]);
    bytes.extend_from_slice(&node(2, &[]));
    let mut r = Reader::new(&bytes);
    assert_eq!(Loader::open(&mut r).err(), Some(DecodeError::UnknownTag(1)));
}

#[test]
fn open_fails_without_start() {
    let bytes = [0u8, 1, 2];
    let mut r = Reader::new(&bytes);
    assert_eq!(Loader::open(&mut r).err(), Some(DecodeError::MalformedStream));
}

#[test]
fn headers_callback_answers_true_for_root_and_false_for_map_data() {
    let mut loader = Loader::new();
    assert_eq!(loader.load_headers_callback(0, &root_payload()), Ok(true));
    assert_eq!(loader.version, 2);
    assert_eq!(loader.load_headers_callback(2, &map_data_payload()), Ok(false));
    assert_eq!(loader.description.len(), 2);
    assert_eq!(loader.load_headers_callback(2, &[]), Ok(false));
    assert_eq!(loader.load_headers_callback(5, &[]), Err(DecodeError::PreconditionViolation));
    assert_eq!(loader.load_headers_callback(17, &[]), Err(DecodeError::UnknownTag(17)));
}

#[test]
fn tile_with_one_item_is_handed_over_at_the_end_of_input() {
    let bytes = behind_headers(&[
        open_node(4, &position(100, 200, 7)),
        node(5, &[2, 3, 9, 99, 0]),
        vec![END],
    ]);
    let (_, result, log) = tile_pass(&bytes);
    assert_eq!(result, Ok(()));
    assert_eq!(log.tiles.len(), 1);
    assert_eq!(log.tiles[0].0, Position { x: 102, y: 203, z: 7 });
    assert_eq!(log.tiles[0].1.len(), 1);
    assert_eq!(log.tiles[0].1[0].id, 99);
    assert!(log.tiles[0].1[0].attributes.is_empty());
}

#[test]
fn tile_is_handed_over_when_the_next_tile_begins() {
    let mut loader = Loader::new();
    let mut log = TileLog::new();
    assert_eq!(loader.load_callback(4, &position(100, 200, 7), &mut log), Ok(true));
    assert_eq!(loader.load_callback(5, &[2, 3, 9, 99, 0], &mut log), Ok(true));
    assert!(log.tiles.is_empty());
    assert_eq!(loader.current_tile, Some(Position { x: 102, y: 203, z: 7 }));
    assert_eq!(loader.load_callback(5, &[4, 5], &mut log), Ok(true));
    assert_eq!(log.tiles.len(), 1);
    assert_eq!(log.tiles[0].0, Position { x: 102, y: 203, z: 7 });
    assert_eq!(log.tiles[0].1.len(), 1);
    assert_eq!(log.tiles[0].1[0].id, 99);
    assert_eq!(loader.current_tile, Some(Position { x: 104, y: 205, z: 7 }));
    assert!(loader.current_tile_items.is_empty());
}

#[test]
fn tile_is_handed_over_when_the_next_tile_area_begins() {
    let mut loader = Loader::new();
    let mut log = TileLog::new();
    assert_eq!(loader.load_callback(4, &position(100, 200, 7), &mut log), Ok(true));
    assert_eq!(loader.load_callback(5, &[2, 3, 9, 99, 0], &mut log), Ok(true));
    assert_eq!(loader.load_callback(4, &position(300, 400, 6), &mut log), Ok(true));
    assert_eq!(log.tiles.len(), 1);
    assert_eq!(log.tiles[0].0, Position { x: 102, y: 203, z: 7 });
    assert_eq!(log.tiles[0].1[0].id, 99);
    assert_eq!(loader.current_tile, None);
    assert_eq!(loader.current_tile_origin, Some(Position { x: 300, y: 400, z: 6 }));
    // nothing is left to hand over
    loader.flush(&mut log);
    assert_eq!(log.tiles.len(), 1);
}

#[test]
fn tiles_arrive_in_order_with_their_items() {
    let bytes = behind_headers(&[
        open_node(4, &position(1000, 2000, 7)),
        node(5, &[0, 0, 9, 1, 0, 9, 2, 0]),
        node(5, &[1, 0]),
        open_node(5, &[255, 255, 3, 1, 2, 3, 4, 9, 3, 0]),
        node(6, &[4, 0, 15, 5]),
        vec![END, END],
        open_node(4, &position(0, 0, 0)),
        node(14, &[0, 1, 0xAA, 0xBB, 0xCC, 0xDD, 9, 5, 0]),
        vec![END],
    ]);
    let (loader, result, log) = tile_pass(&bytes);
    assert_eq!(result, Ok(()));
    assert_eq!(log.tiles.len(), 4);
    assert_eq!(log.tiles[0].0, Position { x: 1000, y: 2000, z: 7 });
    assert_eq!(log.tiles[0].1.iter().map(|i| i.id).collect::<Vec<_>>(), vec![1, 2]);
    assert_eq!(log.tiles[1].0, Position { x: 1001, y: 2000, z: 7 });
    assert!(log.tiles[1].1.is_empty());
    assert_eq!(log.tiles[2].0, Position { x: 1255, y: 2255, z: 7 });
    assert_eq!(log.tiles[2].1.iter().map(|i| i.id).collect::<Vec<_>>(), vec![3, 4]);
    assert_eq!(log.tiles[2].1[1].attributes, vec![ItemAttribute::Count(5)]);
    assert_eq!(log.tiles[3].0, Position { x: 0, y: 1, z: 0 });
    assert_eq!(log.tiles[3].1.iter().map(|i| i.id).collect::<Vec<_>>(), vec![5]);
    assert_eq!(loader.current_tile, None);
    assert!(loader.current_tile_items.is_empty());
}

#[test]
fn tile_pass_over_an_input_without_tiles_hands_nothing_over() {
    let bytes = behind_headers(&[node(12, &[]), node(15, &[])]);
    let (_, result, log) = tile_pass(&bytes);
    assert_eq!(result, Ok(()));
    assert!(log.tiles.is_empty());
}

#[test]
fn tile_pass_fails_on_empty_input() {
    let (_, result, log) = tile_pass(&[]);
    assert_eq!(result, Err(DecodeError::UnexpectedEnd));
    assert!(log.tiles.is_empty());
}

#[test]
fn tile_outside_a_tile_area_is_out_of_place() {
    let mut loader = Loader::new();
    let mut log = TileLog::new();
    assert_eq!(
        loader.load_callback(5, &[2, 3], &mut log),
        Err(DecodeError::PreconditionViolation)
    );
    assert_eq!(
        loader.load_callback(14, &[2, 3, 0, 0, 0, 0], &mut log),
        Err(DecodeError::PreconditionViolation)
    );
}

#[test]
fn tile_without_its_offsets_is_cut() {
    let mut loader = Loader::new();
    let mut log = TileLog::new();
    assert_eq!(loader.load_callback(5, &[2], &mut log), Err(DecodeError::UnexpectedEnd));
    loader.load_callback(4, &position(1, 2, 3), &mut log).unwrap();
    assert_eq!(loader.load_callback(5, &[2], &mut log), Err(DecodeError::UnexpectedEnd));
}

#[test]
fn house_tile_without_its_house_id_is_cut() {
    let mut loader = Loader::new();
    let mut log = TileLog::new();
    loader.load_callback(4, &position(1, 2, 3), &mut log).unwrap();
    assert_eq!(loader.load_callback(14, &[2, 3, 1, 2, 3], &mut log), Err(DecodeError::UnexpectedEnd));
}

#[test]
fn tile_beyond_the_coordinate_range_is_malformed() {
    let mut loader = Loader::new();
    let mut log = TileLog::new();
    loader.load_callback(4, &position(65535, 10, 3), &mut log).unwrap();
    assert_eq!(loader.load_callback(5, &[1, 0], &mut log), Err(DecodeError::MalformedStream));
    assert_eq!(loader.load_callback(5, &[0, 0], &mut log), Ok(true));
    assert_eq!(loader.current_tile, Some(Position { x: 65535, y: 10, z: 3 }));
    loader.load_callback(4, &position(10, 65500, 3), &mut log).unwrap();
    assert_eq!(loader.load_callback(5, &[0, 36], &mut log), Err(DecodeError::MalformedStream));
    assert_eq!(loader.load_callback(5, &[0, 35], &mut log), Ok(true));
}

#[test]
fn tile_with_an_unknown_attribute_fails() {
    let mut loader = Loader::new();
    let mut log = TileLog::new();
    loader.load_callback(4, &position(1, 2, 3), &mut log).unwrap();
    assert_eq!(loader.load_callback(5, &[0, 0, 4, 1, 0], &mut log), Err(DecodeError::UnknownTag(4)));
    assert_eq!(loader.load_callback(5, &[0, 0, 77], &mut log), Err(DecodeError::UnknownTag(77)));
}

#[test]
fn tile_with_a_cut_attribute_fails() {
    let mut loader = Loader::new();
    let mut log = TileLog::new();
    loader.load_callback(4, &position(1, 2, 3), &mut log).unwrap();
    assert_eq!(loader.load_callback(5, &[0, 0, 9, 1], &mut log), Err(DecodeError::UnexpectedEnd));
    assert_eq!(loader.load_callback(5, &[0, 0, 3, 1, 2, 3], &mut log), Err(DecodeError::UnexpectedEnd));
}

#[test]
fn item_outside_a_tile_is_out_of_place() {
    let mut loader = Loader::new();
    let mut log = TileLog::new();
    assert_eq!(loader.load_callback(6, &[1, 0], &mut log), Err(DecodeError::PreconditionViolation));
    loader.load_callback(4, &position(1, 2, 3), &mut log).unwrap();
    assert_eq!(loader.load_callback(6, &[1, 0], &mut log), Err(DecodeError::PreconditionViolation));
}

fn one_item(payload: &[u8]) -> Result<Item, DecodeError> {
    let mut loader = Loader::new();
    let mut log = TileLog::new();
    loader.load_callback(4, &position(1, 2, 3), &mut log).unwrap();
    loader.load_callback(5, &[0, 0], &mut log).unwrap();
    loader.load_callback(6, payload, &mut log)?;
    loader.flush(&mut log);
    Ok(log.tiles[0].1[0].clone())
}

#[test]
fn item_node_gives_an_item_with_its_attributes_in_order() {
    let mut payload = vec![0x34, 0x12];
    payload.extend_from_slice(&[15, 7]);
    payload.extend_from_slice(&text(6, "hello"));
    payload.extend_from_slice(&[22, 0x10, 0x27]);
    let item = one_item(&payload).unwrap();
    assert_eq!(item.id, 0x1234);
    assert_eq!(
        item.attributes,
        vec![
            ItemAttribute::Count(7),
            ItemAttribute::Text(String::from("hello")),
            ItemAttribute::Charges(10000),
        ]
    );
}

#[test]
fn item_node_without_attributes_gives_a_bare_item() {
    let item = one_item(&[5, 0]).unwrap();
    assert_eq!(item.id, 5);
    assert!(item.attributes.is_empty());
}

#[test]
fn every_item_attribute_has_its_tag_and_width() {
    let cases: Vec<(Vec<u8>, ItemAttribute)> = vec![
        (vec![15, 200], ItemAttribute::Count(200)),
        (vec![12, 3], ItemAttribute::Count(3)),
        (vec![22, 1, 2], ItemAttribute::Charges(0x0201)),
        (text(6, "t"), ItemAttribute::Text(String::from("t"))),
        (vec![4, 1, 2], ItemAttribute::ActionId(0x0201)),
        (vec![5, 3, 4], ItemAttribute::UniqueId(0x0403)),
        (vec![18, 1, 2, 3, 4], ItemAttribute::WrittenDate(0x04030201)),
        (text(19, "me"), ItemAttribute::WrittenBy(String::from("me"))),
        (text(7, "d"), ItemAttribute::Description(String::from("d"))),
        (vec![16, 0xFE, 0xFF, 0xFF, 0xFF], ItemAttribute::Duration(-2)),
        (vec![17, 9], ItemAttribute::DecayingState(9)),
        (text(24, "n"), ItemAttribute::Name(String::from("n"))),
        (text(25, "an"), ItemAttribute::Article(String::from("an"))),
        (text(26, "ns"), ItemAttribute::PluralName(String::from("ns"))),
        (vec![27, 1, 0, 0, 0], ItemAttribute::Weight(1)),
        (vec![28, 2, 0, 0, 0], ItemAttribute::Attack(2)),
        (vec![29, 3, 0, 0, 0], ItemAttribute::Defense(3)),
        (vec![30, 0xFF, 0xFF, 0xFF, 0xFF], ItemAttribute::ExtraDefense(-1)),
        (vec![31, 5, 0, 0, 0], ItemAttribute::Armor(5)),
        (vec![32, 6], ItemAttribute::HitChance(6)),
        (vec![33, 7], ItemAttribute::ShootRange(7)),
        (
            vec![8, 1, 2, 3, 4, 5],
            ItemAttribute::Teleport(Position { x: 0x0201, y: 0x0403, z: 5 }),
        ),
        (vec![14, 8], ItemAttribute::HouseDoorId(8)),
        (vec![10, 9, 0], ItemAttribute::DepotId(9)),
    ];
    for (bytes, expected) in cases {
        let mut r = Reader::new(&bytes);
        assert_eq!(ItemAttribute::deserialize(&mut r), Ok(expected.clone()));
        assert!(r.is_empty());
        let mut payload = vec![1, 0];
        payload.extend_from_slice(&bytes);
        assert_eq!(one_item(&payload).unwrap().attributes, vec![expected]);
    }
}

#[test]
fn item_attribute_with_an_unknown_tag_fails() {
    for tag in [0u8, 1, 2, 3, 9, 11, 13, 20, 21, 23, 34, 128, 255] {
        let bytes = [tag, 0, 0, 0, 0, 0];
        let mut r = Reader::new(&bytes);
        assert_eq!(ItemAttribute::deserialize(&mut r), Err(DecodeError::UnknownTag(tag)));
        assert_eq!(one_item(&[1, 0, tag, 0, 0, 0, 0]).err(), Some(DecodeError::UnknownTag(tag)));
    }
}

#[test]
fn item_attribute_with_a_cut_value_fails() {
    let bytes = [27u8, 1, 2, 3];
    let mut r = Reader::new(&bytes);
    assert_eq!(ItemAttribute::deserialize(&mut r), Err(DecodeError::UnexpectedEnd));
    assert_eq!(one_item(&[1]).err(), Some(DecodeError::UnexpectedEnd));
    assert_eq!(one_item(&[1, 0, 8, 1, 2, 3, 4]).err(), Some(DecodeError::UnexpectedEnd));
}

fn town_payload() -> Vec<u8> {
    let mut bytes = Vec::new();
    bytes.extend_from_slice(&3u32.to_le_bytes());
    bytes.extend_from_slice(&6u16.to_le_bytes());
    bytes.extend_from_slice(b"Carlin");
    bytes.extend_from_slice(&position(500, 600, 7));
    bytes
}

fn waypoint_payload() -> Vec<u8> {
    let mut bytes = Vec::new();
    bytes.extend_from_slice(&4u16.to_le_bytes());
    bytes.extend_from_slice(b"gate");
    bytes.extend_from_slice(&position(10, 20, 8));
    bytes
}

#[test]
fn town_is_read_from_its_record() {
    let mut bytes = town_payload();
    bytes.push(0x99);
    let mut r = Reader::new(&bytes);
    let town = Town::deserialize(&mut r).unwrap();
    assert_eq!(town.id, 3);
    assert_eq!(town.name, "Carlin");
    assert_eq!(town.temple_position, Position { x: 500, y: 600, z: 7 });
    assert_eq!(r.remaining(), 1);
}

#[test]
fn town_fails_when_its_record_is_cut() {
    let bytes = town_payload();
    for cut in [0, 3, 5, 8, 14] {
        let mut r = Reader::new(&bytes[..cut]);
        assert_eq!(Town::deserialize(&mut r).err(), Some(DecodeError::UnexpectedEnd));
    }
}

#[test]
fn waypoint_is_read_from_its_record() {
    let bytes = waypoint_payload();
    let mut r = Reader::new(&bytes);
    let waypoint = Waypoint::deserialize(&mut r).unwrap();
    assert_eq!(waypoint.name, "gate");
    assert_eq!(waypoint.position, Position { x: 10, y: 20, z: 8 });
    assert!(r.is_empty());
}

#[test]
fn waypoint_fails_when_its_record_is_cut() {
    let bytes = waypoint_payload();
    let mut r = Reader::new(&bytes[..7]);
    assert_eq!(Waypoint::deserialize(&mut r).err(), Some(DecodeError::UnexpectedEnd));
}

#[test]
fn towns_and_waypoints_are_recorded_in_order() {
    let mut second = town_payload();
    second[0] = 4;
    let bytes = behind_headers(&[
        open_node(12, &[]),
        node(13, &town_payload()),
        node(13, &second),
        vec![END],
        open_node(15, &[]),
        node(16, &waypoint_payload()),
        vec![END],
    ]);
    let (loader, result, log) = tile_pass(&bytes);
    assert_eq!(result, Ok(()));
    assert!(log.tiles.is_empty());
    assert_eq!(loader.towns.len(), 2);
    assert_eq!(loader.towns[0].id, 3);
    assert_eq!(loader.towns[1].id, 4);
    assert_eq!(loader.waypoints.len(), 1);
    assert_eq!(loader.waypoints[0].name, "gate");
}

#[test]
fn nodes_of_other_kinds_are_passed_over() {
    let mut loader = Loader::new();
    let mut log = TileLog::new();
    for kind in [0u8, 1, 2, 3, 7, 8, 9, 10, 11, 12, 15, 17, 99, 255] {
        assert_eq!(loader.load_callback(kind, &[1, 2, 3], &mut log), Ok(true));
    }
    assert!(log.tiles.is_empty());
    assert_eq!(loader.current_tile, None);
    assert_eq!(loader.current_tile_origin, None);
}

#[test]
fn tile_pass_stops_at_the_first_failure() {
    let bytes = behind_headers(&[
        open_node(4, &position(100, 200, 7)),
        node(5, &[0, 0, 9, 1, 0]),
        node(5, &[1, 0, 9, 2, 0]),
        node(5, &[2, 0, 50]),
        node(5, &[3, 0, 9, 4, 0]),
        vec![END],
    ]);
    let (_, result, _) = tile_pass(&bytes);
    assert_eq!(result, Err(DecodeError::UnknownTag(50)));
}

#[test]
fn both_passes_run_over_one_reader() {
    let mut bytes = headers();
    bytes.extend_from_slice(&open_node(4, &position(96, 64, 7)));
    bytes.extend_from_slice(&node(5, &[1, 2, 9, 10, 0]));
    bytes.extend_from_slice(&open_node(5, &[40, 2]));
    bytes.extend_from_slice(&node(6, &[11, 0, 15, 2]));
    bytes.extend_from_slice(&[END, END]);
    bytes.extend_from_slice(&open_node(12, &[]));
    bytes.extend_from_slice(&node(13, &town_payload()));
    bytes.extend_from_slice(&[END, END, END]);
    let mut r = Reader::new(&bytes);
    let mut loader = Loader::open(&mut r).unwrap();
    let mut world = WorldMap::new();
    assert_eq!(loader.load(&mut r, &mut world), Ok(()));
    assert!(r.is_empty());
    assert_eq!(loader.towns.len(), 1);
    let first = Position { x: 97, y: 66, z: 7 };
    let second = Position { x: 136, y: 66, z: 7 };
    let sector = world.get(&first).unwrap();
    assert_eq!(sector.origin(), Position { x: 96, y: 64, z: 7 });
    assert_eq!(sector.tile(&first).len(), 1);
    assert_eq!(sector.tile(&first)[0].id, 10);
    let sector = world.get(&second).unwrap();
    assert_eq!(sector.origin(), Position { x: 128, y: 64, z: 7 });
    assert_eq!(sector.tile(&second).len(), 1);
    assert_eq!(sector.tile(&second)[0].id, 11);
    assert_eq!(sector.tile(&second)[0].attributes, vec![ItemAttribute::Count(2)]);
    assert!(world.get(&Position { x: 97, y: 66, z: 6 }).is_none());
}

#[test]
fn tile_log_keeps_copies_of_the_items() {
    let mut log = TileLog::new();
    let items = vec![
        Item { id: 1, attributes: vec![ItemAttribute::Text(String::from("a"))] },
        Item { id: 2, attributes: vec![] },
    ];
    log.tile(Position { x: 1, y: 2, z: 3 }, &items);
    log.tile(Position { x: 4, y: 5, z: 6 }, &[]);
    assert_eq!(log.tiles.len(), 2);
    assert_eq!(log.tiles[0].0, Position { x: 1, y: 2, z: 3 });
    assert_eq!(log.tiles[0].1[0].attributes, vec![ItemAttribute::Text(String::from("a"))]);
    assert_eq!(log.tiles[0].1[1].id, 2);
    assert!(log.tiles[1].1.is_empty());
}

#[test]
fn copies_have_the_same_ids_and_attributes() {
    let all = vec![
        ItemAttribute::Count(1),
        ItemAttribute::ActionId(2),
        ItemAttribute::UniqueId(3),
        ItemAttribute::Text(String::from("4")),
        ItemAttribute::Description(String::from("5")),
        ItemAttribute::Teleport(Position { x: 6, y: 6, z: 6 }),
        ItemAttribute::DepotId(7),
        ItemAttribute::HouseDoorId(8),
        ItemAttribute::Duration(-9),
        ItemAttribute::DecayingState(10),
        ItemAttribute::WrittenDate(11),
        ItemAttribute::WrittenBy(String::from("12")),
        ItemAttribute::SleeperGuid(13),
        ItemAttribute::SleepStart(14),
        ItemAttribute::Charges(15),
        ItemAttribute::Name(String::from("16")),
        ItemAttribute::Article(String::from("17")),
        ItemAttribute::PluralName(String::from("18")),
        ItemAttribute::Weight(19),
        ItemAttribute::Attack(20),
        ItemAttribute::Defense(21),
        ItemAttribute::ExtraDefense(22),
        ItemAttribute::Armor(23),
        ItemAttribute::HitChance(24),
        ItemAttribute::ShootRange(25),
    ];
    for a in &all {
        assert_eq!(&a.duplicate(), a);
    }
    let item = Item { id: 77, attributes: all.clone() };
    let copy = item.duplicate();
    assert_eq!(copy.id, 77);
    assert_eq!(copy.attributes, all);
    let copies = copy_items(&[item, Item { id: 78, attributes: vec![] }]);
    assert_eq!(copies.len(), 2);
    assert_eq!(copies[0].attributes, all);
    assert_eq!(copies[1].id, 78);
}

#[test]
fn node_kinds_have_their_numbers() {
    assert_eq!(NodeKind::from_u8(0), Some(NodeKind::Root));
    assert_eq!(NodeKind::from_u8(1), None);
    assert_eq!(NodeKind::from_u8(2), Some(NodeKind::MapData));
    assert_eq!(NodeKind::from_u8(4), Some(NodeKind::TileArea));
    assert_eq!(NodeKind::from_u8(5), Some(NodeKind::Tile));
    assert_eq!(NodeKind::from_u8(6), Some(NodeKind::Item));
    assert_eq!(NodeKind::from_u8(13), Some(NodeKind::Town));
    assert_eq!(NodeKind::from_u8(14), Some(NodeKind::HouseTile));
    assert_eq!(NodeKind::from_u8(16), Some(NodeKind::WayPoint));
    assert_eq!(NodeKind::from_u8(17), None);
}

#[test]
fn node_attribute_kinds_have_their_numbers() {
    assert_eq!(NodeAttributeKind::from_u8(0), None);
    assert_eq!(NodeAttributeKind::from_u8(1), Some(NodeAttributeKind::MapDescription));
    assert_eq!(NodeAttributeKind::from_u8(2), None);
    assert_eq!(NodeAttributeKind::from_u8(3), Some(NodeAttributeKind::TileFlags));
    assert_eq!(NodeAttributeKind::from_u8(9), Some(NodeAttributeKind::Item));
    assert_eq!(NodeAttributeKind::from_u8(33), Some(NodeAttributeKind::ItemShootRange));
    assert_eq!(NodeAttributeKind::from_u8(34), None);
    assert_eq!(NodeAttributeKind::from_u8(128), Some(NodeAttributeKind::AttributeMap));
}

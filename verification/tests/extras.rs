use std::collections::HashMap;
use wars::game::map::{JsonMap, JsonMapTile, JsonMapUnit};
use wars::game::{Game, GameMap, Position, Tile, TileId, Unit, UnitType};
use wars::model::{Terrain, MAX_CAPTURE_POINTS};
use wars::util::{OnlyIterable, UniqueIterable};

fn row_map(tiles: &[Tile], units: Vec<Unit>) -> GameMap {
    let tiles: HashMap<TileId, Tile> =
        tiles.iter().enumerate().map(|(i, t)| (i, Tile { x: i as i32, y: 0, ..*t })).collect();
    GameMap { name: "Row".into(), units: units.into_iter().enumerate().collect(), tiles, funds: 0 }
}

fn plains() -> Tile {
    Tile { terrain: Terrain::Plains, ..Tile::default() }
}

#[test]
fn move_options_along_a_row() {
    let units = vec![Unit { owner: Some(1), unit_type: UnitType::Infantry, ..Unit::default() }];
    let game = Game::new(row_map(&[Tile { unit: Some(0), ..plains() }, plains(), plains()], units), &[1, 2]);
    let options = game.unit_move_options(0).unwrap();
    assert_eq!(
        options,
        vec![
            (Position(0, 0), vec![Position(0, 0)]),
            (Position(1, 0), vec![Position(0, 0), Position(1, 0)]),
            (Position(2, 0), vec![Position(0, 0), Position(1, 0), Position(2, 0)]),
        ]
    );
    assert_eq!(game.unit_move_options(5), None);
}

#[test]
fn move_options_stop_at_enemies_and_costs() {
    let units = vec![
        Unit { owner: Some(1), unit_type: UnitType::Infantry, ..Unit::default() },
        Unit { owner: Some(2), unit_type: UnitType::Infantry, ..Unit::default() },
    ];
    let mountains = Tile { terrain: Terrain::Mountains, ..Tile::default() };
    let tiles = [mountains, Tile { unit: Some(0), ..plains() }, plains(), Tile { unit: Some(1), ..plains() }, plains()];
    let game = Game::new(row_map(&tiles, units), &[1, 2]);
    let options = game.unit_move_options(0).unwrap();
    let ends: Vec<Position> = options.iter().map(|(p, _)| *p).collect();
    assert_eq!(ends, vec![Position(1, 0), Position(2, 0), Position(0, 0)]);
}

#[test]
fn json_map_becomes_game_map() {
    let json = JsonMap {
        name: "Small".to_string(),
        funds: 5,
        map_data: vec![
            JsonMapTile {
                x: 0,
                y: 0,
                tile_type: 1,
                tile_subtype: 0,
                owner: 0,
                unit: Some(JsonMapUnit { unit_type: 3, owner: 2 }),
            },
            JsonMapTile { x: 1, y: 0, tile_type: 6, tile_subtype: 2, owner: 1, unit: None },
        ],
    };
    let map = json.into_map();
    assert_eq!(map.name, "Small");
    assert_eq!(map.funds, 5);
    assert_eq!(map.tiles.len(), 2);
    assert_eq!(
        map.tiles[&0],
        Tile {
            terrain: Terrain::Plains,
            terrain_subtype_id: 0,
            owner: None,
            capture_points: MAX_CAPTURE_POINTS,
            unit: Some(0),
            x: 0,
            y: 0
        }
    );
    assert_eq!(
        map.tiles[&1],
        Tile {
            terrain: Terrain::Base,
            terrain_subtype_id: 2,
            owner: Some(1),
            capture_points: MAX_CAPTURE_POINTS,
            unit: None,
            x: 1,
            y: 0
        }
    );
    assert_eq!(map.units.len(), 1);
    assert_eq!(map.units[&0].unit_type, UnitType::LightTank);
    assert_eq!(map.units[&0].owner, Some(2));
    let mut players = map.player_numbers();
    players.sort();
    assert_eq!(players, vec![1, 2]);
}

#[test]
fn json_numbering_ends() {
    let tile = JsonMapTile { x: 3, y: -4, tile_type: 12, tile_subtype: 7, owner: 4, unit: None };
    let t = tile.as_tile(9);
    assert_eq!((t.terrain, t.owner, t.unit, t.x, t.y), (Terrain::HQ, Some(4), None, 3, -4));
    let unit = JsonMapUnit { unit_type: 19, owner: 0 }.as_unit();
    assert_eq!((unit.unit_type, unit.owner, unit.health, unit.carried.len()), (UnitType::Cruiser, None, 100, 0));
}

#[test]
fn player_numbers_are_distinct() {
    let units = vec![
        Unit { owner: Some(3), ..Unit::default() },
        Unit { owner: Some(3), ..Unit::default() },
        Unit { owner: None, ..Unit::default() },
    ];
    let map = row_map(&[Tile { owner: Some(3), ..plains() }, Tile { owner: Some(5), ..plains() }, plains()], units);
    let mut players = map.player_numbers();
    players.sort();
    assert_eq!(players, vec![3, 5]);
}

#[test]
fn only_and_unique() {
    assert_eq!(Vec::<u8>::new().only(), None);
    assert_eq!(vec![7u8].only(), Some(7));
    let mut it = vec![3u32, 1, 3, 2, 1].unique();
    assert_eq!(it.next(), Some(3));
    assert_eq!(it.next(), Some(1));
    assert_eq!(it.next(), Some(2));
    assert_eq!(it.next(), None);
    assert_eq!(it.next(), None);
}

#[test]
fn ascii_of_one_tile() {
    let units = vec![Unit { owner: Some(2), unit_type: UnitType::Infantry, ..Unit::default() }];
    let game = Game::new(row_map(&[Tile { owner: Some(1), unit: Some(0), ..plains() }], units), &[1, 2]);
    assert_eq!(
        game.ascii_representation(),
        "  ·---·  \n /     \\ \n·  20   ·\n \\ 11  / \n  ·---·  \n1: Plains\n0: Infantry"
    );
}

#[test]
fn ascii_of_two_tiles_and_no_tiles() {
    let game = Game::new(row_map(&[plains(), Tile { terrain: Terrain::Road, ..Tile::default() }], vec![]), &[1]);
    let text = game.ascii_representation();
    let lines: Vec<&str> = text.split('\n').collect();
    assert_eq!(lines[0], "  ·---·        ");
    assert_eq!(lines[1], " /     \\       ");
    assert_eq!(lines[2], "·       ·---·  ");
    assert_eq!(lines[3], " \\  1  /     \\ ");
    assert_eq!(lines[4], "  ·---·       ·");
    assert_eq!(lines[5], "       \\  0  / ");
    assert_eq!(lines[7], "0: Road, 1: Plains");
    assert_eq!(lines[8], "");
    let empty = Game::new(GameMap { name: "None".into(), units: HashMap::new(), tiles: HashMap::new(), funds: 0 }, &[1]);
    assert_eq!(empty.ascii_representation(), "<no data>");
}

#[test]
fn glyphs_past_nine() {
    let units = vec![Unit { owner: Some(12), unit_type: UnitType::Cruiser, ..Unit::default() }];
    let game = Game::new(row_map(&[Tile { owner: Some(70), unit: Some(0), ..plains() }], units), &[1]);
    let text = game.ascii_representation();
    let lines: Vec<&str> = text.split('\n').collect();
    assert_eq!(lines[2], "·  mt   ·");
    assert_eq!(lines[3], " \\ ?1  / ");
}

#[test]
fn every_move_option_is_accepted() {
    let units = vec![
        Unit { owner: Some(1), unit_type: UnitType::Infantry, ..Unit::default() },
        Unit { owner: Some(2), unit_type: UnitType::Infantry, ..Unit::default() },
    ];
    let tiles = [Tile { unit: Some(0), ..plains() }, plains(), plains(), plains(), Tile { unit: Some(1), ..plains() }];
    let mut game = Game::new(row_map(&tiles, units), &[1, 2]);
    wars::game::action::start(&mut game, &mut Vec::new()).unwrap();
    let options = game.unit_move_options(0).unwrap();
    assert_eq!(options.len(), 4);
    for (end, path) in options {
        let mut trial = Game::new(row_map(&tiles, vec![
            Unit { owner: Some(1), unit_type: UnitType::Infantry, ..Unit::default() },
            Unit { owner: Some(2), unit_type: UnitType::Infantry, ..Unit::default() },
        ]), &[1, 2]);
        wars::game::action::start(&mut trial, &mut Vec::new()).unwrap();
        assert_eq!(wars::game::action::move_and_wait(&mut trial, 0, &path, &mut Vec::new()), Ok(()));
        assert_eq!(trial.tiles.get_at(&end).unwrap().1.unit, Some(0));
    }
}

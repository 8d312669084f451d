use std::collections::HashMap;
use wars::game::action::{
    build, end_turn, move_and_capture, move_and_deploy, move_and_load_into, move_and_unload, start, undeploy,
};
use wars::game::{Event, Game, GameMap, Position, Tile, TileId, Unit, UnitType};
use wars::model::{Terrain, FUNDS_PER_PROPERTY};

fn tiles_from_array(tiles: &[&[Tile]]) -> HashMap<TileId, Tile> {
    let row_size = tiles.iter().map(|row| row.len()).max().unwrap_or(0) as i32;
    tiles
        .iter()
        .enumerate()
        .map(|(y, row)| row.iter().enumerate().map(move |(x, tile)| (x as i32, y as i32, *tile)))
        .flatten()
        .map(|(x, y, tile)| ((x + y * row_size) as usize, Tile { x, y, ..tile }))
        .collect()
}

fn path(coords: &[(i32, i32)]) -> Vec<Position> {
    coords.iter().map(From::from).collect()
}

#[test]
fn create_game() {
    let base = Tile { terrain: Terrain::Base, ..Tile::default() };
    let map = GameMap {
        name: "Test".into(),
        units: HashMap::new(),
        tiles: [
            (0usize, Tile { owner: Some(1), x: 0, ..base }),
            (1usize, Tile { owner: Some(2), x: 1, ..base }),
        ]
        .iter()
        .cloned()
        .collect(),
        funds: 42,
    };

    let players = vec![1, 2];

    let mut game = Game::new(map, &players);
    assert_eq!(start(&mut game, &mut Vec::new()), Ok(()));
    assert_eq!(game.in_turn_player().unwrap().funds, 42 + FUNDS_PER_PROPERTY);
}

#[test]
fn test_capture() {
    let base = Tile { terrain: Terrain::Base, ..Tile::default() };
    let units = [Unit { owner: Some(1), unit_type: UnitType::Infantry, ..Unit::default() }]
        .iter()
        .cloned()
        .enumerate()
        .collect();
    let tiles = tiles_from_array(&[
        &[Tile { owner: Some(1), ..base }, Tile { owner: Some(2), unit: Some(0usize), ..base }],
        &[Tile { owner: Some(1), ..base }, Tile { owner: Some(2), ..base }],
    ]);
    let map = GameMap { name: "Test".into(), units, tiles, funds: 0 };
    let mut game = Game::new(map, &[1, 2]);
    start(&mut game, &mut Vec::new()).unwrap();

    let mut events = Vec::new();
    let unit_path = path(&[(1, 0)]);
    move_and_capture(&mut game, 0usize, &unit_path, &mut events).unwrap();
    end_turn(&mut game, &mut Vec::new()).unwrap();
    end_turn(&mut game, &mut Vec::new()).unwrap();
    move_and_capture(&mut game, 0usize, &unit_path, &mut events).unwrap();

    assert_eq!(
        events,
        vec![
            Event::Move(0, unit_path.clone()),
            Event::Capture(0, 1, 100),
            Event::Move(0, unit_path),
            Event::Captured(0, 1),
        ]
    );
}

#[test]
fn test_deploy_undeploy() {
    let base = Tile { terrain: Terrain::Base, ..Tile::default() };
    let units = [Unit { owner: Some(1), unit_type: UnitType::LightArtillery, ..Unit::default() }]
        .iter()
        .cloned()
        .enumerate()
        .collect();
    let tiles = tiles_from_array(&[
        &[Tile { owner: Some(1), ..base }, Tile { owner: Some(2), unit: Some(0usize), ..base }],
        &[Tile { owner: Some(1), ..base }, Tile { owner: Some(2), ..base }],
    ]);
    let map = GameMap { name: "Test".into(), units, tiles, funds: 0 };
    let mut game = Game::new(map, &[1, 2]);
    start(&mut game, &mut Vec::new()).unwrap();

    let mut events = Vec::new();
    let unit_id = 0;
    let unit_path = path(&[(1, 0), (1, 1)]);

    move_and_deploy(&mut game, unit_id, &unit_path, &mut events).unwrap();
    end_turn(&mut game, &mut Vec::new()).unwrap();
    end_turn(&mut game, &mut Vec::new()).unwrap();
    undeploy(&mut game, unit_id, &mut events).unwrap();

    assert_eq!(events, vec![Event::Move(unit_id, unit_path), Event::Deploy(unit_id), Event::Undeploy(unit_id),]);
}

#[test]
fn test_load_unload() {
    let plains = Tile { terrain: Terrain::Plains, ..Tile::default() };
    let units = [
        Unit { owner: Some(1), unit_type: UnitType::Infantry, ..Unit::default() },
        Unit { owner: Some(1), unit_type: UnitType::APC, ..Unit::default() },
        Unit { owner: Some(2), ..Unit::default() },
    ]
    .iter()
    .cloned()
    .enumerate()
    .collect();
    let tiles = tiles_from_array(&[
        &[Tile { unit: Some(0), ..plains }, Tile { ..plains }],
        &[Tile { unit: Some(1), ..plains }, Tile { ..plains }],
        &[Tile { ..plains }, Tile { ..plains }],
        &[Tile { ..plains }, Tile { unit: Some(2), ..plains }],
    ]);
    let map = GameMap { name: "Test".into(), units, tiles, funds: 0 };
    let mut game = Game::new(map, &[1, 2]);
    start(&mut game, &mut Vec::new()).unwrap();

    let unit_id = 0;
    let carrier_id = 1;
    let mut events = Vec::new();

    move_and_load_into(&mut game, unit_id, &path(&[(0, 0), (0, 1)]), &mut events).unwrap();
    move_and_unload(&mut game, carrier_id, &path(&[(0, 1), (1, 1)]), unit_id, Position(1, 0), &mut events).unwrap();

    assert_eq!(
        events,
        vec![
            Event::Move(unit_id, path(&[(0, 0), (0, 1)])),
            Event::Load(unit_id, carrier_id),
            Event::Move(carrier_id, path(&[(0, 1), (1, 1)])),
            Event::Unload(carrier_id, unit_id, Position(1, 0)),
        ]
    );
}

#[test]
fn test_build() {
    let base = Tile { terrain: Terrain::Base, ..Tile::default() };
    let units = [].iter().cloned().enumerate().collect();
    let tiles = tiles_from_array(&[
        &[Tile { owner: Some(1), ..base }, Tile { owner: Some(2), ..base }],
        &[Tile { owner: Some(1), ..base }, Tile { owner: Some(2), ..base }],
    ]);
    let map = GameMap { name: "Test".into(), units, tiles, funds: 0 };
    let mut game = Game::new(map, &[1, 2]);
    start(&mut game, &mut Vec::new()).unwrap();

    let mut events = Vec::new();

    build(&mut game, Position(0, 0), UnitType::Infantry, &mut events).unwrap();
    build(&mut game, Position(0, 0), UnitType::Bomber, &mut events).expect_err("Base shouldn't be able to build bombers");
    build(&mut game, Position(0, 0), UnitType::HeavyTank, &mut events).expect_err("Should not have enough funds");
    end_turn(&mut game, &mut Vec::new()).unwrap();
    build(&mut game, Position(1, 0), UnitType::ATInfantry, &mut events).unwrap();
    assert_eq!(game.in_turn_player().unwrap().funds, 0);

    assert_eq!(
        events,
        vec![Event::Build(0, 0, UnitType::Infantry, 100), Event::Build(1, 1, UnitType::ATInfantry, 200),]
    );
}

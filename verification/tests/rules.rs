use std::collections::HashMap;
use wars::game::action::{
    build, end_turn, move_and_capture, move_and_deploy, move_and_load_into, move_and_unload, move_and_wait, start,
    surrender, undeploy,
};
use wars::game::{ActionError, Event, Game, GameMap, GameState, GameUpdateError, Position, Tile, TileId, Unit, UnitType};
use wars::model::{Terrain, MAX_CAPTURE_POINTS};

fn row_map(tiles: &[Tile], units: Vec<Unit>, funds: u32) -> GameMap {
    let tiles: HashMap<TileId, Tile> =
        tiles.iter().enumerate().map(|(i, t)| (i, Tile { x: i as i32, y: 0, ..*t })).collect();
    GameMap { name: "Row".into(), units: units.into_iter().enumerate().collect(), tiles, funds }
}

fn plains() -> Tile {
    Tile { terrain: Terrain::Plains, ..Tile::default() }
}

fn started(map: GameMap) -> Game {
    let mut game = Game::new(map, &[1, 2]);
    start(&mut game, &mut Vec::new()).unwrap();
    game
}

#[test]
fn start_twice_is_refused() {
    let mut game = started(row_map(&[plains()], vec![], 0));
    let mut events = Vec::new();
    assert_eq!(start(&mut game, &mut events), Err(ActionError::GameAlreadyStarted));
    assert!(events.is_empty());
}

#[test]
fn start_reports_turn_and_funds() {
    let base = Tile { terrain: Terrain::Base, owner: Some(1), ..Tile::default() };
    let mut game = Game::new(row_map(&[base, plains()], vec![], 7), &[1, 2]);
    let mut events = Vec::new();
    assert_eq!(start(&mut game, &mut events), Ok(()));
    assert_eq!(events, vec![Event::StartTurn(1), Event::Funds(1, 100)]);
    assert_eq!(game.in_turn_player().unwrap().funds, 107);
    assert_eq!(game.state, GameState::InProgress);
}

#[test]
fn actions_before_start_are_refused() {
    let mut game = Game::new(row_map(&[plains()], vec![], 0), &[1, 2]);
    let mut events = Vec::new();
    assert_eq!(end_turn(&mut game, &mut events), Err(ActionError::InternalError));
    assert_eq!(surrender(&mut game, &mut events), Err(ActionError::GameNotInProgress));
    assert_eq!(build(&mut game, Position(0, 0), UnitType::Infantry, &mut events), Err(ActionError::GameNotInProgress));
    assert!(events.is_empty());
}

#[test]
fn state_only_moves_forward() {
    let mut game = Game::new(row_map(&[plains()], vec![], 0), &[1, 2]);
    assert_eq!(game.set_state(GameState::Finished), Err(GameUpdateError::InvalidStateTransition));
    assert_eq!(game.set_state(GameState::InProgress), Ok(()));
    assert_eq!(game.set_state(GameState::Pregame), Err(GameUpdateError::InvalidStateTransition));
    assert_eq!(game.set_state(GameState::Finished), Ok(()));
}

#[test]
fn move_errors() {
    let units = vec![
        Unit { owner: Some(1), unit_type: UnitType::Infantry, ..Unit::default() },
        Unit { owner: Some(2), unit_type: UnitType::Infantry, ..Unit::default() },
    ];
    let tiles = [Tile { unit: Some(0), ..plains() }, plains(), Tile { unit: Some(1), ..plains() }, plains()];
    let mut game = started(row_map(&tiles, units, 0));
    let mut events = Vec::new();
    assert_eq!(move_and_wait(&mut game, 9, &[Position(0, 0)], &mut events), Err(ActionError::UnitNotFound));
    assert_eq!(move_and_wait(&mut game, 0, &[], &mut events), Err(ActionError::InvalidPath));
    assert_eq!(move_and_wait(&mut game, 1, &[Position(2, 0)], &mut events), Err(ActionError::OwnerNotInTurn));
    // Jumping over a tile is no path.
    assert_eq!(
        move_and_wait(&mut game, 0, &[Position(0, 0), Position(2, 0)], &mut events),
        Err(ActionError::InvalidPath)
    );
    // An enemy blocks the way.
    assert_eq!(
        move_and_wait(&mut game, 0, &[Position(0, 0), Position(1, 0), Position(2, 0), Position(3, 0)], &mut events),
        Err(ActionError::InvalidPath)
    );
    assert!(events.is_empty());
    assert_eq!(move_and_wait(&mut game, 0, &[Position(0, 0), Position(1, 0)], &mut events), Ok(()));
    assert_eq!(events, vec![Event::Move(0, vec![Position(0, 0), Position(1, 0)]), Event::Wait(0)]);
    assert_eq!(move_and_wait(&mut game, 0, &[Position(1, 0)], &mut events), Err(ActionError::UnitAlreadyMoved));
    assert_eq!(game.tiles.get(1).unwrap().unit, Some(0));
    assert_eq!(game.tiles.get(0).unwrap().unit, None);
    assert!(game.units.get(0).unwrap().moved);
}

#[test]
fn refused_build_changes_nothing() {
    let base = Tile { terrain: Terrain::Base, owner: Some(1), ..Tile::default() };
    let mut game = started(row_map(&[base, Tile { owner: Some(2), ..base }], vec![], 0));
    let funds = game.in_turn_player().unwrap().funds;
    let mut events = Vec::new();
    assert_eq!(build(&mut game, Position(0, 0), UnitType::HeavyTank, &mut events), Err(ActionError::InsufficientFunds));
    assert_eq!(build(&mut game, Position(1, 0), UnitType::Infantry, &mut events), Err(ActionError::OwnerNotInTurn));
    assert_eq!(build(&mut game, Position(0, 0), UnitType::Bomber, &mut events), Err(ActionError::CannotBuild));
    assert_eq!(build(&mut game, Position(5, 5), UnitType::Infantry, &mut events), Err(ActionError::InvalidPath));
    assert!(events.is_empty());
    assert_eq!(game.in_turn_player().unwrap().funds, funds);
    assert_eq!(game.units.iter().len(), 0);
    assert_eq!(build(&mut game, Position(0, 0), UnitType::Infantry, &mut events), Ok(()));
    assert_eq!(build(&mut game, Position(0, 0), UnitType::Infantry, &mut events), Err(ActionError::CannotBuild));
    let unit = game.units.get(0).unwrap();
    assert!(unit.moved && unit.owner.is_none() && unit.health == 100);
}

#[test]
fn capture_errors_and_full_capture() {
    let city = Tile { terrain: Terrain::City, owner: Some(2), capture_points: 80, ..Tile::default() };
    let units = vec![
        Unit { owner: Some(1), unit_type: UnitType::Infantry, ..Unit::default() },
        Unit { owner: Some(1), unit_type: UnitType::LightTank, ..Unit::default() },
    ];
    let tiles = [Tile { unit: Some(0), ..plains() }, city, Tile { unit: Some(1), ..plains() }];
    let mut game = started(row_map(&tiles, units, 0));
    let mut events = Vec::new();
    assert_eq!(move_and_capture(&mut game, 1, &[Position(2, 0)], &mut events), Err(ActionError::CannotCapture));
    assert_eq!(move_and_capture(&mut game, 0, &[Position(0, 0)], &mut events), Err(ActionError::CannotCapture));
    assert_eq!(move_and_capture(&mut game, 0, &[Position(0, 0), Position(1, 0)], &mut events), Ok(()));
    assert_eq!(events, vec![Event::Move(0, vec![Position(0, 0), Position(1, 0)]), Event::Captured(0, 1)]);
    let tile = game.tiles.get(1).unwrap();
    assert_eq!(tile.owner, Some(1));
    assert_eq!(tile.capture_points, 1);
    assert!(game.units.get(0).unwrap().capturing);
}

#[test]
fn deploy_errors() {
    let units = vec![
        Unit { owner: Some(1), unit_type: UnitType::Infantry, ..Unit::default() },
        Unit { owner: Some(1), unit_type: UnitType::LightArtillery, deployed: true, ..Unit::default() },
    ];
    let tiles = [Tile { unit: Some(0), ..plains() }, Tile { unit: Some(1), ..plains() }];
    let mut game = started(row_map(&tiles, units, 0));
    let mut events = Vec::new();
    assert_eq!(move_and_deploy(&mut game, 0, &[Position(0, 0)], &mut events), Err(ActionError::CannotDeploy));
    assert_eq!(move_and_deploy(&mut game, 1, &[Position(1, 0)], &mut events), Err(ActionError::CannotDeploy));
    assert_eq!(undeploy(&mut game, 0, &mut events), Err(ActionError::CannotUndeploy));
    assert_eq!(undeploy(&mut game, 7, &mut events), Err(ActionError::UnitNotFound));
    assert!(events.is_empty());
    assert_eq!(undeploy(&mut game, 1, &mut events), Ok(()));
    let unit = game.units.get(1).unwrap();
    assert!(!unit.deployed && unit.moved);
}

#[test]
fn load_unload_errors_and_restored_load() {
    let units = vec![
        Unit { owner: Some(1), unit_type: UnitType::Infantry, ..Unit::default() },
        Unit { owner: Some(1), unit_type: UnitType::APC, ..Unit::default() },
        Unit { owner: Some(1), unit_type: UnitType::LightTank, ..Unit::default() },
    ];
    let water = Tile { terrain: Terrain::Water, ..Tile::default() };
    let tiles = [
        Tile { unit: Some(2), ..plains() },
        Tile { unit: Some(0), ..plains() },
        Tile { unit: Some(1), ..plains() },
        plains(),
        water,
    ];
    let mut game = started(row_map(&tiles, units, 0));
    let mut events = Vec::new();
    // A tank does not fit in an APC.
    assert_eq!(
        move_and_load_into(&mut game, 2, &[Position(0, 0), Position(1, 0)], &mut events),
        Err(ActionError::CannotLoad)
    );
    assert_eq!(move_and_load_into(&mut game, 0, &[Position(1, 0), Position(3, 0)], &mut events), Err(ActionError::UnitNotFound));
    assert_eq!(move_and_unload(&mut game, 1, &[Position(2, 0)], 0, Position(3, 0), &mut events), Err(ActionError::CannotUnload));
    assert!(events.is_empty());
    assert_eq!(move_and_load_into(&mut game, 0, &[Position(1, 0), Position(2, 0)], &mut events), Ok(()));
    assert_eq!(game.units.get(1).unwrap().carried, vec![0]);
    assert_eq!(game.tiles.get(1).unwrap().unit, None);
    // Two tiles away is too far to put the infantry down.
    assert_eq!(move_and_unload(&mut game, 1, &[Position(2, 0)], 0, Position(0, 0), &mut events), Err(ActionError::CannotUnload));
    assert_eq!(move_and_unload(&mut game, 1, &[Position(2, 0)], 0, Position(9, 9), &mut events), Err(ActionError::InvalidPath));
    assert_eq!(move_and_unload(&mut game, 1, &[Position(2, 0)], 0, Position(3, 0), &mut events), Ok(()));
    assert_eq!(game.units.get(1).unwrap().carried, Vec::<usize>::new());
    assert_eq!(game.tiles.get(3).unwrap().unit, Some(0));
    assert_eq!(game.tiles.get(2).unwrap().unit, Some(1));
}

#[test]
fn end_turn_passes_turn_and_resets_moves() {
    let units = vec![
        Unit { owner: Some(1), unit_type: UnitType::Infantry, ..Unit::default() },
        Unit { owner: Some(2), unit_type: UnitType::Infantry, ..Unit::default() },
    ];
    let tiles = [Tile { unit: Some(0), ..plains() }, plains(), plains(), Tile { unit: Some(1), ..plains() }];
    let mut game = started(row_map(&tiles, units, 0));
    move_and_wait(&mut game, 0, &[Position(0, 0), Position(1, 0)], &mut Vec::new()).unwrap();
    let mut events = Vec::new();
    assert_eq!(end_turn(&mut game, &mut events), Ok(()));
    assert_eq!(events, vec![Event::EndTurn(1), Event::StartTurn(2), Event::Funds(2, 0)]);
    assert_eq!(game.in_turn_number(), Some(2));
    assert!(!game.units.get(0).unwrap().moved);
}

#[test]
fn surrender_hands_the_win() {
    let units = vec![
        Unit { owner: Some(1), unit_type: UnitType::Infantry, ..Unit::default() },
        Unit { owner: Some(2), unit_type: UnitType::Infantry, ..Unit::default() },
    ];
    let tiles = [Tile { unit: Some(0), ..plains() }, plains(), Tile { unit: Some(1), ..plains() }];
    let mut game = started(row_map(&tiles, units, 0));
    let mut events = Vec::new();
    assert_eq!(surrender(&mut game, &mut events), Ok(()));
    assert_eq!(events, vec![Event::Surrender(1), Event::EndTurn(1), Event::WinGame(2)]);
    assert_eq!(game.state, GameState::Finished);
    assert_eq!(game.winner(), Some(2));
    assert_eq!(game.units.get(0).unwrap().owner, None);
}

#[test]
fn capture_points_regenerate_and_units_repair() {
    let city = Tile { terrain: Terrain::City, owner: Some(1), capture_points: 100, unit: Some(0), ..Tile::default() };
    let units = vec![
        Unit { owner: Some(1), unit_type: UnitType::Infantry, health: 50, ..Unit::default() },
        Unit { owner: Some(2), unit_type: UnitType::Infantry, ..Unit::default() },
    ];
    let tiles = [city, plains(), Tile { unit: Some(1), ..plains() }];
    let mut game = Game::new(row_map(&tiles, units, 0), &[1, 2]);
    let mut events = Vec::new();
    start(&mut game, &mut events).unwrap();
    assert_eq!(
        events,
        vec![Event::StartTurn(1), Event::Funds(1, 50), Event::TileCapturePointRegen(0, 150), Event::UnitRepair(0, 65)]
    );
    assert_eq!(game.tiles.get(0).unwrap().capture_points, 150);
    assert_eq!(game.units.get(0).unwrap().health, 65);
    assert!(MAX_CAPTURE_POINTS >= 150);
}

#[test]
fn error_messages() {
    assert_eq!(ActionError::InvalidPath.message(), "Invalid path");
    assert_eq!(ActionError::UnitAlreadyMoved.message(), "Unit has already moved");
    assert_eq!(GameUpdateError::InvalidUnitId.message(), "Invalid unit ID");
    assert_eq!(ActionError::from(GameUpdateError::InvalidTileId), ActionError::InternalError);
}

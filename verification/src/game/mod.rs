use crate::auth;
use crate::model;
use std::collections::HashMap;
use vstd::prelude::*;

pub mod game;
pub mod tile;
pub mod unit;
pub mod action;
pub mod options;
pub mod map;
pub mod ascii;

pub use crate::model::UnitType;

verus! {

pub type UnitId = usize;
pub type TileId = usize;
pub type PlayerNumber = u32;
pub type TerrainSubtypeId = u32;
pub type Rect = (i32, i32, i32, i32);
pub type Health = u32;
pub type Credits = u32;
pub type CapturePoints = u32;

/// Life cycle of a game: it is set up, played, then over.
#[derive(PartialEq, Eq, Structural, Clone, Copy, Debug)]
pub enum GameState {
    Pregame,
    InProgress,
    Finished,
}

/// The tiles of a game, by id.
pub struct Tiles(HashMap<TileId, Tile>);

/// The units of a game, by id.
pub struct Units(HashMap<UnitId, Unit>);

/// The seats of a game, in turn order.
pub struct Players(Vec<Player>);

/// Axial coordinates of a hexagonal tile.
#[derive(Clone, Copy, Debug, PartialEq, Eq, Structural, Hash)]
pub struct Position(pub i32, pub i32);

pub struct Game {
    pub state: GameState,
    pub units: Units,
    pub tiles: Tiles,
    pub players: Players,
    pub in_turn_index: usize,
    pub round_count: u32,
    pub turn_count: u32,
    pub next_unit_id: UnitId,
}

#[derive(Clone, Copy, Debug, PartialEq, Eq, Structural)]
pub struct Player {
    pub user_id: auth::UserId,
    pub number: PlayerNumber,
    pub funds: Credits,
    pub score: u32,
    pub alive: bool,
}

#[derive(Clone, Copy, Debug, PartialEq, Eq, Structural)]
pub struct Tile {
    pub terrain: model::Terrain,
    pub terrain_subtype_id: TerrainSubtypeId,
    pub owner: Option<PlayerNumber>,
    pub capture_points: CapturePoints,
    pub unit: Option<UnitId>,
    pub x: i32,
    pub y: i32,
}

#[derive(Clone, Debug)]
pub struct Unit {
    pub unit_type: model::UnitType,
    pub health: Health,
    pub carried: Vec<UnitId>,
    pub owner: Option<PlayerNumber>,
    pub deployed: bool,
    pub moved: bool,
    pub capturing: bool,
}

/// What a unit is, with the ids of the units it carries as a sequence.
pub struct UnitModel {
    pub unit_type: model::UnitType,
    pub health: Health,
    pub carried: Seq<UnitId>,
    pub owner: Option<PlayerNumber>,
    pub deployed: bool,
    pub moved: bool,
    pub capturing: bool,
}

impl View for Unit {
    type V = UnitModel;

    open spec fn view(&self) -> UnitModel {
        UnitModel {
            unit_type: self.unit_type,
            health: self.health,
            carried: self.carried@,
            owner: self.owner,
            deployed: self.deployed,
            moved: self.moved,
            capturing: self.capturing,
        }
    }
}

#[derive(Clone)]
pub struct GameMap {
    pub name: String,
    pub units: HashMap<UnitId, Unit>,
    pub tiles: HashMap<TileId, Tile>,
    pub funds: u32,
}

#[derive(Clone, Debug)]
pub enum Action {
    StartGame,
    EndTurn,
    Surrender,
    Build(Position, UnitType),
    MoveAndWait(UnitId, Vec<Position>),
    MoveAndAttack(UnitId, Vec<Position>, UnitId),
    MoveAndCapture(UnitId, Vec<Position>),
    MoveAndDeploy(UnitId, Vec<Position>),
    Undeploy(UnitId),
    MoveAndLoadInto(UnitId, Vec<Position>),
    MoveAndUnload(UnitId, Vec<Position>, UnitId, Position),
}

/// Why an action was refused.
#[derive(Debug, PartialEq, Eq, Structural, Clone, Copy)]
pub enum ActionError {
    InternalError,
    TileNotFound,
    UnitNotFound,
    OwnerNotInTurn,
    UnitAlreadyMoved,
    GameNotInProgress,
    InvalidPath,
    UnitNotOnMap,
    GameAlreadyStarted,
    CannotCapture,
    CannotDeploy,
    CannotUndeploy,
    CannotLoad,
    CannotUnload,
    CannotBuild,
    InsufficientFunds,
    CannotAttack,
    UnitIsDeployed,
    UnitIsNotDeployed,
}

/// Why a low-level update of the game state was refused.
#[derive(Debug, PartialEq, Eq, Structural, Clone, Copy)]
pub enum GameUpdateError {
    InvalidStateTransition,
    InvalidPlayerNumber,
    InvalidUnitId,
    InvalidTileId,
}

/// The text that describes error `e`.
pub open spec fn action_error_message(e: ActionError) -> Seq<char> {
    match e {
        ActionError::InternalError => "Internal error"@,
        ActionError::TileNotFound => "Tile not found"@,
        ActionError::UnitNotFound => "Unit not found"@,
        ActionError::OwnerNotInTurn => "Owner is not in turn"@,
        ActionError::UnitAlreadyMoved => "Unit has already moved"@,
        ActionError::GameNotInProgress => "Game is not in progress"@,
        ActionError::InvalidPath => "Invalid path"@,
        ActionError::UnitNotOnMap => "Unit is not on map"@,
        ActionError::GameAlreadyStarted => "Game has already started"@,
        ActionError::CannotCapture => "Cannot capture"@,
        ActionError::CannotDeploy => "Cannot deploy"@,
        ActionError::CannotUndeploy => "Cannot undeploy"@,
        ActionError::CannotLoad => "Cannot load"@,
        ActionError::CannotUnload => "Cannot unload"@,
        ActionError::CannotBuild => "Cannot build"@,
        ActionError::InsufficientFunds => "Insufficient funds"@,
        ActionError::CannotAttack => "Cannot attack"@,
        ActionError::UnitIsDeployed => "Unit is deployed"@,
        ActionError::UnitIsNotDeployed => "Unit is not deployed"@,
    }
}

impl ActionError {
    /// The text that describes this error.
    pub fn message(&self) -> (r: &'static str)
        ensures
            r@ == action_error_message(*self),
    {
        match self {
            ActionError::InternalError => "Internal error",
            ActionError::TileNotFound => "Tile not found",
            ActionError::UnitNotFound => "Unit not found",
            ActionError::OwnerNotInTurn => "Owner is not in turn",
            ActionError::UnitAlreadyMoved => "Unit has already moved",
            ActionError::GameNotInProgress => "Game is not in progress",
            ActionError::InvalidPath => "Invalid path",
            ActionError::UnitNotOnMap => "Unit is not on map",
            ActionError::GameAlreadyStarted => "Game has already started",
            ActionError::CannotCapture => "Cannot capture",
            ActionError::CannotDeploy => "Cannot deploy",
            ActionError::CannotUndeploy => "Cannot undeploy",
            ActionError::CannotLoad => "Cannot load",
            ActionError::CannotUnload => "Cannot unload",
            ActionError::CannotBuild => "Cannot build",
            ActionError::InsufficientFunds => "Insufficient funds",
            ActionError::CannotAttack => "Cannot attack",
            ActionError::UnitIsDeployed => "Unit is deployed",
            ActionError::UnitIsNotDeployed => "Unit is not deployed",
        }
    }
}

/// The text that describes error `e`.
pub open spec fn update_error_message(e: GameUpdateError) -> Seq<char> {
    match e {
        GameUpdateError::InvalidStateTransition => "Invalid state transition"@,
        GameUpdateError::InvalidPlayerNumber => "Invalid player number"@,
        GameUpdateError::InvalidUnitId => "Invalid unit ID"@,
        GameUpdateError::InvalidTileId => "Invalid tile ID"@,
    }
}

impl GameUpdateError {
    /// The text that describes this error.
    pub fn message(&self) -> (r: &'static str)
        ensures
            r@ == update_error_message(*self),
    {
        match self {
            GameUpdateError::InvalidStateTransition => "Invalid state transition",
            GameUpdateError::InvalidPlayerNumber => "Invalid player number",
            GameUpdateError::InvalidUnitId => "Invalid unit ID",
            GameUpdateError::InvalidTileId => "Invalid tile ID",
        }
    }
}

pub type GameUpdateResult<T> = Result<T, GameUpdateError>;

pub type ActionResult<T> = Result<T, ActionError>;

/// What happened in a game, as reported to its observers.
#[derive(Debug, PartialEq, Clone)]
pub enum Event {
    StartTurn(PlayerNumber),
    EndTurn(PlayerNumber),
    Funds(PlayerNumber, Credits),
    UnitRepair(UnitId, Health),
    WinGame(PlayerNumber),
    Surrender(PlayerNumber),
    Move(UnitId, Vec<Position>),
    Wait(UnitId),
    Attack(UnitId, UnitId, Health),
    Counterattack(UnitId, UnitId, Health),
    Destroyed(UnitId, UnitId),
    Deploy(UnitId),
    Undeploy(UnitId),
    Load(UnitId, UnitId),
    Unload(UnitId, UnitId, Position),
    Capture(UnitId, TileId, CapturePoints),
    Captured(UnitId, TileId),
    Build(TileId, UnitId, UnitType, Credits),
    TileCapturePointRegen(TileId, CapturePoints),
}

} // verus!

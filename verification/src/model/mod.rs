use vstd::prelude::*;

mod model;
pub mod model_old;
pub use self::model::{
    MAX_CAPTURE_POINTS,
    CAPTURE_POINT_REGEN_RATE,
    FUNDS_PER_PROPERTY,
    UNIT_MAX_HEALTH,
    UNIT_MAX_REPAIR_RATE,
    weapon_name,
    weapon_power,
    weapon_range,
    weapon_requires_deployment,
    armor_name,
    movement_name,
    unit_type_name,
    unit_class_of,
    movement_type_of,
    movement_points,
    armor_type_of,
    unit_defense,
    unit_weapons,
    unit_price,
    unit_carry_classes,
    unit_carry_num,
    unit_flags,
    unit_flag_name,
    terrain_flag_name,
    terrain_name,
    terrain_default_defense,
    terrain_build_classes,
    terrain_repair_classes,
    terrain_flags,
    weapon,
    armor,
    movement,
    unit_type,
    unit_flag,
    terrain_flag,
    terrain,
    terrain_cost,
};

verus! {

/// Every kind of unit in the game.
#[derive(PartialEq, Eq, Structural, Copy, Clone, Debug, Hash)]
pub enum UnitType {
    Infantry,
    ATInfantry,
    Scout,
    LightTank,
    MediumTank,
    HeavyTank,
    LightArtillery,
    MediumArtillery,
    HeavyArtillery,
    AAVehicle,
    SAMVehicle,
    AttackCopter,
    Interceptor,
    Bomber,
    APC,
    TransportCopter,
    CargoShip,
    GunBoat,
    AABoat,
    Cruiser,
}

/// Broad class of a unit type; decides where it is built, repaired and carried.
#[derive(PartialEq, Eq, Structural, Copy, Clone, Debug, Hash)]
pub enum UnitClass {
    Infantry,
    Vehicle,
    Aerial,
    Naval,
}

/// Movement class; decides what entering each terrain costs.
#[derive(PartialEq, Eq, Structural, Copy, Clone, Debug, Hash)]
pub enum Movement {
    Walk,
    LightVehicle,
    MediumVehicle,
    HeavyVehicle,
    Flying,
    Ship,
}

/// Armor class; decides how much each weapon hurts.
#[derive(PartialEq, Eq, Structural, Copy, Clone, Debug, Hash)]
pub enum Armor {
    Infantry,
    LightVehicle,
    HeavyVehicle,
    LightTank,
    MediumTank,
    HeavyTank,
    Interceptor,
    Copter,
    Bomber,
    LightShip,
    MediumShip,
    HeavyShip,
}

/// Every weapon a unit type can carry.
#[derive(PartialEq, Eq, Structural, Copy, Clone, Debug, Hash)]
pub enum Weapon {
    Rifle,
    Machinegun,
    Bazooka,
    LightCannon,
    MediumCannon,
    HeavyCannon,
    LightArtillery,
    MediumArtillery,
    HeavyArtillery,
    AACannon,
    AAMissile,
    CopterMissile,
    InterceptorMissile,
    AerialBomb,
    CruiserArtillery,
    HeavyMachinegun,
}

/// Every kind of map terrain.
#[derive(PartialEq, Eq, Structural, Copy, Clone, Debug, Hash)]
pub enum Terrain {
    Road,
    Plains,
    Forest,
    Mountains,
    Water,
    City,
    Base,
    Fort,
    Airport,
    Port,
    Beach,
    Bridge,
    HQ,
}

/// Special abilities of a unit type.
#[derive(PartialEq, Eq, Structural, Copy, Clone, Debug, Hash)]
pub enum UnitFlag {
    Capture,
}

/// Special properties of a terrain.
#[derive(PartialEq, Eq, Structural, Copy, Clone, Debug, Hash)]
pub enum TerrainFlag {
    Capturable,
    Funds,
    HQ,
}

/// Static data of a weapon; `weapon` selects its power and range tables.
pub struct WeaponData<'a> {
    pub name: &'a str,
    pub weapon: Weapon,
    pub require_deployed: bool,
}

/// Static data of an armor class.
pub struct ArmorData<'a> {
    pub name: &'a str,
}

/// Static data of a movement class; `movement` selects its terrain cost table.
pub struct MovementData<'a> {
    pub name: &'a str,
    pub movement: Movement,
}

/// Static data of a terrain flag.
pub struct TerrainFlagData<'a> {
    pub name: &'a str,
}

/// Static data of a unit flag.
pub struct UnitFlagData<'a> {
    pub name: &'a str,
}

/// Static data of a unit type; `unit_type` selects its defense table.
pub struct UnitTypeData<'a> {
    pub name: &'a str,
    pub unit_type: UnitType,
    pub unit_class: UnitClass,
    pub movement_type: Movement,
    pub movement: u32,
    pub armor_type: Armor,
    pub weapons: &'a [Weapon],
    pub price: u32,
    pub carry_classes: &'a [UnitClass],
    pub carry_num: u32,
    pub flags: &'a [UnitFlag],
}

/// Static data of a terrain.
pub struct TerrainData<'a> {
    pub name: &'a str,
    pub default_defense: u32,
    pub build_classes: &'a [UnitClass],
    pub repair_classes: &'a [UnitClass],
    pub flags: &'a [TerrainFlag],
}

} // verus!

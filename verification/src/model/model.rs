use vstd::prelude::*;
use crate::model::{
    Armor, ArmorData, Movement, MovementData, Terrain, TerrainData, TerrainFlag, TerrainFlagData,
    UnitClass, UnitFlag, UnitFlagData, UnitType, UnitTypeData, Weapon, WeaponData,
};

verus! {

/// Capture points of a tile that nobody is capturing.
pub const MAX_CAPTURE_POINTS: u32 = 200;
/// Capture points a tile regains at the start of its owner's turn.
pub const CAPTURE_POINT_REGEN_RATE: u32 = 50;
/// Funds that a fully held funds-generating property yields per turn.
pub const FUNDS_PER_PROPERTY: u32 = 100;
/// Health of an undamaged unit.
pub const UNIT_MAX_HEALTH: u32 = 100;
/// Health a fully held repairing tile restores per turn.
pub const UNIT_MAX_REPAIR_RATE: u32 = 20;

/// Display name of a weapon.
pub open spec fn weapon_name(x: Weapon) -> Seq<char> {
    match x {
        Weapon::Rifle => "Rifle"@,
        Weapon::Machinegun => "Machinegun"@,
        Weapon::Bazooka => "Bazooka"@,
        Weapon::LightCannon => "LightCannon"@,
        Weapon::MediumCannon => "MediumCannon"@,
        Weapon::HeavyCannon => "HeavyCannon"@,
        Weapon::LightArtillery => "LightArtillery"@,
        Weapon::MediumArtillery => "MediumArtillery"@,
        Weapon::HeavyArtillery => "HeavyArtillery"@,
        Weapon::AACannon => "AACannon"@,
        Weapon::AAMissile => "AAMissile"@,
        Weapon::CopterMissile => "CopterMissile"@,
        Weapon::InterceptorMissile => "InterceptorMissile"@,
        Weapon::AerialBomb => "AerialBomb"@,
        Weapon::CruiserArtillery => "CruiserArtillery"@,
        Weapon::HeavyMachinegun => "HeavyMachinegun"@,
    }
}

/// Base damage of a weapon against an armor class; `None` where it cannot hit.
pub open spec fn weapon_power(x: Weapon, a: Armor) -> Option<u32> {
    match x {
        Weapon::Rifle => match a {
            Armor::Infantry => Some(50u32),
            Armor::LightVehicle => Some(30u32),
            Armor::HeavyVehicle => Some(20u32),
            Armor::LightTank => Some(20u32),
            Armor::MediumTank => Some(10u32),
            Armor::HeavyTank => Some(5u32),
            Armor::Interceptor => None,
            Armor::Copter => Some(15u32),
            Armor::Bomber => None,
            Armor::LightShip => Some(10u32),
            Armor::MediumShip => Some(7u32),
            Armor::HeavyShip => Some(4u32),
        },
        Weapon::Machinegun => match a {
            Armor::Infantry => Some(100u32),
            Armor::LightVehicle => Some(40u32),
            Armor::HeavyVehicle => Some(30u32),
            Armor::LightTank => Some(30u32),
            Armor::MediumTank => Some(20u32),
            Armor::HeavyTank => Some(10u32),
            Armor::Interceptor => Some(0u32),
            Armor::Copter => Some(25u32),
            Armor::Bomber => Some(0u32),
            Armor::LightShip => Some(15u32),
            Armor::MediumShip => Some(12u32),
            Armor::HeavyShip => Some(8u32),
        },
        Weapon::Bazooka => match a {
            Armor::Infantry => Some(20u32),
            Armor::LightVehicle => Some(60u32),
            Armor::HeavyVehicle => Some(50u32),
            Armor::LightTank => Some(40u32),
            Armor::MediumTank => Some(30u32),
            Armor::HeavyTank => Some(20u32),
            Armor::Interceptor => None,
            Armor::Copter => None,
            Armor::Bomber => None,
            Armor::LightShip => Some(20u32),
            Armor::MediumShip => Some(16u32),
            Armor::HeavyShip => Some(12u32),
        },
        Weapon::LightCannon => match a {
            Armor::Infantry => Some(30u32),
            Armor::LightVehicle => Some(60u32),
            Armor::HeavyVehicle => Some(50u32),
            Armor::LightTank => Some(50u32),
            Armor::MediumTank => Some(35u32),
            Armor::HeavyTank => Some(30u32),
            Armor::Interceptor => None,
            Armor::Copter => None,
            Armor::Bomber => None,
            Armor::LightShip => Some(25u32),
            Armor::MediumShip => Some(20u32),
            Armor::HeavyShip => Some(15u32),
        },
        Weapon::MediumCannon => match a {
            Armor::Infantry => Some(40u32),
            Armor::LightVehicle => Some(80u32),
            Armor::HeavyVehicle => Some(70u32),
            Armor::LightTank => Some(60u32),
            Armor::MediumTank => Some(50u32),
            Armor::HeavyTank => Some(40u32),
            Armor::Interceptor => None,
            Armor::Copter => None,
            Armor::Bomber => None,
            Armor::LightShip => Some(30u32),
            Armor::MediumShip => Some(25u32),
            Armor::HeavyShip => Some(20u32),
        },
        Weapon::HeavyCannon => match a {
            Armor::Infantry => Some(50u32),
            Armor::LightVehicle => Some(110u32),
            Armor::HeavyVehicle => Some(100u32),
            Armor::LightTank => Some(100u32),
            Armor::MediumTank => Some(75u32),
            Armor::HeavyTank => Some(50u32),
            Armor::Interceptor => None,
            Armor::Copter => None,
            Armor::Bomber => None,
            Armor::LightShip => Some(40u32),
            Armor::MediumShip => Some(30u32),
            Armor::HeavyShip => Some(25u32),
        },
        Weapon::LightArtillery => match a {
            Armor::Infantry => Some(100u32),
            Armor::LightVehicle => Some(50u32),
            Armor::HeavyVehicle => Some(40u32),
            Armor::LightTank => Some(30u32),
            Armor::MediumTank => Some(20u32),
            Armor::HeavyTank => Some(10u32),
            Armor::Interceptor => None,
            Armor::Copter => None,
            Armor::Bomber => None,
            Armor::LightShip => Some(40u32),
            Armor::MediumShip => Some(35u32),
            Armor::HeavyShip => Some(30u32),
        },
        Weapon::MediumArtillery => match a {
            Armor::Infantry => Some(120u32),
            Armor::LightVehicle => Some(80u32),
            Armor::HeavyVehicle => Some(70u32),
            Armor::LightTank => Some(60u32),
            Armor::MediumTank => Some(50u32),
            Armor::HeavyTank => Some(30u32),
            Armor::Interceptor => None,
            Armor::Copter => None,
            Armor::Bomber => None,
            Armor::LightShip => Some(50u32),
            Armor::MediumShip => Some(40u32),
            Armor::HeavyShip => Some(35u32),
        },
        Weapon::HeavyArtillery => match a {
            Armor::Infantry => Some(160u32),
            Armor::LightVehicle => Some(110u32),
            Armor::HeavyVehicle => Some(100u32),
            Armor::LightTank => Some(100u32),
            Armor::MediumTank => Some(90u32),
            Armor::HeavyTank => Some(80u32),
            Armor::Interceptor => None,
            Armor::Copter => None,
            Armor::Bomber => None,
            Armor::LightShip => Some(70u32),
            Armor::MediumShip => Some(55u32),
            Armor::HeavyShip => Some(40u32),
        },
        Weapon::AACannon => match a {
            Armor::Infantry => None,
            Armor::LightVehicle => None,
            Armor::HeavyVehicle => None,
            Armor::LightTank => None,
            Armor::MediumTank => None,
            Armor::HeavyTank => None,
            Armor::Interceptor => Some(70u32),
            Armor::Copter => Some(100u32),
            Armor::Bomber => Some(80u32),
            Armor::LightShip => None,
            Armor::MediumShip => None,
            Armor::HeavyShip => None,
        },
        Weapon::AAMissile => match a {
            Armor::Infantry => None,
            Armor::LightVehicle => None,
            Armor::HeavyVehicle => None,
            Armor::LightTank => None,
            Armor::MediumTank => None,
            Armor::HeavyTank => None,
            Armor::Interceptor => Some(120u32),
            Armor::Copter => Some(140u32),
            Armor::Bomber => Some(100u32),
            Armor::LightShip => None,
            Armor::MediumShip => None,
            Armor::HeavyShip => None,
        },
        Weapon::CopterMissile => match a {
            Armor::Infantry => Some(50u32),
            Armor::LightVehicle => Some(70u32),
            Armor::HeavyVehicle => Some(60u32),
            Armor::LightTank => Some(55u32),
            Armor::MediumTank => Some(45u32),
            Armor::HeavyTank => Some(35u32),
            Armor::Interceptor => None,
            Armor::Copter => Some(60u32),
            Armor::Bomber => None,
            Armor::LightShip => Some(45u32),
            Armor::MediumShip => Some(30u32),
            Armor::HeavyShip => Some(20u32),
        },
        Weapon::InterceptorMissile => match a {
            Armor::Infantry => None,
            Armor::LightVehicle => None,
            Armor::HeavyVehicle => None,
            Armor::LightTank => None,
            Armor::MediumTank => None,
            Armor::HeavyTank => None,
            Armor::Interceptor => Some(50u32),
            Armor::Copter => Some(100u32),
            Armor::Bomber => Some(80u32),
            Armor::LightShip => None,
            Armor::MediumShip => None,
            Armor::HeavyShip => None,
        },
        Weapon::AerialBomb => match a {
            Armor::Infantry => Some(160u32),
            Armor::LightVehicle => Some(140u32),
            Armor::HeavyVehicle => Some(130u32),
            Armor::LightTank => Some(120u32),
            Armor::MediumTank => Some(100u32),
            Armor::HeavyTank => Some(90u32),
            Armor::Interceptor => None,
            Armor::Copter => None,
            Armor::Bomber => None,
            Armor::LightShip => Some(80u32),
            Armor::MediumShip => Some(70u32),
            Armor::HeavyShip => Some(60u32),
        },
        Weapon::CruiserArtillery => match a {
            Armor::Infantry => Some(180u32),
            Armor::LightVehicle => Some(140u32),
            Armor::HeavyVehicle => Some(120u32),
            Armor::LightTank => Some(110u32),
            Armor::MediumTank => Some(100u32),
            Armor::HeavyTank => Some(90u32),
            Armor::Interceptor => None,
            Armor::Copter => None,
            Armor::Bomber => None,
            Armor::LightShip => Some(100u32),
            Armor::MediumShip => Some(65u32),
            Armor::HeavyShip => Some(50u32),
        },
        Weapon::HeavyMachinegun => match a {
            Armor::Infantry => Some(130u32),
            Armor::LightVehicle => Some(50u32),
            Armor::HeavyVehicle => Some(40u32),
            Armor::LightTank => Some(35u32),
            Armor::MediumTank => Some(25u32),
            Armor::HeavyTank => Some(15u32),
            Armor::Interceptor => None,
            Armor::Copter => Some(35u32),
            Armor::Bomber => None,
            Armor::LightShip => Some(20u32),
            Armor::MediumShip => Some(16u32),
            Armor::HeavyShip => Some(12u32),
        },
    }
}

/// Damage percentage of a weapon at a given range; `None` where the range is out of reach.
pub open spec fn weapon_range(x: Weapon, r: u32) -> Option<u32> {
    match x {
        Weapon::Rifle => if r == 1 { Some(100u32) } else { None },
        Weapon::Machinegun => if r == 1 { Some(100u32) } else { None },
        Weapon::Bazooka => if r == 1 { Some(100u32) } else { None },
        Weapon::LightCannon => if r == 1 { Some(100u32) } else { if r == 2 { Some(50u32) } else { None } },
        Weapon::MediumCannon => if r == 1 { Some(100u32) } else { if r == 2 { Some(50u32) } else { None } },
        Weapon::HeavyCannon => if r == 1 { Some(100u32) } else { if r == 2 { Some(50u32) } else { None } },
        Weapon::LightArtillery => if r == 2 { Some(90u32) } else { if r == 3 { Some(100u32) } else { if r == 4 { Some(90u32) } else { None } } },
        Weapon::MediumArtillery => if r == 2 { Some(90u32) } else { if r == 3 { Some(100u32) } else { if r == 4 { Some(100u32) } else { if r == 5 { Some(90u32) } else { None } } } },
        Weapon::HeavyArtillery => if r == 3 { Some(90u32) } else { if r == 4 { Some(100u32) } else { if r == 5 { Some(100u32) } else { if r == 6 { Some(90u32) } else { None } } } },
        Weapon::AACannon => if r == 1 { Some(100u32) } else { None },
        Weapon::AAMissile => if r == 2 { Some(100u32) } else { if r == 3 { Some(100u32) } else { if r == 4 { Some(90u32) } else { if r == 5 { Some(80u32) } else { if r == 6 { Some(70u32) } else { if r == 7 { Some(50u32) } else { if r == 8 { Some(40u32) } else { None } } } } } } },
        Weapon::CopterMissile => if r == 1 { Some(100u32) } else { None },
        Weapon::InterceptorMissile => if r == 1 { Some(100u32) } else { None },
        Weapon::AerialBomb => if r == 1 { Some(100u32) } else { None },
        Weapon::CruiserArtillery => if r == 3 { Some(80u32) } else { if r == 4 { Some(90u32) } else { if r == 5 { Some(100u32) } else { if r == 6 { Some(70u32) } else { None } } } },
        Weapon::HeavyMachinegun => if r == 1 { Some(100u32) } else { None },
    }
}

/// Whether a weapon can only fire from a deployed unit.
pub open spec fn weapon_requires_deployment(x: Weapon) -> bool {
    match x {
        Weapon::Rifle => false,
        Weapon::Machinegun => false,
        Weapon::Bazooka => false,
        Weapon::LightCannon => false,
        Weapon::MediumCannon => false,
        Weapon::HeavyCannon => false,
        Weapon::LightArtillery => true,
        Weapon::MediumArtillery => true,
        Weapon::HeavyArtillery => true,
        Weapon::AACannon => false,
        Weapon::AAMissile => true,
        Weapon::CopterMissile => false,
        Weapon::InterceptorMissile => false,
        Weapon::AerialBomb => false,
        Weapon::CruiserArtillery => true,
        Weapon::HeavyMachinegun => false,
    }
}

/// Display name of an armor class.
pub open spec fn armor_name(x: Armor) -> Seq<char> {
    match x {
        Armor::Infantry => "Infantry"@,
        Armor::LightVehicle => "LightVehicle"@,
        Armor::HeavyVehicle => "HeavyVehicle"@,
        Armor::LightTank => "LightTank"@,
        Armor::MediumTank => "MediumTank"@,
        Armor::HeavyTank => "HeavyTank"@,
        Armor::Interceptor => "Interceptor"@,
        Armor::Copter => "Copter"@,
        Armor::Bomber => "Bomber"@,
        Armor::LightShip => "LightShip"@,
        Armor::MediumShip => "MediumShip"@,
        Armor::HeavyShip => "HeavyShip"@,
    }
}

/// Display name of a movement class.
pub open spec fn movement_name(x: Movement) -> Seq<char> {
    match x {
        Movement::Walk => "Walk"@,
        Movement::LightVehicle => "Vehicle"@,
        Movement::MediumVehicle => "MediumVehicle"@,
        Movement::HeavyVehicle => "HeavyVehicle"@,
        Movement::Flying => "Flying"@,
        Movement::Ship => "Ship"@,
    }
}

/// Movement points a movement class spends to enter a terrain; `None` where it cannot enter.
pub open spec fn terrain_cost(m: Movement, t: Terrain) -> Option<u32> {
    match m {
        Movement::Walk => match t {
            Terrain::Road => Some(1u32),
            Terrain::Plains => Some(1u32),
            Terrain::Forest => Some(1u32),
            Terrain::Mountains => Some(2u32),
            Terrain::Water => Some(3u32),
            Terrain::City => Some(1u32),
            Terrain::Base => Some(1u32),
            Terrain::Fort => Some(1u32),
            Terrain::Airport => Some(1u32),
            Terrain::Port => Some(1u32),
            Terrain::Beach => Some(1u32),
            Terrain::Bridge => Some(1u32),
            Terrain::HQ => Some(1u32),
        },
        Movement::LightVehicle => match t {
            Terrain::Road => Some(1u32),
            Terrain::Plains => Some(1u32),
            Terrain::Forest => Some(2u32),
            Terrain::Mountains => None,
            Terrain::Water => None,
            Terrain::City => Some(1u32),
            Terrain::Base => Some(1u32),
            Terrain::Fort => Some(1u32),
            Terrain::Airport => Some(1u32),
            Terrain::Port => Some(1u32),
            Terrain::Beach => Some(1u32),
            Terrain::Bridge => Some(1u32),
            Terrain::HQ => Some(1u32),
        },
        Movement::MediumVehicle => match t {
            Terrain::Road => Some(1u32),
            Terrain::Plains => Some(1u32),
            Terrain::Forest => Some(3u32),
            Terrain::Mountains => None,
            Terrain::Water => None,
            Terrain::City => Some(1u32),
            Terrain::Base => Some(1u32),
            Terrain::Fort => Some(1u32),
            Terrain::Airport => Some(1u32),
            Terrain::Port => Some(1u32),
            Terrain::Beach => Some(1u32),
            Terrain::Bridge => Some(1u32),
            Terrain::HQ => Some(1u32),
        },
        Movement::HeavyVehicle => match t {
            Terrain::Road => Some(1u32),
            Terrain::Plains => Some(2u32),
            Terrain::Forest => Some(4u32),
            Terrain::Mountains => None,
            Terrain::Water => None,
            Terrain::City => Some(1u32),
            Terrain::Base => Some(1u32),
            Terrain::Fort => Some(1u32),
            Terrain::Airport => Some(1u32),
            Terrain::Port => Some(1u32),
            Terrain::Beach => Some(2u32),
            Terrain::Bridge => Some(1u32),
            Terrain::HQ => Some(1u32),
        },
        Movement::Flying => match t {
            Terrain::Road => Some(1u32),
            Terrain::Plains => Some(1u32),
            Terrain::Forest => Some(1u32),
            Terrain::Mountains => Some(1u32),
            Terrain::Water => Some(1u32),
            Terrain::City => Some(1u32),
            Terrain::Base => Some(1u32),
            Terrain::Fort => Some(1u32),
            Terrain::Airport => Some(1u32),
            Terrain::Port => Some(1u32),
            Terrain::Beach => Some(1u32),
            Terrain::Bridge => Some(1u32),
            Terrain::HQ => Some(1u32),
        },
        Movement::Ship => match t {
            Terrain::Road => None,
            Terrain::Plains => None,
            Terrain::Forest => None,
            Terrain::Mountains => None,
            Terrain::Water => Some(1u32),
            Terrain::City => None,
            Terrain::Base => None,
            Terrain::Fort => None,
            Terrain::Airport => None,
            Terrain::Port => Some(1u32),
            Terrain::Beach => Some(1u32),
            Terrain::Bridge => None,
            Terrain::HQ => None,
        },
    }
}

/// Display name of a unit type.
pub open spec fn unit_type_name(x: UnitType) -> Seq<char> {
    match x {
        UnitType::Infantry => "Infantry"@,
        UnitType::ATInfantry => "ATInfantry"@,
        UnitType::Scout => "Scout"@,
        UnitType::LightTank => "LightTank"@,
        UnitType::MediumTank => "MediumTank"@,
        UnitType::HeavyTank => "HeavyTank"@,
        UnitType::LightArtillery => "LightArtillery"@,
        UnitType::MediumArtillery => "MediumArtillery"@,
        UnitType::HeavyArtillery => "HeavyArtillery"@,
        UnitType::AAVehicle => "AAVehicle"@,
        UnitType::SAMVehicle => "SAMVehicle"@,
        UnitType::AttackCopter => "AttackCopter"@,
        UnitType::Interceptor => "Interceptor"@,
        UnitType::Bomber => "Bomber"@,
        UnitType::APC => "APC"@,
        UnitType::TransportCopter => "TransportCopter"@,
        UnitType::CargoShip => "CargoShip"@,
        UnitType::GunBoat => "GunBoat"@,
        UnitType::AABoat => "AABoat"@,
        UnitType::Cruiser => "Cruiser"@,
    }
}

/// Class of a unit type.
pub open spec fn unit_class_of(x: UnitType) -> UnitClass {
    match x {
        UnitType::Infantry => UnitClass::Infantry,
        UnitType::ATInfantry => UnitClass::Infantry,
        UnitType::Scout => UnitClass::Vehicle,
        UnitType::LightTank => UnitClass::Vehicle,
        UnitType::MediumTank => UnitClass::Vehicle,
        UnitType::HeavyTank => UnitClass::Vehicle,
        UnitType::LightArtillery => UnitClass::Vehicle,
        UnitType::MediumArtillery => UnitClass::Vehicle,
        UnitType::HeavyArtillery => UnitClass::Vehicle,
        UnitType::AAVehicle => UnitClass::Vehicle,
        UnitType::SAMVehicle => UnitClass::Vehicle,
        UnitType::AttackCopter => UnitClass::Aerial,
        UnitType::Interceptor => UnitClass::Aerial,
        UnitType::Bomber => UnitClass::Aerial,
        UnitType::APC => UnitClass::Aerial,
        UnitType::TransportCopter => UnitClass::Aerial,
        UnitType::CargoShip => UnitClass::Naval,
        UnitType::GunBoat => UnitClass::Naval,
        UnitType::AABoat => UnitClass::Naval,
        UnitType::Cruiser => UnitClass::Naval,
    }
}

/// Movement class of a unit type.
pub open spec fn movement_type_of(x: UnitType) -> Movement {
    match x {
        UnitType::Infantry => Movement::Walk,
        UnitType::ATInfantry => Movement::Walk,
        UnitType::Scout => Movement::LightVehicle,
        UnitType::LightTank => Movement::LightVehicle,
        UnitType::MediumTank => Movement::HeavyVehicle,
        UnitType::HeavyTank => Movement::HeavyVehicle,
        UnitType::LightArtillery => Movement::LightVehicle,
        UnitType::MediumArtillery => Movement::HeavyVehicle,
        UnitType::HeavyArtillery => Movement::HeavyVehicle,
        UnitType::AAVehicle => Movement::LightVehicle,
        UnitType::SAMVehicle => Movement::HeavyVehicle,
        UnitType::AttackCopter => Movement::Flying,
        UnitType::Interceptor => Movement::Flying,
        UnitType::Bomber => Movement::Flying,
        UnitType::APC => Movement::LightVehicle,
        UnitType::TransportCopter => Movement::Flying,
        UnitType::CargoShip => Movement::Ship,
        UnitType::GunBoat => Movement::Ship,
        UnitType::AABoat => Movement::Ship,
        UnitType::Cruiser => Movement::Ship,
    }
}

/// Movement points of a unit type per turn.
pub open spec fn movement_points(x: UnitType) -> u32 {
    match x {
        UnitType::Infantry => 3u32,
        UnitType::ATInfantry => 2u32,
        UnitType::Scout => 6u32,
        UnitType::LightTank => 5u32,
        UnitType::MediumTank => 4u32,
        UnitType::HeavyTank => 4u32,
        UnitType::LightArtillery => 4u32,
        UnitType::MediumArtillery => 4u32,
        UnitType::HeavyArtillery => 4u32,
        UnitType::AAVehicle => 5u32,
        UnitType::SAMVehicle => 4u32,
        UnitType::AttackCopter => 7u32,
        UnitType::Interceptor => 12u32,
        UnitType::Bomber => 9u32,
        UnitType::APC => 5u32,
        UnitType::TransportCopter => 6u32,
        UnitType::CargoShip => 4u32,
        UnitType::GunBoat => 5u32,
        UnitType::AABoat => 6u32,
        UnitType::Cruiser => 4u32,
    }
}

/// Armor class of a unit type.
pub open spec fn armor_type_of(x: UnitType) -> Armor {
    match x {
        UnitType::Infantry => Armor::Infantry,
        UnitType::ATInfantry => Armor::Infantry,
        UnitType::Scout => Armor::LightVehicle,
        UnitType::LightTank => Armor::LightTank,
        UnitType::MediumTank => Armor::MediumTank,
        UnitType::HeavyTank => Armor::HeavyTank,
        UnitType::LightArtillery => Armor::LightVehicle,
        UnitType::MediumArtillery => Armor::LightVehicle,
        UnitType::HeavyArtillery => Armor::HeavyVehicle,
        UnitType::AAVehicle => Armor::LightVehicle,
        UnitType::SAMVehicle => Armor::HeavyVehicle,
        UnitType::AttackCopter => Armor::Copter,
        UnitType::Interceptor => Armor::Interceptor,
        UnitType::Bomber => Armor::Bomber,
        UnitType::APC => Armor::LightTank,
        UnitType::TransportCopter => Armor::Copter,
        UnitType::CargoShip => Armor::MediumShip,
        UnitType::GunBoat => Armor::MediumShip,
        UnitType::AABoat => Armor::LightShip,
        UnitType::Cruiser => Armor::HeavyShip,
    }
}

/// Defense a unit type gets from a terrain; `None` where the terrain's default applies.
pub open spec fn unit_defense(x: UnitType, t: Terrain) -> Option<u32> {
    match x {
        UnitType::Infantry => match t {
            Terrain::Road => None,
            Terrain::Plains => Some(10u32),
            Terrain::Forest => Some(50u32),
            Terrain::Mountains => Some(65u32),
            Terrain::Water => None,
            Terrain::City => Some(50u32),
            Terrain::Base => Some(50u32),
            Terrain::Fort => None,
            Terrain::Airport => Some(50u32),
            Terrain::Port => Some(50u32),
            Terrain::Beach => None,
            Terrain::Bridge => None,
            Terrain::HQ => None,
        },
        UnitType::ATInfantry => match t {
            Terrain::Road => None,
            Terrain::Plains => Some(10u32),
            Terrain::Forest => Some(50u32),
            Terrain::Mountains => Some(65u32),
            Terrain::Water => None,
            Terrain::City => Some(50u32),
            Terrain::Base => Some(50u32),
            Terrain::Fort => None,
            Terrain::Airport => Some(50u32),
            Terrain::Port => Some(50u32),
            Terrain::Beach => None,
            Terrain::Bridge => None,
            Terrain::HQ => None,
        },
        UnitType::Scout => match t {
            Terrain::Road => None,
            Terrain::Plains => Some(10u32),
            Terrain::Forest => None,
            Terrain::Mountains => None,
            Terrain::Water => None,
            Terrain::City => None,
            Terrain::Base => None,
            Terrain::Fort => None,
            Terrain::Airport => None,
            Terrain::Port => None,
            Terrain::Beach => None,
            Terrain::Bridge => None,
            Terrain::HQ => None,
        },
        UnitType::LightTank => match t {
            Terrain::Road => None,
            Terrain::Plains => Some(10u32),
            Terrain::Forest => None,
            Terrain::Mountains => None,
            Terrain::Water => None,
            Terrain::City => None,
            Terrain::Base => None,
            Terrain::Fort => None,
            Terrain::Airport => None,
            Terrain::Port => None,
            Terrain::Beach => None,
            Terrain::Bridge => None,
            Terrain::HQ => None,
        },
        UnitType::MediumTank => match t {
            Terrain::Road => None,
            Terrain::Plains => None,
            Terrain::Forest => None,
            Terrain::Mountains => None,
            Terrain::Water => None,
            Terrain::City => None,
            Terrain::Base => None,
            Terrain::Fort => None,
            Terrain::Airport => None,
            Terrain::Port => None,
            Terrain::Beach => None,
            Terrain::Bridge => None,
            Terrain::HQ => None,
        },
        UnitType::HeavyTank => match t {
            Terrain::Road => None,
            Terrain::Plains => None,
            Terrain::Forest => None,
            Terrain::Mountains => None,
            Terrain::Water => None,
            Terrain::City => None,
            Terrain::Base => None,
            Terrain::Fort => None,
            Terrain::Airport => None,
            Terrain::Port => None,
            Terrain::Beach => None,
            Terrain::Bridge => None,
            Terrain::HQ => None,
        },
        UnitType::LightArtillery => match t {
            Terrain::Road => None,
            Terrain::Plains => None,
            Terrain::Forest => None,
            Terrain::Mountains => None,
            Terrain::Water => None,
            Terrain::City => None,
            Terrain::Base => None,
            Terrain::Fort => None,
            Terrain::Airport => None,
            Terrain::Port => None,
            Terrain::Beach => None,
            Terrain::Bridge => None,
            Terrain::HQ => None,
        },
        UnitType::MediumArtillery => match t {
            Terrain::Road => None,
            Terrain::Plains => None,
            Terrain::Forest => None,
            Terrain::Mountains => None,
            Terrain::Water => None,
            Terrain::City => None,
            Terrain::Base => None,
            Terrain::Fort => None,
            Terrain::Airport => None,
            Terrain::Port => None,
            Terrain::Beach => None,
            Terrain::Bridge => None,
            Terrain::HQ => None,
        },
        UnitType::HeavyArtillery => match t {
            Terrain::Road => None,
            Terrain::Plains => None,
            Terrain::Forest => None,
            Terrain::Mountains => None,
            Terrain::Water => None,
            Terrain::City => None,
            Terrain::Base => None,
            Terrain::Fort => None,
            Terrain::Airport => None,
            Terrain::Port => None,
            Terrain::Beach => None,
            Terrain::Bridge => None,
            Terrain::HQ => None,
        },
        UnitType::AAVehicle => match t {
            Terrain::Road => None,
            Terrain::Plains => None,
            Terrain::Forest => None,
            Terrain::Mountains => None,
            Terrain::Water => None,
            Terrain::City => None,
            Terrain::Base => None,
            Terrain::Fort => None,
            Terrain::Airport => None,
            Terrain::Port => None,
            Terrain::Beach => None,
            Terrain::Bridge => None,
            Terrain::HQ => None,
        },
        UnitType::SAMVehicle => match t {
            Terrain::Road => None,
            Terrain::Plains => None,
            Terrain::Forest => None,
            Terrain::Mountains => None,
            Terrain::Water => None,
            Terrain::City => None,
            Terrain::Base => None,
            Terrain::Fort => None,
            Terrain::Airport => None,
            Terrain::Port => None,
            Terrain::Beach => None,
            Terrain::Bridge => None,
            Terrain::HQ => None,
        },
        UnitType::AttackCopter => match t {
            Terrain::Road => Some(0u32),
            Terrain::Plains => Some(0u32),
            Terrain::Forest => Some(0u32),
            Terrain::Mountains => Some(0u32),
            Terrain::Water => Some(0u32),
            Terrain::City => Some(0u32),
            Terrain::Base => Some(0u32),
            Terrain::Fort => Some(0u32),
            Terrain::Airport => Some(0u32),
            Terrain::Port => Some(0u32),
            Terrain::Beach => Some(0u32),
            Terrain::Bridge => Some(0u32),
            Terrain::HQ => Some(0u32),
        },
        UnitType::Interceptor => match t {
            Terrain::Road => Some(0u32),
            Terrain::Plains => Some(0u32),
            Terrain::Forest => Some(0u32),
            Terrain::Mountains => Some(0u32),
            Terrain::Water => Some(0u32),
            Terrain::City => Some(0u32),
            Terrain::Base => Some(0u32),
            Terrain::Fort => Some(0u32),
            Terrain::Airport => Some(0u32),
            Terrain::Port => Some(0u32),
            Terrain::Beach => Some(0u32),
            Terrain::Bridge => Some(0u32),
            Terrain::HQ => Some(0u32),
        },
        UnitType::Bomber => match t {
            Terrain::Road => Some(0u32),
            Terrain::Plains => Some(0u32),
            Terrain::Forest => Some(0u32),
            Terrain::Mountains => Some(0u32),
            Terrain::Water => Some(0u32),
            Terrain::City => Some(0u32),
            Terrain::Base => Some(0u32),
            Terrain::Fort => Some(0u32),
            Terrain::Airport => Some(0u32),
            Terrain::Port => Some(0u32),
            Terrain::Beach => Some(0u32),
            Terrain::Bridge => Some(0u32),
            Terrain::HQ => Some(0u32),
        },
        UnitType::APC => match t {
            Terrain::Road => None,
            Terrain::Plains => None,
            Terrain::Forest => None,
            Terrain::Mountains => None,
            Terrain::Water => None,
            Terrain::City => None,
            Terrain::Base => None,
            Terrain::Fort => None,
            Terrain::Airport => None,
            Terrain::Port => None,
            Terrain::Beach => None,
            Terrain::Bridge => None,
            Terrain::HQ => None,
        },
        UnitType::TransportCopter => match t {
            Terrain::Road => None,
            Terrain::Plains => None,
            Terrain::Forest => None,
            Terrain::Mountains => None,
            Terrain::Water => None,
            Terrain::City => None,
            Terrain::Base => None,
            Terrain::Fort => None,
            Terrain::Airport => None,
            Terrain::Port => None,
            Terrain::Beach => None,
            Terrain::Bridge => None,
            Terrain::HQ => None,
        },
        UnitType::CargoShip => match t {
            Terrain::Road => None,
            Terrain::Plains => None,
            Terrain::Forest => None,
            Terrain::Mountains => None,
            Terrain::Water => None,
            Terrain::City => None,
            Terrain::Base => None,
            Terrain::Fort => None,
            Terrain::Airport => None,
            Terrain::Port => None,
            Terrain::Beach => None,
            Terrain::Bridge => None,
            Terrain::HQ => None,
        },
        UnitType::GunBoat => match t {
            Terrain::Road => None,
            Terrain::Plains => None,
            Terrain::Forest => None,
            Terrain::Mountains => None,
            Terrain::Water => None,
            Terrain::City => None,
            Terrain::Base => None,
            Terrain::Fort => None,
            Terrain::Airport => None,
            Terrain::Port => None,
            Terrain::Beach => None,
            Terrain::Bridge => None,
            Terrain::HQ => None,
        },
        UnitType::AABoat => match t {
            Terrain::Road => None,
            Terrain::Plains => None,
            Terrain::Forest => None,
            Terrain::Mountains => None,
            Terrain::Water => None,
            Terrain::City => None,
            Terrain::Base => None,
            Terrain::Fort => None,
            Terrain::Airport => None,
            Terrain::Port => None,
            Terrain::Beach => None,
            Terrain::Bridge => None,
            Terrain::HQ => None,
        },
        UnitType::Cruiser => match t {
            Terrain::Road => None,
            Terrain::Plains => None,
            Terrain::Forest => None,
            Terrain::Mountains => None,
            Terrain::Water => None,
            Terrain::City => None,
            Terrain::Base => None,
            Terrain::Fort => None,
            Terrain::Airport => None,
            Terrain::Port => None,
            Terrain::Beach => None,
            Terrain::Bridge => None,
            Terrain::HQ => None,
        },
    }
}

/// Weapons of a unit type, in order.
pub open spec fn unit_weapons(x: UnitType) -> Seq<Weapon> {
    match x {
        UnitType::Infantry => seq![Weapon::Rifle],
        UnitType::ATInfantry => seq![Weapon::Rifle, Weapon::Bazooka],
        UnitType::Scout => seq![Weapon::Machinegun],
        UnitType::LightTank => seq![Weapon::Machinegun, Weapon::LightCannon],
        UnitType::MediumTank => seq![Weapon::HeavyMachinegun, Weapon::MediumCannon],
        UnitType::HeavyTank => seq![Weapon::HeavyMachinegun, Weapon::HeavyCannon],
        UnitType::LightArtillery => seq![Weapon::LightArtillery],
        UnitType::MediumArtillery => seq![Weapon::MediumArtillery],
        UnitType::HeavyArtillery => seq![Weapon::HeavyArtillery],
        UnitType::AAVehicle => seq![Weapon::Machinegun, Weapon::AACannon],
        UnitType::SAMVehicle => seq![Weapon::AAMissile],
        UnitType::AttackCopter => seq![Weapon::CopterMissile],
        UnitType::Interceptor => seq![Weapon::Machinegun, Weapon::CopterMissile],
        UnitType::Bomber => seq![Weapon::AerialBomb],
        UnitType::APC => seq![],
        UnitType::TransportCopter => seq![],
        UnitType::CargoShip => seq![],
        UnitType::GunBoat => seq![Weapon::HeavyMachinegun, Weapon::MediumCannon],
        UnitType::AABoat => seq![Weapon::AACannon],
        UnitType::Cruiser => seq![Weapon::CruiserArtillery],
    }
}

/// Price of a unit type.
pub open spec fn unit_price(x: UnitType) -> u32 {
    match x {
        UnitType::Infantry => 100u32,
        UnitType::ATInfantry => 200u32,
        UnitType::Scout => 400u32,
        UnitType::LightTank => 700u32,
        UnitType::MediumTank => 1200u32,
        UnitType::HeavyTank => 1700u32,
        UnitType::LightArtillery => 500u32,
        UnitType::MediumArtillery => 1500u32,
        UnitType::HeavyArtillery => 2600u32,
        UnitType::AAVehicle => 500u32,
        UnitType::SAMVehicle => 1000u32,
        UnitType::AttackCopter => 1000u32,
        UnitType::Interceptor => 1500u32,
        UnitType::Bomber => 2200u32,
        UnitType::APC => 300u32,
        UnitType::TransportCopter => 500u32,
        UnitType::CargoShip => 800u32,
        UnitType::GunBoat => 1000u32,
        UnitType::AABoat => 700u32,
        UnitType::Cruiser => 3000u32,
    }
}

/// Unit classes that a unit type can carry.
pub open spec fn unit_carry_classes(x: UnitType) -> Seq<UnitClass> {
    match x {
        UnitType::Infantry => seq![],
        UnitType::ATInfantry => seq![],
        UnitType::Scout => seq![],
        UnitType::LightTank => seq![],
        UnitType::MediumTank => seq![],
        UnitType::HeavyTank => seq![],
        UnitType::LightArtillery => seq![],
        UnitType::MediumArtillery => seq![],
        UnitType::HeavyArtillery => seq![],
        UnitType::AAVehicle => seq![],
        UnitType::SAMVehicle => seq![],
        UnitType::AttackCopter => seq![],
        UnitType::Interceptor => seq![],
        UnitType::Bomber => seq![],
        UnitType::APC => seq![UnitClass::Infantry, UnitClass::Vehicle],
        UnitType::TransportCopter => seq![UnitClass::Infantry],
        UnitType::CargoShip => seq![UnitClass::Infantry, UnitClass::Vehicle],
        UnitType::GunBoat => seq![],
        UnitType::AABoat => seq![],
        UnitType::Cruiser => seq![],
    }
}

/// How many units a unit type can carry at once.
pub open spec fn unit_carry_num(x: UnitType) -> u32 {
    match x {
        UnitType::Infantry => 0u32,
        UnitType::ATInfantry => 0u32,
        UnitType::Scout => 0u32,
        UnitType::LightTank => 0u32,
        UnitType::MediumTank => 0u32,
        UnitType::HeavyTank => 0u32,
        UnitType::LightArtillery => 0u32,
        UnitType::MediumArtillery => 0u32,
        UnitType::HeavyArtillery => 0u32,
        UnitType::AAVehicle => 0u32,
        UnitType::SAMVehicle => 0u32,
        UnitType::AttackCopter => 0u32,
        UnitType::Interceptor => 0u32,
        UnitType::Bomber => 0u32,
        UnitType::APC => 2u32,
        UnitType::TransportCopter => 2u32,
        UnitType::CargoShip => 2u32,
        UnitType::GunBoat => 0u32,
        UnitType::AABoat => 0u32,
        UnitType::Cruiser => 0u32,
    }
}

/// Flags of a unit type.
pub open spec fn unit_flags(x: UnitType) -> Seq<UnitFlag> {
    match x {
        UnitType::Infantry => seq![UnitFlag::Capture],
        UnitType::ATInfantry => seq![UnitFlag::Capture],
        UnitType::Scout => seq![],
        UnitType::LightTank => seq![],
        UnitType::MediumTank => seq![],
        UnitType::HeavyTank => seq![],
        UnitType::LightArtillery => seq![],
        UnitType::MediumArtillery => seq![],
        UnitType::HeavyArtillery => seq![],
        UnitType::AAVehicle => seq![],
        UnitType::SAMVehicle => seq![],
        UnitType::AttackCopter => seq![],
        UnitType::Interceptor => seq![],
        UnitType::Bomber => seq![],
        UnitType::APC => seq![],
        UnitType::TransportCopter => seq![],
        UnitType::CargoShip => seq![],
        UnitType::GunBoat => seq![],
        UnitType::AABoat => seq![],
        UnitType::Cruiser => seq![],
    }
}

/// Display name of a unit flag.
pub open spec fn unit_flag_name(x: UnitFlag) -> Seq<char> {
    match x {
        UnitFlag::Capture => "Capture"@,
    }
}

/// Display name of a terrain flag.
pub open spec fn terrain_flag_name(x: TerrainFlag) -> Seq<char> {
    match x {
        TerrainFlag::Capturable => "Capturable"@,
        TerrainFlag::Funds => "Funds"@,
        TerrainFlag::HQ => "HQ"@,
    }
}

/// Display name of a terrain.
pub open spec fn terrain_name(x: Terrain) -> Seq<char> {
    match x {
        Terrain::Road => "Road"@,
        Terrain::Plains => "Plains"@,
        Terrain::Forest => "Forest"@,
        Terrain::Mountains => "Mountains"@,
        Terrain::Water => "Water"@,
        Terrain::City => "City"@,
        Terrain::Base => "Base"@,
        Terrain::Fort => "Fort"@,
        Terrain::Airport => "Airport"@,
        Terrain::Port => "Port"@,
        Terrain::Beach => "Beach"@,
        Terrain::Bridge => "Bridge"@,
        Terrain::HQ => "HQ"@,
    }
}

/// Defense a terrain gives units without a type-specific value.
pub open spec fn terrain_default_defense(x: Terrain) -> u32 {
    match x {
        Terrain::Road => 0u32,
        Terrain::Plains => 0u32,
        Terrain::Forest => 20u32,
        Terrain::Mountains => 60u32,
        Terrain::Water => 0u32,
        Terrain::City => 40u32,
        Terrain::Base => 45u32,
        Terrain::Fort => 20u32,
        Terrain::Airport => 45u32,
        Terrain::Port => 45u32,
        Terrain::Beach => 0u32,
        Terrain::Bridge => 0u32,
        Terrain::HQ => 60u32,
    }
}

/// Unit classes that can be built on a terrain.
pub open spec fn terrain_build_classes(x: Terrain) -> Seq<UnitClass> {
    match x {
        Terrain::Road => seq![],
        Terrain::Plains => seq![],
        Terrain::Forest => seq![],
        Terrain::Mountains => seq![],
        Terrain::Water => seq![],
        Terrain::City => seq![],
        Terrain::Base => seq![UnitClass::Infantry, UnitClass::Vehicle],
        Terrain::Fort => seq![],
        Terrain::Airport => seq![UnitClass::Aerial],
        Terrain::Port => seq![UnitClass::Naval],
        Terrain::Beach => seq![],
        Terrain::Bridge => seq![],
        Terrain::HQ => seq![],
    }
}

/// Unit classes that a terrain repairs.
pub open spec fn terrain_repair_classes(x: Terrain) -> Seq<UnitClass> {
    match x {
        Terrain::Road => seq![],
        Terrain::Plains => seq![],
        Terrain::Forest => seq![],
        Terrain::Mountains => seq![],
        Terrain::Water => seq![],
        Terrain::City => seq![UnitClass::Infantry, UnitClass::Vehicle],
        Terrain::Base => seq![UnitClass::Infantry, UnitClass::Vehicle],
        Terrain::Fort => seq![],
        Terrain::Airport => seq![UnitClass::Aerial, UnitClass::Infantry],
        Terrain::Port => seq![UnitClass::Naval, UnitClass::Infantry],
        Terrain::Beach => seq![],
        Terrain::Bridge => seq![],
        Terrain::HQ => seq![UnitClass::Infantry, UnitClass::Vehicle],
    }
}

/// Flags of a terrain.
pub open spec fn terrain_flags(x: Terrain) -> Seq<TerrainFlag> {
    match x {
        Terrain::Road => seq![],
        Terrain::Plains => seq![],
        Terrain::Forest => seq![],
        Terrain::Mountains => seq![],
        Terrain::Water => seq![],
        Terrain::City => seq![TerrainFlag::Capturable, TerrainFlag::Funds],
        Terrain::Base => seq![TerrainFlag::Capturable, TerrainFlag::Funds],
        Terrain::Fort => seq![TerrainFlag::Capturable],
        Terrain::Airport => seq![TerrainFlag::Capturable],
        Terrain::Port => seq![TerrainFlag::Capturable],
        Terrain::Beach => seq![],
        Terrain::Bridge => seq![],
        Terrain::HQ => seq![TerrainFlag::Capturable, TerrainFlag::HQ],
    }
}

/// Static data of a weapon.
pub fn weapon(x: Weapon) -> (r: WeaponData<'static>)
    ensures
        r.name@ == weapon_name(x),
        r.weapon == x,
        r.require_deployed == weapon_requires_deployment(x),
{
    match x {
        Weapon::Rifle => WeaponData { name: "Rifle", weapon: Weapon::Rifle, require_deployed: false },
        Weapon::Machinegun => WeaponData { name: "Machinegun", weapon: Weapon::Machinegun, require_deployed: false },
        Weapon::Bazooka => WeaponData { name: "Bazooka", weapon: Weapon::Bazooka, require_deployed: false },
        Weapon::LightCannon => WeaponData { name: "LightCannon", weapon: Weapon::LightCannon, require_deployed: false },
        Weapon::MediumCannon => WeaponData { name: "MediumCannon", weapon: Weapon::MediumCannon, require_deployed: false },
        Weapon::HeavyCannon => WeaponData { name: "HeavyCannon", weapon: Weapon::HeavyCannon, require_deployed: false },
        Weapon::LightArtillery => WeaponData { name: "LightArtillery", weapon: Weapon::LightArtillery, require_deployed: true },
        Weapon::MediumArtillery => WeaponData { name: "MediumArtillery", weapon: Weapon::MediumArtillery, require_deployed: true },
        Weapon::HeavyArtillery => WeaponData { name: "HeavyArtillery", weapon: Weapon::HeavyArtillery, require_deployed: true },
        Weapon::AACannon => WeaponData { name: "AACannon", weapon: Weapon::AACannon, require_deployed: false },
        Weapon::AAMissile => WeaponData { name: "AAMissile", weapon: Weapon::AAMissile, require_deployed: true },
        Weapon::CopterMissile => WeaponData { name: "CopterMissile", weapon: Weapon::CopterMissile, require_deployed: false },
        Weapon::InterceptorMissile => WeaponData { name: "InterceptorMissile", weapon: Weapon::InterceptorMissile, require_deployed: false },
        Weapon::AerialBomb => WeaponData { name: "AerialBomb", weapon: Weapon::AerialBomb, require_deployed: false },
        Weapon::CruiserArtillery => WeaponData { name: "CruiserArtillery", weapon: Weapon::CruiserArtillery, require_deployed: true },
        Weapon::HeavyMachinegun => WeaponData { name: "HeavyMachinegun", weapon: Weapon::HeavyMachinegun, require_deployed: false },
    }
}

/// Static data of an armor class.
pub fn armor(x: Armor) -> (r: ArmorData<'static>)
    ensures
        r.name@ == armor_name(x),
{
    match x {
        Armor::Infantry => ArmorData { name: "Infantry" },
        Armor::LightVehicle => ArmorData { name: "LightVehicle" },
        Armor::HeavyVehicle => ArmorData { name: "HeavyVehicle" },
        Armor::LightTank => ArmorData { name: "LightTank" },
        Armor::MediumTank => ArmorData { name: "MediumTank" },
        Armor::HeavyTank => ArmorData { name: "HeavyTank" },
        Armor::Interceptor => ArmorData { name: "Interceptor" },
        Armor::Copter => ArmorData { name: "Copter" },
        Armor::Bomber => ArmorData { name: "Bomber" },
        Armor::LightShip => ArmorData { name: "LightShip" },
        Armor::MediumShip => ArmorData { name: "MediumShip" },
        Armor::HeavyShip => ArmorData { name: "HeavyShip" },
    }
}

/// Static data of a movement class.
pub fn movement(x: Movement) -> (r: MovementData<'static>)
    ensures
        r.name@ == movement_name(x),
        r.movement == x,
{
    match x {
        Movement::Walk => MovementData { name: "Walk", movement: Movement::Walk },
        Movement::LightVehicle => MovementData { name: "Vehicle", movement: Movement::LightVehicle },
        Movement::MediumVehicle => MovementData { name: "MediumVehicle", movement: Movement::MediumVehicle },
        Movement::HeavyVehicle => MovementData { name: "HeavyVehicle", movement: Movement::HeavyVehicle },
        Movement::Flying => MovementData { name: "Flying", movement: Movement::Flying },
        Movement::Ship => MovementData { name: "Ship", movement: Movement::Ship },
    }
}

/// Static data of a unit type.
pub fn unit_type(x: UnitType) -> (r: UnitTypeData<'static>)
    ensures
        r.name@ == unit_type_name(x),
        r.unit_type == x,
        r.unit_class == unit_class_of(x),
        r.movement_type == movement_type_of(x),
        r.movement == movement_points(x),
        r.armor_type == armor_type_of(x),
        r.weapons@ == unit_weapons(x),
        r.price == unit_price(x),
        r.carry_classes@ == unit_carry_classes(x),
        r.carry_num == unit_carry_num(x),
        r.flags@ == unit_flags(x),
{
    match x {
        UnitType::Infantry => UnitTypeData { name: "Infantry", unit_type: UnitType::Infantry, unit_class: UnitClass::Infantry, movement_type: Movement::Walk, movement: 3, armor_type: Armor::Infantry, weapons: &[Weapon::Rifle], price: 100, carry_classes: &[], carry_num: 0, flags: &[UnitFlag::Capture] },
        UnitType::ATInfantry => UnitTypeData { name: "ATInfantry", unit_type: UnitType::ATInfantry, unit_class: UnitClass::Infantry, movement_type: Movement::Walk, movement: 2, armor_type: Armor::Infantry, weapons: &[Weapon::Rifle, Weapon::Bazooka], price: 200, carry_classes: &[], carry_num: 0, flags: &[UnitFlag::Capture] },
        UnitType::Scout => UnitTypeData { name: "Scout", unit_type: UnitType::Scout, unit_class: UnitClass::Vehicle, movement_type: Movement::LightVehicle, movement: 6, armor_type: Armor::LightVehicle, weapons: &[Weapon::Machinegun], price: 400, carry_classes: &[], carry_num: 0, flags: &[] },
        UnitType::LightTank => UnitTypeData { name: "LightTank", unit_type: UnitType::LightTank, unit_class: UnitClass::Vehicle, movement_type: Movement::LightVehicle, movement: 5, armor_type: Armor::LightTank, weapons: &[Weapon::Machinegun, Weapon::LightCannon], price: 700, carry_classes: &[], carry_num: 0, flags: &[] },
        UnitType::MediumTank => UnitTypeData { name: "MediumTank", unit_type: UnitType::MediumTank, unit_class: UnitClass::Vehicle, movement_type: Movement::HeavyVehicle, movement: 4, armor_type: Armor::MediumTank, weapons: &[Weapon::HeavyMachinegun, Weapon::MediumCannon], price: 1200, carry_classes: &[], carry_num: 0, flags: &[] },
        UnitType::HeavyTank => UnitTypeData { name: "HeavyTank", unit_type: UnitType::HeavyTank, unit_class: UnitClass::Vehicle, movement_type: Movement::HeavyVehicle, movement: 4, armor_type: Armor::HeavyTank, weapons: &[Weapon::HeavyMachinegun, Weapon::HeavyCannon], price: 1700, carry_classes: &[], carry_num: 0, flags: &[] },
        UnitType::LightArtillery => UnitTypeData { name: "LightArtillery", unit_type: UnitType::LightArtillery, unit_class: UnitClass::Vehicle, movement_type: Movement::LightVehicle, movement: 4, armor_type: Armor::LightVehicle, weapons: &[Weapon::LightArtillery], price: 500, carry_classes: &[], carry_num: 0, flags: &[] },
        UnitType::MediumArtillery => UnitTypeData { name: "MediumArtillery", unit_type: UnitType::MediumArtillery, unit_class: UnitClass::Vehicle, movement_type: Movement::HeavyVehicle, movement: 4, armor_type: Armor::LightVehicle, weapons: &[Weapon::MediumArtillery], price: 1500, carry_classes: &[], carry_num: 0, flags: &[] },
        UnitType::HeavyArtillery => UnitTypeData { name: "HeavyArtillery", unit_type: UnitType::HeavyArtillery, unit_class: UnitClass::Vehicle, movement_type: Movement::HeavyVehicle, movement: 4, armor_type: Armor::HeavyVehicle, weapons: &[Weapon::HeavyArtillery], price: 2600, carry_classes: &[], carry_num: 0, flags: &[] },
        UnitType::AAVehicle => UnitTypeData { name: "AAVehicle", unit_type: UnitType::AAVehicle, unit_class: UnitClass::Vehicle, movement_type: Movement::LightVehicle, movement: 5, armor_type: Armor::LightVehicle, weapons: &[Weapon::Machinegun, Weapon::AACannon], price: 500, carry_classes: &[], carry_num: 0, flags: &[] },
        UnitType::SAMVehicle => UnitTypeData { name: "SAMVehicle", unit_type: UnitType::SAMVehicle, unit_class: UnitClass::Vehicle, movement_type: Movement::HeavyVehicle, movement: 4, armor_type: Armor::HeavyVehicle, weapons: &[Weapon::AAMissile], price: 1000, carry_classes: &[], carry_num: 0, flags: &[] },
        UnitType::AttackCopter => UnitTypeData { name: "AttackCopter", unit_type: UnitType::AttackCopter, unit_class: UnitClass::Aerial, movement_type: Movement::Flying, movement: 7, armor_type: Armor::Copter, weapons: &[Weapon::CopterMissile], price: 1000, carry_classes: &[], carry_num: 0, flags: &[] },
        UnitType::Interceptor => UnitTypeData { name: "Interceptor", unit_type: UnitType::Interceptor, unit_class: UnitClass::Aerial, movement_type: Movement::Flying, movement: 12, armor_type: Armor::Interceptor, weapons: &[Weapon::Machinegun, Weapon::CopterMissile], price: 1500, carry_classes: &[], carry_num: 0, flags: &[] },
        UnitType::Bomber => UnitTypeData { name: "Bomber", unit_type: UnitType::Bomber, unit_class: UnitClass::Aerial, movement_type: Movement::Flying, movement: 9, armor_type: Armor::Bomber, weapons: &[Weapon::AerialBomb], price: 2200, carry_classes: &[], carry_num: 0, flags: &[] },
        UnitType::APC => UnitTypeData { name: "APC", unit_type: UnitType::APC, unit_class: UnitClass::Aerial, movement_type: Movement::LightVehicle, movement: 5, armor_type: Armor::LightTank, weapons: &[], price: 300, carry_classes: &[UnitClass::Infantry, UnitClass::Vehicle], carry_num: 2, flags: &[] },
        UnitType::TransportCopter => UnitTypeData { name: "TransportCopter", unit_type: UnitType::TransportCopter, unit_class: UnitClass::Aerial, movement_type: Movement::Flying, movement: 6, armor_type: Armor::Copter, weapons: &[], price: 500, carry_classes: &[UnitClass::Infantry], carry_num: 2, flags: &[] },
        UnitType::CargoShip => UnitTypeData { name: "CargoShip", unit_type: UnitType::CargoShip, unit_class: UnitClass::Naval, movement_type: Movement::Ship, movement: 4, armor_type: Armor::MediumShip, weapons: &[], price: 800, carry_classes: &[UnitClass::Infantry, UnitClass::Vehicle], carry_num: 2, flags: &[] },
        UnitType::GunBoat => UnitTypeData { name: "GunBoat", unit_type: UnitType::GunBoat, unit_class: UnitClass::Naval, movement_type: Movement::Ship, movement: 5, armor_type: Armor::MediumShip, weapons: &[Weapon::HeavyMachinegun, Weapon::MediumCannon], price: 1000, carry_classes: &[], carry_num: 0, flags: &[] },
        UnitType::AABoat => UnitTypeData { name: "AABoat", unit_type: UnitType::AABoat, unit_class: UnitClass::Naval, movement_type: Movement::Ship, movement: 6, armor_type: Armor::LightShip, weapons: &[Weapon::AACannon], price: 700, carry_classes: &[], carry_num: 0, flags: &[] },
        UnitType::Cruiser => UnitTypeData { name: "Cruiser", unit_type: UnitType::Cruiser, unit_class: UnitClass::Naval, movement_type: Movement::Ship, movement: 4, armor_type: Armor::HeavyShip, weapons: &[Weapon::CruiserArtillery], price: 3000, carry_classes: &[], carry_num: 0, flags: &[] },
    }
}

/// Static data of a unit flag.
pub fn unit_flag(x: UnitFlag) -> (r: UnitFlagData<'static>)
    ensures
        r.name@ == unit_flag_name(x),
{
    match x {
        UnitFlag::Capture => UnitFlagData { name: "Capture" },
    }
}

/// Static data of a terrain flag.
pub fn terrain_flag(x: TerrainFlag) -> (r: TerrainFlagData<'static>)
    ensures
        r.name@ == terrain_flag_name(x),
{
    match x {
        TerrainFlag::Capturable => TerrainFlagData { name: "Capturable" },
        TerrainFlag::Funds => TerrainFlagData { name: "Funds" },
        TerrainFlag::HQ => TerrainFlagData { name: "HQ" },
    }
}

/// Static data of a terrain.
pub fn terrain(x: Terrain) -> (r: TerrainData<'static>)
    ensures
        r.name@ == terrain_name(x),
        r.default_defense == terrain_default_defense(x),
        r.build_classes@ == terrain_build_classes(x),
        r.repair_classes@ == terrain_repair_classes(x),
        r.flags@ == terrain_flags(x),
{
    match x {
        Terrain::Road => TerrainData { name: "Road", default_defense: 0, build_classes: &[], repair_classes: &[], flags: &[] },
        Terrain::Plains => TerrainData { name: "Plains", default_defense: 0, build_classes: &[], repair_classes: &[], flags: &[] },
        Terrain::Forest => TerrainData { name: "Forest", default_defense: 20, build_classes: &[], repair_classes: &[], flags: &[] },
        Terrain::Mountains => TerrainData { name: "Mountains", default_defense: 60, build_classes: &[], repair_classes: &[], flags: &[] },
        Terrain::Water => TerrainData { name: "Water", default_defense: 0, build_classes: &[], repair_classes: &[], flags: &[] },
        Terrain::City => TerrainData { name: "City", default_defense: 40, build_classes: &[], repair_classes: &[UnitClass::Infantry, UnitClass::Vehicle], flags: &[TerrainFlag::Capturable, TerrainFlag::Funds] },
        Terrain::Base => TerrainData { name: "Base", default_defense: 45, build_classes: &[UnitClass::Infantry, UnitClass::Vehicle], repair_classes: &[UnitClass::Infantry, UnitClass::Vehicle], flags: &[TerrainFlag::Capturable, TerrainFlag::Funds] },
        Terrain::Fort => TerrainData { name: "Fort", default_defense: 20, build_classes: &[], repair_classes: &[], flags: &[TerrainFlag::Capturable] },
        Terrain::Airport => TerrainData { name: "Airport", default_defense: 45, build_classes: &[UnitClass::Aerial], repair_classes: &[UnitClass::Aerial, UnitClass::Infantry], flags: &[TerrainFlag::Capturable] },
        Terrain::Port => TerrainData { name: "Port", default_defense: 45, build_classes: &[UnitClass::Naval], repair_classes: &[UnitClass::Naval, UnitClass::Infantry], flags: &[TerrainFlag::Capturable] },
        Terrain::Beach => TerrainData { name: "Beach", default_defense: 0, build_classes: &[], repair_classes: &[], flags: &[] },
        Terrain::Bridge => TerrainData { name: "Bridge", default_defense: 0, build_classes: &[], repair_classes: &[], flags: &[] },
        Terrain::HQ => TerrainData { name: "HQ", default_defense: 60, build_classes: &[], repair_classes: &[UnitClass::Infantry, UnitClass::Vehicle], flags: &[TerrainFlag::Capturable, TerrainFlag::HQ] },
    }
}

impl<'a> WeaponData<'a> {
    /// Base damage of this weapon against an armor class.
    pub fn power_map(&self, a: Armor) -> (r: Option<u32>)
        ensures
            r == weapon_power(self.weapon, a),
    {
        match self.weapon {
            Weapon::Rifle => match a {
                Armor::Infantry => Some(50u32),
                Armor::LightVehicle => Some(30u32),
                Armor::HeavyVehicle => Some(20u32),
                Armor::LightTank => Some(20u32),
                Armor::MediumTank => Some(10u32),
                Armor::HeavyTank => Some(5u32),
                Armor::Interceptor => None,
                Armor::Copter => Some(15u32),
                Armor::Bomber => None,
                Armor::LightShip => Some(10u32),
                Armor::MediumShip => Some(7u32),
                Armor::HeavyShip => Some(4u32),
            },
            Weapon::Machinegun => match a {
                Armor::Infantry => Some(100u32),
                Armor::LightVehicle => Some(40u32),
                Armor::HeavyVehicle => Some(30u32),
                Armor::LightTank => Some(30u32),
                Armor::MediumTank => Some(20u32),
                Armor::HeavyTank => Some(10u32),
                Armor::Interceptor => Some(0u32),
                Armor::Copter => Some(25u32),
                Armor::Bomber => Some(0u32),
                Armor::LightShip => Some(15u32),
                Armor::MediumShip => Some(12u32),
                Armor::HeavyShip => Some(8u32),
            },
            Weapon::Bazooka => match a {
                Armor::Infantry => Some(20u32),
                Armor::LightVehicle => Some(60u32),
                Armor::HeavyVehicle => Some(50u32),
                Armor::LightTank => Some(40u32),
                Armor::MediumTank => Some(30u32),
                Armor::HeavyTank => Some(20u32),
                Armor::Interceptor => None,
                Armor::Copter => None,
                Armor::Bomber => None,
                Armor::LightShip => Some(20u32),
                Armor::MediumShip => Some(16u32),
                Armor::HeavyShip => Some(12u32),
            },
            Weapon::LightCannon => match a {
                Armor::Infantry => Some(30u32),
                Armor::LightVehicle => Some(60u32),
                Armor::HeavyVehicle => Some(50u32),
                Armor::LightTank => Some(50u32),
                Armor::MediumTank => Some(35u32),
                Armor::HeavyTank => Some(30u32),
                Armor::Interceptor => None,
                Armor::Copter => None,
                Armor::Bomber => None,
                Armor::LightShip => Some(25u32),
                Armor::MediumShip => Some(20u32),
                Armor::HeavyShip => Some(15u32),
            },
            Weapon::MediumCannon => match a {
                Armor::Infantry => Some(40u32),
                Armor::LightVehicle => Some(80u32),
                Armor::HeavyVehicle => Some(70u32),
                Armor::LightTank => Some(60u32),
                Armor::MediumTank => Some(50u32),
                Armor::HeavyTank => Some(40u32),
                Armor::Interceptor => None,
                Armor::Copter => None,
                Armor::Bomber => None,
                Armor::LightShip => Some(30u32),
                Armor::MediumShip => Some(25u32),
                Armor::HeavyShip => Some(20u32),
            },
            Weapon::HeavyCannon => match a {
                Armor::Infantry => Some(50u32),
                Armor::LightVehicle => Some(110u32),
                Armor::HeavyVehicle => Some(100u32),
                Armor::LightTank => Some(100u32),
                Armor::MediumTank => Some(75u32),
                Armor::HeavyTank => Some(50u32),
                Armor::Interceptor => None,
                Armor::Copter => None,
                Armor::Bomber => None,
                Armor::LightShip => Some(40u32),
                Armor::MediumShip => Some(30u32),
                Armor::HeavyShip => Some(25u32),
            },
            Weapon::LightArtillery => match a {
                Armor::Infantry => Some(100u32),
                Armor::LightVehicle => Some(50u32),
                Armor::HeavyVehicle => Some(40u32),
                Armor::LightTank => Some(30u32),
                Armor::MediumTank => Some(20u32),
                Armor::HeavyTank => Some(10u32),
                Armor::Interceptor => None,
                Armor::Copter => None,
                Armor::Bomber => None,
                Armor::LightShip => Some(40u32),
                Armor::MediumShip => Some(35u32),
                Armor::HeavyShip => Some(30u32),
            },
            Weapon::MediumArtillery => match a {
                Armor::Infantry => Some(120u32),
                Armor::LightVehicle => Some(80u32),
                Armor::HeavyVehicle => Some(70u32),
                Armor::LightTank => Some(60u32),
                Armor::MediumTank => Some(50u32),
                Armor::HeavyTank => Some(30u32),
                Armor::Interceptor => None,
                Armor::Copter => None,
                Armor::Bomber => None,
                Armor::LightShip => Some(50u32),
                Armor::MediumShip => Some(40u32),
                Armor::HeavyShip => Some(35u32),
            },
            Weapon::HeavyArtillery => match a {
                Armor::Infantry => Some(160u32),
                Armor::LightVehicle => Some(110u32),
                Armor::HeavyVehicle => Some(100u32),
                Armor::LightTank => Some(100u32),
                Armor::MediumTank => Some(90u32),
                Armor::HeavyTank => Some(80u32),
                Armor::Interceptor => None,
                Armor::Copter => None,
                Armor::Bomber => None,
                Armor::LightShip => Some(70u32),
                Armor::MediumShip => Some(55u32),
                Armor::HeavyShip => Some(40u32),
            },
            Weapon::AACannon => match a {
                Armor::Infantry => None,
                Armor::LightVehicle => None,
                Armor::HeavyVehicle => None,
                Armor::LightTank => None,
                Armor::MediumTank => None,
                Armor::HeavyTank => None,
                Armor::Interceptor => Some(70u32),
                Armor::Copter => Some(100u32),
                Armor::Bomber => Some(80u32),
                Armor::LightShip => None,
                Armor::MediumShip => None,
                Armor::HeavyShip => None,
            },
            Weapon::AAMissile => match a {
                Armor::Infantry => None,
                Armor::LightVehicle => None,
                Armor::HeavyVehicle => None,
                Armor::LightTank => None,
                Armor::MediumTank => None,
                Armor::HeavyTank => None,
                Armor::Interceptor => Some(120u32),
                Armor::Copter => Some(140u32),
                Armor::Bomber => Some(100u32),
                Armor::LightShip => None,
                Armor::MediumShip => None,
                Armor::HeavyShip => None,
            },
            Weapon::CopterMissile => match a {
                Armor::Infantry => Some(50u32),
                Armor::LightVehicle => Some(70u32),
                Armor::HeavyVehicle => Some(60u32),
                Armor::LightTank => Some(55u32),
                Armor::MediumTank => Some(45u32),
                Armor::HeavyTank => Some(35u32),
                Armor::Interceptor => None,
                Armor::Copter => Some(60u32),
                Armor::Bomber => None,
                Armor::LightShip => Some(45u32),
                Armor::MediumShip => Some(30u32),
                Armor::HeavyShip => Some(20u32),
            },
            Weapon::InterceptorMissile => match a {
                Armor::Infantry => None,
                Armor::LightVehicle => None,
                Armor::HeavyVehicle => None,
                Armor::LightTank => None,
                Armor::MediumTank => None,
                Armor::HeavyTank => None,
                Armor::Interceptor => Some(50u32),
                Armor::Copter => Some(100u32),
                Armor::Bomber => Some(80u32),
                Armor::LightShip => None,
                Armor::MediumShip => None,
                Armor::HeavyShip => None,
            },
            Weapon::AerialBomb => match a {
                Armor::Infantry => Some(160u32),
                Armor::LightVehicle => Some(140u32),
                Armor::HeavyVehicle => Some(130u32),
                Armor::LightTank => Some(120u32),
                Armor::MediumTank => Some(100u32),
                Armor::HeavyTank => Some(90u32),
                Armor::Interceptor => None,
                Armor::Copter => None,
                Armor::Bomber => None,
                Armor::LightShip => Some(80u32),
                Armor::MediumShip => Some(70u32),
                Armor::HeavyShip => Some(60u32),
            },
            Weapon::CruiserArtillery => match a {
                Armor::Infantry => Some(180u32),
                Armor::LightVehicle => Some(140u32),
                Armor::HeavyVehicle => Some(120u32),
                Armor::LightTank => Some(110u32),
                Armor::MediumTank => Some(100u32),
                Armor::HeavyTank => Some(90u32),
                Armor::Interceptor => None,
                Armor::Copter => None,
                Armor::Bomber => None,
                Armor::LightShip => Some(100u32),
                Armor::MediumShip => Some(65u32),
                Armor::HeavyShip => Some(50u32),
            },
            Weapon::HeavyMachinegun => match a {
                Armor::Infantry => Some(130u32),
                Armor::LightVehicle => Some(50u32),
                Armor::HeavyVehicle => Some(40u32),
                Armor::LightTank => Some(35u32),
                Armor::MediumTank => Some(25u32),
                Armor::HeavyTank => Some(15u32),
                Armor::Interceptor => None,
                Armor::Copter => Some(35u32),
                Armor::Bomber => None,
                Armor::LightShip => Some(20u32),
                Armor::MediumShip => Some(16u32),
                Armor::HeavyShip => Some(12u32),
            },
        }
    }

    /// Damage percentage of this weapon at range `r`.
    pub fn range_map(&self, r: u32) -> (res: Option<u32>)
        ensures
            res == weapon_range(self.weapon, r),
    {
        match self.weapon {
            Weapon::Rifle => match r { 1 => Some(100u32), _ => None },
            Weapon::Machinegun => match r { 1 => Some(100u32), _ => None },
            Weapon::Bazooka => match r { 1 => Some(100u32), _ => None },
            Weapon::LightCannon => match r { 1 => Some(100u32), 2 => Some(50u32), _ => None },
            Weapon::MediumCannon => match r { 1 => Some(100u32), 2 => Some(50u32), _ => None },
            Weapon::HeavyCannon => match r { 1 => Some(100u32), 2 => Some(50u32), _ => None },
            Weapon::LightArtillery => match r { 2 => Some(90u32), 3 => Some(100u32), 4 => Some(90u32), _ => None },
            Weapon::MediumArtillery => match r { 2 => Some(90u32), 3 => Some(100u32), 4 => Some(100u32), 5 => Some(90u32), _ => None },
            Weapon::HeavyArtillery => match r { 3 => Some(90u32), 4 => Some(100u32), 5 => Some(100u32), 6 => Some(90u32), _ => None },
            Weapon::AACannon => match r { 1 => Some(100u32), _ => None },
            Weapon::AAMissile => match r { 2 => Some(100u32), 3 => Some(100u32), 4 => Some(90u32), 5 => Some(80u32), 6 => Some(70u32), 7 => Some(50u32), 8 => Some(40u32), _ => None },
            Weapon::CopterMissile => match r { 1 => Some(100u32), _ => None },
            Weapon::InterceptorMissile => match r { 1 => Some(100u32), _ => None },
            Weapon::AerialBomb => match r { 1 => Some(100u32), _ => None },
            Weapon::CruiserArtillery => match r { 3 => Some(80u32), 4 => Some(90u32), 5 => Some(100u32), 6 => Some(70u32), _ => None },
            Weapon::HeavyMachinegun => match r { 1 => Some(100u32), _ => None },
        }
    }
}

impl<'a> MovementData<'a> {
    /// Movement points this class spends to enter a terrain.
    pub fn terrain_cost_map(&self, t: Terrain) -> (r: Option<u32>)
        ensures
            r == terrain_cost(self.movement, t),
    {
        match self.movement {
            Movement::Walk => match t {
                Terrain::Road => Some(1u32),
                Terrain::Plains => Some(1u32),
                Terrain::Forest => Some(1u32),
                Terrain::Mountains => Some(2u32),
                Terrain::Water => Some(3u32),
                Terrain::City => Some(1u32),
                Terrain::Base => Some(1u32),
                Terrain::Fort => Some(1u32),
                Terrain::Airport => Some(1u32),
                Terrain::Port => Some(1u32),
                Terrain::Beach => Some(1u32),
                Terrain::Bridge => Some(1u32),
                Terrain::HQ => Some(1u32),
            },
            Movement::LightVehicle => match t {
                Terrain::Road => Some(1u32),
                Terrain::Plains => Some(1u32),
                Terrain::Forest => Some(2u32),
                Terrain::Mountains => None,
                Terrain::Water => None,
                Terrain::City => Some(1u32),
                Terrain::Base => Some(1u32),
                Terrain::Fort => Some(1u32),
                Terrain::Airport => Some(1u32),
                Terrain::Port => Some(1u32),
                Terrain::Beach => Some(1u32),
                Terrain::Bridge => Some(1u32),
                Terrain::HQ => Some(1u32),
            },
            Movement::MediumVehicle => match t {
                Terrain::Road => Some(1u32),
                Terrain::Plains => Some(1u32),
                Terrain::Forest => Some(3u32),
                Terrain::Mountains => None,
                Terrain::Water => None,
                Terrain::City => Some(1u32),
                Terrain::Base => Some(1u32),
                Terrain::Fort => Some(1u32),
                Terrain::Airport => Some(1u32),
                Terrain::Port => Some(1u32),
                Terrain::Beach => Some(1u32),
                Terrain::Bridge => Some(1u32),
                Terrain::HQ => Some(1u32),
            },
            Movement::HeavyVehicle => match t {
                Terrain::Road => Some(1u32),
                Terrain::Plains => Some(2u32),
                Terrain::Forest => Some(4u32),
                Terrain::Mountains => None,
                Terrain::Water => None,
                Terrain::City => Some(1u32),
                Terrain::Base => Some(1u32),
                Terrain::Fort => Some(1u32),
                Terrain::Airport => Some(1u32),
                Terrain::Port => Some(1u32),
                Terrain::Beach => Some(2u32),
                Terrain::Bridge => Some(1u32),
                Terrain::HQ => Some(1u32),
            },
            Movement::Flying => match t {
                Terrain::Road => Some(1u32),
                Terrain::Plains => Some(1u32),
                Terrain::Forest => Some(1u32),
                Terrain::Mountains => Some(1u32),
                Terrain::Water => Some(1u32),
                Terrain::City => Some(1u32),
                Terrain::Base => Some(1u32),
                Terrain::Fort => Some(1u32),
                Terrain::Airport => Some(1u32),
                Terrain::Port => Some(1u32),
                Terrain::Beach => Some(1u32),
                Terrain::Bridge => Some(1u32),
                Terrain::HQ => Some(1u32),
            },
            Movement::Ship => match t {
                Terrain::Road => None,
                Terrain::Plains => None,
                Terrain::Forest => None,
                Terrain::Mountains => None,
                Terrain::Water => Some(1u32),
                Terrain::City => None,
                Terrain::Base => None,
                Terrain::Fort => None,
                Terrain::Airport => None,
                Terrain::Port => Some(1u32),
                Terrain::Beach => Some(1u32),
                Terrain::Bridge => None,
                Terrain::HQ => None,
            },
        }
    }
}

impl<'a> UnitTypeData<'a> {
    /// Type-specific defense of this unit type on a terrain.
    pub fn defense_map(&self, t: Terrain) -> (r: Option<u32>)
        ensures
            r == unit_defense(self.unit_type, t),
    {
        match self.unit_type {
            UnitType::Infantry => match t {
                Terrain::Road => None,
                Terrain::Plains => Some(10u32),
                Terrain::Forest => Some(50u32),
                Terrain::Mountains => Some(65u32),
                Terrain::Water => None,
                Terrain::City => Some(50u32),
                Terrain::Base => Some(50u32),
                Terrain::Fort => None,
                Terrain::Airport => Some(50u32),
                Terrain::Port => Some(50u32),
                Terrain::Beach => None,
                Terrain::Bridge => None,
                Terrain::HQ => None,
            },
            UnitType::ATInfantry => match t {
                Terrain::Road => None,
                Terrain::Plains => Some(10u32),
                Terrain::Forest => Some(50u32),
                Terrain::Mountains => Some(65u32),
                Terrain::Water => None,
                Terrain::City => Some(50u32),
                Terrain::Base => Some(50u32),
                Terrain::Fort => None,
                Terrain::Airport => Some(50u32),
                Terrain::Port => Some(50u32),
                Terrain::Beach => None,
                Terrain::Bridge => None,
                Terrain::HQ => None,
            },
            UnitType::Scout => match t {
                Terrain::Road => None,
                Terrain::Plains => Some(10u32),
                Terrain::Forest => None,
                Terrain::Mountains => None,
                Terrain::Water => None,
                Terrain::City => None,
                Terrain::Base => None,
                Terrain::Fort => None,
                Terrain::Airport => None,
                Terrain::Port => None,
                Terrain::Beach => None,
                Terrain::Bridge => None,
                Terrain::HQ => None,
            },
            UnitType::LightTank => match t {
                Terrain::Road => None,
                Terrain::Plains => Some(10u32),
                Terrain::Forest => None,
                Terrain::Mountains => None,
                Terrain::Water => None,
                Terrain::City => None,
                Terrain::Base => None,
                Terrain::Fort => None,
                Terrain::Airport => None,
                Terrain::Port => None,
                Terrain::Beach => None,
                Terrain::Bridge => None,
                Terrain::HQ => None,
            },
            UnitType::MediumTank => match t {
                Terrain::Road => None,
                Terrain::Plains => None,
                Terrain::Forest => None,
                Terrain::Mountains => None,
                Terrain::Water => None,
                Terrain::City => None,
                Terrain::Base => None,
                Terrain::Fort => None,
                Terrain::Airport => None,
                Terrain::Port => None,
                Terrain::Beach => None,
                Terrain::Bridge => None,
                Terrain::HQ => None,
            },
            UnitType::HeavyTank => match t {
                Terrain::Road => None,
                Terrain::Plains => None,
                Terrain::Forest => None,
                Terrain::Mountains => None,
                Terrain::Water => None,
                Terrain::City => None,
                Terrain::Base => None,
                Terrain::Fort => None,
                Terrain::Airport => None,
                Terrain::Port => None,
                Terrain::Beach => None,
                Terrain::Bridge => None,
                Terrain::HQ => None,
            },
            UnitType::LightArtillery => match t {
                Terrain::Road => None,
                Terrain::Plains => None,
                Terrain::Forest => None,
                Terrain::Mountains => None,
                Terrain::Water => None,
                Terrain::City => None,
                Terrain::Base => None,
                Terrain::Fort => None,
                Terrain::Airport => None,
                Terrain::Port => None,
                Terrain::Beach => None,
                Terrain::Bridge => None,
                Terrain::HQ => None,
            },
            UnitType::MediumArtillery => match t {
                Terrain::Road => None,
                Terrain::Plains => None,
                Terrain::Forest => None,
                Terrain::Mountains => None,
                Terrain::Water => None,
                Terrain::City => None,
                Terrain::Base => None,
                Terrain::Fort => None,
                Terrain::Airport => None,
                Terrain::Port => None,
                Terrain::Beach => None,
                Terrain::Bridge => None,
                Terrain::HQ => None,
            },
            UnitType::HeavyArtillery => match t {
                Terrain::Road => None,
                Terrain::Plains => None,
                Terrain::Forest => None,
                Terrain::Mountains => None,
                Terrain::Water => None,
                Terrain::City => None,
                Terrain::Base => None,
                Terrain::Fort => None,
                Terrain::Airport => None,
                Terrain::Port => None,
                Terrain::Beach => None,
                Terrain::Bridge => None,
                Terrain::HQ => None,
            },
            UnitType::AAVehicle => match t {
                Terrain::Road => None,
                Terrain::Plains => None,
                Terrain::Forest => None,
                Terrain::Mountains => None,
                Terrain::Water => None,
                Terrain::City => None,
                Terrain::Base => None,
                Terrain::Fort => None,
                Terrain::Airport => None,
                Terrain::Port => None,
                Terrain::Beach => None,
                Terrain::Bridge => None,
                Terrain::HQ => None,
            },
            UnitType::SAMVehicle => match t {
                Terrain::Road => None,
                Terrain::Plains => None,
                Terrain::Forest => None,
                Terrain::Mountains => None,
                Terrain::Water => None,
                Terrain::City => None,
                Terrain::Base => None,
                Terrain::Fort => None,
                Terrain::Airport => None,
                Terrain::Port => None,
                Terrain::Beach => None,
                Terrain::Bridge => None,
                Terrain::HQ => None,
            },
            UnitType::AttackCopter => match t {
                Terrain::Road => Some(0u32),
                Terrain::Plains => Some(0u32),
                Terrain::Forest => Some(0u32),
                Terrain::Mountains => Some(0u32),
                Terrain::Water => Some(0u32),
                Terrain::City => Some(0u32),
                Terrain::Base => Some(0u32),
                Terrain::Fort => Some(0u32),
                Terrain::Airport => Some(0u32),
                Terrain::Port => Some(0u32),
                Terrain::Beach => Some(0u32),
                Terrain::Bridge => Some(0u32),
                Terrain::HQ => Some(0u32),
            },
            UnitType::Interceptor => match t {
                Terrain::Road => Some(0u32),
                Terrain::Plains => Some(0u32),
                Terrain::Forest => Some(0u32),
                Terrain::Mountains => Some(0u32),
                Terrain::Water => Some(0u32),
                Terrain::City => Some(0u32),
                Terrain::Base => Some(0u32),
                Terrain::Fort => Some(0u32),
                Terrain::Airport => Some(0u32),
                Terrain::Port => Some(0u32),
                Terrain::Beach => Some(0u32),
                Terrain::Bridge => Some(0u32),
                Terrain::HQ => Some(0u32),
            },
            UnitType::Bomber => match t {
                Terrain::Road => Some(0u32),
                Terrain::Plains => Some(0u32),
                Terrain::Forest => Some(0u32),
                Terrain::Mountains => Some(0u32),
                Terrain::Water => Some(0u32),
                Terrain::City => Some(0u32),
                Terrain::Base => Some(0u32),
                Terrain::Fort => Some(0u32),
                Terrain::Airport => Some(0u32),
                Terrain::Port => Some(0u32),
                Terrain::Beach => Some(0u32),
                Terrain::Bridge => Some(0u32),
                Terrain::HQ => Some(0u32),
            },
            UnitType::APC => match t {
                Terrain::Road => None,
                Terrain::Plains => None,
                Terrain::Forest => None,
                Terrain::Mountains => None,
                Terrain::Water => None,
                Terrain::City => None,
                Terrain::Base => None,
                Terrain::Fort => None,
                Terrain::Airport => None,
                Terrain::Port => None,
                Terrain::Beach => None,
                Terrain::Bridge => None,
                Terrain::HQ => None,
            },
            UnitType::TransportCopter => match t {
                Terrain::Road => None,
                Terrain::Plains => None,
                Terrain::Forest => None,
                Terrain::Mountains => None,
                Terrain::Water => None,
                Terrain::City => None,
                Terrain::Base => None,
                Terrain::Fort => None,
                Terrain::Airport => None,
                Terrain::Port => None,
                Terrain::Beach => None,
                Terrain::Bridge => None,
                Terrain::HQ => None,
            },
            UnitType::CargoShip => match t {
                Terrain::Road => None,
                Terrain::Plains => None,
                Terrain::Forest => None,
                Terrain::Mountains => None,
                Terrain::Water => None,
                Terrain::City => None,
                Terrain::Base => None,
                Terrain::Fort => None,
                Terrain::Airport => None,
                Terrain::Port => None,
                Terrain::Beach => None,
                Terrain::Bridge => None,
                Terrain::HQ => None,
            },
            UnitType::GunBoat => match t {
                Terrain::Road => None,
                Terrain::Plains => None,
                Terrain::Forest => None,
                Terrain::Mountains => None,
                Terrain::Water => None,
                Terrain::City => None,
                Terrain::Base => None,
                Terrain::Fort => None,
                Terrain::Airport => None,
                Terrain::Port => None,
                Terrain::Beach => None,
                Terrain::Bridge => None,
                Terrain::HQ => None,
            },
            UnitType::AABoat => match t {
                Terrain::Road => None,
                Terrain::Plains => None,
                Terrain::Forest => None,
                Terrain::Mountains => None,
                Terrain::Water => None,
                Terrain::City => None,
                Terrain::Base => None,
                Terrain::Fort => None,
                Terrain::Airport => None,
                Terrain::Port => None,
                Terrain::Beach => None,
                Terrain::Bridge => None,
                Terrain::HQ => None,
            },
            UnitType::Cruiser => match t {
                Terrain::Road => None,
                Terrain::Plains => None,
                Terrain::Forest => None,
                Terrain::Mountains => None,
                Terrain::Water => None,
                Terrain::City => None,
                Terrain::Base => None,
                Terrain::Fort => None,
                Terrain::Airport => None,
                Terrain::Port => None,
                Terrain::Beach => None,
                Terrain::Bridge => None,
                Terrain::HQ => None,
            },
        }
    }
}

} // verus!

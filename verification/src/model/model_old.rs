use std::collections::HashMap;
use crate::model::{weapon_power, weapon_range, weapon_requires_deployment, Armor, Weapon};
use vstd::prelude::*;

verus! {

broadcast use vstd::std_specs::hash::group_hash_axioms;

pub type ArmorId = u32;
pub type WeaponId = u32;
pub type UnitClassId = u32;
pub type MovementId = u32;
pub type TerrainId = u32;
pub type UnitFlagId = u32;
pub type TerrainFlagId = u32;
pub type UnitTypeId = u32;

/// The map that `HashMap`'s `collect` builds from `s`: each key of `s` bound to the value of its
/// last pair.
pub open spec fn pairs_to_map(s: Seq<(u32, u32)>) -> Map<u32, u32>
    decreases s.len(),
{
    if s.len() == 0 {
        Map::empty()
    } else {
        pairs_to_map(s.drop_last()).insert(s.last().0, s.last().1)
    }
}

/// The map of the pairs of `list`, later pairs winning over earlier ones with the same key.
fn map_from_pairs(list: Vec<(u32, u32)>) -> (r: HashMap<u32, u32>)
    ensures
        r@ == pairs_to_map(list@),
{
    let mut r: HashMap<u32, u32> = HashMap::new();
    let mut i: usize = 0;
    while i < list.len()
        invariant
            i <= list@.len(),
            r@ == pairs_to_map(list@.take(i as int)),
        decreases list@.len() - i,
    {
        assert(list@.take(i + 1).drop_last() =~= list@.take(i as int));
        r.insert(list[i].0, list[i].1);
        i = i + 1;
    }
    assert(list@.take(list@.len() as int) =~= list@);
    r
}

pub struct ArmorData {
    pub name: String,
}

pub struct MovementData {
    pub name: String,
}

pub struct TerrainData {
    pub name: String,
}

pub struct UnitFlagData {
    pub name: String,
}

pub struct TerrainFlagData {
    pub name: String,
}

pub struct WeaponData {
    pub name: String,
    pub require_deployed: bool,
    pub range_map: HashMap<u32, u32>,
    pub power_map: HashMap<ArmorId, u32>,
}

/// A weapon, with its name and maps as mathematical values.
pub struct WeaponView {
    pub name: Seq<char>,
    pub require_deployed: bool,
    pub range_map: Map<u32, u32>,
    pub power_map: Map<ArmorId, u32>,
}

impl View for WeaponData {
    type V = WeaponView;

    open spec fn view(&self) -> WeaponView {
        WeaponView {
            name: self.name@,
            require_deployed: self.require_deployed,
            range_map: self.range_map@,
            power_map: self.power_map@,
        }
    }
}

/// The weapon that `WeaponData::new` makes of these arguments.
pub open spec fn weapon_view(name: Seq<char>, require_deployed: bool, range_list: Seq<(u32, u32)>,
    power_list: Seq<(ArmorId, u32)>) -> WeaponView {
    WeaponView {
        name,
        require_deployed,
        range_map: pairs_to_map(range_list),
        power_map: pairs_to_map(power_list),
    }
}

pub struct UnitData {
    pub name: String,
    pub unit_class: UnitClassId,
    pub movement_type: MovementId,
    pub movement: u32,
    pub armor_type: ArmorId,
    pub defense_map: HashMap<TerrainId, u32>,
    pub weapons: Vec<WeaponId>,
    pub price: u32,
    pub carry_classes: Vec<UnitClassId>,
    pub carry_num: u32,
    pub flags: Vec<UnitFlagId>,
}

/// A unit type, with its name, map and lists as mathematical values.
pub struct UnitDataView {
    pub name: Seq<char>,
    pub unit_class: UnitClassId,
    pub movement_type: MovementId,
    pub movement: u32,
    pub armor_type: ArmorId,
    pub defense_map: Map<TerrainId, u32>,
    pub weapons: Seq<WeaponId>,
    pub price: u32,
    pub carry_classes: Seq<UnitClassId>,
    pub carry_num: u32,
    pub flags: Seq<UnitFlagId>,
}

impl View for UnitData {
    type V = UnitDataView;

    open spec fn view(&self) -> UnitDataView {
        UnitDataView {
            name: self.name@,
            unit_class: self.unit_class,
            movement_type: self.movement_type,
            movement: self.movement,
            armor_type: self.armor_type,
            defense_map: self.defense_map@,
            weapons: self.weapons@,
            price: self.price,
            carry_classes: self.carry_classes@,
            carry_num: self.carry_num,
            flags: self.flags@,
        }
    }
}

/// The unit type that `UnitData::new` makes of these arguments.
pub open spec fn unit_data_view(name: Seq<char>, unit_class: UnitClassId, movement_type: MovementId, movement: u32,
    armor_type: ArmorId, defense_list: Seq<(TerrainId, u32)>, weapons: Seq<WeaponId>, price: u32,
    carry_classes: Seq<UnitClassId>, carry_num: u32, flags: Seq<UnitFlagId>) -> UnitDataView {
    UnitDataView {
        name,
        unit_class,
        movement_type,
        movement,
        armor_type,
        defense_map: pairs_to_map(defense_list),
        weapons,
        price,
        carry_classes,
        carry_num,
        flags,
    }
}

/// The rules of a game, each kind of thing by id.
pub struct Configuration {
    pub weapons: HashMap<WeaponId, WeaponData>,
    pub armors: HashMap<ArmorId, ArmorData>,
    pub movements: HashMap<MovementId, MovementData>,
    pub units: HashMap<UnitTypeId, UnitData>,
    pub unit_flags: HashMap<UnitFlagId, UnitFlagData>,
    pub terrain_flags: HashMap<TerrainFlagId, TerrainFlagData>,
    pub terrains: HashMap<TerrainId, TerrainData>,
}

/// A configuration as maps of mathematical values; the kinds that carry only a name map to it.
pub struct ConfigurationView {
    pub weapons: Map<WeaponId, WeaponView>,
    pub armors: Map<ArmorId, Seq<char>>,
    pub movements: Map<MovementId, Seq<char>>,
    pub units: Map<UnitTypeId, UnitDataView>,
    pub unit_flags: Map<UnitFlagId, Seq<char>>,
    pub terrain_flags: Map<TerrainFlagId, Seq<char>>,
    pub terrains: Map<TerrainId, Seq<char>>,
}

impl View for Configuration {
    type V = ConfigurationView;

    open spec fn view(&self) -> ConfigurationView {
        ConfigurationView {
            weapons: self.weapons@.map_values(|w: WeaponData| w@),
            armors: self.armors@.map_values(|a: ArmorData| a.name@),
            movements: self.movements@.map_values(|m: MovementData| m.name@),
            units: self.units@.map_values(|u: UnitData| u@),
            unit_flags: self.unit_flags@.map_values(|f: UnitFlagData| f.name@),
            terrain_flags: self.terrain_flags@.map_values(|f: TerrainFlagData| f.name@),
            terrains: self.terrains@.map_values(|t: TerrainData| t.name@),
        }
    }
}

impl WeaponData {
    pub fn new(name: &str, require_deployed: bool, range_list: Vec<(u32, u32)>, power_list: Vec<(ArmorId, u32)>) -> (r: WeaponData)
        ensures
            r@ == weapon_view(name@, require_deployed, range_list@, power_list@),
    {
        WeaponData {
            name: name.to_owned(),
            require_deployed,
            range_map: map_from_pairs(range_list),
            power_map: map_from_pairs(power_list),
        }
    }
}

impl UnitData {
    pub fn new(name: &str, unit_class: UnitClassId, movement_type: MovementId, movement: u32, armor_type: ArmorId,
        defense_list: Vec<(TerrainId, u32)>, weapons: Vec<WeaponId>, price: u32, carry_classes: Vec<UnitClassId>,
        carry_num: u32, flags: Vec<UnitFlagId>) -> (r: UnitData)
        ensures
            r@ == unit_data_view(name@, unit_class, movement_type, movement, armor_type, defense_list@, weapons@, price,
                carry_classes@, carry_num, flags@),
    {
        UnitData {
            name: name.to_owned(),
            unit_class,
            movement_type,
            movement,
            armor_type,
            defense_map: map_from_pairs(defense_list),
            weapons,
            price,
            carry_classes,
            carry_num,
            flags,
        }
    }
}

/// The armor classes of the configuration, by id.
pub open spec fn wars_armors() -> Map<ArmorId, Seq<char>> {
    map![
        0u32 => "Infantry"@,
        1u32 => "LightVehicle"@,
        2u32 => "HeavyVehicle"@,
        3u32 => "LightTank"@,
        4u32 => "MediumTank"@,
        5u32 => "HeavyTank"@,
        6u32 => "Interceptor"@,
        7u32 => "Copter"@,
        8u32 => "Bomber"@,
        9u32 => "LightShip"@,
        10u32 => "MediumShip"@,
        11u32 => "HeavyShip"@

    ]
}

/// The arguments of `WeaponData::new` for the weapon with id `id` of the configuration.
pub open spec fn wars_weapon_args(id: WeaponId) -> (Seq<char>, bool, Seq<(u32, u32)>, Seq<(ArmorId, u32)>) {

    if id == 0 {
        ("Rifle"@, false,
            seq![(1u32, 100u32)],
            seq![(0u32, 50u32), (1u32, 30u32), (2u32, 20u32), (3u32, 20u32), (4u32, 10u32), (5u32, 5u32), (7u32, 15u32), (9u32, 10u32), (10u32, 7u32), (11u32, 4u32)])
    } else if id == 1 {
        ("Machinegun"@, false,
            seq![(1u32, 100u32)],
            seq![(0u32, 100u32), (1u32, 40u32), (2u32, 30u32), (3u32, 30u32), (4u32, 20u32), (5u32, 10u32), (7u32, 25u32), (9u32, 15u32), (10u32, 12u32), (11u32, 8u32)])
    } else if id == 2 {
        ("Bazooka"@, false,
            seq![(1u32, 100u32)],
            seq![(0u32, 20u32), (1u32, 60u32), (2u32, 50u32), (3u32, 40u32), (4u32, 30u32), (5u32, 20u32), (9u32, 20u32), (10u32, 16u32), (11u32, 12u32)])
    } else if id == 3 {
        ("LightCannon"@, false,
            seq![(1u32, 100u32), (2u32, 50u32)],
            seq![(0u32, 30u32), (1u32, 60u32), (2u32, 50u32), (3u32, 50u32), (4u32, 35u32), (5u32, 30u32), (9u32, 25u32), (10u32, 20u32), (11u32, 15u32)])
    } else if id == 4 {
        ("MediumCannon"@, false,
            seq![(1u32, 100u32), (2u32, 50u32)],
            seq![(0u32, 40u32), (1u32, 80u32), (2u32, 70u32), (3u32, 60u32), (4u32, 50u32), (5u32, 40u32), (9u32, 30u32), (10u32, 25u32), (11u32, 20u32)])
    } else if id == 5 {
        ("HeavyCannon"@, false,
            seq![(1u32, 100u32), (2u32, 50u32)],
            seq![(0u32, 50u32), (1u32, 110u32), (2u32, 100u32), (3u32, 100u32), (4u32, 75u32), (5u32, 50u32), (9u32, 40u32), (10u32, 30u32), (11u32, 25u32)])
    } else if id == 6 {
        ("LightArtillery"@, true,
            seq![(2u32, 90u32), (3u32, 100u32), (4u32, 90u32)],
            seq![(0u32, 100u32), (1u32, 50u32), (2u32, 40u32), (3u32, 30u32), (4u32, 20u32), (5u32, 10u32), (9u32, 40u32), (10u32, 35u32), (11u32, 30u32)])
    } else if id == 7 {
        ("MediumArtillery"@, true,
            seq![(2u32, 90u32), (3u32, 100u32), (4u32, 100u32), (5u32, 90u32)],
            seq![(0u32, 120u32), (1u32, 80u32), (2u32, 70u32), (3u32, 60u32), (4u32, 50u32), (5u32, 30u32), (9u32, 50u32), (10u32, 40u32), (11u32, 35u32)])
    } else if id == 8 {
        ("HeavyArtillery"@, true,
            seq![(3u32, 90u32), (4u32, 100u32), (5u32, 100u32), (6u32, 90u32)],
            seq![(0u32, 160u32), (1u32, 110u32), (2u32, 100u32), (3u32, 100u32), (4u32, 90u32), (5u32, 80u32), (9u32, 70u32), (10u32, 55u32), (11u32, 40u32)])
    } else if id == 9 {
        ("AACannon"@, false,
            seq![(1u32, 100u32)],
            seq![(6u32, 70u32), (7u32, 100u32), (8u32, 80u32)])
    } else if id == 10 {
        ("AAMissile"@, true,
            seq![(2u32, 100u32), (3u32, 100u32), (4u32, 90u32), (5u32, 80u32), (6u32, 70u32), (7u32, 50u32), (8u32, 40u32)],
            seq![(6u32, 120u32), (7u32, 140u32), (8u32, 100u32)])
    } else if id == 11 {
        ("Copter_missile"@, false,
            seq![(1u32, 100u32)],
            seq![(0u32, 50u32), (1u32, 70u32), (2u32, 60u32), (3u32, 55u32), (4u32, 45u32), (5u32, 35u32), (7u32, 60u32), (9u32, 45u32), (10u32, 30u32), (11u32, 20u32)])
    } else if id == 12 {
        ("Interceptor_missile"@, false,
            seq![(1u32, 100u32)],
            seq![(6u32, 50u32), (7u32, 100u32), (8u32, 80u32)])
    } else if id == 13 {
        ("AerialBomb"@, false,
            seq![(1u32, 100u32)],
            seq![(0u32, 160u32), (1u32, 140u32), (2u32, 130u32), (3u32, 120u32), (4u32, 100u32), (5u32, 90u32), (9u32, 80u32), (10u32, 70u32), (11u32, 60u32)])
    } else if id == 14 {
        ("CruiserArtillery"@, true,
            seq![(3u32, 80u32), (4u32, 90u32), (5u32, 100u32), (6u32, 70u32)],
            seq![(0u32, 180u32), (1u32, 140u32), (2u32, 120u32), (3u32, 110u32), (4u32, 100u32), (5u32, 90u32), (9u32, 100u32), (10u32, 65u32), (11u32, 50u32)])
    } else {
        ("HeavyMachinegun"@, false,
            seq![(1u32, 100u32)],
            seq![(0u32, 130u32), (1u32, 50u32), (2u32, 40u32), (3u32, 35u32), (4u32, 25u32), (5u32, 15u32), (7u32, 35u32), (9u32, 20u32), (10u32, 16u32), (11u32, 12u32)])
    }

}

/// The weapons of the configuration, by id.
pub open spec fn wars_weapons() -> Map<WeaponId, WeaponView> {
    Map::new(|id: WeaponId| id <= 15, |id: WeaponId| {
        let a = wars_weapon_args(id);
        weapon_view(a.0, a.1, a.2, a.3)
    })
}

/// The arguments of `UnitData::new` for the unit type with id `id` of the configuration: name,
/// class, movement class, movement points, armor, defense list, weapons, price, carried
/// classes, carrying capacity, flags.
pub open spec fn wars_unit_args(id: UnitTypeId) -> (Seq<char>, u32, u32, u32, u32, Seq<(u32, u32)>, Seq<u32>, u32, Seq<u32>, u32, Seq<u32>) {

    if id == 0 {
        ("Infantry"@, 0, 0, 3, 0,
            seq![(1u32, 10u32), (2u32, 50u32), (5u32, 50u32), (6u32, 50u32), (7u32, 65u32), (8u32, 50u32), (9u32, 50u32)],
            seq![0u32], 100, Seq::<u32>::empty(), 0, seq![0u32])
    } else if id == 1 {
        ("AT-Infantry"@, 0, 0, 2, 0,
            seq![(1u32, 10u32), (2u32, 50u32), (5u32, 50u32), (6u32, 50u32), (7u32, 65u32), (8u32, 50u32), (9u32, 50u32)],
            seq![0u32, 2u32], 200, Seq::<u32>::empty(), 0, seq![0u32])
    } else if id == 2 {
        ("Scout vehicle"@, 1, 1, 6, 1,
            seq![(1u32, 10u32)],
            seq![1u32], 400, Seq::<u32>::empty(), 0, Seq::<u32>::empty())
    } else if id == 3 {
        ("Light tank"@, 1, 1, 5, 3,
            seq![(1u32, 10u32)],
            seq![3u32, 1u32], 700, Seq::<u32>::empty(), 0, Seq::<u32>::empty())
    } else if id == 4 {
        ("Medium tank"@, 1, 2, 4, 4,
            Seq::<(u32, u32)>::empty(),
            seq![4u32, 15u32], 1200, Seq::<u32>::empty(), 0, Seq::<u32>::empty())
    } else if id == 5 {
        ("Heavy tank"@, 1, 3, 4, 5,
            Seq::<(u32, u32)>::empty(),
            seq![5u32, 15u32], 1700, Seq::<u32>::empty(), 0, Seq::<u32>::empty())
    } else if id == 6 {
        ("Light artillery"@, 1, 1, 4, 1,
            Seq::<(u32, u32)>::empty(),
            seq![6u32], 500, Seq::<u32>::empty(), 0, Seq::<u32>::empty())
    } else if id == 7 {
        ("Medium artillery"@, 1, 2, 4, 1,
            Seq::<(u32, u32)>::empty(),
            seq![7u32], 1500, Seq::<u32>::empty(), 0, Seq::<u32>::empty())
    } else if id == 8 {
        ("Heavy artillery"@, 1, 3, 4, 2,
            Seq::<(u32, u32)>::empty(),
            seq![8u32], 2600, Seq::<u32>::empty(), 0, Seq::<u32>::empty())
    } else if id == 9 {
        ("AA vehicle"@, 1, 1, 5, 1,
            Seq::<(u32, u32)>::empty(),
            seq![9u32, 1u32], 500, Seq::<u32>::empty(), 0, Seq::<u32>::empty())
    } else if id == 10 {
        ("SAM vehicle"@, 1, 3, 4, 2,
            Seq::<(u32, u32)>::empty(),
            seq![10u32], 1000, Seq::<u32>::empty(), 0, Seq::<u32>::empty())
    } else if id == 11 {
        ("Attack copter"@, 2, 4, 7, 7,
            seq![(0u32, 0u32), (1u32, 0u32), (2u32, 0u32), (3u32, 0u32), (4u32, 0u32), (5u32, 0u32), (6u32, 0u32), (7u32, 0u32), (8u32, 0u32), (9u32, 0u32), (10u32, 0u32), (11u32, 0u32), (12u32, 0u32)],
            seq![11u32, 1u32], 1000, Seq::<u32>::empty(), 0, Seq::<u32>::empty())
    } else if id == 12 {
        ("Interceptor"@, 2, 4, 12, 6,
            seq![(0u32, 0u32), (1u32, 0u32), (2u32, 0u32), (3u32, 0u32), (4u32, 0u32), (5u32, 0u32), (6u32, 0u32), (7u32, 0u32), (8u32, 0u32), (9u32, 0u32), (10u32, 0u32), (11u32, 0u32), (12u32, 0u32)],
            seq![12u32], 1500, Seq::<u32>::empty(), 0, Seq::<u32>::empty())
    } else if id == 13 {
        ("Bomber"@, 2, 4, 9, 8,
            seq![(0u32, 0u32), (1u32, 0u32), (2u32, 0u32), (3u32, 0u32), (4u32, 0u32), (5u32, 0u32), (6u32, 0u32), (7u32, 0u32), (8u32, 0u32), (9u32, 0u32), (10u32, 0u32), (11u32, 0u32), (12u32, 0u32)],
            seq![13u32], 2200, Seq::<u32>::empty(), 0, Seq::<u32>::empty())
    } else if id == 14 {
        ("APC"@, 1, 1, 5, 3,
            Seq::<(u32, u32)>::empty(),
            Seq::<u32>::empty(), 300, seq![0u32], 2, Seq::<u32>::empty())
    } else if id == 15 {
        ("Transport copter"@, 2, 4, 6, 7,
            seq![(0u32, 0u32), (1u32, 0u32), (2u32, 0u32), (3u32, 0u32), (4u32, 0u32), (5u32, 0u32), (6u32, 0u32), (7u32, 0u32), (8u32, 0u32), (9u32, 0u32), (10u32, 0u32), (11u32, 0u32), (12u32, 0u32)],
            Seq::<u32>::empty(), 500, seq![0u32], 2, Seq::<u32>::empty())
    } else if id == 16 {
        ("Cargo ship"@, 3, 5, 4, 10,
            Seq::<(u32, u32)>::empty(),
            Seq::<u32>::empty(), 800, seq![0u32, 1u32], 2, Seq::<u32>::empty())
    } else if id == 17 {
        ("Gunboat"@, 3, 5, 5, 10,
            Seq::<(u32, u32)>::empty(),
            seq![4u32, 15u32], 1000, Seq::<u32>::empty(), 0, Seq::<u32>::empty())
    } else if id == 18 {
        ("AA boat"@, 3, 5, 6, 9,
            Seq::<(u32, u32)>::empty(),
            seq![9u32], 700, Seq::<u32>::empty(), 0, Seq::<u32>::empty())
    } else {
        ("Cruiser"@, 3, 5, 4, 11,
            Seq::<(u32, u32)>::empty(),
            seq![14u32], 3000, Seq::<u32>::empty(), 0, Seq::<u32>::empty())
    }

}

/// The unit types of the configuration, by id.
pub open spec fn wars_unit_types() -> Map<UnitTypeId, UnitDataView> {
    Map::new(|id: UnitTypeId| id <= 19, |id: UnitTypeId| {
        let a = wars_unit_args(id);
        unit_data_view(a.0, a.1, a.2, a.3, a.4, a.5, a.6, a.7, a.8, a.9, a.10)
    })
}

/// The id that the configuration gives weapon `w`: its place among the weapons.
pub open spec fn weapon_id(w: Weapon) -> WeaponId {
    match w {
        Weapon::Rifle => 0u32,
        Weapon::Machinegun => 1u32,
        Weapon::Bazooka => 2u32,
        Weapon::LightCannon => 3u32,
        Weapon::MediumCannon => 4u32,
        Weapon::HeavyCannon => 5u32,
        Weapon::LightArtillery => 6u32,
        Weapon::MediumArtillery => 7u32,
        Weapon::HeavyArtillery => 8u32,
        Weapon::AACannon => 9u32,
        Weapon::AAMissile => 10u32,
        Weapon::CopterMissile => 11u32,
        Weapon::InterceptorMissile => 12u32,
        Weapon::AerialBomb => 13u32,
        Weapon::CruiserArtillery => 14u32,
        Weapon::HeavyMachinegun => 15u32,
    }
}

/// The id that the configuration gives armor class `a`: its place among the armor classes.
pub open spec fn armor_id(a: Armor) -> ArmorId {
    match a {
        Armor::Infantry => 0u32,
        Armor::LightVehicle => 1u32,
        Armor::HeavyVehicle => 2u32,
        Armor::LightTank => 3u32,
        Armor::MediumTank => 4u32,
        Armor::HeavyTank => 5u32,
        Armor::Interceptor => 6u32,
        Armor::Copter => 7u32,
        Armor::Bomber => 8u32,
        Armor::LightShip => 9u32,
        Armor::MediumShip => 10u32,
        Armor::HeavyShip => 11u32,
    }
}

/// The first configuration agrees with the weapon table: every weapon, under its id, needs
/// deployment exactly when the table says so and has the same hit chance at every range; its
/// damage against every armor class is the table's, counting a missing entry as none.
#[verifier::spinoff_prover]
pub proof fn old_weapons_agree(w: Weapon, r: u32, a: Armor)
    ensures
        wars_weapons().contains_key(weapon_id(w)),
        wars_weapons()[weapon_id(w)].require_deployed == weapon_requires_deployment(w),
        (if wars_weapons()[weapon_id(w)].range_map.contains_key(r) {
            Some(wars_weapons()[weapon_id(w)].range_map[r])
        } else {
            None
        }) == weapon_range(w, r),
        (if wars_weapons()[weapon_id(w)].power_map.contains_key(armor_id(a)) {
            wars_weapons()[weapon_id(w)].power_map[armor_id(a)]
        } else {
            0
        }) == (match weapon_power(w, a) {
            Some(p) => p,
            None => 0,
        }),
{
    reveal_with_fuel(pairs_to_map, 12);
    match w {
        Weapon::Rifle => {}
        Weapon::Machinegun => {}
        Weapon::Bazooka => {}
        Weapon::LightCannon => {}
        Weapon::MediumCannon => {}
        Weapon::HeavyCannon => {}
        Weapon::LightArtillery => {}
        Weapon::MediumArtillery => {}
        Weapon::HeavyArtillery => {}
        Weapon::AACannon => {}
        Weapon::AAMissile => {}
        Weapon::CopterMissile => {}
        Weapon::InterceptorMissile => {}
        Weapon::AerialBomb => {}
        Weapon::CruiserArtillery => {}
        Weapon::HeavyMachinegun => {}
    }
}

impl Configuration {
    /// The rules of the game as first written: armor classes, weapons and unit types; no
    /// movement classes, terrains or flags.
    pub fn new_wars() -> (r: Configuration)
        ensures
            r@ == (ConfigurationView {
                weapons: wars_weapons(),
                armors: wars_armors(),
                movements: Map::empty(),
                units: wars_unit_types(),
                unit_flags: Map::empty(),
                terrain_flags: Map::empty(),
                terrains: Map::empty(),
            }),
    {
        let mut armors: HashMap<ArmorId, ArmorData> = HashMap::new();
        armors.insert(0, ArmorData { name: "Infantry".to_owned() });
        armors.insert(1, ArmorData { name: "LightVehicle".to_owned() });
        armors.insert(2, ArmorData { name: "HeavyVehicle".to_owned() });
        armors.insert(3, ArmorData { name: "LightTank".to_owned() });
        armors.insert(4, ArmorData { name: "MediumTank".to_owned() });
        armors.insert(5, ArmorData { name: "HeavyTank".to_owned() });
        armors.insert(6, ArmorData { name: "Interceptor".to_owned() });
        armors.insert(7, ArmorData { name: "Copter".to_owned() });
        armors.insert(8, ArmorData { name: "Bomber".to_owned() });
        armors.insert(9, ArmorData { name: "LightShip".to_owned() });
        armors.insert(10, ArmorData { name: "MediumShip".to_owned() });
        armors.insert(11, ArmorData { name: "HeavyShip".to_owned() });
        let mut weapons: HashMap<WeaponId, WeaponData> = HashMap::new();
        let (range, power) = (vec![(1, 100)], vec![(0, 50), (1, 30), (2, 20), (3, 20), (4, 10), (5, 5), (7, 15), (9, 10), (10, 7), (11, 4)]);
        assert(range@ =~= wars_weapon_args(0).2 && power@ =~= wars_weapon_args(0).3);
        weapons.insert(0, WeaponData::new("Rifle", false, range, power));
        let (range, power) = (vec![(1, 100)], vec![(0, 100), (1, 40), (2, 30), (3, 30), (4, 20), (5, 10), (7, 25), (9, 15), (10, 12), (11, 8)]);
        assert(range@ =~= wars_weapon_args(1).2 && power@ =~= wars_weapon_args(1).3);
        weapons.insert(1, WeaponData::new("Machinegun", false, range, power));
        let (range, power) = (vec![(1, 100)], vec![(0, 130), (1, 50), (2, 40), (3, 35), (4, 25), (5, 15), (7, 35), (9, 20), (10, 16), (11, 12)]);
        assert(range@ =~= wars_weapon_args(15).2 && power@ =~= wars_weapon_args(15).3);
        weapons.insert(15, WeaponData::new("HeavyMachinegun", false, range, power));
        let (range, power) = (vec![(1, 100)], vec![(0, 20), (1, 60), (2, 50), (3, 40), (4, 30), (5, 20), (9, 20), (10, 16), (11, 12)]);
        assert(range@ =~= wars_weapon_args(2).2 && power@ =~= wars_weapon_args(2).3);
        weapons.insert(2, WeaponData::new("Bazooka", false, range, power));
        let (range, power) = (vec![(1, 100), (2, 50)], vec![(0, 30), (1, 60), (2, 50), (3, 50), (4, 35), (5, 30), (9, 25), (10, 20), (11, 15)]);
        assert(range@ =~= wars_weapon_args(3).2 && power@ =~= wars_weapon_args(3).3);
        weapons.insert(3, WeaponData::new("LightCannon", false, range, power));
        let (range, power) = (vec![(1, 100), (2, 50)], vec![(0, 40), (1, 80), (2, 70), (3, 60), (4, 50), (5, 40), (9, 30), (10, 25), (11, 20)]);
        assert(range@ =~= wars_weapon_args(4).2 && power@ =~= wars_weapon_args(4).3);
        weapons.insert(4, WeaponData::new("MediumCannon", false, range, power));
        let (range, power) = (vec![(1, 100), (2, 50)], vec![(0, 50), (1, 110), (2, 100), (3, 100), (4, 75), (5, 50), (9, 40), (10, 30), (11, 25)]);
        assert(range@ =~= wars_weapon_args(5).2 && power@ =~= wars_weapon_args(5).3);
        weapons.insert(5, WeaponData::new("HeavyCannon", false, range, power));
        let (range, power) = (vec![(2, 90), (3, 100), (4, 90)], vec![(0, 100), (1, 50), (2, 40), (3, 30), (4, 20), (5, 10), (9, 40), (10, 35), (11, 30)]);
        assert(range@ =~= wars_weapon_args(6).2 && power@ =~= wars_weapon_args(6).3);
        weapons.insert(6, WeaponData::new("LightArtillery", true, range, power));
        let (range, power) = (vec![(2, 90), (3, 100), (4, 100), (5, 90)], vec![(0, 120), (1, 80), (2, 70), (3, 60), (4, 50), (5, 30), (9, 50), (10, 40), (11, 35)]);
        assert(range@ =~= wars_weapon_args(7).2 && power@ =~= wars_weapon_args(7).3);
        weapons.insert(7, WeaponData::new("MediumArtillery", true, range, power));
        let (range, power) = (vec![(3, 90), (4, 100), (5, 100), (6, 90)], vec![(0, 160), (1, 110), (2, 100), (3, 100), (4, 90), (5, 80), (9, 70), (10, 55), (11, 40)]);
        assert(range@ =~= wars_weapon_args(8).2 && power@ =~= wars_weapon_args(8).3);
        weapons.insert(8, WeaponData::new("HeavyArtillery", true, range, power));
        let (range, power) = (vec![(1, 100)], vec![(6, 70), (7, 100), (8, 80)]);
        assert(range@ =~= wars_weapon_args(9).2 && power@ =~= wars_weapon_args(9).3);
        weapons.insert(9, WeaponData::new("AACannon", false, range, power));
        let (range, power) = (vec![(2, 100), (3, 100), (4, 90), (5, 80), (6, 70), (7, 50), (8, 40)], vec![(6, 120), (7, 140), (8, 100)]);
        assert(range@ =~= wars_weapon_args(10).2 && power@ =~= wars_weapon_args(10).3);
        weapons.insert(10, WeaponData::new("AAMissile", true, range, power));
        let (range, power) = (vec![(1, 100)], vec![(0, 50), (1, 70), (2, 60), (3, 55), (4, 45), (5, 35), (7, 60), (9, 45), (10, 30), (11, 20)]);
        assert(range@ =~= wars_weapon_args(11).2 && power@ =~= wars_weapon_args(11).3);
        weapons.insert(11, WeaponData::new("Copter_missile", false, range, power));
        let (range, power) = (vec![(1, 100)], vec![(6, 50), (7, 100), (8, 80)]);
        assert(range@ =~= wars_weapon_args(12).2 && power@ =~= wars_weapon_args(12).3);
        weapons.insert(12, WeaponData::new("Interceptor_missile", false, range, power));
        let (range, power) = (vec![(1, 100)], vec![(0, 160), (1, 140), (2, 130), (3, 120), (4, 100), (5, 90), (9, 80), (10, 70), (11, 60)]);
        assert(range@ =~= wars_weapon_args(13).2 && power@ =~= wars_weapon_args(13).3);
        weapons.insert(13, WeaponData::new("AerialBomb", false, range, power));
        let (range, power) = (vec![(3, 80), (4, 90), (5, 100), (6, 70)], vec![(0, 180), (1, 140), (2, 120), (3, 110), (4, 100), (5, 90), (9, 100), (10, 65), (11, 50)]);
        assert(range@ =~= wars_weapon_args(14).2 && power@ =~= wars_weapon_args(14).3);
        weapons.insert(14, WeaponData::new("CruiserArtillery", true, range, power));
        let mut units: HashMap<UnitTypeId, UnitData> = HashMap::new();
        let (defense, arms, carries, flags) = (vec![(1, 10), (2, 50), (5, 50), (6, 50), (7, 65), (8, 50), (9, 50)], vec![0], Vec::new(), vec![0]);
        assert(defense@ =~= wars_unit_args(0).5 && arms@ =~= wars_unit_args(0).6 && carries@ =~= wars_unit_args(0).8
            && flags@ =~= wars_unit_args(0).10);
        units.insert(0, UnitData::new("Infantry", 0, 0, 3, 0, defense, arms, 100, carries, 0, flags));
        let (defense, arms, carries, flags) = (vec![(1, 10), (2, 50), (5, 50), (6, 50), (7, 65), (8, 50), (9, 50)], vec![0, 2], Vec::new(), vec![0]);
        assert(defense@ =~= wars_unit_args(1).5 && arms@ =~= wars_unit_args(1).6 && carries@ =~= wars_unit_args(1).8
            && flags@ =~= wars_unit_args(1).10);
        units.insert(1, UnitData::new("AT-Infantry", 0, 0, 2, 0, defense, arms, 200, carries, 0, flags));
        let (defense, arms, carries, flags) = (Vec::new(), Vec::new(), vec![0], Vec::new());
        assert(defense@ =~= wars_unit_args(14).5 && arms@ =~= wars_unit_args(14).6 && carries@ =~= wars_unit_args(14).8
            && flags@ =~= wars_unit_args(14).10);
        units.insert(14, UnitData::new("APC", 1, 1, 5, 3, defense, arms, 300, carries, 2, flags));
        let (defense, arms, carries, flags) = (vec![(1, 10)], vec![1], Vec::new(), Vec::new());
        assert(defense@ =~= wars_unit_args(2).5 && arms@ =~= wars_unit_args(2).6 && carries@ =~= wars_unit_args(2).8
            && flags@ =~= wars_unit_args(2).10);
        units.insert(2, UnitData::new("Scout vehicle", 1, 1, 6, 1, defense, arms, 400, carries, 0, flags));
        let (defense, arms, carries, flags) = (Vec::new(), vec![9, 1], Vec::new(), Vec::new());
        assert(defense@ =~= wars_unit_args(9).5 && arms@ =~= wars_unit_args(9).6 && carries@ =~= wars_unit_args(9).8
            && flags@ =~= wars_unit_args(9).10);
        units.insert(9, UnitData::new("AA vehicle", 1, 1, 5, 1, defense, arms, 500, carries, 0, flags));
        let (defense, arms, carries, flags) = (vec![(1, 10)], vec![3, 1], Vec::new(), Vec::new());
        assert(defense@ =~= wars_unit_args(3).5 && arms@ =~= wars_unit_args(3).6 && carries@ =~= wars_unit_args(3).8
            && flags@ =~= wars_unit_args(3).10);
        units.insert(3, UnitData::new("Light tank", 1, 1, 5, 3, defense, arms, 700, carries, 0, flags));
        let (defense, arms, carries, flags) = (Vec::new(), vec![4, 15], Vec::new(), Vec::new());
        assert(defense@ =~= wars_unit_args(4).5 && arms@ =~= wars_unit_args(4).6 && carries@ =~= wars_unit_args(4).8
            && flags@ =~= wars_unit_args(4).10);
        units.insert(4, UnitData::new("Medium tank", 1, 2, 4, 4, defense, arms, 1200, carries, 0, flags));
        let (defense, arms, carries, flags) = (Vec::new(), vec![5, 15], Vec::new(), Vec::new());
        assert(defense@ =~= wars_unit_args(5).5 && arms@ =~= wars_unit_args(5).6 && carries@ =~= wars_unit_args(5).8
            && flags@ =~= wars_unit_args(5).10);
        units.insert(5, UnitData::new("Heavy tank", 1, 3, 4, 5, defense, arms, 1700, carries, 0, flags));
        let (defense, arms, carries, flags) = (Vec::new(), vec![6], Vec::new(), Vec::new());
        assert(defense@ =~= wars_unit_args(6).5 && arms@ =~= wars_unit_args(6).6 && carries@ =~= wars_unit_args(6).8
            && flags@ =~= wars_unit_args(6).10);
        units.insert(6, UnitData::new("Light artillery", 1, 1, 4, 1, defense, arms, 500, carries, 0, flags));
        let (defense, arms, carries, flags) = (Vec::new(), vec![7], Vec::new(), Vec::new());
        assert(defense@ =~= wars_unit_args(7).5 && arms@ =~= wars_unit_args(7).6 && carries@ =~= wars_unit_args(7).8
            && flags@ =~= wars_unit_args(7).10);
        units.insert(7, UnitData::new("Medium artillery", 1, 2, 4, 1, defense, arms, 1500, carries, 0, flags));
        let (defense, arms, carries, flags) = (Vec::new(), vec![8], Vec::new(), Vec::new());
        assert(defense@ =~= wars_unit_args(8).5 && arms@ =~= wars_unit_args(8).6 && carries@ =~= wars_unit_args(8).8
            && flags@ =~= wars_unit_args(8).10);
        units.insert(8, UnitData::new("Heavy artillery", 1, 3, 4, 2, defense, arms, 2600, carries, 0, flags));
        let (defense, arms, carries, flags) = (Vec::new(), vec![10], Vec::new(), Vec::new());
        assert(defense@ =~= wars_unit_args(10).5 && arms@ =~= wars_unit_args(10).6 && carries@ =~= wars_unit_args(10).8
            && flags@ =~= wars_unit_args(10).10);
        units.insert(10, UnitData::new("SAM vehicle", 1, 3, 4, 2, defense, arms, 1000, carries, 0, flags));
        let (defense, arms, carries, flags) = (vec![(0, 0), (1, 0), (2, 0), (3, 0), (4, 0), (5, 0), (6, 0), (7, 0), (8, 0), (9, 0), (10, 0), (11, 0), (12, 0)], Vec::new(), vec![0], Vec::new());
        assert(defense@ =~= wars_unit_args(15).5 && arms@ =~= wars_unit_args(15).6 && carries@ =~= wars_unit_args(15).8
            && flags@ =~= wars_unit_args(15).10);
        units.insert(15, UnitData::new("Transport copter", 2, 4, 6, 7, defense, arms, 500, carries, 2, flags));
        let (defense, arms, carries, flags) = (vec![(0, 0), (1, 0), (2, 0), (3, 0), (4, 0), (5, 0), (6, 0), (7, 0), (8, 0), (9, 0), (10, 0), (11, 0), (12, 0)], vec![11, 1], Vec::new(), Vec::new());
        assert(defense@ =~= wars_unit_args(11).5 && arms@ =~= wars_unit_args(11).6 && carries@ =~= wars_unit_args(11).8
            && flags@ =~= wars_unit_args(11).10);
        units.insert(11, UnitData::new("Attack copter", 2, 4, 7, 7, defense, arms, 1000, carries, 0, flags));
        let (defense, arms, carries, flags) = (vec![(0, 0), (1, 0), (2, 0), (3, 0), (4, 0), (5, 0), (6, 0), (7, 0), (8, 0), (9, 0), (10, 0), (11, 0), (12, 0)], vec![12], Vec::new(), Vec::new());
        assert(defense@ =~= wars_unit_args(12).5 && arms@ =~= wars_unit_args(12).6 && carries@ =~= wars_unit_args(12).8
            && flags@ =~= wars_unit_args(12).10);
        units.insert(12, UnitData::new("Interceptor", 2, 4, 12, 6, defense, arms, 1500, carries, 0, flags));
        let (defense, arms, carries, flags) = (vec![(0, 0), (1, 0), (2, 0), (3, 0), (4, 0), (5, 0), (6, 0), (7, 0), (8, 0), (9, 0), (10, 0), (11, 0), (12, 0)], vec![13], Vec::new(), Vec::new());
        assert(defense@ =~= wars_unit_args(13).5 && arms@ =~= wars_unit_args(13).6 && carries@ =~= wars_unit_args(13).8
            && flags@ =~= wars_unit_args(13).10);
        units.insert(13, UnitData::new("Bomber", 2, 4, 9, 8, defense, arms, 2200, carries, 0, flags));
        let (defense, arms, carries, flags) = (Vec::new(), Vec::new(), vec![0, 1], Vec::new());
        assert(defense@ =~= wars_unit_args(16).5 && arms@ =~= wars_unit_args(16).6 && carries@ =~= wars_unit_args(16).8
            && flags@ =~= wars_unit_args(16).10);
        units.insert(16, UnitData::new("Cargo ship", 3, 5, 4, 10, defense, arms, 800, carries, 2, flags));
        let (defense, arms, carries, flags) = (Vec::new(), vec![4, 15], Vec::new(), Vec::new());
        assert(defense@ =~= wars_unit_args(17).5 && arms@ =~= wars_unit_args(17).6 && carries@ =~= wars_unit_args(17).8
            && flags@ =~= wars_unit_args(17).10);
        units.insert(17, UnitData::new("Gunboat", 3, 5, 5, 10, defense, arms, 1000, carries, 0, flags));
        let (defense, arms, carries, flags) = (Vec::new(), vec![9], Vec::new(), Vec::new());
        assert(defense@ =~= wars_unit_args(18).5 && arms@ =~= wars_unit_args(18).6 && carries@ =~= wars_unit_args(18).8
            && flags@ =~= wars_unit_args(18).10);
        units.insert(18, UnitData::new("AA boat", 3, 5, 6, 9, defense, arms, 700, carries, 0, flags));
        let (defense, arms, carries, flags) = (Vec::new(), vec![14], Vec::new(), Vec::new());
        assert(defense@ =~= wars_unit_args(19).5 && arms@ =~= wars_unit_args(19).6 && carries@ =~= wars_unit_args(19).8
            && flags@ =~= wars_unit_args(19).10);
        units.insert(19, UnitData::new("Cruiser", 3, 5, 4, 11, defense, arms, 3000, carries, 0, flags));
        let r = Configuration {
            weapons,
            armors,
            movements: HashMap::new(),
            units,
            unit_flags: HashMap::new(),
            terrain_flags: HashMap::new(),
            terrains: HashMap::new(),
        };
        assert(r@.armors =~= wars_armors());
        assert(r@.weapons =~= wars_weapons());
        assert(r@.units =~= wars_unit_types());
        assert(r@.movements =~= Map::empty());
        assert(r@.unit_flags =~= Map::empty());
        assert(r@.terrain_flags =~= Map::empty());
        assert(r@.terrains =~= Map::empty());
        r
    }
}

} // verus!

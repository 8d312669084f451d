use wars::components::{Funds, Health};
use wars::game::Position;
use wars::model::model_old::{Configuration, WeaponData};
use wars::model::{terrain, unit_type, weapon, Armor, Terrain, TerrainFlag, UnitType, Weapon};

#[test]
fn position_distance() {
    assert!(Position(0, 0).distance_to(&Position(0, 1)) == 1);
    assert!(Position(0, 0).distance_to(&Position(0, -1)) == 1);
    assert!(Position(0, 0).distance_to(&Position(1, 0)) == 1);
    assert!(Position(0, 0).distance_to(&Position(1, 0)) == 1);
    assert!(Position(0, 0).distance_to(&Position(1, -1)) == 1);
    assert!(Position(0, 0).distance_to(&Position(-1, 1)) == 1);
}

#[test]
fn model_generate_wars_configuration() {
    let mut ws = unit_type(UnitType::HeavyTank).weapons.iter();
    assert!(ws.next() == Some(&Weapon::HeavyMachinegun));
    assert!(ws.next() == Some(&Weapon::HeavyCannon));
    assert!(ws.next() == None);

    let mut tfs = terrain(Terrain::City).flags.iter();
    assert!(tfs.next() == Some(&TerrainFlag::Capturable));
    assert!(tfs.next() == Some(&TerrainFlag::Funds));
    assert!(tfs.next() == None);
}

#[test]
fn model_old_generate_wars_configuration() {
    Configuration::new_wars();
}

#[test]
fn old_configuration_contents() {
    let c = Configuration::new_wars();
    assert_eq!(c.armors.len(), 12);
    assert_eq!(c.armors[&7].name, "Copter");
    assert_eq!(c.weapons.len(), 16);
    let artillery = &c.weapons[&6];
    assert_eq!(artillery.name, "LightArtillery");
    assert!(artillery.require_deployed);
    assert_eq!(artillery.range_map.get(&3), Some(&100));
    assert_eq!(artillery.power_map.get(&11), Some(&30));
    assert_eq!(c.units.len(), 20);
    let apc = &c.units[&14];
    assert_eq!((apc.name.as_str(), apc.carry_num, apc.carry_classes.clone()), ("APC", 2, vec![0]));
    assert_eq!(c.units[&0].defense_map.get(&7), Some(&65));
    assert!(c.movements.is_empty() && c.terrains.is_empty() && c.unit_flags.is_empty() && c.terrain_flags.is_empty());
}

#[test]
fn weapon_data_keeps_last_pair() {
    let w = WeaponData::new("Test", false, vec![(1, 10), (1, 20)], vec![]);
    assert_eq!(w.range_map.get(&1), Some(&20));
    assert_eq!(w.range_map.len(), 1);
    assert!(w.power_map.is_empty());
}

#[test]
fn board_health_and_funds() {
    assert_eq!(Health::from_value(100), Health::Full);
    assert_eq!(Health::from_value(250), Health::Full);
    assert_eq!(Health::from_value(40), Health::Damaged(40));
    assert_eq!(Health::Full.value(), 100);
    assert_eq!(Health::Full.damage(30), Health::Damaged(70));
    assert_eq!(Health::Damaged(20).damage(30), Health::Damaged(0));
    assert_eq!(Funds(50).deduct(20), Funds(30));
    assert_eq!(Funds(50).deduct(80), Funds(0));
}

#[test]
fn old_weapons_match_weapon_table() {
    let weapons = [
        Weapon::Rifle, Weapon::Machinegun, Weapon::Bazooka, Weapon::LightCannon, Weapon::MediumCannon,
        Weapon::HeavyCannon, Weapon::LightArtillery, Weapon::MediumArtillery, Weapon::HeavyArtillery,
        Weapon::AACannon, Weapon::AAMissile, Weapon::CopterMissile, Weapon::InterceptorMissile,
        Weapon::AerialBomb, Weapon::CruiserArtillery, Weapon::HeavyMachinegun,
    ];
    let armors = [
        Armor::Infantry, Armor::LightVehicle, Armor::HeavyVehicle, Armor::LightTank, Armor::MediumTank,
        Armor::HeavyTank, Armor::Interceptor, Armor::Copter, Armor::Bomber, Armor::LightShip,
        Armor::MediumShip, Armor::HeavyShip,
    ];
    let c = Configuration::new_wars();
    for (i, w) in weapons.iter().enumerate() {
        let old = &c.weapons[&(i as u32)];
        let new = weapon(*w);
        assert_eq!(old.require_deployed, new.require_deployed);
        for r in 0..10u32 {
            assert_eq!(old.range_map.get(&r).copied(), new.range_map(r));
        }
        for (j, a) in armors.iter().enumerate() {
            assert_eq!(old.power_map.get(&(j as u32)).copied().unwrap_or(0), new.power_map(*a).unwrap_or(0));
        }
    }
}

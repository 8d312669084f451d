use crate::game::{Unit, UnitId};
use crate::game::tile::contains_unit_class;
use crate::model::{
    armor_type_of, movement, movement_name, movement_points, movement_type_of, terrain,
    terrain_cost, terrain_default_defense, unit_carry_classes, unit_carry_num, unit_class_of,
    unit_defense, unit_flags, unit_price, unit_type, unit_type_name, unit_weapons, weapon,
    weapon_requires_deployment, Terrain, UnitFlag, UnitType, UnitTypeData, UNIT_MAX_HEALTH,
};
use vstd::prelude::*;

verus! {

/// Whether some weapon of unit type `t` can only fire while deployed.
pub open spec fn deployable(t: UnitType) -> bool {
    exists|i: int| 0 <= i < unit_weapons(t).len() && weapon_requires_deployment(#[trigger] unit_weapons(t)[i])
}

/// Defense a unit of type `t` gets on terrain `ter`.
pub open spec fn defense_of(t: UnitType, ter: Terrain) -> u32 {
    match unit_defense(t, ter) {
        Some(d) => d,
        None => terrain_default_defense(ter),
    }
}

impl Default for Unit {
    fn default() -> (r: Unit)
        ensures
            r.unit_type == UnitType::Infantry,
            r.health == UNIT_MAX_HEALTH,
            r.carried@ == Seq::<UnitId>::empty(),
            r.owner is None,
            !r.deployed,
            !r.moved,
            !r.capturing,
    {
        Unit {
            unit_type: UnitType::Infantry,
            health: UNIT_MAX_HEALTH,
            carried: Vec::new(),
            owner: None,
            deployed: false,
            moved: false,
            capturing: false,
        }
    }
}

impl Unit {
    pub fn is_damaged(&self) -> (r: bool)
        ensures
            r == (self.health < UNIT_MAX_HEALTH),
    {
        self.health < UNIT_MAX_HEALTH
    }

    pub fn unit_type_data(&self) -> (r: UnitTypeData<'static>)
        ensures
            r.name@ == unit_type_name(self.unit_type),
            r.unit_type == self.unit_type,
            r.unit_class == unit_class_of(self.unit_type),
            r.movement_type == movement_type_of(self.unit_type),
            r.movement == movement_points(self.unit_type),
            r.armor_type == armor_type_of(self.unit_type),
            r.weapons@ == unit_weapons(self.unit_type),
            r.price == unit_price(self.unit_type),
            r.carry_classes@ == unit_carry_classes(self.unit_type),
            r.carry_num == unit_carry_num(self.unit_type),
            r.flags@ == unit_flags(self.unit_type),
    {
        unit_type(self.unit_type)
    }

    pub fn has_unit_flag(&self, flag: UnitFlag) -> (r: bool)
        ensures
            r == unit_flags(self.unit_type).contains(flag),
    {
        let flags = self.unit_type_data().flags;
        let mut n: usize = 0;
        while n < flags.len()
            invariant
                n <= flags@.len(),
                flags@ == unit_flags(self.unit_type),
                forall|i: int| 0 <= i < n ==> flags@[i] != flag,
            decreases flags@.len() - n,
        {
            if flags[n] == flag {
                return true;
            }
            n = n + 1;
        }
        false
    }

    pub fn can_capture(&self) -> (r: bool)
        ensures
            r == unit_flags(self.unit_type).contains(UnitFlag::Capture),
    {
        self.has_unit_flag(UnitFlag::Capture)
    }

    pub fn can_deploy(&self) -> (r: bool)
        ensures
            r == deployable(self.unit_type),
    {
        let weapons = self.unit_type_data().weapons;
        let mut n: usize = 0;
        while n < weapons.len()
            invariant
                n <= weapons@.len(),
                weapons@ == unit_weapons(self.unit_type),
                forall|i: int| 0 <= i < n ==> !weapon_requires_deployment(#[trigger] weapons@[i]),
            decreases weapons@.len() - n,
        {
            if weapon(weapons[n]).require_deployed {
                return true;
            }
            n = n + 1;
        }
        false
    }

    pub fn can_carry(&self, target: &Unit) -> (r: bool)
        ensures
            r == (unit_carry_num(self.unit_type) > (self.carried@.len() as u32)
                && unit_carry_classes(self.unit_type).contains(unit_class_of(target.unit_type))),
    {
        self.unit_type_data().carry_num > (self.carried.len() as u32)
            && contains_unit_class(self.unit_type_data().carry_classes, target.unit_type_data().unit_class)
    }

    pub fn can_move_on_terrain(&self, terrain_type: Terrain) -> (r: bool)
        ensures
            r == terrain_cost(movement_type_of(self.unit_type), terrain_type) is Some,
    {
        movement(self.unit_type_data().movement_type).terrain_cost_map(terrain_type).is_some()
    }

    pub fn defense_in_terrain(&self, terrain_type: Terrain) -> (r: u32)
        ensures
            r == defense_of(self.unit_type, terrain_type),
    {
        match self.unit_type_data().defense_map(terrain_type) {
            Some(d) => d,
            None => terrain(terrain_type).default_defense,
        }
    }
}

} // verus!

use crate::game::{Credits, Health, Position, Tile, Unit};
use crate::model::{
    terrain, terrain_build_classes, terrain_flags, terrain_repair_classes, unit_class_of,
    unit_type, Terrain, TerrainData, TerrainFlag, UnitClass, UnitType, FUNDS_PER_PROPERTY,
    MAX_CAPTURE_POINTS, UNIT_MAX_REPAIR_RATE, terrain_name, terrain_default_defense,
};
use vstd::prelude::*;

verus! {

/// Whether `flags` holds `flag`.
pub fn contains_terrain_flag(flags: &[TerrainFlag], flag: TerrainFlag) -> (r: bool)
    ensures
        r == flags@.contains(flag),
{
    let mut n: usize = 0;
    while n < flags.len()
        invariant
            n <= flags@.len(),
            forall|i: int| 0 <= i < n ==> flags@[i] != flag,
        decreases flags@.len() - n,
    {
        if flags[n] == flag {
            return true;
        }
        n = n + 1;
    }
    false
}

/// Whether `classes` holds `class`.
pub fn contains_unit_class(classes: &[UnitClass], class: UnitClass) -> (r: bool)
    ensures
        r == classes@.contains(class),
{
    let mut n: usize = 0;
    while n < classes.len()
        invariant
            n <= classes@.len(),
            forall|i: int| 0 <= i < n ==> classes@[i] != class,
        decreases classes@.len() - n,
    {
        if classes[n] == class {
            return true;
        }
        n = n + 1;
    }
    false
}

/// Funds that a tile on `t` with `capture_points` yields per turn.
pub open spec fn funds_of(t: Terrain, capture_points: u32) -> int {
    if terrain_flags(t).contains(TerrainFlag::Funds) {
        FUNDS_PER_PROPERTY * capture_points / MAX_CAPTURE_POINTS as int
    } else {
        0
    }
}

/// Health that a tile with `capture_points` restores per turn.
pub open spec fn repair_of(capture_points: u32) -> int {
    UNIT_MAX_REPAIR_RATE * capture_points / MAX_CAPTURE_POINTS as int
}

impl Default for Tile {
    fn default() -> (r: Tile)
        ensures
            r == (Tile {
                terrain: Terrain::Road,
                terrain_subtype_id: 0,
                owner: None,
                x: 0,
                y: 0,
                unit: None,
                capture_points: MAX_CAPTURE_POINTS,
            }),
    {
        Tile {
            terrain: Terrain::Road,
            terrain_subtype_id: 0,
            owner: None,
            x: 0,
            y: 0,
            unit: None,
            capture_points: MAX_CAPTURE_POINTS,
        }
    }
}

impl Tile {
    pub fn has_terrain_flag(&self, flag: TerrainFlag) -> (r: bool)
        ensures
            r == terrain_flags(self.terrain).contains(flag),
    {
        contains_terrain_flag(terrain(self.terrain).flags, flag)
    }

    pub fn can_repair_unit_class(&self, unit_class: UnitClass) -> (r: bool)
        ensures
            r == terrain_repair_classes(self.terrain).contains(unit_class),
    {
        contains_unit_class(terrain(self.terrain).repair_classes, unit_class)
    }

    pub fn can_repair_unit(&self, unit: &Unit) -> (r: bool)
        ensures
            r == terrain_repair_classes(self.terrain).contains(unit_class_of(unit.unit_type)),
    {
        self.can_repair_unit_class(unit.unit_type_data().unit_class)
    }

    pub fn terrain_data(&self) -> (r: TerrainData<'static>)
        ensures
            r.name@ == terrain_name(self.terrain),
            r.default_defense == terrain_default_defense(self.terrain),
            r.build_classes@ == terrain_build_classes(self.terrain),
            r.repair_classes@ == terrain_repair_classes(self.terrain),
            r.flags@ == terrain_flags(self.terrain),
    {
        terrain(self.terrain)
    }

    pub fn repair_rate(&self) -> (r: Health)
        requires
            UNIT_MAX_REPAIR_RATE * self.capture_points <= u32::MAX,
        ensures
            r == repair_of(self.capture_points),
    {
        UNIT_MAX_REPAIR_RATE * self.capture_points / MAX_CAPTURE_POINTS
    }

    pub fn generated_funds(&self) -> (r: Credits)
        requires
            terrain_flags(self.terrain).contains(TerrainFlag::Funds) ==> FUNDS_PER_PROPERTY * self.capture_points <= u32::MAX,
        ensures
            r == funds_of(self.terrain, self.capture_points),
    {
        if self.has_terrain_flag(TerrainFlag::Funds) {
            FUNDS_PER_PROPERTY * self.capture_points / MAX_CAPTURE_POINTS
        } else {
            0
        }
    }

    pub fn is_capturable(&self) -> (r: bool)
        ensures
            r == terrain_flags(self.terrain).contains(TerrainFlag::Capturable),
    {
        self.has_terrain_flag(TerrainFlag::Capturable)
    }

    pub fn can_build(&self, target_type: UnitType) -> (r: bool)
        ensures
            r == terrain_build_classes(self.terrain).contains(unit_class_of(target_type)),
    {
        contains_unit_class(self.terrain_data().build_classes, unit_type(target_type).unit_class)
    }

    pub fn position(&self) -> (r: Position)
        ensures
            r == Position(self.x, self.y),
    {
        Position(self.x, self.y)
    }

    pub fn max_capture_points(&self) -> (r: u32)
        ensures
            r == MAX_CAPTURE_POINTS,
    {
        MAX_CAPTURE_POINTS
    }
}

} // verus!

use crate::game::{GameMap, Tile, TileId, Unit, UnitId, UnitModel};
use crate::model::{Terrain, UnitType, MAX_CAPTURE_POINTS, UNIT_MAX_HEALTH};
use crate::util::{dedup, lemma_dedup, UniqueIterable};
use std::collections::HashMap;
use vstd::prelude::*;

verus! {

broadcast use vstd::std_specs::hash::group_hash_axioms;

/// The seat numbers that own a tile or a unit of the map.
pub open spec fn map_owners(tiles: Map<TileId, Tile>, units: Map<UnitId, Unit>) -> Set<u32> {
    Set::new(|n: u32|
        (exists|k: TileId| #[trigger] tiles.contains_key(k) && tiles[k].owner == Some(n))
        || (exists|k: UnitId| #[trigger] units.contains_key(k) && units[k].owner == Some(n)))
}

/// The ids of the tiles of `m`.
fn tile_ids(m: &HashMap<TileId, Tile>) -> (ids: Vec<TileId>)
    ensures
        ids@.to_set() == m@.dom(),
{
    let mut ids: Vec<TileId> = Vec::new();
    for k in it: m.keys()
        invariant
            ids@ == it.seq().take(it.index()).unref(),
            it.seq().unref().to_set() == m@.dom(),
            it.index() == it.seq().len() ==> ids@ == it.seq().unref(),
    {
        ids.push(*k);
    }
    ids
}

/// The ids of the units of `m`.
fn unit_ids(m: &HashMap<UnitId, Unit>) -> (ids: Vec<UnitId>)
    ensures
        ids@.to_set() == m@.dom(),
{
    let mut ids: Vec<UnitId> = Vec::new();
    for k in it: m.keys()
        invariant
            ids@ == it.seq().take(it.index()).unref(),
            it.seq().unref().to_set() == m@.dom(),
            it.index() == it.seq().len() ==> ids@ == it.seq().unref(),
    {
        ids.push(*k);
    }
    ids
}

/// `s` holds exactly the items of `base` and the owners among the first `i` of `os`.
spec fn collects(s: Seq<u32>, base: Set<u32>, os: Seq<Option<u32>>, i: int) -> bool {
    forall|n: u32| #[trigger] s.contains(n) <==> base.contains(n) || exists|j: int| 0 <= j < i && #[trigger] os[j] == Some(n)
}

proof fn lemma_collects_step(before: Seq<u32>, after: Seq<u32>, base: Set<u32>, os: Seq<Option<u32>>, i: int)
    requires
        collects(before, base, os, i),
        0 <= i < os.len(),
        after == (match os[i] {
            Some(x) => before.push(x),
            None => before,
        }),
    ensures
        collects(after, base, os, i + 1),
{
    assert forall|m: u32| #[trigger] after.contains(m) <==> base.contains(m)
        || exists|j: int| 0 <= j < i + 1 && #[trigger] os[j] == Some(m) by {
        let old_has = base.contains(m) || exists|j: int| 0 <= j < i && #[trigger] os[j] == Some(m);
        assert(before.contains(m) <==> old_has);
        if after.contains(m) {
            let x = choose|x: int| 0 <= x < after.len() && after[x] == m;
            if x < before.len() {
                assert(before[x] == m);
                assert(before.contains(m));
                if !base.contains(m) {
                    let j = choose|j: int| 0 <= j < i && #[trigger] os[j] == Some(m);
                    assert(0 <= j < i + 1 && os[j] == Some(m));
                }
            } else {
                assert(os[i] == Some(m));
            }
        }
        if base.contains(m) {
            let x = choose|x: int| 0 <= x < before.len() && before[x] == m;
            assert(after[x] == m);
        }
        if exists|j: int| 0 <= j < i + 1 && #[trigger] os[j] == Some(m) {
            let j = choose|j: int| 0 <= j < i + 1 && #[trigger] os[j] == Some(m);
            if j == i {
                assert(after[after.len() - 1] == m);
            } else {
                assert(old_has);
                let x = choose|x: int| 0 <= x < before.len() && before[x] == m;
                assert(after[x] == m);
            }
        }
    }
}

impl GameMap {
    /// The owners of the map's tiles and units, each once: those of the tiles first, in the
    /// order the tiles are walked, then those of the units.
    pub fn player_numbers(&self) -> (r: Vec<u32>)
        ensures
            r@.no_duplicates(),
            r@.to_set() == map_owners(self.tiles@, self.units@),
    {
        let mut owners: Vec<u32> = Vec::new();
        let tids = tile_ids(&self.tiles);
        let ghost tf = tids@.map_values(|id: TileId| self.tiles@[id].owner);
        let mut i: usize = 0;
        while i < tids.len()
            invariant
                i <= tids@.len(),
                tids@.to_set() == self.tiles@.dom(),
                tf == tids@.map_values(|id: TileId| self.tiles@[id].owner),
                collects(owners@, Set::empty(), tf, i as int),
            decreases tids@.len() - i,
        {
            let ghost before = owners@;
            assert(tids@.to_set().contains(tids@[i as int]));
            let t = self.tiles.get(&tids[i]).unwrap();
            if let Some(n) = t.owner {
                owners.push(n);
            }
            proof {
                lemma_collects_step(before, owners@, Set::empty(), tf, i as int);
            }
            i = i + 1;
        }
        let ghost tile_owners = owners@;
        let uids = unit_ids(&self.units);
        let ghost uf = uids@.map_values(|id: UnitId| self.units@[id].owner);
        let mut i: usize = 0;
        while i < uids.len()
            invariant
                i <= uids@.len(),
                uids@.to_set() == self.units@.dom(),
                uf == uids@.map_values(|id: UnitId| self.units@[id].owner),
                collects(owners@, tile_owners.to_set(), uf, i as int),
            decreases uids@.len() - i,
        {
            let ghost before = owners@;
            assert(uids@.to_set().contains(uids@[i as int]));
            let u = self.units.get(&uids[i]).unwrap();
            if let Some(n) = u.owner {
                owners.push(n);
            }
            proof {
                lemma_collects_step(before, owners@, tile_owners.to_set(), uf, i as int);
            }
            i = i + 1;
        }
        let ghost all = owners@;
        let mut unique = owners.unique();
        let mut r: Vec<u32> = Vec::new();
        loop
            invariant
                unique.wf(),
                unique.all_items() == dedup(all),
                r@ == unique.yielded(),
                unique.yielded().len() <= unique.all_items().len(),
                unique.yielded() == unique.all_items().take(unique.yielded().len() as int),
            ensures
                r@ == dedup(all),
            decreases unique.all_items().len() - unique.yielded().len(),
        {
            match unique.next() {
                Some(n) => r.push(n),
                None => {
                    assert(unique.all_items().take(unique.all_items().len() as int) =~= unique.all_items());
                    break;
                },
            }
        }
        proof {
            lemma_dedup(all);
            assert forall|n: u32| r@.to_set().contains(n) <==> map_owners(self.tiles@, self.units@).contains(n) by {
                assert(r@.to_set().contains(n) <==> all.contains(n));
                assert(collects(tile_owners, Set::empty(), tf, tids@.len() as int));
                if exists|k: TileId| #[trigger] self.tiles@.contains_key(k) && self.tiles@[k].owner == Some(n) {
                    let k = choose|k: TileId| #[trigger] self.tiles@.contains_key(k) && self.tiles@[k].owner == Some(n);
                    assert(tids@.to_set().contains(k));
                    let j = choose|j: int| 0 <= j < tids@.len() && tids@[j] == k;
                    assert(tf[j] == Some(n));
                    assert(tile_owners.contains(n));
                }
                if exists|k: UnitId| #[trigger] self.units@.contains_key(k) && self.units@[k].owner == Some(n) {
                    let k = choose|k: UnitId| #[trigger] self.units@.contains_key(k) && self.units@[k].owner == Some(n);
                    assert(uids@.to_set().contains(k));
                    let j = choose|j: int| 0 <= j < uids@.len() && uids@[j] == k;
                    assert(uf[j] == Some(n));
                }
                if tile_owners.contains(n) {
                    let j = choose|j: int| 0 <= j < tids@.len() && #[trigger] tf[j] == Some(n);
                    assert(tids@.to_set().contains(tids@[j]));
                }
                if exists|j: int| 0 <= j < uids@.len() && #[trigger] uf[j] == Some(n) {
                    let j = choose|j: int| 0 <= j < uids@.len() && #[trigger] uf[j] == Some(n);
                    assert(uids@.to_set().contains(uids@[j]));
                }
            }
        }
        r
    }
}

/// A map as its file describes it.
pub struct JsonMap {
    pub name: String,
    pub funds: u32,
    pub map_data: Vec<JsonMapTile>,
}

/// A tile as the map file describes it: terrain and owner by number, 0 for no owner.
#[derive(Clone, Copy, Debug, PartialEq, Eq, Structural)]
pub struct JsonMapTile {
    pub x: i32,
    pub y: i32,
    pub tile_type: u32,
    pub tile_subtype: u32,
    pub owner: u32,
    pub unit: Option<JsonMapUnit>,
}

/// A unit as the map file describes it: type and owner by number, 0 for no owner.
#[derive(Clone, Copy, Debug, PartialEq, Eq, Structural)]
pub struct JsonMapUnit {
    pub unit_type: u32,
    pub owner: u32,
}

/// The terrains in the order the map file numbers them.
pub open spec fn terrain_numbering() -> Seq<Terrain> {
    seq![Terrain::Road, Terrain::Plains, Terrain::Forest, Terrain::Mountains, Terrain::Water,
        Terrain::City, Terrain::Base, Terrain::Fort, Terrain::Airport, Terrain::Port,
        Terrain::Beach, Terrain::Bridge, Terrain::HQ]
}

/// The unit types in the order the map file numbers them.
pub open spec fn unit_type_numbering() -> Seq<UnitType> {
    seq![UnitType::Infantry, UnitType::ATInfantry, UnitType::Scout, UnitType::LightTank, UnitType::MediumTank,
        UnitType::HeavyTank, UnitType::LightArtillery, UnitType::MediumArtillery, UnitType::HeavyArtillery,
        UnitType::AAVehicle, UnitType::SAMVehicle, UnitType::AttackCopter, UnitType::Interceptor,
        UnitType::Bomber, UnitType::APC, UnitType::TransportCopter, UnitType::CargoShip, UnitType::GunBoat,
        UnitType::AABoat, UnitType::Cruiser]
}

/// The owner the map file means by `n`: 0 is nobody.
pub open spec fn owner_number(n: u32) -> Option<u32> {
    if n != 0 { Some(n) } else { None }
}

/// The tile that a file's tile becomes, holding the unit `unit_id` where it has one.
pub open spec fn tile_of_json(t: JsonMapTile, unit_id: UnitId) -> Tile {
    Tile {
        terrain: terrain_numbering()[t.tile_type as int],
        terrain_subtype_id: t.tile_subtype,
        owner: owner_number(t.owner),
        capture_points: MAX_CAPTURE_POINTS,
        unit: if t.unit is Some { Some(unit_id) } else { None },
        x: t.x,
        y: t.y,
    }
}

/// The unit that a file's unit becomes: fresh, at full health.
pub open spec fn unit_of_json(u: JsonMapUnit) -> UnitModel {
    UnitModel {
        unit_type: unit_type_numbering()[u.unit_type as int],
        health: UNIT_MAX_HEALTH,
        carried: Seq::empty(),
        owner: owner_number(u.owner),
        deployed: false,
        moved: false,
        capturing: false,
    }
}

/// Every tile and unit of the file has a known type.
pub open spec fn json_tiles_known(tiles: Seq<JsonMapTile>) -> bool {
    forall|i: int| 0 <= i < tiles.len() ==> {
        &&& (#[trigger] tiles[i]).tile_type < 13
        &&& tiles[i].unit matches Some(u) ==> u.unit_type < 20
    }
}

impl JsonMapTile {
    /// This tile, holding unit `unit_id` where the file puts a unit on it.
    pub fn as_tile(&self, unit_id: UnitId) -> (r: Tile)
        requires
            self.tile_type < 13,
        ensures
            r == tile_of_json(*self, unit_id),
    {
        let terrains = [Terrain::Road, Terrain::Plains, Terrain::Forest, Terrain::Mountains, Terrain::Water,
            Terrain::City, Terrain::Base, Terrain::Fort, Terrain::Airport, Terrain::Port,
            Terrain::Beach, Terrain::Bridge, Terrain::HQ];
        assert(terrains@ =~= terrain_numbering());
        let terrain = terrains[self.tile_type as usize];
        Tile {
            terrain,
            terrain_subtype_id: self.tile_subtype,
            owner: if self.owner != 0 { Some(self.owner) } else { None },
            x: self.x,
            y: self.y,
            unit: match self.unit {
                Some(_) => Some(unit_id),
                None => None,
            },
            ..Tile::default()
        }
    }
}

impl JsonMapUnit {
    /// This unit, fresh and at full health.
    pub fn as_unit(&self) -> (r: Unit)
        requires
            self.unit_type < 20,
        ensures
            r@ == unit_of_json(*self),
    {
        let types = [UnitType::Infantry, UnitType::ATInfantry, UnitType::Scout, UnitType::LightTank,
            UnitType::MediumTank, UnitType::HeavyTank, UnitType::LightArtillery, UnitType::MediumArtillery,
            UnitType::HeavyArtillery, UnitType::AAVehicle, UnitType::SAMVehicle, UnitType::AttackCopter,
            UnitType::Interceptor, UnitType::Bomber, UnitType::APC, UnitType::TransportCopter,
            UnitType::CargoShip, UnitType::GunBoat, UnitType::AABoat, UnitType::Cruiser];
        assert(types@ =~= unit_type_numbering());
        let unit_type = types[self.unit_type as usize];
        let mut r = Unit::default();
        r.unit_type = unit_type;
        r.owner = if self.owner != 0 { Some(self.owner) } else { None };
        r
    }
}

impl JsonMap {
    /// The map the file describes: tile `i` of the file becomes the tile with id `i`, and its
    /// unit, if any, the unit with id `i`.
    pub fn into_map(self) -> (r: GameMap)
        requires
            json_tiles_known(self.map_data@),
        ensures
            r.name@ == self.name@,
            r.funds == self.funds,
            forall|k: TileId| #[trigger] r.tiles@.contains_key(k) <==> k < self.map_data@.len(),
            forall|k: TileId| k < self.map_data@.len() ==> #[trigger] r.tiles@[k] == tile_of_json(self.map_data@[k as int], k),
            forall|k: UnitId| #[trigger] r.units@.contains_key(k) <==> k < self.map_data@.len()
                && self.map_data@[k as int].unit is Some,
            forall|k: UnitId| #[trigger] r.units@.contains_key(k) ==> r.units@[k]@ == unit_of_json(self.map_data@[k as int].unit->0),
    {
        let mut tiles: HashMap<TileId, Tile> = HashMap::new();
        let mut units: HashMap<UnitId, Unit> = HashMap::new();
        let mut i: usize = 0;
        while i < self.map_data.len()
            invariant
                i <= self.map_data@.len(),
                json_tiles_known(self.map_data@),
                forall|k: TileId| #[trigger] tiles@.contains_key(k) <==> k < i,
                forall|k: TileId| k < i ==> #[trigger] tiles@[k] == tile_of_json(self.map_data@[k as int], k),
                forall|k: UnitId| #[trigger] units@.contains_key(k) <==> k < i && self.map_data@[k as int].unit is Some,
                forall|k: UnitId| #[trigger] units@.contains_key(k) ==> units@[k]@ == unit_of_json(self.map_data@[k as int].unit->0),
            decreases self.map_data@.len() - i,
        {
            let t = self.map_data[i];
            assert(t == self.map_data@[i as int]);
            let tile = t.as_tile(i);
            tiles.insert(i, tile);
            match t.unit {
                Some(u) => {
                    let unit = u.as_unit();
                    units.insert(i, unit);
                },
                None => {},
            }
            i = i + 1;
        }
        GameMap { name: self.name, funds: self.funds, units, tiles }
    }
}

} // verus!

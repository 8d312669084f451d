use crate::game::game::{
    all_ids_held, apply_updates, tile_at, tile_id_at, units_consistent,
    enumerates, lemma_same_layout_wf, lemma_update_keeps_numbers_unique, lists_all, same_layout, seat_of,
    unit_models,
};
use crate::game::Tiles;
use crate::game::tile::{funds_of, repair_of};
use crate::game::{
    ActionError, ActionResult, Credits, Event, Game, GameState, Player, PlayerNumber, Position, Tile,
    TileId, Unit, UnitId, UnitModel,
};
use crate::game::game::{distance_computable, hex_distance, lemma_next_alive_index_in_range, next_alive_index};
use crate::game::unit::deployable;
use crate::model::{
    movement_type_of, terrain_cost, unit_carry_classes, unit_carry_num, unit_type, terrain_flags, unit_flags, unit_price, TerrainFlag, UnitFlag, UnitType,
    terrain_build_classes, terrain_repair_classes, unit_class_of, CAPTURE_POINT_REGEN_RATE, FUNDS_PER_PROPERTY,
    MAX_CAPTURE_POINTS, UNIT_MAX_HEALTH, UNIT_MAX_REPAIR_RATE,
};
use vstd::prelude::*;
use vstd::set::fold::{lemma_fold_empty, lemma_fold_insert};

verus! {

/// Ids of the tiles owned by `pn`.
pub open spec fn owned_tile_ids(tiles: Map<TileId, Tile>, pn: PlayerNumber) -> Set<TileId> {
    tiles.dom().filter(|k: TileId| tiles[k].owner == Some(pn))
}

/// Adds the funds that tile `k` yields to `acc`.
pub open spec fn funds_step(tiles: Map<TileId, Tile>) -> spec_fn(int, TileId) -> int {
    |acc: int, k: TileId| acc + funds_of(tiles[k].terrain, tiles[k].capture_points)
}

/// Funds that the tiles owned by `pn` yield together per turn.
pub open spec fn generated_total(tiles: Map<TileId, Tile>, pn: PlayerNumber) -> int {
    owned_tile_ids(tiles, pn).fold(0int, funds_step(tiles))
}

/// The ids of the first `n` entries of `e`.
pub open spec fn prefix_ids<V>(e: Seq<(usize, V)>, n: int) -> Set<usize> {
    e.take(n).map_values(|p: (usize, V)| p.0).to_set()
}

proof fn lemma_prefix_ids_step<V>(e: Seq<(usize, V)>, n: int)
    requires
        0 <= n < e.len(),
    ensures
        prefix_ids(e, n + 1) == prefix_ids(e, n).insert(e[n].0),
        prefix_ids(e, n).finite(),
        forall|k: usize| prefix_ids(e, n).contains(k) <==> exists|j: int| 0 <= j < n && #[trigger] e[j].0 == k,
{
    let a = e.take(n).map_values(|p: (usize, V)| p.0);
    let b = e.take(n + 1).map_values(|p: (usize, V)| p.0);
    assert(b =~= a.push(e[n].0));
    a.lemma_push_to_set_commute(e[n].0);
    vstd::seq_lib::seq_to_set_is_finite(a);
    lemma_prefix_ids_contains(e, n);
}

proof fn lemma_prefix_ids_contains<V>(e: Seq<(usize, V)>, n: int)
    requires
        0 <= n <= e.len(),
    ensures
        prefix_ids(e, n).finite(),
        forall|k: usize| prefix_ids(e, n).contains(k) <==> exists|j: int| 0 <= j < n && #[trigger] e[j].0 == k,
{
    let a = e.take(n).map_values(|p: (usize, V)| p.0);
    vstd::seq_lib::seq_to_set_is_finite(a);
    assert forall|k: usize| prefix_ids(e, n).contains(k) <==> exists|j: int| 0 <= j < n && #[trigger] e[j].0 == k by {
        if prefix_ids(e, n).contains(k) {
            let j = choose|j: int| 0 <= j < a.len() && a[j] == k;
            assert(e[j].0 == k);
        }
        if exists|j: int| 0 <= j < n && #[trigger] e[j].0 == k {
            let j = choose|j: int| 0 <= j < n && #[trigger] e[j].0 == k;
            assert(a[j] == k);
        }
    }
}

proof fn lemma_funds_fold_insert(tiles: Map<TileId, Tile>, s: Set<TileId>, k: TileId)
    requires
        s.finite(),
        !s.contains(k),
    ensures
        s.insert(k).fold(0int, funds_step(tiles)) == s.fold(0int, funds_step(tiles))
            + funds_of(tiles[k].terrain, tiles[k].capture_points),
{
    let f = funds_step(tiles);
    assert(vstd::set::fold::is_fun_commutative(f));
    lemma_fold_insert(s, 0int, f, k);
}

proof fn lemma_funds_fold_subset(tiles: Map<TileId, Tile>, s: Set<TileId>, t: Set<TileId>)
    requires
        t.finite(),
        s.subset_of(t),
    ensures
        0 <= s.fold(0int, funds_step(tiles)) <= t.fold(0int, funds_step(tiles)),
    decreases t.len(),
{
    let f = funds_step(tiles);
    if t.len() == 0 {
        assert(t =~= Set::empty());
        assert(s =~= Set::empty());
        lemma_fold_empty(0int, f);
    } else {
        let x = t.choose();
        let t1 = t.remove(x);
        assert(t1.insert(x) =~= t);
        lemma_funds_fold_insert(tiles, t1, x);
        if s.contains(x) {
            let s1 = s.remove(x);
            assert(s1.insert(x) =~= s);
            lemma_funds_fold_subset(tiles, s1, t1);
            lemma_funds_fold_insert(tiles, s1, x);
        } else {
            lemma_funds_fold_subset(tiles, s, t1);
        }
    }
}

/// Sum of the funds that the tiles owned by `player_number` yield.
fn collect_funds(game: &Game, player_number: PlayerNumber) -> (g: Credits)
    requires
        forall|k: TileId| #[trigger] game.tiles@.contains_key(k) && game.tiles@[k].owner == Some(player_number)
            ==> FUNDS_PER_PROPERTY * game.tiles@[k].capture_points <= u32::MAX,
        generated_total(game.tiles@, player_number) <= u32::MAX,
    ensures
        g == generated_total(game.tiles@, player_number),
{
    let owned = game.tiles.owned_by_player(player_number);
    let ghost tiles = game.tiles@;
    proof {
        game.tiles.lemma_finite();
    }
    let ghost f = funds_step(tiles);
    assert(vstd::set::fold::is_fun_commutative(f));
    let mut g: u32 = 0;
    let mut i: usize = 0;
    proof {
        assert(prefix_ids(owned@, 0) =~= Set::empty());
        lemma_fold_empty(0int, f);
    }
    while i < owned.len()
        invariant
            i <= owned@.len(),
            tiles == game.tiles@,
            f == funds_step(tiles),
            tiles.dom().finite(),
            forall|k: TileId| #[trigger] tiles.contains_key(k) && tiles[k].owner == Some(player_number)
                ==> FUNDS_PER_PROPERTY * tiles[k].capture_points <= u32::MAX,
            generated_total(tiles, player_number) <= u32::MAX,
            vstd::set::fold::is_fun_commutative(f),
            enumerates(owned@, tiles, |t: Tile| t.owner == Some(player_number)),
            g == prefix_ids(owned@, i as int).fold(0int, f),
        decreases owned@.len() - i,
    {
        let ghost k = owned@[i as int].0;
        proof {
            lemma_prefix_ids_step(owned@, i as int);
            assert(!prefix_ids(owned@, i as int).contains(k)) by {
                if prefix_ids(owned@, i as int).contains(k) {
                    let j = choose|j: int| 0 <= j < i && #[trigger] owned@[j].0 == k;
                    assert(owned@[j].0 != owned@[i as int].0);
                }
            }
            lemma_funds_fold_insert(tiles, prefix_ids(owned@, i as int), k);
            assert(prefix_ids(owned@, i + 1).subset_of(owned_tile_ids(tiles, player_number))) by {
                lemma_prefix_ids_contains(owned@, i + 1);
                assert forall|x: TileId| prefix_ids(owned@, i + 1).contains(x) implies owned_tile_ids(tiles, player_number).contains(x) by {
                    let j = choose|j: int| 0 <= j < i + 1 && #[trigger] owned@[j].0 == x;
                }
            }
            lemma_funds_fold_subset(tiles, prefix_ids(owned@, i + 1), owned_tile_ids(tiles, player_number));
        }
        let t = owned[i].1;
        assert(tiles.contains_key(k) && tiles[k] == t && t.owner == Some(player_number));
        g = g + t.generated_funds();
        i = i + 1;
    }
    proof {
        if owned@.len() > 0 {
            lemma_prefix_ids_step(owned@, owned@.len() - 1);
        } else {
            assert(prefix_ids(owned@, 0) =~= Set::empty());
        }
        assert forall|x: TileId| prefix_ids(owned@, owned@.len() as int).contains(x) <==> owned_tile_ids(tiles, player_number).contains(x) by {
            assert(owned@.take(owned@.len() as int) =~= owned@);
            if owned_tile_ids(tiles, player_number).contains(x) {
                let j = choose|j: int| 0 <= j < owned@.len() && owned@[j].0 == x;
                assert(owned@.take(owned@.len() as int).map_values(|p: (usize, Tile)| p.0)[j] == x);
            }
            if prefix_ids(owned@, owned@.len() as int).contains(x) {
                let a = owned@.take(owned@.len() as int).map_values(|p: (usize, Tile)| p.0);
                let j = choose|j: int| 0 <= j < a.len() && a[j] == x;
                assert(owned@[j].0 == x);
            }
        }
        assert(prefix_ids(owned@, owned@.len() as int) =~= owned_tile_ids(tiles, player_number));
    }
    g
}

/// `m` with `f` applied to the values whose keys are in `ids`.
pub open spec fn apply_to<V>(m: Map<usize, V>, ids: Set<usize>, f: spec_fn(V) -> V) -> Map<usize, V> {
    m.map_entries(|k: usize, v: V| if ids.contains(k) { f(v) } else { v })
}

/// A unit of `pn` stops capturing; any other unit stays as it is.
pub open spec fn reset_capture(pn: PlayerNumber) -> spec_fn(UnitModel) -> UnitModel {
    |m: UnitModel| if m.owner == Some(pn) && m.capturing { UnitModel { capturing: false, ..m } } else { m }
}

proof fn lemma_apply_to_step<V>(m: Map<usize, V>, ids: Set<usize>, f: spec_fn(V) -> V, k: usize)
    requires
        m.contains_key(k),
    ensures
        apply_to(m, ids.insert(k), f) == apply_to(m, ids, f).insert(k, f(m[k])),
{
    assert(apply_to(m, ids.insert(k), f) =~= apply_to(m, ids, f).insert(k, f(m[k])));
}

/// Units of `player_number` stop capturing.
fn reset_captures(game: &mut Game, player_number: PlayerNumber)
    ensures
        final(game).units@ == old(game).units@.map_values(reset_capture(player_number)),
        final(game).tiles == old(game).tiles,
        final(game).players == old(game).players,
        final(game).state == old(game).state,
        final(game).in_turn_index == old(game).in_turn_index,
        final(game).round_count == old(game).round_count,
        final(game).turn_count == old(game).turn_count,
        final(game).next_unit_id == old(game).next_unit_id,
{
    let owned = game.units.owned_by_player(player_number);
    let ghost u0 = game.units@;
    let ghost e = unit_models(owned@);
    let ghost f = reset_capture(player_number);
    let mut i: usize = 0;
    proof {
        lemma_prefix_ids_contains(e, 0);
        assert(apply_to(u0, prefix_ids(e, 0), f) =~= u0);
    }
    while i < owned.len()
        invariant
            i <= owned@.len(),
            e == unit_models(owned@),
            f == reset_capture(player_number),
            enumerates(e, u0, |u: UnitModel| u.owner == Some(player_number)),
            game.units@ == apply_to(u0, prefix_ids(e, i as int), f),
            u0 == old(game).units@,
            game.tiles == old(game).tiles,
            game.players == old(game).players,
            game.state == old(game).state,
            game.in_turn_index == old(game).in_turn_index,
            game.round_count == old(game).round_count,
            game.turn_count == old(game).turn_count,
            game.next_unit_id == old(game).next_unit_id,
        decreases owned@.len() - i,
    {
        let ghost k = e[i as int].0;
        proof {
            lemma_prefix_ids_step(e, i as int);
            lemma_apply_to_step(u0, prefix_ids(e, i as int), f, k);
            assert(u0.contains_key(k) && u0[k] == e[i as int].1);
        }
        if owned[i].1.capturing {
            let mut u = owned[i].1.duplicate();
            u.capturing = false;
            let id = owned[i].0;
            let _ = game.units.update(id, u);
        }
        proof {
            assert(game.units@ =~= apply_to(u0, prefix_ids(e, i + 1), f));
        }
        i = i + 1;
    }
    proof {
        lemma_prefix_ids_contains(e, e.len() as int);
        assert forall|k: usize| #[trigger] u0.contains_key(k) && !prefix_ids(e, e.len() as int).contains(k)
            implies f(u0[k]) == u0[k] by {
            if u0[k].owner == Some(player_number) {
                let j = choose|j: int| 0 <= j < e.len() && e[j].0 == k;
            }
        }
        assert(game.units@ =~= u0.map_values(f));
    }
}

/// Whether tile `t` of `pn` regains capture points: it is worn down and holds a unit, known to
/// `units`, that is not capturing it.
pub open spec fn regenerates(t: Tile, units: Map<UnitId, UnitModel>, pn: PlayerNumber) -> bool {
    &&& t.owner == Some(pn)
    &&& t.capture_points < MAX_CAPTURE_POINTS
    &&& t.unit is Some
    &&& units.contains_key(t.unit->0)
    &&& !units[t.unit->0].capturing
}

/// Capture points after one turn of regeneration.
pub open spec fn regenerated_points(cp: u32) -> u32 {
    if cp + CAPTURE_POINT_REGEN_RATE < MAX_CAPTURE_POINTS {
        (cp + CAPTURE_POINT_REGEN_RATE) as u32
    } else {
        MAX_CAPTURE_POINTS
    }
}

/// Tile `t` after the start of `pn`'s turn.
pub open spec fn regen_tile(units: Map<UnitId, UnitModel>, pn: PlayerNumber) -> spec_fn(Tile) -> Tile {
    |t: Tile| if regenerates(t, units, pn) { Tile { capture_points: regenerated_points(t.capture_points), ..t } } else { t }
}

/// The event that reports the regeneration of tile `k` in `tiles`.
pub open spec fn regen_event(tiles: Map<TileId, Tile>) -> spec_fn(TileId) -> Event {
    |k: TileId| Event::TileCapturePointRegen(k, tiles[k].capture_points)
}

/// Ids of the tiles that regenerate.
pub open spec fn regen_ids(tiles: Map<TileId, Tile>, units: Map<UnitId, UnitModel>, pn: PlayerNumber) -> Set<TileId> {
    tiles.dom().filter(|k: TileId| regenerates(tiles[k], units, pn))
}

/// Worn tiles of `player_number` that hold a unit which is not capturing regain capture points.
fn regenerate_capture_points(game: &mut Game, player_number: PlayerNumber, events: &mut Vec<Event>)
    ensures
        final(game).tiles@ == old(game).tiles@.map_values(regen_tile(old(game).units@, player_number)),
        exists|rs: Seq<TileId>| #![trigger rs.to_set()]
            rs.no_duplicates() && rs.to_set() == regen_ids(old(game).tiles@, old(game).units@, player_number)
            && final(events)@ == old(events)@ + rs.map_values(regen_event(final(game).tiles@)),
        final(game).units == old(game).units,
        final(game).players == old(game).players,
        final(game).state == old(game).state,
        final(game).in_turn_index == old(game).in_turn_index,
        final(game).round_count == old(game).round_count,
        final(game).turn_count == old(game).turn_count,
        final(game).next_unit_id == old(game).next_unit_id,
{
    let owned = game.tiles.owned_by_player(player_number);
    let ghost t0 = game.tiles@;
    let ghost u0 = game.units@;
    let ghost f = regen_tile(u0, player_number);
    let ghost mut rs: Seq<TileId> = Seq::empty();
    let mut i: usize = 0;
    proof {
        lemma_prefix_ids_contains(owned@, 0);
        assert(apply_to(t0, prefix_ids(owned@, 0), f) =~= t0);
    }
    while i < owned.len()
        invariant
            i <= owned@.len(),
            f == regen_tile(u0, player_number),
            enumerates(owned@, t0, |t: Tile| t.owner == Some(player_number)),
            game.tiles@ == apply_to(t0, prefix_ids(owned@, i as int), f),
            rs.no_duplicates(),
            forall|k: TileId| rs.contains(k) <==> prefix_ids(owned@, i as int).contains(k) && regenerates(t0[k], u0, player_number),
            events@ == old(events)@ + rs.map_values(|k: TileId| Event::TileCapturePointRegen(k, f(t0[k]).capture_points)),
            t0 == old(game).tiles@,
            u0 == old(game).units@,
            game.units == old(game).units,
            game.players == old(game).players,
            game.state == old(game).state,
            game.in_turn_index == old(game).in_turn_index,
            game.round_count == old(game).round_count,
            game.turn_count == old(game).turn_count,
            game.next_unit_id == old(game).next_unit_id,
        decreases owned@.len() - i,
    {
        let ghost k = owned@[i as int].0;
        proof {
            lemma_prefix_ids_step(owned@, i as int);
            lemma_prefix_ids_contains(owned@, i + 1);
            lemma_apply_to_step(t0, prefix_ids(owned@, i as int), f, k);
            assert(t0.contains_key(k) && t0[k] == owned@[i as int].1);
            assert(!prefix_ids(owned@, i as int).contains(k)) by {
                if prefix_ids(owned@, i as int).contains(k) {
                    let j = choose|j: int| 0 <= j < i && #[trigger] owned@[j].0 == k;
                    assert(owned@[j].0 != owned@[i as int].0);
                }
            }
        }
        let ghost old_rs = rs;
        let (tile_id, tile) = owned[i];
        if tile.capture_points < MAX_CAPTURE_POINTS {
            if let Some(unit_id) = tile.unit {
                if let Some(unit) = game.units.get_ref(&unit_id) {
                    if !unit.capturing {
                        let sum = tile.capture_points + CAPTURE_POINT_REGEN_RATE;
                        let new_points = if sum < MAX_CAPTURE_POINTS { sum } else { MAX_CAPTURE_POINTS };
                        events.push(Event::TileCapturePointRegen(tile_id, new_points));
                        proof {
                            assert(!rs.contains(k));
                            rs = rs.push(k);
                        }
                        let _ = game.tiles.update(tile_id, Tile { capture_points: new_points, ..tile });
                    }
                }
            }
        }
        proof {
            assert(game.tiles@ =~= apply_to(t0, prefix_ids(owned@, i + 1), f));
            assert forall|x: TileId| rs.contains(x) <==> prefix_ids(owned@, i + 1).contains(x) && regenerates(t0[x], u0, player_number) by {
                if x == k {
                    if regenerates(t0[x], u0, player_number) {
                        assert(rs[rs.len() - 1] == k);
                    } else {
                        if rs.contains(x) {
                            let j = choose|j: int| 0 <= j < rs.len() && rs[j] == x;
                            assert(old_rs.contains(x));
                        }
                    }
                } else {
                    if rs.contains(x) {
                        let j = choose|j: int| 0 <= j < rs.len() && rs[j] == x;
                        assert(old_rs[j] == x);
                    }
                    if old_rs.contains(x) {
                        let j = choose|j: int| 0 <= j < old_rs.len() && old_rs[j] == x;
                        assert(rs[j] == x);
                    }
                }
            }
            assert(events@ =~= old(events)@ + rs.map_values(|k: TileId| Event::TileCapturePointRegen(k, f(t0[k]).capture_points)));
        }
        i = i + 1;
    }
    proof {
        lemma_prefix_ids_contains(owned@, owned@.len() as int);
        assert forall|k: usize| #[trigger] t0.contains_key(k) && !prefix_ids(owned@, owned@.len() as int).contains(k)
            implies f(t0[k]) == t0[k] by {
            if t0[k].owner == Some(player_number) {
                let j = choose|j: int| 0 <= j < owned@.len() && owned@[j].0 == k;
            }
        }
        assert(game.tiles@ =~= t0.map_values(f));
        assert(rs.to_set() =~= regen_ids(t0, u0, player_number)) by {
            assert forall|x: TileId| rs.to_set().contains(x) <==> regen_ids(t0, u0, player_number).contains(x) by {
                if regen_ids(t0, u0, player_number).contains(x) {
                    assert(t0[x].owner == Some(player_number));
                    let j = choose|j: int| 0 <= j < owned@.len() && owned@[j].0 == x;
                }
            }
        }
        assert forall|j: int| 0 <= j < rs.len() implies t0.contains_key(#[trigger] rs[j]) by {
            assert(rs.to_set().contains(rs[j]));
        }
        assert(rs.map_values(|k: TileId| Event::TileCapturePointRegen(k, f(t0[k]).capture_points))
            =~= rs.map_values(regen_event(game.tiles@)));
    }
}

/// Some tile of `pn` in `tiles` holds unit `u`.
pub open spec fn hosted_by(tiles: Map<TileId, Tile>, pn: PlayerNumber, u: UnitId) -> bool {
    exists|k: TileId| tiles.contains_key(k) && tiles[k].owner == Some(pn) && #[trigger] tiles[k].unit == Some(u)
}

/// The tile of `pn` in `tiles` that holds unit `u` (meaningful where one does).
pub open spec fn host_of(tiles: Map<TileId, Tile>, pn: PlayerNumber, u: UnitId) -> TileId {
    choose|k: TileId| tiles.contains_key(k) && tiles[k].owner == Some(pn) && #[trigger] tiles[k].unit == Some(u)
}

/// Whether tile `t` repairs unit `m`: the unit is damaged and the terrain serves its class.
pub open spec fn repair_applies(m: UnitModel, t: Tile) -> bool {
    m.health < UNIT_MAX_HEALTH && terrain_repair_classes(t.terrain).contains(unit_class_of(m.unit_type))
}

/// Health of unit `m` after tile `t` repairs it.
pub open spec fn repaired_health(m: UnitModel, t: Tile) -> u32 {
    if m.health + repair_of(t.capture_points) < UNIT_MAX_HEALTH {
        (m.health + repair_of(t.capture_points)) as u32
    } else {
        UNIT_MAX_HEALTH
    }
}

/// Unit `m` after tile `t` has had the chance to repair it.
pub open spec fn repair_one(m: UnitModel, t: Tile) -> UnitModel {
    if repair_applies(m, t) { UnitModel { health: repaired_health(m, t), ..m } } else { m }
}

/// Unit `u` after the start of `pn`'s turn on `tiles`.
pub open spec fn repair_unit(tiles: Map<TileId, Tile>, pn: PlayerNumber) -> spec_fn(UnitId, UnitModel) -> UnitModel {
    |u: UnitId, m: UnitModel| if hosted_by(tiles, pn, u) { repair_one(m, tiles[host_of(tiles, pn, u)]) } else { m }
}

/// Ids of the units that the tiles of `pn` repair.
pub open spec fn repair_ids(tiles: Map<TileId, Tile>, units: Map<UnitId, UnitModel>, pn: PlayerNumber) -> Set<UnitId> {
    units.dom().filter(|u: UnitId| hosted_by(tiles, pn, u) && repair_applies(units[u], tiles[host_of(tiles, pn, u)]))
}

/// The event that reports the repair of unit `u` in `units`.
pub open spec fn repair_event(units: Map<UnitId, UnitModel>) -> spec_fn(UnitId) -> Event {
    |u: UnitId| Event::UnitRepair(u, units[u].health)
}

/// Whether repairing on the tiles of `pn` keeps within `u32`.
pub open spec fn repair_computable(tiles: Map<TileId, Tile>, pn: PlayerNumber) -> bool {
    forall|k: TileId| #[trigger] tiles.contains_key(k) && tiles[k].owner == Some(pn)
        ==> UNIT_MAX_REPAIR_RATE * tiles[k].capture_points <= u32::MAX
}

/// Unit `u` after the tiles of `pn` among `done` have had the chance to repair it.
pub open spec fn repair_step(tiles: Map<TileId, Tile>, pn: PlayerNumber, u: UnitId, m: UnitModel, done: Set<TileId>) -> UnitModel {
    if hosted_by(tiles, pn, u) && done.contains(host_of(tiles, pn, u)) {
        repair_one(m, tiles[host_of(tiles, pn, u)])
    } else {
        m
    }
}

/// Damaged units on tiles of `player_number` that serve their class are repaired.
fn repair_units(game: &mut Game, player_number: PlayerNumber, events: &mut Vec<Event>)
    requires
        old(game).tiles.wf(),
        repair_computable(old(game).tiles@, player_number),
    ensures
        final(game).units@ == old(game).units@.map_entries(repair_unit(old(game).tiles@, player_number)),
        exists|us: Seq<UnitId>| #![trigger us.to_set()]
            us.no_duplicates() && us.to_set() == repair_ids(old(game).tiles@, old(game).units@, player_number)
            && final(events)@ == old(events)@ + us.map_values(repair_event(final(game).units@)),
        final(game).tiles == old(game).tiles,
        final(game).players == old(game).players,
        final(game).state == old(game).state,
        final(game).in_turn_index == old(game).in_turn_index,
        final(game).round_count == old(game).round_count,
        final(game).turn_count == old(game).turn_count,
        final(game).next_unit_id == old(game).next_unit_id,
{
    let owned = game.tiles.owned_by_player(player_number);
    let ghost t0 = game.tiles@;
    let ghost u0 = game.units@;
    let ghost mut us: Seq<UnitId> = Seq::empty();
    let mut i: usize = 0;
    proof {
        lemma_prefix_ids_contains(owned@, 0);
        assert(u0.map_entries(|u: UnitId, m: UnitModel| repair_step(t0, player_number, u, m, prefix_ids(owned@, 0))) =~= u0);
    }
    while i < owned.len()
        invariant
            i <= owned@.len(),
            enumerates(owned@, t0, |t: Tile| t.owner == Some(player_number)),
            game.tiles.wf(),
            repair_computable(t0, player_number),
            game.units@ == u0.map_entries(|u: UnitId, m: UnitModel| repair_step(t0, player_number, u, m, prefix_ids(owned@, i as int))),
            us.no_duplicates(),
            forall|u: UnitId| us.contains(u) <==> u0.contains_key(u) && hosted_by(t0, player_number, u)
                && prefix_ids(owned@, i as int).contains(host_of(t0, player_number, u))
                && repair_applies(u0[u], t0[host_of(t0, player_number, u)]),
            events@ == old(events)@ + us.map_values(|u: UnitId| Event::UnitRepair(u,
                repaired_health(u0[u], t0[host_of(t0, player_number, u)]))),
            t0 == old(game).tiles@,
            t0 == game.tiles@,
            u0 == old(game).units@,
            game.tiles == old(game).tiles,
            game.players == old(game).players,
            game.state == old(game).state,
            game.in_turn_index == old(game).in_turn_index,
            game.round_count == old(game).round_count,
            game.turn_count == old(game).turn_count,
            game.next_unit_id == old(game).next_unit_id,
        decreases owned@.len() - i,
    {
        let ghost k = owned@[i as int].0;
        proof {
            lemma_prefix_ids_step(owned@, i as int);
            lemma_prefix_ids_contains(owned@, i + 1);
            assert(t0.contains_key(k) && t0[k] == owned@[i as int].1);
            assert(!prefix_ids(owned@, i as int).contains(k)) by {
                if prefix_ids(owned@, i as int).contains(k) {
                    let j = choose|j: int| 0 <= j < i && #[trigger] owned@[j].0 == k;
                    assert(owned@[j].0 != owned@[i as int].0);
                }
            }
            assert forall|u: UnitId| hosted_by(t0, player_number, u) && host_of(t0, player_number, u) == k
                implies t0[k].unit == Some(u) by {
            }
        }
        let ghost old_us = us;
        let ghost old_units = game.units@;
        let (_, tile) = owned[i];
        if let Some(unit_id) = tile.unit {
            proof {
                assert(hosted_by(t0, player_number, unit_id));
                let h = host_of(t0, player_number, unit_id);
                assert(game.tiles.placement_unique(unit_id));
                assert(h == k);
            }
            if let Some(unit) = game.units.get(unit_id) {
                let mut unit = unit;
                if unit.is_damaged() && tile.can_repair_unit(&unit) {
                    let sum = unit.health + tile.repair_rate();
                    let new_health = if sum < UNIT_MAX_HEALTH { sum } else { UNIT_MAX_HEALTH };
                    unit.health = new_health;
                    events.push(Event::UnitRepair(unit_id, new_health));
                    proof {
                        assert(!us.contains(unit_id));
                        us = us.push(unit_id);
                    }
                    let _ = game.units.update(unit_id, unit);
                }
            }
            proof {
                let p0 = prefix_ids(owned@, i as int);
                let p1 = prefix_ids(owned@, i + 1);
                assert forall|u: UnitId| #[trigger] u0.contains_key(u) implies game.units@.contains_key(u)
                    && game.units@[u] == repair_step(t0, player_number, u, u0[u], p1) by {
                    if u != unit_id {
                        if hosted_by(t0, player_number, u) {
                            assert(host_of(t0, player_number, u) != k);
                            assert(p1.contains(host_of(t0, player_number, u)) == p0.contains(host_of(t0, player_number, u)));
                        }
                        assert(repair_step(t0, player_number, u, u0[u], p1) == repair_step(t0, player_number, u, u0[u], p0));
                    } else {
                        assert(old_units[u] == u0[u]);
                    }
                }
                assert(game.units@.dom() =~= u0.dom());
                assert(game.units@ =~= u0.map_entries(|u: UnitId, m: UnitModel| repair_step(t0, player_number, u, m, p1)));
                assert forall|u: UnitId| us.contains(u) <==> u0.contains_key(u) && hosted_by(t0, player_number, u)
                    && prefix_ids(owned@, i + 1).contains(host_of(t0, player_number, u))
                    && repair_applies(u0[u], t0[host_of(t0, player_number, u)]) by {
                    if u == unit_id {
                        assert(!old_us.contains(u));
                        assert(host_of(t0, player_number, u) == k);
                        if us.contains(u) {
                            let j = choose|j: int| 0 <= j < us.len() && us[j] == u;
                            assert(j == us.len() - 1);
                        }
                        if u0.contains_key(u) && repair_applies(u0[u], t0[k]) {
                            assert(old_units[u] == u0[u]);
                            assert(us[us.len() - 1] == u);
                        }
                    } else {
                        if hosted_by(t0, player_number, u) {
                            assert(host_of(t0, player_number, u) != k);
                            assert(p1.contains(host_of(t0, player_number, u)) == p0.contains(host_of(t0, player_number, u)));
                        }
                        if us.contains(u) {
                            let j = choose|j: int| 0 <= j < us.len() && us[j] == u;
                            assert(old_us[j] == u);
                        }
                        if old_us.contains(u) {
                            let j = choose|j: int| 0 <= j < old_us.len() && old_us[j] == u;
                            assert(us[j] == u);
                        }
                    }
                }
            }
        } else {
            proof {
                let p0 = prefix_ids(owned@, i as int);
                let p1 = prefix_ids(owned@, i + 1);
                assert forall|u: UnitId| #[trigger] u0.contains_key(u) implies repair_step(t0, player_number, u, u0[u], p1) == repair_step(t0, player_number, u, u0[u], p0) by {
                    if hosted_by(t0, player_number, u) {
                        assert(host_of(t0, player_number, u) != k);
                        assert(p1.contains(host_of(t0, player_number, u)) == p0.contains(host_of(t0, player_number, u)));
                    }
                }
                assert(game.units@ =~= u0.map_entries(|u: UnitId, m: UnitModel| repair_step(t0, player_number, u, m, p1)));
                assert forall|u: UnitId| us.contains(u) <==> u0.contains_key(u) && hosted_by(t0, player_number, u)
                    && p1.contains(host_of(t0, player_number, u))
                    && repair_applies(u0[u], t0[host_of(t0, player_number, u)]) by {
                    if hosted_by(t0, player_number, u) {
                        assert(host_of(t0, player_number, u) != k);
                    }
                }
            }
        }
        proof {
            assert(events@ =~= old(events)@ + us.map_values(|u: UnitId| Event::UnitRepair(u,
                repaired_health(u0[u], t0[host_of(t0, player_number, u)]))));
        }
        i = i + 1;
    }
    proof {
        lemma_prefix_ids_contains(owned@, owned@.len() as int);
        assert forall|u: UnitId| hosted_by(t0, player_number, u) implies
            prefix_ids(owned@, owned@.len() as int).contains(host_of(t0, player_number, u)) by {
            let h = host_of(t0, player_number, u);
            let j = choose|j: int| 0 <= j < owned@.len() && owned@[j].0 == h;
        }
        assert(game.units@ =~= u0.map_entries(repair_unit(t0, player_number)));
        assert(us.to_set() =~= repair_ids(t0, u0, player_number));
        assert forall|j: int| 0 <= j < us.len() implies u0.contains_key(#[trigger] us[j]) by {
            assert(us.contains(us[j]));
        }
        assert forall|j: int| 0 <= j < us.len() implies game.units@[#[trigger] us[j]].health
            == repaired_health(u0[us[j]], t0[host_of(t0, player_number, us[j])]) by {
            assert(us.contains(us[j]));
        }
        assert(us.map_values(|u: UnitId| Event::UnitRepair(u, repaired_health(u0[u], t0[host_of(t0, player_number, u)])))
            =~= us.map_values(repair_event(game.units@)));
    }
}

/// Whether starting the turn of `pn` keeps funds, capture points and repairs within `u32`.
pub open spec fn turn_start_computable(tiles: Map<TileId, Tile>, players: Seq<Player>, pn: PlayerNumber) -> bool {
    &&& forall|k: TileId| #[trigger] tiles.contains_key(k) && tiles[k].owner == Some(pn)
        ==> FUNDS_PER_PROPERTY * tiles[k].capture_points <= u32::MAX
    &&& (exists|i: int| 0 <= i < players.len() && #[trigger] players[i].number == pn)
        ==> players[seat_of(players, pn)].funds + generated_total(tiles, pn) <= u32::MAX
    &&& repair_computable(tiles, pn)
}

/// `after` is `before` once the turn of `pn` has started, and `ev1` is `ev0` with the events of
/// that start: the seat collects the funds of its properties, its units stop capturing, its worn
/// properties that hold a unit which is not capturing regain capture points, and its properties
/// repair the damaged units they hold.
pub open spec fn turn_started(before: Game, after: Game, pn: PlayerNumber, ev0: Seq<Event>, ev1: Seq<Event>) -> bool {
    let g = generated_total(before.tiles@, pn);
    let i = seat_of(before.players@, pn);
    let u1 = before.units@.map_values(reset_capture(pn));
    let t2 = before.tiles@.map_values(regen_tile(u1, pn));
    &&& after.players@ == before.players@.update(i, Player { funds: (before.players@[i].funds + g) as u32, ..before.players@[i] })
    &&& after.tiles@ == t2
    &&& after.units@ == u1.map_entries(repair_unit(t2, pn))
    &&& exists|rs: Seq<TileId>, us: Seq<UnitId>|
        #![trigger rs.to_set(), us.to_set()]
        rs.no_duplicates() && rs.to_set() == regen_ids(before.tiles@, u1, pn)
        && us.no_duplicates() && us.to_set() == repair_ids(t2, u1, pn)
        && ev1 == ev0 + seq![Event::StartTurn(pn), Event::Funds(pn, g as u32)]
            + rs.map_values(regen_event(t2)) + us.map_values(repair_event(after.units@))
    &&& after.state == before.state
    &&& after.in_turn_index == before.in_turn_index
    &&& after.round_count == before.round_count
    &&& after.turn_count == before.turn_count
    &&& after.next_unit_id == before.next_unit_id
}

/// Starts the turn of the seat numbered `player_number`.
fn start_turn(game: &mut Game, player_number: PlayerNumber, events: &mut Vec<Event>) -> (r: ActionResult<()>)
    requires
        old(game).wf(),
        turn_start_computable(old(game).tiles@, old(game).players@, player_number),
    ensures
        r is Ok <==> old(game).players.has_number(player_number),
        r is Err ==> r == Err::<(), _>(ActionError::InternalError) && *final(game) == *old(game)
            && final(events)@ == old(events)@.push(Event::StartTurn(player_number)),
        r is Ok ==> turn_started(*old(game), *final(game), player_number, old(events)@, final(events)@),
        final(game).wf(),
{
    events.push(Event::StartTurn(player_number));
    let mut player = match game.get_player(player_number) {
        Some(p) => p,
        None => {
            return Err(ActionError::InternalError);
        },
    };
    let ghost g0 = *game;
    let ghost ev1 = events@;
    let ghost i = seat_of(game.players@, player_number);
    proof {
        let j = choose|j: int| 0 <= j < game.players@.len() && game.players@[j] == player
            && player.number == player_number
            && forall|x: int| 0 <= x < j ==> (#[trigger] game.players@[x]).number != player_number;
        assert(game.players.number_unique(player_number));
        assert(j == i);
    }
    let generated = collect_funds(game, player_number);
    player.funds = player.funds + generated;
    match game.players.update(player) {
        Ok(()) => {},
        Err(_) => {
            return Err(ActionError::InternalError);
        },
    }
    proof {
        assert(game.players@ == g0.players@.update(i, player));
        lemma_update_keeps_numbers_unique(g0.players, game.players, i, player);
    }
    events.push(Event::Funds(player_number, generated));
    let ghost ev2 = events@;
    reset_captures(game, player_number);
    let ghost u1 = game.units@;
    regenerate_capture_points(game, player_number, events);
    let ghost t2 = game.tiles@;
    let ghost ev3 = events@;
    proof {
        assert(t2 == g0.tiles@.map_values(regen_tile(u1, player_number)));
        assert(t2.dom() =~= g0.tiles@.dom());
        assert(same_layout(g0.tiles@, t2));
        lemma_same_layout_wf(g0.tiles, game.tiles);
        assert forall|k: TileId| #[trigger] t2.contains_key(k) && t2[k].owner == Some(player_number)
            implies UNIT_MAX_REPAIR_RATE * t2[k].capture_points <= u32::MAX by {
            assert(g0.tiles@.contains_key(k));
        }
    }
    repair_units(game, player_number, events);
    proof {
        let rs = choose|rs: Seq<TileId>| #![trigger rs.to_set()]
            rs.no_duplicates() && rs.to_set() == regen_ids(g0.tiles@, u1, player_number)
            && ev3 == ev2 + rs.map_values(regen_event(t2));
        let us = choose|us: Seq<UnitId>| #![trigger us.to_set()]
            us.no_duplicates() && us.to_set() == repair_ids(t2, u1, player_number)
            && events@ == ev3 + us.map_values(repair_event(game.units@));
        assert(events@ =~= old(events)@ + seq![Event::StartTurn(player_number), Event::Funds(player_number, generated)]
            + rs.map_values(regen_event(t2)) + us.map_values(repair_event(game.units@)));
        assert(turn_started(g0, *game, player_number, old(events)@, events@));
    }
    Ok(())
}

/// A unit once its owner's turn is over: free to move again.
pub open spec fn clear_moved() -> spec_fn(UnitModel) -> UnitModel {
    |m: UnitModel| UnitModel { moved: false, ..m }
}

/// Whether player `n` still owns a unit or a tile on which units can be built.
pub open spec fn still_alive(tiles: Map<TileId, Tile>, units: Map<UnitId, UnitModel>, n: PlayerNumber) -> bool {
    ||| exists|k: UnitId| units.contains_key(k) && #[trigger] units[k].owner == Some(n)
    ||| exists|k: TileId| tiles.contains_key(k) && #[trigger] tiles[k].owner == Some(n)
        && terrain_build_classes(tiles[k].terrain).len() > 0
}

/// The seats with their alive flags brought up to date.
pub open spec fn alive_updated(tiles: Map<TileId, Tile>, units: Map<UnitId, UnitModel>, players: Seq<Player>) -> Seq<Player> {
    players.map_values(|p: Player| Player { alive: still_alive(tiles, units, p.number), ..p })
}

/// Number of the only living seat, if exactly one lives.
pub open spec fn winner_of(players: Seq<Player>) -> Option<PlayerNumber> {
    if exists|i: int| 0 <= i < players.len() && #[trigger] players[i].alive
        && forall|j: int| 0 <= j < players.len() && j != i ==> !(#[trigger] players[j]).alive {
        Some(players[choose|i: int| 0 <= i < players.len() && #[trigger] players[i].alive
            && forall|j: int| 0 <= j < players.len() && j != i ==> !(#[trigger] players[j]).alive].number)
    } else {
        None
    }
}

/// `mid` is `before` once its turn is over: every unit may move again and the seats that no
/// longer own a unit or a building tile are out.
pub open spec fn turn_ended(before: Game, mid: Game) -> bool {
    &&& mid.units@ == before.units@.map_values(clear_moved())
    &&& mid.tiles == before.tiles
    &&& mid.players@ == alive_updated(before.tiles@, before.units@, before.players@)
    &&& mid.state == before.state
    &&& mid.in_turn_index == before.in_turn_index
    &&& mid.round_count == before.round_count
    &&& mid.turn_count == before.turn_count
    &&& mid.next_unit_id == before.next_unit_id
}

/// Every unit may move again; reports the end of `player_number`'s turn.
fn finish_turn(game: &mut Game, player_number: PlayerNumber, events: &mut Vec<Event>)
    ensures
        final(game).units@ == old(game).units@.map_values(clear_moved()),
        final(events)@ == old(events)@.push(Event::EndTurn(player_number)),
        final(game).tiles == old(game).tiles,
        final(game).players == old(game).players,
        final(game).state == old(game).state,
        final(game).in_turn_index == old(game).in_turn_index,
        final(game).round_count == old(game).round_count,
        final(game).turn_count == old(game).turn_count,
        final(game).next_unit_id == old(game).next_unit_id,
{
    let all = game.units.iter_with_ids();
    let ghost u0 = game.units@;
    let ghost e = unit_models(all@);
    let ghost f = clear_moved();
    let mut i: usize = 0;
    proof {
        lemma_prefix_ids_contains(e, 0);
        assert(apply_to(u0, prefix_ids(e, 0), f) =~= u0);
    }
    while i < all.len()
        invariant
            i <= all@.len(),
            e == unit_models(all@),
            f == clear_moved(),
            lists_all(e, u0),
            game.units@ == apply_to(u0, prefix_ids(e, i as int), f),
            u0 == old(game).units@,
            game.tiles == old(game).tiles,
            game.players == old(game).players,
            game.state == old(game).state,
            game.in_turn_index == old(game).in_turn_index,
            game.round_count == old(game).round_count,
            game.turn_count == old(game).turn_count,
            game.next_unit_id == old(game).next_unit_id,
        decreases all@.len() - i,
    {
        let ghost k = e[i as int].0;
        proof {
            lemma_prefix_ids_step(e, i as int);
            lemma_apply_to_step(u0, prefix_ids(e, i as int), f, k);
            assert(u0.contains_key(k) && u0[k] == e[i as int].1);
        }
        if all[i].1.moved {
            let mut u = all[i].1.duplicate();
            u.moved = false;
            let id = all[i].0;
            let _ = game.units.update(id, u);
        }
        proof {
            assert(game.units@ =~= apply_to(u0, prefix_ids(e, i + 1), f));
        }
        i = i + 1;
    }
    proof {
        lemma_prefix_ids_contains(e, e.len() as int);
        assert forall|k: usize| #[trigger] u0.contains_key(k) implies prefix_ids(e, e.len() as int).contains(k) by {
            let j = choose|j: int| 0 <= j < e.len() && e[j].0 == k;
        }
        assert(game.units@ =~= u0.map_values(f));
    }
    events.push(Event::EndTurn(player_number));
}

/// The seat number of the next seat to play after `mid`, if the game goes on.
pub open spec fn next_seat(mid: Game) -> Option<int> {
    next_alive_index(mid.players@, mid.in_turn_index as int, 0)
}

/// Whether ending a turn stays within machine integers on a game in progress with these tiles,
/// units and seats, and this seat in turn.
pub open spec fn end_turn_computable_on(tiles: Map<TileId, Tile>, units: Map<UnitId, UnitModel>, players: Seq<Player>, in_turn_index: usize) -> bool {
    let players1 = alive_updated(tiles, units, players);
    &&& in_turn_index + players.len() < usize::MAX
    &&& winner_of(players1) is None ==>
        (next_alive_index(players1, in_turn_index as int, 0) matches Some(k) ==>
            turn_start_computable(tiles, players1, players1[k].number))
}

/// Whether `end_turn` stays within machine integers on `game`.
pub open spec fn end_turn_computable(game: Game) -> bool {
    game.state == GameState::InProgress ==> end_turn_computable_on(game.tiles@, game.units@, game.players@, game.in_turn_index)
}

/// `after`, `r` and `ev1` are what ending the turn of the seat in turn makes of the game in
/// progress `before` and the events `ev0`: every unit may move again, seats without units or
/// building tiles drop out, and then either the last seat standing wins, or the next living seat
/// starts its turn, or, with no living seat, `InternalError` is returned.
pub open spec fn turn_end_outcome(before: Game, after: Game, r: ActionResult<()>, ev0: Seq<Event>, ev1: Seq<Event>) -> bool {
    exists|mid: Game| #![trigger turn_ended(before, mid)]
        turn_ended(before, mid) && {
            let n = before.spec_in_turn_number()->0;
            let ev = ev0.push(Event::EndTurn(n));
            match winner_of(mid.players@) {
                Some(w) => r is Ok && after == (Game { state: GameState::Finished, ..mid })
                    && ev1 == ev.push(Event::WinGame(w)),
                None => match next_seat(mid) {
                    None => r == Err::<(), _>(ActionError::InternalError) && after == mid && ev1 == ev,
                    Some(k) => r is Ok && turn_started(Game { in_turn_index: k as usize, ..mid }, after,
                        mid.players@[k].number, ev, ev1),
                },
            }
        }
}

/// Ends the turn of the seat in turn: every unit may move again, seats without units or
/// building tiles drop out, and then either the last seat standing wins or the next living seat
/// starts its turn.
pub fn end_turn(game: &mut Game, events: &mut Vec<Event>) -> (r: ActionResult<()>)
    requires
        old(game).wf(),
        end_turn_computable(*old(game)),
    ensures
        final(game).wf(),
        old(game).state != GameState::InProgress ==> r == Err::<(), _>(ActionError::InternalError)
            && *final(game) == *old(game) && final(events)@ == old(events)@,
        old(game).state == GameState::InProgress ==> turn_end_outcome(*old(game), *final(game), r, old(events)@, final(events)@),
{
    let in_turn_number = match game.in_turn_number() {
        Some(n) => n,
        None => {
            return Err(ActionError::InternalError);
        },
    };
    let ghost g0 = *game;
    finish_turn(game, in_turn_number, events);
    let ghost ev = events@;
    let with_units = game.players_with_units();
    let with_build = game.players_with_build_tiles();
    let seats = game.players.iter();
    let ghost p0 = game.players@;
    let ghost upd = |p: Player| Player { alive: still_alive(g0.tiles@, g0.units@, p.number), ..p };
    proof {
        assert forall|n: PlayerNumber| with_units@.contains(n) <==> exists|k: UnitId|
            g0.units@.contains_key(k) && #[trigger] g0.units@[k].owner == Some(n) by {
            if with_units@.contains(n) {
                let k = choose|k: UnitId| game.units@.contains_key(k) && #[trigger] game.units@[k].owner == Some(n);
                assert(g0.units@.contains_key(k) && g0.units@[k].owner == Some(n));
            }
            if exists|k: UnitId| g0.units@.contains_key(k) && #[trigger] g0.units@[k].owner == Some(n) {
                let k = choose|k: UnitId| g0.units@.contains_key(k) && #[trigger] g0.units@[k].owner == Some(n);
                assert(game.units@.contains_key(k) && game.units@[k].owner == Some(n));
            }
        }
    }
    let mut i: usize = 0;
    while i < seats.len()
        invariant
            i <= seats@.len(),
            seats@ == p0,
            upd == (|p: Player| Player { alive: still_alive(g0.tiles@, g0.units@, p.number), ..p }),
            game.players@.len() == p0.len(),
            forall|j: int| 0 <= j < i ==> #[trigger] game.players@[j] == upd(p0[j]),
            forall|j: int| i <= j < p0.len() ==> #[trigger] game.players@[j] == p0[j],
            forall|n: PlayerNumber| game.players.number_unique(n),
            forall|n: PlayerNumber| with_units@.contains(n) <==> exists|k: UnitId|
                g0.units@.contains_key(k) && #[trigger] g0.units@[k].owner == Some(n),
            forall|n: PlayerNumber| with_build@.contains(n) <==> exists|k: TileId|
                g0.tiles@.contains_key(k) && #[trigger] g0.tiles@[k].owner == Some(n)
                && terrain_build_classes(g0.tiles@[k].terrain).len() > 0,
            game.tiles == g0.tiles,
            game.units@ == g0.units@.map_values(clear_moved()),
            game.state == g0.state,
            game.in_turn_index == g0.in_turn_index,
            game.round_count == g0.round_count,
            game.turn_count == g0.turn_count,
            game.next_unit_id == g0.next_unit_id,
            events@ == ev,
        decreases seats@.len() - i,
    {
        let p = seats[i];
        let alive = with_units.contains(&p.number) || with_build.contains(&p.number);
        proof {
            assert(alive == still_alive(g0.tiles@, g0.units@, p.number));
        }
        if p.alive != alive {
            let ghost before = game.players;
            let q = Player { alive, ..p };
            proof {
                assert(game.players@[i as int].number == q.number);
                assert(game.players.has_number(q.number));
            }
            match game.players.update(q) {
                Ok(()) => {},
                Err(_) => {
                    return Err(ActionError::InternalError);
                },
            }
            proof {
                let x = choose|x: int| 0 <= x < before@.len() && before@[x].number == q.number
                    && game.players@ == before@.update(x, q);
                assert(before.number_unique(q.number));
                assert(before@[i as int].number == q.number);
                assert(x == i);
                lemma_update_keeps_numbers_unique(before, game.players, x, q);
            }
        }
        i = i + 1;
    }
    proof {
        assert(game.players@ =~= alive_updated(g0.tiles@, g0.units@, g0.players@));
    }
    let ghost mid = *game;
    assert(turn_ended(g0, mid));
    if let Some(winner) = game.winner() {
        proof {
            let x = choose|x: int| 0 <= x < mid.players@.len() && mid.players@[x].alive
                && mid.players@[x].number == winner
                && forall|j: int| 0 <= j < mid.players@.len() && j != x ==> !(#[trigger] mid.players@[j]).alive;
            let y = choose|i: int| 0 <= i < mid.players@.len() && #[trigger] mid.players@[i].alive
                && forall|j: int| 0 <= j < mid.players@.len() && j != i ==> !(#[trigger] mid.players@[j]).alive;
            assert(x == y);
            assert(winner_of(mid.players@) == Some(winner));
        }
        events.push(Event::WinGame(winner));
        match game.set_state(GameState::Finished) {
            Ok(()) => {},
            Err(_) => {
                return Err(ActionError::InternalError);
            },
        }
        return Ok(());
    }
    proof {
        assert(winner_of(mid.players@) is None);
    }
    let next = match game.next_player_number() {
        Some(n) => n,
        None => {
            return Err(ActionError::InternalError);
        },
    };
    let ghost k = next_seat(mid)->0;
    proof {
        assert(0 <= k < mid.players@.len()) by {
            lemma_next_alive_index_in_range(mid.players@, mid.in_turn_index as int, 0);
        }
    }
    match game.set_player_in_turn(next) {
        Ok(()) => {},
        Err(_) => {
            return Err(ActionError::InternalError);
        },
    }
    proof {
        assert(game.in_turn_index == k) by {
            assert(mid.players.number_unique(next));
        }
        assert(*game == (Game { in_turn_index: k as usize, ..mid }));
    }
    start_turn(game, next, events)
}

/// Starts a game that is being set up: it is then in progress and the first seat's turn starts.
pub fn start(game: &mut Game, events: &mut Vec<Event>) -> (r: ActionResult<()>)
    requires
        old(game).wf(),
        old(game).state == GameState::Pregame ==> old(game).in_turn_index < old(game).players@.len()
            && turn_start_computable(old(game).tiles@, old(game).players@,
                old(game).players@[old(game).in_turn_index as int].number),
    ensures
        final(game).wf(),
        old(game).state != GameState::Pregame ==> r == Err::<(), _>(ActionError::GameAlreadyStarted)
            && *final(game) == *old(game) && final(events)@ == old(events)@,
        old(game).state == GameState::Pregame ==> r is Ok
            && turn_started(Game { state: GameState::InProgress, ..*old(game) }, *final(game),
                old(game).players@[old(game).in_turn_index as int].number, old(events)@, final(events)@),
{
    if game.set_state(GameState::InProgress).is_err() {
        return Err(ActionError::GameAlreadyStarted);
    }
    let in_turn_number = match game.in_turn_number() {
        Some(n) => n,
        None => {
            return Err(ActionError::InternalError);
        },
    };
    assert(game.players.has_number(in_turn_number));
    start_turn(game, in_turn_number, events)
}

/// The tile after its owner `n` gives up: neutral.
pub open spec fn neutral_tile(n: PlayerNumber) -> spec_fn(Tile) -> Tile {
    |t: Tile| if t.owner == Some(n) { Tile { owner: None, ..t } } else { t }
}

/// The unit after its owner `n` gives up: neutral.
pub open spec fn neutral_unit(n: PlayerNumber) -> spec_fn(UnitModel) -> UnitModel {
    |m: UnitModel| if m.owner == Some(n) { UnitModel { owner: None, ..m } } else { m }
}

/// Tiles and units of `player_number` become neutral.
fn neutralize(game: &mut Game, player_number: PlayerNumber)
    ensures
        final(game).tiles@ == old(game).tiles@.map_values(neutral_tile(player_number)),
        final(game).units@ == old(game).units@.map_values(neutral_unit(player_number)),
        final(game).players == old(game).players,
        final(game).state == old(game).state,
        final(game).in_turn_index == old(game).in_turn_index,
        final(game).round_count == old(game).round_count,
        final(game).turn_count == old(game).turn_count,
        final(game).next_unit_id == old(game).next_unit_id,
{
    let owned = game.tiles.owned_by_player(player_number);
    let ghost t0 = game.tiles@;
    let ghost f = neutral_tile(player_number);
    let mut i: usize = 0;
    proof {
        lemma_prefix_ids_contains(owned@, 0);
        assert(apply_to(t0, prefix_ids(owned@, 0), f) =~= t0);
    }
    while i < owned.len()
        invariant
            i <= owned@.len(),
            f == neutral_tile(player_number),
            enumerates(owned@, t0, |t: Tile| t.owner == Some(player_number)),
            game.tiles@ == apply_to(t0, prefix_ids(owned@, i as int), f),
            t0 == old(game).tiles@,
            game.units == old(game).units,
            game.players == old(game).players,
            game.state == old(game).state,
            game.in_turn_index == old(game).in_turn_index,
            game.round_count == old(game).round_count,
            game.turn_count == old(game).turn_count,
            game.next_unit_id == old(game).next_unit_id,
        decreases owned@.len() - i,
    {
        let ghost k = owned@[i as int].0;
        proof {
            lemma_prefix_ids_step(owned@, i as int);
            lemma_apply_to_step(t0, prefix_ids(owned@, i as int), f, k);
            assert(t0.contains_key(k) && t0[k] == owned@[i as int].1);
        }
        let (tile_id, tile) = owned[i];
        let _ = game.tiles.update(tile_id, Tile { owner: None, ..tile });
        proof {
            assert(game.tiles@ =~= apply_to(t0, prefix_ids(owned@, i + 1), f));
        }
        i = i + 1;
    }
    proof {
        lemma_prefix_ids_contains(owned@, owned@.len() as int);
        assert forall|k: usize| #[trigger] t0.contains_key(k) && !prefix_ids(owned@, owned@.len() as int).contains(k)
            implies f(t0[k]) == t0[k] by {
            if t0[k].owner == Some(player_number) {
                let j = choose|j: int| 0 <= j < owned@.len() && owned@[j].0 == k;
            }
        }
        assert(game.tiles@ =~= t0.map_values(f));
    }
    let units = game.units.owned_by_player(player_number);
    let ghost u0 = game.units@;
    let ghost e = unit_models(units@);
    let ghost g = neutral_unit(player_number);
    let ghost t1 = game.tiles@;
    let mut i: usize = 0;
    proof {
        lemma_prefix_ids_contains(e, 0);
        assert(apply_to(u0, prefix_ids(e, 0), g) =~= u0);
    }
    while i < units.len()
        invariant
            i <= units@.len(),
            e == unit_models(units@),
            g == neutral_unit(player_number),
            enumerates(e, u0, |u: UnitModel| u.owner == Some(player_number)),
            game.units@ == apply_to(u0, prefix_ids(e, i as int), g),
            u0 == old(game).units@,
            game.tiles@ == t1,
            game.players == old(game).players,
            game.state == old(game).state,
            game.in_turn_index == old(game).in_turn_index,
            game.round_count == old(game).round_count,
            game.turn_count == old(game).turn_count,
            game.next_unit_id == old(game).next_unit_id,
        decreases units@.len() - i,
    {
        let ghost k = e[i as int].0;
        proof {
            lemma_prefix_ids_step(e, i as int);
            lemma_apply_to_step(u0, prefix_ids(e, i as int), g, k);
            assert(u0.contains_key(k) && u0[k] == e[i as int].1);
        }
        let mut u = units[i].1.duplicate();
        u.owner = None;
        let id = units[i].0;
        let _ = game.units.update(id, u);
        proof {
            assert(game.units@ =~= apply_to(u0, prefix_ids(e, i + 1), g));
        }
        i = i + 1;
    }
    proof {
        lemma_prefix_ids_contains(e, e.len() as int);
        assert forall|k: usize| #[trigger] u0.contains_key(k) && !prefix_ids(e, e.len() as int).contains(k)
            implies g(u0[k]) == u0[k] by {
            if u0[k].owner == Some(player_number) {
                let j = choose|j: int| 0 <= j < e.len() && e[j].0 == k;
            }
        }
        assert(game.units@ =~= u0.map_values(g));
    }
}

/// The seat in turn gives up: its tiles and units become neutral, and its turn ends.
pub fn surrender(game: &mut Game, events: &mut Vec<Event>) -> (r: ActionResult<()>)
    requires
        old(game).wf(),
        old(game).state == GameState::InProgress ==> {
            let n = old(game).spec_in_turn_number()->0;
            end_turn_computable_on(old(game).tiles@.map_values(neutral_tile(n)),
                old(game).units@.map_values(neutral_unit(n)), old(game).players@, old(game).in_turn_index)
        },
    ensures
        final(game).wf(),
        old(game).state != GameState::InProgress ==> r == Err::<(), _>(ActionError::GameNotInProgress)
            && *final(game) == *old(game) && final(events)@ == old(events)@,
        old(game).state == GameState::InProgress ==> exists|s: Game| #![trigger s.tiles@, s.units@] {
            let n = old(game).spec_in_turn_number()->0;
            &&& s.tiles@ == old(game).tiles@.map_values(neutral_tile(n))
            &&& s.units@ == old(game).units@.map_values(neutral_unit(n))
            &&& s.players == old(game).players
            &&& s.state == old(game).state
            &&& s.in_turn_index == old(game).in_turn_index
            &&& s.round_count == old(game).round_count
            &&& s.turn_count == old(game).turn_count
            &&& s.next_unit_id == old(game).next_unit_id
            &&& turn_end_outcome(s, *final(game), r, old(events)@.push(Event::Surrender(n)), final(events)@)
        },
{
    let in_turn_number = match game.in_turn_number() {
        Some(n) => n,
        None => {
            return Err(ActionError::GameNotInProgress);
        },
    };
    let ghost g0 = *game;
    neutralize(game, in_turn_number);
    proof {
        assert(same_layout(g0.tiles@, game.tiles@)) by {
            assert(game.tiles@.dom() =~= g0.tiles@.dom());
        }
        lemma_same_layout_wf(g0.tiles, game.tiles);
        assert(game.units@.dom() =~= g0.units@.dom());
    }
    events.push(Event::Surrender(in_turn_number));
    let ghost s = *game;
    let ghost ev = events@;
    let r = end_turn(game, events);
    assert(s.tiles@ == g0.tiles@.map_values(neutral_tile(in_turn_number)));
    r
}

/// Id of the tile that holds unit `u` (meaningful where one does).
pub open spec fn unit_tile_id(tiles: Map<TileId, Tile>, u: UnitId) -> TileId {
    choose|k: TileId| tiles.contains_key(k) && #[trigger] tiles[k].unit == Some(u)
}

/// Why unit `unit_id` may not move along `path` this turn and stop at its end, if it may not.
pub open spec fn move_check(game: Game, unit_id: UnitId, path: Seq<Position>) -> ActionResult<()> {
    if !game.units@.contains_key(unit_id) {
        Err(ActionError::UnitNotFound)
    } else if game.units@[unit_id].moved {
        Err(ActionError::UnitAlreadyMoved)
    } else if game.units@[unit_id].owner != game.spec_in_turn_number() {
        Err(ActionError::OwnerNotInTurn)
    } else if game.move_path_result(unit_id, path) is Err {
        game.move_path_result(unit_id, path)
    } else if game.tiles.tile_at_position(path.last()).unit is Some
        && game.tiles.tile_at_position(path.last()).unit != Some(unit_id) {
        Err(ActionError::InvalidPath)
    } else {
        Ok(())
    }
}

/// The tiles once unit `u` has left its tile for the tile at `dst`.
pub open spec fn moved_tiles(tiles: Map<TileId, Tile>, u: UnitId, dst: Position) -> Map<TileId, Tile> {
    let s = unit_tile_id(tiles, u);
    let d = tile_id_at(tiles, dst);
    tiles.insert(s, Tile { unit: None, ..tiles[s] }).insert(d, Tile { unit: Some(u), ..tiles[d] })
}

/// Whether moving along `path` can be checked within machine integers on `game`.
pub open spec fn move_computable(game: Game, path: Seq<Position>) -> bool {
    &&& Game::path_measurable(path)
    &&& game.state == GameState::InProgress ==> game.in_turn_index < game.players@.len()
}

/// `ev1` is `ev0` followed by exactly two reports: that unit `u` moved along `path`, then `e`.
pub open spec fn reports_move(ev0: Seq<Event>, ev1: Seq<Event>, u: UnitId, path: Seq<Position>, e: Event) -> bool {
    &&& ev1.len() == ev0.len() + 2
    &&& ev1.take(ev0.len() as int) == ev0
    &&& ev1[ev0.len() as int] matches Event::Move(id, p) && id == u && p@ == path
    &&& ev1[ev0.len() + 1int] == e
}

/// The checks and lookups shared by the actions that move a unit.
fn try_move(game: &Game, unit_id: UnitId, path: &[Position]) -> (r: ActionResult<(TileId, Tile, TileId, Tile, Unit)>)
    requires
        game.wf(),
        move_computable(*game, path@),
    ensures
        r is Ok <==> move_check(*game, unit_id, path@) is Ok,
        r matches Err(e) ==> move_check(*game, unit_id, path@) == Err::<(), _>(e),
        r matches Ok((s, st, d, dt, u)) ==> {
            &&& path@.len() > 0
            &&& s == unit_tile_id(game.tiles@, unit_id) && game.tiles@.contains_key(s) && st == game.tiles@[s]
            &&& st.unit == Some(unit_id)
            &&& d == tile_id_at(game.tiles@, path@.last()) && game.tiles@.contains_key(d) && dt == game.tiles@[d]
            &&& tile_at(dt, path@.last())
            &&& (dt.unit is None || dt.unit == Some(unit_id))
            &&& u@ == game.units@[unit_id]
        },
{
    let unit = match game.units.get(unit_id) {
        Some(u) => u,
        None => {
            return Err(ActionError::UnitNotFound);
        },
    };
    game.unit_has_turn(&unit)?;
    game.unit_can_move_path(unit_id, path)?;
    let last = path[path.len() - 1];
    assert(path@.last() == last);
    assert(game.tiles.has_tile_at(path@[path@.len() - 1]));
    game.unit_can_stay_at(unit_id, &last)?;
    let (src_id, src) = match game.tiles.get_unit_tile(unit_id) {
        Some(x) => x,
        None => {
            proof {
                let k = choose|k: TileId| game.tiles@.contains_key(k) && tile_at(game.tiles@[k], path@[0]);
                assert(game.tiles@[k].unit == Some(unit_id));
            }
            return Err(ActionError::UnitNotOnMap);
        },
    };
    let (dst_id, dst) = game.tiles.get_at(&last)?;
    proof {
        let s = unit_tile_id(game.tiles@, unit_id);
        assert(game.tiles@[src_id].unit == Some(unit_id));
        assert(game.tiles.placement_unique(unit_id));
        assert(s == src_id);
        let d = tile_id_at(game.tiles@, last);
        assert(game.tiles.position_unique(last));
        assert(d == dst_id);
    }
    Ok((src_id, src, dst_id, dst, unit))
}

proof fn lemma_apply_two<V>(m: Map<usize, V>, a: (usize, V), b: (usize, V))
    requires
        m.contains_key(a.0),
        m.contains_key(b.0),
    ensures
        apply_updates(m, seq![a, b]) == m.insert(a.0, a.1).insert(b.0, b.1),
{
    reveal_with_fuel(apply_updates, 3);
    assert(seq![a, b].drop_first() =~= seq![b]);
    assert(seq![b].drop_first() =~= Seq::<(usize, V)>::empty());
}

proof fn lemma_apply_one<V>(m: Map<usize, V>, a: (usize, V))
    requires
        m.contains_key(a.0),
    ensures
        apply_updates(m, seq![a]) == m.insert(a.0, a.1),
{
    reveal_with_fuel(apply_updates, 2);
    assert(seq![a].drop_first() =~= Seq::<(usize, V)>::empty());
}

proof fn lemma_apply_three<V>(m: Map<usize, V>, a: (usize, V), b: (usize, V), c: (usize, V))
    requires
        m.contains_key(a.0),
        m.contains_key(b.0),
        m.contains_key(c.0),
    ensures
        apply_updates(m, seq![a, b, c]) == m.insert(a.0, a.1).insert(b.0, b.1).insert(c.0, c.1),
{
    assert(seq![a, b, c].drop_first() =~= seq![b, c]);
    lemma_apply_two(m.insert(a.0, a.1), b, c);
}

/// A unit that leaves its tile for a free one, while no carrier changes its load, keeps the game
/// well formed.
proof fn lemma_move_keeps_wf(g0: Game, g1: Game, u: UnitId, s: TileId, d: TileId, dnew: Tile)
    requires
        g0.wf(),
        g0.tiles@.contains_key(s),
        g0.tiles@.contains_key(d),
        g0.tiles@[s].unit == Some(u),
        g0.tiles@[d].unit is None || g0.tiles@[d].unit == Some(u),
        dnew.x == g0.tiles@[d].x && dnew.y == g0.tiles@[d].y && dnew.unit == Some(u),
        g1.tiles@ == g0.tiles@.insert(s, Tile { unit: None, ..g0.tiles@[s] }).insert(d, dnew),
        g1.units@.dom() == g0.units@.dom(),
        forall|k: UnitId| #[trigger] g0.units@.contains_key(k) ==> g1.units@[k].carried == g0.units@[k].carried,
        g1.players == g0.players,
        g1.state == g0.state,
        g1.in_turn_index == g0.in_turn_index,
    ensures
        g1.wf(),
{
    let t0 = g0.tiles@;
    let t1 = g1.tiles@;
    assert forall|p: Position| g1.tiles.position_unique(p) by {
        assert forall|i: TileId, j: TileId|
            t1.contains_key(i) && t1.contains_key(j) && tile_at(t1[i], p) && tile_at(t1[j], p) implies i == j by {
            assert(tile_at(t0[i], p) && tile_at(t0[j], p));
            assert(g0.tiles.position_unique(p));
        }
    }
    assert forall|v: UnitId| g1.tiles.placement_unique(v) by {
        assert forall|i: TileId, j: TileId|
            t1.contains_key(i) && t1.contains_key(j) && t1[i].unit == Some(v) && t1[j].unit == Some(v) implies i == j by {
            if v == u {
                if i != d {
                    assert(t0[i].unit == Some(u));
                    assert(g0.tiles.placement_unique(u));
                }
                if j != d {
                    assert(t0[j].unit == Some(u));
                    assert(g0.tiles.placement_unique(u));
                }
            } else {
                assert(i != d && j != d);
                assert(i != s && j != s);
                assert(t0[i].unit == Some(v) && t0[j].unit == Some(v));
                assert(g0.tiles.placement_unique(v));
            }
        }
    }
    assert forall|k: TileId| #[trigger] t1.contains_key(k) && t1[k].unit is Some implies g1.units@.contains_key(t1[k].unit->0) by {
        if k == d {
            assert(g0.units@.contains_key(u));
        } else if k != s {
            assert(g0.units@.contains_key(t0[k].unit->0));
        }
    }
    assert forall|w: UnitId, i: int, k: TileId| #[trigger] g1.units@.contains_key(w) && 0 <= i < g1.units@[w].carried.len()
        && #[trigger] t1.contains_key(k) implies t1[k].unit != Some(#[trigger] g1.units@[w].carried[i]) by {
        assert(g0.units@.contains_key(w));
        assert(g1.units@[w].carried == g0.units@[w].carried);
        let c = g0.units@[w].carried[i];
        assert(t0[s].unit != Some(c));
        if k != d && k != s {
            assert(t0[k].unit != Some(c));
        }
    }
    assert forall|w: UnitId, i: int| #[trigger] g1.units@.contains_key(w) && 0 <= i < g1.units@[w].carried.len()
        implies g1.units@.contains_key(#[trigger] g1.units@[w].carried[i]) by {
        assert(g1.units@[w].carried == g0.units@[w].carried);
    }
    assert forall|w: UnitId, v: UnitId, i: int, j: int|
        g1.units@.contains_key(w) && g1.units@.contains_key(v) && w != v && 0 <= i < g1.units@[w].carried.len()
        && 0 <= j < g1.units@[v].carried.len() implies #[trigger] g1.units@[w].carried[i] != #[trigger] g1.units@[v].carried[j] by {
        assert(g1.units@[w].carried == g0.units@[w].carried);
        assert(g1.units@[v].carried == g0.units@[v].carried);
    }
}

/// Moves unit `unit_id` along `path` and ends its action there.
pub fn move_and_wait(game: &mut Game, unit_id: UnitId, path: &[Position], events: &mut Vec<Event>) -> (r: ActionResult<()>)
    requires
        old(game).wf(),
        move_computable(*old(game), path@),
    ensures
        final(game).wf(),
        r is Ok <==> move_check(*old(game), unit_id, path@) is Ok,
        r matches Err(e) ==> move_check(*old(game), unit_id, path@) == Err::<(), _>(e)
            && *final(game) == *old(game) && final(events)@ == old(events)@,
        r is Ok ==> {
            &&& final(game).tiles@ == moved_tiles(old(game).tiles@, unit_id, path@.last())
            &&& final(game).units@ == old(game).units@.insert(unit_id, UnitModel { moved: true, ..old(game).units@[unit_id] })
            &&& final(game).players == old(game).players
            &&& final(game).state == old(game).state
            &&& final(game).in_turn_index == old(game).in_turn_index
            &&& final(game).round_count == old(game).round_count
            &&& final(game).turn_count == old(game).turn_count
            &&& final(game).next_unit_id == old(game).next_unit_id
            &&& reports_move(old(events)@, final(events)@, unit_id, path@, Event::Wait(unit_id))
        },
{
    let (src_id, src, dst_id, dst, unit) = try_move(game, unit_id, path)?;
    let ghost g0 = *game;
    let mut src = src;
    let mut dst = dst;
    let mut unit = unit;
    unit.moved = true;
    src.unit = None;
    dst.unit = Some(unit_id);
    let ghost um = unit@;
    let tile_updates = vec![(src_id, src), (dst_id, dst)];
    let unit_updates = vec![(unit_id, unit)];
    assert(tile_updates@ =~= seq![(src_id, src), (dst_id, dst)]);
    assert(unit_models(unit_updates@) =~= seq![(unit_id, um)]);
    assert(all_ids_held(g0.tiles@, tile_updates@));
    assert(all_ids_held(g0.units@, unit_models(unit_updates@)));
    let _ = game.update_tiles_and_units(tile_updates, unit_updates);
    proof {
        lemma_apply_two(g0.tiles@, (src_id, src), (dst_id, dst));
        lemma_apply_one(g0.units@, (unit_id, um));
        assert(game.units@.dom() =~= g0.units@.dom());
        lemma_move_keeps_wf(g0, *game, unit_id, src_id, dst_id, dst);
    }
    let ghost ev0 = events@;
    events.push(Event::Move(unit_id, vstd::slice::slice_to_vec(path)));
    let ghost ev1 = events@;
    events.push(Event::Wait(unit_id));
    proof {
        assert(events@.take(ev0.len() as int) =~= ev0);
        assert(events@[ev0.len() as int] == ev1.last());
    }
    Ok(())
}

/// Why unit `unit_id` may not move along `path` and capture the tile at its end, if it may not.
pub open spec fn capture_check(game: Game, unit_id: UnitId, path: Seq<Position>) -> ActionResult<()> {
    if move_check(game, unit_id, path) is Err {
        move_check(game, unit_id, path)
    } else {
        let u = game.units@[unit_id];
        let d = game.tiles.tile_at_position(path.last());
        if !unit_flags(u.unit_type).contains(UnitFlag::Capture)
            || !terrain_flags(d.terrain).contains(TerrainFlag::Capturable)
            || d.owner == u.owner {
            Err(ActionError::CannotCapture)
        } else {
            Ok(())
        }
    }
}

/// Tile `d` once unit `u` with id `uid` has entered it to capture it.
pub open spec fn captured_tile(d: Tile, u: UnitModel, uid: UnitId) -> Tile {
    if u.health >= d.capture_points {
        Tile { unit: Some(uid), capture_points: 1, owner: u.owner, ..d }
    } else {
        Tile { unit: Some(uid), capture_points: (d.capture_points - u.health) as u32, ..d }
    }
}

/// Moves unit `unit_id` along `path` and captures the tile at its end: the unit's health comes off
/// the tile's capture points, and the tile changes hands when they run out.
pub fn move_and_capture(game: &mut Game, unit_id: UnitId, path: &[Position], events: &mut Vec<Event>) -> (r: ActionResult<()>)
    requires
        old(game).wf(),
        move_computable(*old(game), path@),
    ensures
        final(game).wf(),
        r is Ok <==> capture_check(*old(game), unit_id, path@) is Ok,
        r matches Err(e) ==> capture_check(*old(game), unit_id, path@) == Err::<(), _>(e)
            && *final(game) == *old(game) && final(events)@ == old(events)@,
        r is Ok ==> {
            let t0 = old(game).tiles@;
            let u = old(game).units@[unit_id];
            let s = unit_tile_id(t0, unit_id);
            let d = tile_id_at(t0, path@.last());
            &&& final(game).tiles@ == t0.insert(s, Tile { unit: None, ..t0[s] }).insert(d, captured_tile(t0[d], u, unit_id))
            &&& final(game).units@ == old(game).units@.insert(unit_id, UnitModel { moved: true, capturing: true, ..u })
            &&& final(game).players == old(game).players
            &&& final(game).state == old(game).state
            &&& final(game).in_turn_index == old(game).in_turn_index
            &&& final(game).round_count == old(game).round_count
            &&& final(game).turn_count == old(game).turn_count
            &&& final(game).next_unit_id == old(game).next_unit_id
            &&& reports_move(old(events)@, final(events)@, unit_id, path@, if u.health >= t0[d].capture_points {
                Event::Captured(unit_id, d)
            } else {
                Event::Capture(unit_id, d, captured_tile(t0[d], u, unit_id).capture_points)
            })
        },
{
    let (src_id, src, dst_id, dst, unit) = try_move(game, unit_id, path)?;
    if !unit.can_capture() || !dst.is_capturable() || dst.owner == unit.owner {
        return Err(ActionError::CannotCapture);
    }
    let ghost g0 = *game;
    let mut src = src;
    let mut dst = dst;
    let mut unit = unit;
    unit.moved = true;
    unit.capturing = true;
    src.unit = None;
    dst.unit = Some(unit_id);
    let ghost ev0 = events@;
    events.push(Event::Move(unit_id, vstd::slice::slice_to_vec(path)));
    let ghost ev1 = events@;
    if unit.health >= dst.capture_points {
        dst.capture_points = 1;
        dst.owner = unit.owner;
        events.push(Event::Captured(unit_id, dst_id));
    } else {
        let new_points = dst.capture_points - unit.health;
        dst.capture_points = new_points;
        events.push(Event::Capture(unit_id, dst_id, new_points));
    }
    let ghost um = unit@;
    let tile_updates = vec![(src_id, src), (dst_id, dst)];
    let unit_updates = vec![(unit_id, unit)];
    assert(tile_updates@ =~= seq![(src_id, src), (dst_id, dst)]);
    assert(unit_models(unit_updates@) =~= seq![(unit_id, um)]);
    assert(all_ids_held(g0.tiles@, tile_updates@));
    assert(all_ids_held(g0.units@, unit_models(unit_updates@)));
    let _ = game.update_tiles_and_units(tile_updates, unit_updates);
    proof {
        lemma_apply_two(g0.tiles@, (src_id, src), (dst_id, dst));
        lemma_apply_one(g0.units@, (unit_id, um));
        assert(game.units@.dom() =~= g0.units@.dom());
        lemma_move_keeps_wf(g0, *game, unit_id, src_id, dst_id, dst);
        assert(events@.take(ev0.len() as int) =~= ev0);
        assert(events@[ev0.len() as int] == ev1.last());
    }
    Ok(())
}

/// Why unit `unit_id` may not move along `path` and deploy at its end, if it may not.
pub open spec fn deploy_check(game: Game, unit_id: UnitId, path: Seq<Position>) -> ActionResult<()> {
    if move_check(game, unit_id, path) is Err {
        move_check(game, unit_id, path)
    } else if !deployable(game.units@[unit_id].unit_type) || game.units@[unit_id].deployed {
        Err(ActionError::CannotDeploy)
    } else {
        Ok(())
    }
}

/// Moves unit `unit_id` along `path` and deploys it there.
pub fn move_and_deploy(game: &mut Game, unit_id: UnitId, path: &[Position], events: &mut Vec<Event>) -> (r: ActionResult<()>)
    requires
        old(game).wf(),
        move_computable(*old(game), path@),
    ensures
        final(game).wf(),
        r is Ok <==> deploy_check(*old(game), unit_id, path@) is Ok,
        r matches Err(e) ==> deploy_check(*old(game), unit_id, path@) == Err::<(), _>(e)
            && *final(game) == *old(game) && final(events)@ == old(events)@,
        r is Ok ==> {
            &&& final(game).tiles@ == moved_tiles(old(game).tiles@, unit_id, path@.last())
            &&& final(game).units@ == old(game).units@.insert(unit_id,
                UnitModel { moved: true, deployed: true, ..old(game).units@[unit_id] })
            &&& final(game).players == old(game).players
            &&& final(game).state == old(game).state
            &&& final(game).in_turn_index == old(game).in_turn_index
            &&& final(game).round_count == old(game).round_count
            &&& final(game).turn_count == old(game).turn_count
            &&& final(game).next_unit_id == old(game).next_unit_id
            &&& reports_move(old(events)@, final(events)@, unit_id, path@, Event::Deploy(unit_id))
        },
{
    let (src_id, src, dst_id, dst, unit) = try_move(game, unit_id, path)?;
    if !unit.can_deploy() || unit.deployed {
        return Err(ActionError::CannotDeploy);
    }
    let ghost g0 = *game;
    let mut src = src;
    let mut dst = dst;
    let mut unit = unit;
    unit.moved = true;
    unit.deployed = true;
    src.unit = None;
    dst.unit = Some(unit_id);
    let ghost ev0 = events@;
    events.push(Event::Move(unit_id, vstd::slice::slice_to_vec(path)));
    let ghost ev1 = events@;
    events.push(Event::Deploy(unit_id));
    let ghost um = unit@;
    let tile_updates = vec![(src_id, src), (dst_id, dst)];
    let unit_updates = vec![(unit_id, unit)];
    assert(tile_updates@ =~= seq![(src_id, src), (dst_id, dst)]);
    assert(unit_models(unit_updates@) =~= seq![(unit_id, um)]);
    assert(all_ids_held(g0.tiles@, tile_updates@));
    assert(all_ids_held(g0.units@, unit_models(unit_updates@)));
    let _ = game.update_tiles_and_units(tile_updates, unit_updates);
    proof {
        lemma_apply_two(g0.tiles@, (src_id, src), (dst_id, dst));
        lemma_apply_one(g0.units@, (unit_id, um));
        assert(game.units@.dom() =~= g0.units@.dom());
        lemma_move_keeps_wf(g0, *game, unit_id, src_id, dst_id, dst);
        assert(events@.take(ev0.len() as int) =~= ev0);
        assert(events@[ev0.len() as int] == ev1.last());
    }
    Ok(())
}

/// Why unit `unit_id` may not undeploy this turn, if it may not.
pub open spec fn undeploy_check(game: Game, unit_id: UnitId) -> ActionResult<()> {
    if !game.units@.contains_key(unit_id) {
        Err(ActionError::UnitNotFound)
    } else if game.units@[unit_id].moved {
        Err(ActionError::UnitAlreadyMoved)
    } else if game.units@[unit_id].owner != game.spec_in_turn_number() {
        Err(ActionError::OwnerNotInTurn)
    } else if !game.units@[unit_id].deployed {
        Err(ActionError::CannotUndeploy)
    } else {
        Ok(())
    }
}

/// Undeploys unit `unit_id` in place, which uses up its action.
pub fn undeploy(game: &mut Game, unit_id: UnitId, events: &mut Vec<Event>) -> (r: ActionResult<()>)
    requires
        old(game).wf(),
    ensures
        final(game).wf(),
        r == undeploy_check(*old(game), unit_id),
        r is Err ==> *final(game) == *old(game) && final(events)@ == old(events)@,
        r is Ok ==> {
            &&& final(game).units@ == old(game).units@.insert(unit_id,
                UnitModel { moved: true, deployed: false, ..old(game).units@[unit_id] })
            &&& final(game).tiles == old(game).tiles
            &&& final(game).players == old(game).players
            &&& final(game).state == old(game).state
            &&& final(game).in_turn_index == old(game).in_turn_index
            &&& final(game).round_count == old(game).round_count
            &&& final(game).turn_count == old(game).turn_count
            &&& final(game).next_unit_id == old(game).next_unit_id
            &&& final(events)@ == old(events)@.push(Event::Undeploy(unit_id))
        },
{
    let mut unit = match game.units.get(unit_id) {
        Some(u) => u,
        None => {
            return Err(ActionError::UnitNotFound);
        },
    };
    game.unit_has_turn(&unit)?;
    if !unit.deployed {
        return Err(ActionError::CannotUndeploy);
    }
    unit.deployed = false;
    unit.moved = true;
    events.push(Event::Undeploy(unit_id));
    let ghost g0 = *game;
    let _ = game.units.update(unit_id, unit);
    proof {
        assert(game.units@.dom() =~= g0.units@.dom());
        assert forall|k: UnitId| #[trigger] g0.units@.contains_key(k) implies game.units@[k].carried == g0.units@[k].carried by {
        }
    }
    Ok(())
}

/// The largest unit id in use (meaningful where one is).
pub open spec fn largest_unit_id(units: Map<UnitId, UnitModel>) -> UnitId {
    choose|k: UnitId| units.contains_key(k) && forall|j: UnitId| #[trigger] units.contains_key(j) ==> j <= k
}

/// The id a new unit gets: one above the largest in use, 0 for the first.
pub open spec fn next_free_unit_id(units: Map<UnitId, UnitModel>) -> UnitId {
    if units.dom().is_empty() { 0 } else { (largest_unit_id(units) + 1) as UnitId }
}

/// A freshly built unit of type `t`: at full health, owned by nobody, and done for the turn.
pub open spec fn built_unit(t: UnitType) -> UnitModel {
    UnitModel {
        unit_type: t,
        health: UNIT_MAX_HEALTH,
        carried: Seq::empty(),
        owner: None,
        deployed: false,
        moved: true,
        capturing: false,
    }
}

/// Why a unit of type `t` may not be built at `position` this turn, if it may not.
pub open spec fn build_check(game: Game, position: Position, t: UnitType) -> ActionResult<()> {
    if game.state != GameState::InProgress {
        Err(ActionError::GameNotInProgress)
    } else if !game.tiles.has_tile_at(position) {
        Err(ActionError::InvalidPath)
    } else {
        let tile = game.tiles.tile_at_position(position);
        let player = game.players@[game.in_turn_index as int];
        if tile.owner != Some(player.number) {
            Err(ActionError::OwnerNotInTurn)
        } else if !terrain_build_classes(tile.terrain).contains(unit_class_of(t)) || tile.unit is Some {
            Err(ActionError::CannotBuild)
        } else if player.funds < unit_price(t) {
            Err(ActionError::InsufficientFunds)
        } else {
            Ok(())
        }
    }
}

/// The seat in turn buys a unit of type `build_type` on its free building tile at `position`.
pub fn build(game: &mut Game, position: Position, build_type: UnitType, events: &mut Vec<Event>) -> (r: ActionResult<()>)
    requires
        old(game).wf(),
        forall|k: UnitId| #[trigger] old(game).units@.contains_key(k) ==> k < usize::MAX,
    ensures
        final(game).wf(),
        r == build_check(*old(game), position, build_type),
        r is Err ==> *final(game) == *old(game) && final(events)@ == old(events)@,
        r is Ok ==> {
            let id = next_free_unit_id(old(game).units@);
            let k = tile_id_at(old(game).tiles@, position);
            let i = old(game).in_turn_index as int;
            let p = old(game).players@[i];
            &&& final(game).units@ == old(game).units@.insert(id, built_unit(build_type))
            &&& final(game).tiles@ == old(game).tiles@.insert(k, Tile { unit: Some(id), ..old(game).tiles@[k] })
            &&& final(game).players@ == old(game).players@.update(i, Player { funds: (p.funds - unit_price(build_type)) as u32, ..p })
            &&& final(game).state == old(game).state
            &&& final(game).in_turn_index == old(game).in_turn_index
            &&& final(game).round_count == old(game).round_count
            &&& final(game).turn_count == old(game).turn_count
            &&& final(game).next_unit_id == old(game).next_unit_id
            &&& final(events)@ == old(events)@.push(Event::Build(k, id, build_type, unit_price(build_type)))
        },
{
    let mut in_turn_player = match game.in_turn_player() {
        Some(p) => p,
        None => {
            return Err(ActionError::GameNotInProgress);
        },
    };
    let (tile_id, tile) = game.tiles.get_at(&position)?;
    if tile.owner != Some(in_turn_player.number) {
        return Err(ActionError::OwnerNotInTurn);
    }
    if !tile.can_build(build_type) || tile.unit.is_some() {
        return Err(ActionError::CannotBuild);
    }
    let price = unit_type(build_type).price;
    if in_turn_player.funds < price {
        return Err(ActionError::InsufficientFunds);
    }
    let ghost g0 = *game;
    proof {
        let k = tile_id_at(g0.tiles@, position);
        assert(g0.tiles.position_unique(position));
        assert(k == tile_id);
    }
    let mut unit = Unit::default();
    unit.unit_type = build_type;
    unit.moved = true;
    let ghost um = unit@;
    let unit_id = game.units.insert(unit);
    proof {
        let m = largest_unit_id(g0.units@);
        if !g0.units@.dom().is_empty() {
            assert(g0.units@.contains_key((unit_id - 1) as UnitId));
            assert(g0.units@.contains_key(m));
            assert(m < unit_id);
            assert((unit_id - 1) as UnitId <= m);
        }
        assert(unit_id == next_free_unit_id(g0.units@));
        assert(um == built_unit(build_type));
    }
    let mut tile = tile;
    tile.unit = Some(unit_id);
    in_turn_player.funds = in_turn_player.funds - price;
    events.push(Event::Build(tile_id, unit_id, build_type, price));
    let _ = game.tiles.update(tile_id, tile);
    proof {
        assert(game.players.has_number(in_turn_player.number));
    }
    let _ = game.players.update(in_turn_player);
    proof {
        let i = g0.in_turn_index as int;
        let x = choose|x: int| 0 <= x < g0.players@.len() && g0.players@[x].number == in_turn_player.number
            && game.players@ == g0.players@.update(x, in_turn_player);
        assert(g0.players.number_unique(in_turn_player.number));
        assert(x == i);
        lemma_update_keeps_numbers_unique(g0.players, game.players, i, in_turn_player);
        lemma_build_keeps_wf(g0, *game, unit_id, tile_id);
    }
    Ok(())
}

/// Placing a new unit, known nowhere before, on a free tile keeps the game well formed.
proof fn lemma_build_keeps_wf(g0: Game, g1: Game, u: UnitId, k: TileId)
    requires
        g0.wf(),
        !g0.units@.contains_key(u),
        g0.tiles@.contains_key(k),
        g0.tiles@[k].unit is None,
        g1.tiles@ == g0.tiles@.insert(k, Tile { unit: Some(u), ..g0.tiles@[k] }),
        g1.units@ == g0.units@.insert(u, built_unit(g1.units@[u].unit_type)),
        forall|n: PlayerNumber| g1.players.number_unique(n),
        g1.players@.len() == g0.players@.len(),
        g1.state == g0.state,
        g1.in_turn_index == g0.in_turn_index,
    ensures
        g1.wf(),
{
    let t0 = g0.tiles@;
    let t1 = g1.tiles@;
    let u0 = g0.units@;
    let u1 = g1.units@;
    assert forall|p: Position| g1.tiles.position_unique(p) by {
        assert forall|i: TileId, j: TileId|
            t1.contains_key(i) && t1.contains_key(j) && tile_at(t1[i], p) && tile_at(t1[j], p) implies i == j by {
            assert(tile_at(t0[i], p) && tile_at(t0[j], p));
            assert(g0.tiles.position_unique(p));
        }
    }
    assert forall|v: UnitId| g1.tiles.placement_unique(v) by {
        assert forall|i: TileId, j: TileId|
            t1.contains_key(i) && t1.contains_key(j) && t1[i].unit == Some(v) && t1[j].unit == Some(v) implies i == j by {
            if v == u {
                if i != k {
                    assert(u0.contains_key(t0[i].unit->0));
                }
                if j != k {
                    assert(u0.contains_key(t0[j].unit->0));
                }
            } else {
                assert(t0[i].unit == Some(v) && t0[j].unit == Some(v));
                assert(g0.tiles.placement_unique(v));
            }
        }
    }
    assert forall|x: TileId| #[trigger] t1.contains_key(x) && t1[x].unit is Some implies u1.contains_key(t1[x].unit->0) by {
        if x != k {
            assert(u0.contains_key(t0[x].unit->0));
        }
    }
    assert forall|w: UnitId, i: int| #[trigger] u1.contains_key(w) && 0 <= i < u1[w].carried.len()
        implies u1.contains_key(#[trigger] u1[w].carried[i]) by {
        if w != u {
            assert(u0.contains_key(u0[w].carried[i]));
        }
    }
    assert forall|w: UnitId, i: int, x: TileId| #[trigger] u1.contains_key(w) && 0 <= i < u1[w].carried.len()
        && #[trigger] t1.contains_key(x) implies t1[x].unit != Some(#[trigger] u1[w].carried[i]) by {
        if w != u {
            let c = u0[w].carried[i];
            assert(u0.contains_key(c));
            if x != k {
                assert(t0[x].unit != Some(c));
            }
        }
    }
    assert forall|w: UnitId, v: UnitId, i: int, j: int|
        u1.contains_key(w) && u1.contains_key(v) && w != v && 0 <= i < u1[w].carried.len()
        && 0 <= j < u1[v].carried.len() implies #[trigger] u1[w].carried[i] != #[trigger] u1[v].carried[j] by {
        assert(w != u && v != u);
        assert(u0[w].carried[i] != u0[v].carried[j]);
    }
}

/// Whether unit `c` has room for unit `u` and carries its class.
pub open spec fn can_carry(c: UnitModel, u: UnitModel) -> bool {
    unit_carry_num(c.unit_type) > (c.carried.len() as u32)
        && unit_carry_classes(c.unit_type).contains(unit_class_of(u.unit_type))
}

/// Why unit `unit_id` may not move along `path` into the unit at its end, if it may not.
pub open spec fn load_check(game: Game, unit_id: UnitId, path: Seq<Position>) -> ActionResult<()> {
    if !game.units@.contains_key(unit_id) {
        Err(ActionError::UnitNotFound)
    } else if path.len() == 0 || !game.tiles.has_tile_at(path.last()) {
        Err(ActionError::InvalidPath)
    } else if game.tiles.tile_at_position(path.last()).unit is None {
        Err(ActionError::UnitNotFound)
    } else if !game.units@.contains_key(game.tiles.tile_at_position(path.last()).unit->0) {
        Err(ActionError::UnitNotFound)
    } else if game.units@[unit_id].moved {
        Err(ActionError::UnitAlreadyMoved)
    } else if game.units@[unit_id].owner != game.spec_in_turn_number() {
        Err(ActionError::OwnerNotInTurn)
    } else if game.move_path_result(unit_id, path) is Err {
        game.move_path_result(unit_id, path)
    } else if !can_carry(game.units@[game.tiles.tile_at_position(path.last()).unit->0], game.units@[unit_id]) {
        Err(ActionError::CannotLoad)
    } else {
        Ok(())
    }
}

/// A unit leaving its tile for the load of a carrier keeps the game well formed.
proof fn lemma_load_keeps_wf(g0: Game, g1: Game, u: UnitId, c: UnitId, s: TileId, x: UnitModel, y: UnitModel)
    requires
        g0.wf(),
        g0.tiles@.contains_key(s),
        g0.tiles@[s].unit == Some(u),
        g0.units@.contains_key(u),
        g0.units@.contains_key(c),
        x.carried == g0.units@[u].carried,
        y.carried == (if c == u { x.carried } else { g0.units@[c].carried }).push(u),
        g1.tiles@ == g0.tiles@.insert(s, Tile { unit: None, ..g0.tiles@[s] }),
        g1.units@ == g0.units@.insert(u, x).insert(c, y),
        g1.players == g0.players,
        g1.state == g0.state,
        g1.in_turn_index == g0.in_turn_index,
    ensures
        g1.wf(),
{
    let t0 = g0.tiles@;
    let t1 = g1.tiles@;
    let u0 = g0.units@;
    let u1 = g1.units@;
    assert forall|p: Position| g1.tiles.position_unique(p) by {
        assert forall|i: TileId, j: TileId|
            t1.contains_key(i) && t1.contains_key(j) && tile_at(t1[i], p) && tile_at(t1[j], p) implies i == j by {
            assert(tile_at(t0[i], p) && tile_at(t0[j], p));
            assert(g0.tiles.position_unique(p));
        }
    }
    assert forall|v: UnitId| g1.tiles.placement_unique(v) by {
        assert forall|i: TileId, j: TileId|
            t1.contains_key(i) && t1.contains_key(j) && t1[i].unit == Some(v) && t1[j].unit == Some(v) implies i == j by {
            assert(i != s && j != s);
            assert(t0[i].unit == Some(v) && t0[j].unit == Some(v));
            assert(g0.tiles.placement_unique(v));
        }
    }
    assert forall|k: TileId| #[trigger] t1.contains_key(k) && t1[k].unit is Some implies u1.contains_key(t1[k].unit->0) by {
        assert(u0.contains_key(t0[k].unit->0));
    }
    assert forall|w: UnitId, i: int| #[trigger] u0.contains_key(w) && 0 <= i < u0[w].carried.len()
        implies t0[s].unit != Some(#[trigger] u0[w].carried[i]) by {
    }
    assert forall|w: UnitId, i: int| #[trigger] u1.contains_key(w) && 0 <= i < u1[w].carried.len()
        implies u1.contains_key(#[trigger] u1[w].carried[i]) by {
        if w == c {
            if i < u1[w].carried.len() - 1 {
                assert(u0.contains_key(u1[w].carried[i]));
            }
        } else if w == u {
            assert(u0.contains_key(u0[u].carried[i]));
        } else {
            assert(u0.contains_key(u0[w].carried[i]));
        }
    }
    assert forall|w: UnitId, i: int, k: TileId| #[trigger] u1.contains_key(w) && 0 <= i < u1[w].carried.len()
        && #[trigger] t1.contains_key(k) implies t1[k].unit != Some(#[trigger] u1[w].carried[i]) by {
        let e = u1[w].carried[i];
        if w == c && i == u1[w].carried.len() - 1 {
            assert(e == u);
            if k != s {
                assert(g0.tiles.placement_unique(u));
                assert(t0[k].unit != Some(u));
            }
        } else {
            let w0 = if w == c && c == u { u } else { w };
            assert(u0[w0].carried[i] == e);
            if k != s {
                assert(t0[k].unit != Some(e));
            }
        }
    }
    assert forall|w: UnitId, v: UnitId, i: int, j: int|
        u1.contains_key(w) && u1.contains_key(v) && w != v && 0 <= i < u1[w].carried.len()
        && 0 <= j < u1[v].carried.len() implies #[trigger] u1[w].carried[i] != #[trigger] u1[v].carried[j] by {
        let a = u1[w].carried[i];
        let b = u1[v].carried[j];
        let wl = w == c && i == u1[w].carried.len() - 1;
        let vl = v == c && j == u1[v].carried.len() - 1;
        if wl {
            if !vl {
                assert(u0[v].carried[j] == b);
                assert(t0[s].unit != Some(b));
            }
        } else if vl {
            assert(u0[w].carried[i] == a);
            assert(t0[s].unit != Some(a));
        } else {
            assert(u0[w].carried[i] == a);
            assert(u0[v].carried[j] == b);
        }
    }
}

/// Moves unit `unit_id` along `path` into the carrier at its end.
pub fn move_and_load_into(game: &mut Game, unit_id: UnitId, path: &[Position], events: &mut Vec<Event>) -> (r: ActionResult<()>)
    requires
        old(game).wf(),
        move_computable(*old(game), path@),
    ensures
        final(game).wf(),
        r is Ok <==> load_check(*old(game), unit_id, path@) is Ok,
        r matches Err(e) ==> load_check(*old(game), unit_id, path@) == Err::<(), _>(e)
            && *final(game) == *old(game) && final(events)@ == old(events)@,
        r is Ok ==> {
            let t0 = old(game).tiles@;
            let u0 = old(game).units@;
            let s = unit_tile_id(t0, unit_id);
            let c = old(game).tiles.tile_at_position(path@.last()).unit->0;
            &&& final(game).tiles@ == t0.insert(s, Tile { unit: None, ..t0[s] })
            &&& final(game).units@ == u0.insert(unit_id, UnitModel { moved: true, ..u0[unit_id] })
                .insert(c, UnitModel { carried: u0[c].carried.push(unit_id), ..u0[c] })
            &&& final(game).players == old(game).players
            &&& final(game).state == old(game).state
            &&& final(game).in_turn_index == old(game).in_turn_index
            &&& final(game).round_count == old(game).round_count
            &&& final(game).turn_count == old(game).turn_count
            &&& final(game).next_unit_id == old(game).next_unit_id
            &&& reports_move(old(events)@, final(events)@, unit_id, path@, Event::Load(unit_id, c))
        },
{
    let mut unit = match game.units.get(unit_id) {
        Some(u) => u,
        None => {
            return Err(ActionError::UnitNotFound);
        },
    };
    if path.len() == 0 {
        return Err(ActionError::InvalidPath);
    }
    let last = path[path.len() - 1];
    assert(game.tiles.position_unique(last));
    let (_, last_tile) = game.tiles.get_at(&last)?;
    let carrier_id = match last_tile.unit {
        Some(id) => id,
        None => {
            return Err(ActionError::UnitNotFound);
        },
    };
    let mut carrier = match game.units.get(carrier_id) {
        Some(c) => c,
        None => {
            return Err(ActionError::UnitNotFound);
        },
    };
    game.unit_has_turn(&unit)?;
    game.unit_can_move_path(unit_id, path)?;
    if !carrier.can_carry(&unit) {
        return Err(ActionError::CannotLoad);
    }
    let (src_id, src) = match game.tiles.get_unit_tile(unit_id) {
        Some(x) => x,
        None => {
            proof {
                let k = tile_id_at(game.tiles@, path@[0]);
                assert(game.tiles@[k].unit == Some(unit_id));
            }
            return Err(ActionError::UnitNotOnMap);
        },
    };
    let ghost g0 = *game;
    proof {
        assert(g0.tiles.placement_unique(unit_id));
        assert(src_id == unit_tile_id(g0.tiles@, unit_id));
    }
    let mut src = src;
    src.unit = None;
    unit.moved = true;
    carrier.carried.push(unit_id);
    let ghost ev0 = events@;
    events.push(Event::Move(unit_id, vstd::slice::slice_to_vec(path)));
    let ghost ev1 = events@;
    events.push(Event::Load(unit_id, carrier_id));
    let ghost um = unit@;
    let ghost cm = carrier@;
    let tile_updates = vec![(src_id, src)];
    let unit_updates = vec![(unit_id, unit), (carrier_id, carrier)];
    assert(tile_updates@ =~= seq![(src_id, src)]);
    assert(unit_models(unit_updates@) =~= seq![(unit_id, um), (carrier_id, cm)]);
    assert(all_ids_held(g0.tiles@, tile_updates@));
    assert(all_ids_held(g0.units@, unit_models(unit_updates@)));
    let _ = game.update_tiles_and_units(tile_updates, unit_updates);
    proof {
        lemma_apply_one(g0.tiles@, (src_id, src));
        lemma_apply_two(g0.units@, (unit_id, um), (carrier_id, cm));
        lemma_load_keeps_wf(g0, *game, unit_id, carrier_id, src_id, um, cm);
        assert(events@.take(ev0.len() as int) =~= ev0);
        assert(events@[ev0.len() as int] == ev1.last());
    }
    Ok(())
}

/// Why carrier `carrier_id` may not move along `path` and put unit `carried_id` down at
/// `position`, if it may not.
pub open spec fn unload_check(game: Game, carrier_id: UnitId, path: Seq<Position>, carried_id: UnitId, position: Position) -> ActionResult<()> {
    if move_check(game, carrier_id, path) is Err {
        move_check(game, carrier_id, path)
    } else if !game.units@.contains_key(carried_id) {
        Err(ActionError::UnitNotFound)
    } else if !game.tiles.has_tile_at(position) {
        Err(ActionError::InvalidPath)
    } else if !game.units@[carrier_id].carried.contains(carried_id)
        || hex_distance(position, path.last()) != 1
        || terrain_cost(movement_type_of(game.units@[carried_id].unit_type),
            game.tiles.tile_at_position(position).terrain) is None {
        Err(ActionError::CannotUnload)
    } else {
        Ok(())
    }
}

/// Whether `v` holds `x`.
fn holds_id(v: &Vec<UnitId>, x: UnitId) -> (r: bool)
    ensures
        r == v@.contains(x),
{
    let mut i: usize = 0;
    while i < v.len()
        invariant
            i <= v@.len(),
            forall|j: int| 0 <= j < i ==> v@[j] != x,
        decreases v@.len() - i,
    {
        if v[i] == x {
            return true;
        }
        i = i + 1;
    }
    false
}

/// `v` without the occurrences of `x`, in order.
fn without(v: &Vec<UnitId>, x: UnitId) -> (r: Vec<UnitId>)
    ensures
        r@ == v@.filter(|y: UnitId| y != x),
{
    let ghost keep = |y: UnitId| y != x;
    let mut r: Vec<UnitId> = Vec::new();
    let mut i: usize = 0;
    while i < v.len()
        invariant
            i <= v@.len(),
            keep == (|y: UnitId| y != x),
            r@ == v@.take(i as int).filter(keep),
        decreases v@.len() - i,
    {
        proof {
            assert(v@.take(i + 1) =~= v@.take(i as int).push(v@[i as int]));
            v@.take(i as int).lemma_filter_push(v@[i as int], keep);
        }
        if v[i] != x {
            r.push(v[i]);
        }
        i = i + 1;
    }
    assert(v@.take(v@.len() as int) =~= v@);
    r
}

/// A carrier that moves to a free tile and puts one of its load down on a tile keeps the game
/// well formed.
proof fn lemma_unload_keeps_wf(g0: Game, g1: Game, c: UnitId, v: UnitId, s: TileId, d: TileId, l: TileId)
    requires
        g0.wf(),
        g0.tiles@.contains_key(s),
        g0.tiles@.contains_key(d),
        g0.tiles@.contains_key(l),
        g0.tiles@[s].unit == Some(c),
        g0.tiles@[d].unit is None || g0.tiles@[d].unit == Some(c),
        g0.units@.contains_key(c),
        g0.units@[c].carried.contains(v),
        g1.tiles@ == g0.tiles@.insert(s, Tile { unit: None, ..g0.tiles@[s] })
            .insert(d, Tile { unit: Some(c), ..g0.tiles@[d] })
            .insert(l, Tile { unit: Some(v), ..g0.tiles@[l] }),
        g1.units@ == g0.units@.insert(c, UnitModel { moved: true,
            carried: g0.units@[c].carried.filter(|y: UnitId| y != v), ..g0.units@[c] })
            .insert(v, UnitModel { moved: true, ..g0.units@[v] }),
        g1.players == g0.players,
        g1.state == g0.state,
        g1.in_turn_index == g0.in_turn_index,
    ensures
        g1.wf(),
{
    let t0 = g0.tiles@;
    let t1 = g1.tiles@;
    let u0 = g0.units@;
    let u1 = g1.units@;
    let keep = |y: UnitId| y != v;
    let i0 = choose|i: int| 0 <= i < u0[c].carried.len() && u0[c].carried[i] == v;
    assert(u0.contains_key(v));
    assert forall|k: TileId| t0.contains_key(k) implies t0[k].unit != Some(v) by {
        assert(t0[k].unit != Some(u0[c].carried[i0]));
    }
    assert(v != c);
    assert forall|w: UnitId, i: int| u0.contains_key(w) && 0 <= i < u0[w].carried.len() implies u0[w].carried[i] != c by {
        assert(t0[s].unit != Some(u0[w].carried[i]));
    }
    assert forall|i: int| 0 <= i < u1[c].carried.len() implies u0[c].carried.contains(#[trigger] u1[c].carried[i])
        && u1[c].carried[i] != v by {
        u0[c].carried.lemma_filter_contains_rev(keep, u1[c].carried[i]);
    }
    assert forall|p: Position| g1.tiles.position_unique(p) by {
        assert forall|i: TileId, j: TileId|
            t1.contains_key(i) && t1.contains_key(j) && tile_at(t1[i], p) && tile_at(t1[j], p) implies i == j by {
            assert(tile_at(t0[i], p) && tile_at(t0[j], p));
            assert(g0.tiles.position_unique(p));
        }
    }
    assert forall|w: UnitId| g1.tiles.placement_unique(w) by {
        assert forall|i: TileId, j: TileId|
            t1.contains_key(i) && t1.contains_key(j) && t1[i].unit == Some(w) && t1[j].unit == Some(w) implies i == j by {
            if i != l && i != d && i != s && j != l && j != d && j != s {
                assert(g0.tiles.placement_unique(w));
            } else if w == c {
                if i != d && i != l {
                    assert(i == s || t0[i].unit == Some(c));
                    assert(g0.tiles.placement_unique(c));
                }
                if j != d && j != l {
                    assert(j == s || t0[j].unit == Some(c));
                    assert(g0.tiles.placement_unique(c));
                }
            } else if w == v {
                assert(i == l || t0[i].unit == Some(v));
                assert(j == l || t0[j].unit == Some(v));
            } else {
                assert(i != l && i != d && i != s && j != l && j != d && j != s);
            }
        }
    }
    assert forall|k: TileId| #[trigger] t1.contains_key(k) && t1[k].unit is Some implies u1.contains_key(t1[k].unit->0) by {
        if k != l && k != d && k != s {
            assert(u0.contains_key(t0[k].unit->0));
        }
    }
    assert forall|w: UnitId, i: int| #[trigger] u1.contains_key(w) && 0 <= i < u1[w].carried.len()
        implies u1.contains_key(#[trigger] u1[w].carried[i]) by {
        if w == c {
            let e = u1[c].carried[i];
            let j = choose|j: int| 0 <= j < u0[c].carried.len() && u0[c].carried[j] == e;
            assert(u0.contains_key(u0[c].carried[j]));
        } else {
            assert(u0.contains_key(u0[w].carried[i]));
        }
    }
    assert forall|w: UnitId, i: int, k: TileId| #[trigger] u1.contains_key(w) && 0 <= i < u1[w].carried.len()
        && #[trigger] t1.contains_key(k) implies t1[k].unit != Some(#[trigger] u1[w].carried[i]) by {
        let e = u1[w].carried[i];
        if w == c {
            let j = choose|j: int| 0 <= j < u0[c].carried.len() && u0[c].carried[j] == e;
            assert(e != v && e != c);
            if k != l && k != d && k != s {
                assert(t0[k].unit != Some(u0[c].carried[j]));
            }
        } else {
            assert(u0[w].carried[i] == e);
            assert(e != c);
            if e == v {
                assert(u0[c].carried[i0] != u0[w].carried[i]);
            }
            if k != l && k != d && k != s {
                assert(t0[k].unit != Some(u0[w].carried[i]));
            }
        }
    }
    assert forall|w: UnitId, x: UnitId, i: int, j: int|
        u1.contains_key(w) && u1.contains_key(x) && w != x && 0 <= i < u1[w].carried.len()
        && 0 <= j < u1[x].carried.len() implies #[trigger] u1[w].carried[i] != #[trigger] u1[x].carried[j] by {
        let a = u1[w].carried[i];
        let b = u1[x].carried[j];
        if w == c {
            let i1 = choose|i1: int| 0 <= i1 < u0[c].carried.len() && u0[c].carried[i1] == a;
            assert(u0[x].carried[j] == b);
            assert(u0[c].carried[i1] != u0[x].carried[j]);
        } else if x == c {
            let j1 = choose|j1: int| 0 <= j1 < u0[c].carried.len() && u0[c].carried[j1] == b;
            assert(u0[w].carried[i] == a);
            assert(u0[w].carried[i] != u0[c].carried[j1]);
        } else {
            assert(u0[w].carried[i] == a);
            assert(u0[x].carried[j] == b);
        }
    }
}

/// Moves carrier `carrier_id` along `path` and puts unit `carried_id` from its load down on the
/// neighbouring tile at `unload_position`.
pub fn move_and_unload(game: &mut Game, carrier_id: UnitId, path: &[Position], carried_id: UnitId,
    unload_position: Position, events: &mut Vec<Event>) -> (r: ActionResult<()>)
    requires
        old(game).wf(),
        move_computable(*old(game), path@),
        path@.len() > 0 ==> distance_computable(unload_position, path@.last()),
    ensures
        final(game).wf(),
        r is Ok <==> unload_check(*old(game), carrier_id, path@, carried_id, unload_position) is Ok,
        r matches Err(e) ==> unload_check(*old(game), carrier_id, path@, carried_id, unload_position) == Err::<(), _>(e)
            && *final(game) == *old(game) && final(events)@ == old(events)@,
        r is Ok ==> {
            let t0 = old(game).tiles@;
            let u0 = old(game).units@;
            let s = unit_tile_id(t0, carrier_id);
            let d = tile_id_at(t0, path@.last());
            let l = tile_id_at(t0, unload_position);
            &&& final(game).tiles@ == t0.insert(s, Tile { unit: None, ..t0[s] })
                .insert(d, Tile { unit: Some(carrier_id), ..t0[d] })
                .insert(l, Tile { unit: Some(carried_id), ..t0[l] })
            &&& final(game).units@ == u0.insert(carrier_id, UnitModel { moved: true,
                    carried: u0[carrier_id].carried.filter(|y: UnitId| y != carried_id), ..u0[carrier_id] })
                .insert(carried_id, UnitModel { moved: true, ..u0[carried_id] })
            &&& final(game).players == old(game).players
            &&& final(game).state == old(game).state
            &&& final(game).in_turn_index == old(game).in_turn_index
            &&& final(game).round_count == old(game).round_count
            &&& final(game).turn_count == old(game).turn_count
            &&& final(game).next_unit_id == old(game).next_unit_id
            &&& reports_move(old(events)@, final(events)@, carrier_id, path@,
                Event::Unload(carrier_id, carried_id, unload_position))
        },
{
    let (src_id, src, dst_id, dst, carrier) = try_move(game, carrier_id, path)?;
    let carried = match game.units.get(carried_id) {
        Some(u) => u,
        None => {
            return Err(ActionError::UnitNotFound);
        },
    };
    assert(game.tiles.position_unique(unload_position));
    let (unload_id, unload_tile) = game.tiles.get_at(&unload_position)?;
    let last = path[path.len() - 1];
    if !holds_id(&carrier.carried, carried_id)
        || unload_position.distance_to(&last) != 1
        || !carried.can_move_on_terrain(unload_tile.terrain) {
        return Err(ActionError::CannotUnload);
    }
    let ghost g0 = *game;
    proof {
        assert(g0.tiles.position_unique(unload_position));
        assert(unload_id == tile_id_at(g0.tiles@, unload_position));
    }
    let mut src = src;
    let mut dst = dst;
    let mut unload_tile = unload_tile;
    let mut carrier = carrier;
    let mut carried = carried;
    carrier.moved = true;
    carrier.carried = without(&carrier.carried, carried_id);
    carried.moved = true;
    src.unit = None;
    dst.unit = Some(carrier_id);
    unload_tile.unit = Some(carried_id);
    let ghost ev0 = events@;
    events.push(Event::Move(carrier_id, vstd::slice::slice_to_vec(path)));
    let ghost ev1 = events@;
    events.push(Event::Unload(carrier_id, carried_id, unload_position));
    let ghost cm = carrier@;
    let ghost vm = carried@;
    let tile_updates = vec![(src_id, src), (dst_id, dst), (unload_id, unload_tile)];
    let unit_updates = vec![(carrier_id, carrier), (carried_id, carried)];
    assert(tile_updates@ =~= seq![(src_id, src), (dst_id, dst), (unload_id, unload_tile)]);
    assert(unit_models(unit_updates@) =~= seq![(carrier_id, cm), (carried_id, vm)]);
    assert(all_ids_held(g0.tiles@, tile_updates@));
    assert(all_ids_held(g0.units@, unit_models(unit_updates@)));
    let _ = game.update_tiles_and_units(tile_updates, unit_updates);
    proof {
        lemma_apply_three(g0.tiles@, (src_id, src), (dst_id, dst), (unload_id, unload_tile));
        lemma_apply_two(g0.units@, (carrier_id, cm), (carried_id, vm));
        assert(cm.carried == g0.units@[carrier_id].carried.filter(|y: UnitId| y != carried_id));
        lemma_unload_keeps_wf(g0, *game, carrier_id, carried_id, src_id, dst_id, unload_id);
        assert(events@.take(ev0.len() as int) =~= ev0);
        assert(events@[ev0.len() as int] == ev1.last());
    }
    Ok(())
}

/// A sequence none of whose items is `u` loses nothing when `u` is filtered out.
proof fn lemma_filter_keeps_all(s: Seq<UnitId>, u: UnitId)
    requires
        !s.contains(u),
    ensures
        s.filter(|y: UnitId| y != u) == s,
    decreases s.len(),
{
    reveal(Seq::filter);
    if s.len() > 0 {
        assert(!s.drop_last().contains(u)) by {
            if s.drop_last().contains(u) {
                let i = choose|i: int| 0 <= i < s.drop_last().len() && s.drop_last()[i] == u;
                assert(s[i] == u);
            }
        }
        lemma_filter_keeps_all(s.drop_last(), u);
        assert(s[s.len() - 1] != u);
        assert(s.drop_last().push(s.last()) =~= s);
    }
}

/// Unloading a unit that was just loaded gives the carrier back the load it had before:
/// `move_and_load_into` appends the unit to the load, `move_and_unload` drops it.
pub proof fn unload_restores_load(load: Seq<UnitId>, u: UnitId)
    requires
        !load.contains(u),
    ensures
        load.push(u).filter(|y: UnitId| y != u) == load,
{
    load.lemma_filter_push(u, |y: UnitId| y != u);
    lemma_filter_keeps_all(load, u);
}

/// Giving up makes every tile and unit of seat `n` neutral and leaves everything else as it
/// was: afterwards seat `n` owns nothing.
pub proof fn surrender_leaves_nothing_owned(tiles: Map<TileId, Tile>, units: Map<UnitId, UnitModel>, n: PlayerNumber)
    ensures
        tiles.map_values(neutral_tile(n)).dom() == tiles.dom(),
        forall|k: TileId| #[trigger] tiles.contains_key(k) ==> {
            let t = tiles.map_values(neutral_tile(n))[k];
            &&& t.owner != Some(n)
            &&& tiles[k].owner != Some(n) ==> t.owner == tiles[k].owner
            &&& t.terrain == tiles[k].terrain && t.unit == tiles[k].unit && t.x == tiles[k].x && t.y == tiles[k].y
            &&& t.capture_points == tiles[k].capture_points && t.terrain_subtype_id == tiles[k].terrain_subtype_id
        },
        units.map_values(neutral_unit(n)).dom() == units.dom(),
        forall|k: UnitId| #[trigger] units.contains_key(k) ==> {
            let u = units.map_values(neutral_unit(n))[k];
            &&& u.owner != Some(n)
            &&& units[k].owner != Some(n) ==> u.owner == units[k].owner
            &&& u.unit_type == units[k].unit_type && u.health == units[k].health && u.carried == units[k].carried
            &&& u.deployed == units[k].deployed && u.moved == units[k].moved && u.capturing == units[k].capturing
        },
{
    assert(tiles.map_values(neutral_tile(n)).dom() =~= tiles.dom());
    assert(units.map_values(neutral_unit(n)).dom() =~= units.dom());
}

/// A unit that is built is of the requested type, neutral, at full health, carries nothing,
/// is not deployed or capturing, and has used up its turn.
pub proof fn built_unit_is_requested(t: UnitType)
    ensures
        built_unit(t).unit_type == t,
        built_unit(t).owner is None,
        built_unit(t).health == UNIT_MAX_HEALTH,
        built_unit(t).carried.len() == 0,
        !built_unit(t).deployed && !built_unit(t).capturing && built_unit(t).moved,
{
}

/// At the start of a turn no tile's capture points rise above `MAX_CAPTURE_POINTS` or fall:
/// a tile of the seat in turn that regains points gains the full rate where there is room, else
/// is filled up to the maximum; every other tile keeps its points.
pub proof fn turn_start_caps_capture_points(before: Game, after: Game, pn: PlayerNumber, ev0: Seq<Event>, ev1: Seq<Event>)
    requires
        turn_started(before, after, pn, ev0, ev1),
    ensures
        after.tiles@.dom() == before.tiles@.dom(),
        forall|k: TileId| #[trigger] before.tiles@.contains_key(k) ==> {
            let c0 = before.tiles@[k].capture_points;
            let c1 = after.tiles@[k].capture_points;
            &&& c1 >= c0
            &&& c0 <= MAX_CAPTURE_POINTS ==> c1 <= MAX_CAPTURE_POINTS
            &&& c1 != c0 ==> before.tiles@[k].owner == Some(pn) && c0 < MAX_CAPTURE_POINTS
            &&& c1 != c0 && c0 + CAPTURE_POINT_REGEN_RATE <= MAX_CAPTURE_POINTS ==> c1 == c0 + CAPTURE_POINT_REGEN_RATE
            &&& c1 != c0 && c0 + CAPTURE_POINT_REGEN_RATE > MAX_CAPTURE_POINTS ==> c1 == MAX_CAPTURE_POINTS
            &&& after.tiles@[k].owner == before.tiles@[k].owner && after.tiles@[k].unit == before.tiles@[k].unit
        },
{
    let u1 = before.units@.map_values(reset_capture(pn));
    assert(after.tiles@.dom() =~= before.tiles@.dom());
}

} // verus!

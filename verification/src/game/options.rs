use crate::game::action::{move_check, unit_tile_id};
use crate::game::game::{
    adjacent_positions, distance_one_iff_adjacent, has_neighbours, hex_distance, path_cost, path_distance,
};
use crate::game::{Game, Position, Tile, TileId, UnitId};
use crate::model::{movement_points, terrain_cost, Movement, Terrain, UnitType};
use vstd::prelude::*;

verus! {

/// `p` lies within the bounds of the map: no smaller and no greater in each coordinate than
/// some tile.
pub open spec fn within_map(tiles: Map<TileId, Tile>, p: Position) -> bool {
    &&& exists|k: TileId| #[trigger] tiles.contains_key(k) && tiles[k].x <= p.0
    &&& exists|k: TileId| #[trigger] tiles.contains_key(k) && tiles[k].x >= p.0
    &&& exists|k: TileId| #[trigger] tiles.contains_key(k) && tiles[k].y <= p.1
    &&& exists|k: TileId| #[trigger] tiles.contains_key(k) && tiles[k].y >= p.1
}

/// Every tile has all its neighbours' coordinates within `i32`.
pub open spec fn tiles_have_neighbours(tiles: Map<TileId, Tile>) -> bool {
    forall|k: TileId| #[trigger] tiles.contains_key(k) ==> has_neighbours(Position(tiles[k].x, tiles[k].y))
}

/// Some option of `found` ends at `p`.
pub open spec fn has_destination(found: Seq<(Position, Seq<Position>)>, p: Position) -> bool {
    exists|i: int| 0 <= i < found.len() && (#[trigger] found[i]).0 == p
}

/// The paths of `v`, as sequences.
pub open spec fn paths_view(v: Seq<Vec<Position>>) -> Seq<Seq<Position>> {
    v.map_values(|p: Vec<Position>| p@)
}

/// The options of `v`, with their paths as sequences.
pub open spec fn options_view(v: Seq<(Position, Vec<Position>)>) -> Seq<(Position, Seq<Position>)> {
    v.map_values(|e: (Position, Vec<Position>)| (e.0, e.1@))
}

/// `(x0, y0, x1, y1)` are the least and greatest coordinates of the tiles.
pub open spec fn bounds(tiles: Map<TileId, Tile>, x0: i32, y0: i32, x1: i32, y1: i32) -> bool {
    &&& forall|k: TileId| #[trigger] tiles.contains_key(k) ==> x0 <= tiles[k].x <= x1 && y0 <= tiles[k].y <= y1
    &&& exists|k: TileId| tiles.contains_key(k) && #[trigger] tiles[k].x == x0
    &&& exists|k: TileId| tiles.contains_key(k) && #[trigger] tiles[k].y == y0
    &&& exists|k: TileId| tiles.contains_key(k) && #[trigger] tiles[k].x == x1
    &&& exists|k: TileId| tiles.contains_key(k) && #[trigger] tiles[k].y == y1
}

proof fn lemma_within_bounds(tiles: Map<TileId, Tile>, x0: i32, y0: i32, x1: i32, y1: i32, p: Position)
    requires
        bounds(tiles, x0, y0, x1, y1),
    ensures
        within_map(tiles, p) <==> (x0 <= p.0 <= x1 && y0 <= p.1 <= y1),
{
    let a = choose|k: TileId| tiles.contains_key(k) && #[trigger] tiles[k].x == x0;
    let b = choose|k: TileId| tiles.contains_key(k) && #[trigger] tiles[k].y == y0;
    let c = choose|k: TileId| tiles.contains_key(k) && #[trigger] tiles[k].x == x1;
    let d = choose|k: TileId| tiles.contains_key(k) && #[trigger] tiles[k].y == y1;
    assert(tiles.contains_key(a) && tiles.contains_key(b) && tiles.contains_key(c) && tiles.contains_key(d));
    if within_map(tiles, p) {
        let e = choose|k: TileId| #[trigger] tiles.contains_key(k) && tiles[k].x <= p.0;
        let f = choose|k: TileId| #[trigger] tiles.contains_key(k) && tiles[k].x >= p.0;
        let g = choose|k: TileId| #[trigger] tiles.contains_key(k) && tiles[k].y <= p.1;
        let h = choose|k: TileId| #[trigger] tiles.contains_key(k) && tiles[k].y >= p.1;
        assert(tiles.contains_key(e) && tiles.contains_key(f) && tiles.contains_key(g) && tiles.contains_key(h));
    }
}

proof fn lemma_within_map_has_neighbours(tiles: Map<TileId, Tile>, p: Position)
    requires
        within_map(tiles, p),
        tiles_have_neighbours(tiles),
    ensures
        has_neighbours(p),
{
    let e = choose|k: TileId| #[trigger] tiles.contains_key(k) && tiles[k].x <= p.0;
    let f = choose|k: TileId| #[trigger] tiles.contains_key(k) && tiles[k].x >= p.0;
    let g = choose|k: TileId| #[trigger] tiles.contains_key(k) && tiles[k].y <= p.1;
    let h = choose|k: TileId| #[trigger] tiles.contains_key(k) && tiles[k].y >= p.1;
    assert(has_neighbours(Position(tiles[e].x, tiles[e].y)));
    assert(has_neighbours(Position(tiles[f].x, tiles[f].y)));
    assert(has_neighbours(Position(tiles[g].x, tiles[g].y)));
    assert(has_neighbours(Position(tiles[h].x, tiles[h].y)));
}

/// Entering a tile costs at least one movement point.
proof fn lemma_terrain_cost_positive(m: Movement, t: Terrain)
    ensures
        terrain_cost(m, t) matches Some(c) ==> c >= 1,
{
}

/// Entering a sequence of tiles costs at least one movement point per tile.
proof fn lemma_path_cost_at_least_len(m: Movement, ts: Seq<Tile>)
    ensures
        path_cost(m, ts) matches Some(c) ==> c >= ts.len(),
    decreases ts.len(),
{
    if ts.len() > 0 {
        lemma_path_cost_at_least_len(m, ts.drop_last());
        lemma_terrain_cost_positive(m, ts.last().terrain);
    }
}

proof fn lemma_movement_points_bound(t: UnitType)
    ensures
        movement_points(t) <= 12,
{
}

/// A path of neighbouring positions has one step per move.
proof fn lemma_neighbour_path_distance(path: Seq<Position>)
    requires
        path.len() > 0,
        forall|i: int| 0 <= i < path.len() ==> has_neighbours(#[trigger] path[i]),
        forall|i: int| 1 <= i < path.len() ==> adjacent_positions(path[i - 1]).contains(#[trigger] path[i]),
    ensures
        path_distance(path) == path.len() - 1,
    decreases path.len(),
{
    if path.len() > 1 {
        let p = path.drop_last();
        assert forall|i: int| 1 <= i < p.len() implies adjacent_positions(p[i - 1]).contains(#[trigger] p[i]) by {
            assert(adjacent_positions(path[i - 1]).contains(path[i]));
        }
        assert forall|i: int| 0 <= i < p.len() implies has_neighbours(#[trigger] p[i]) by {
            assert(has_neighbours(path[i]));
        }
        lemma_neighbour_path_distance(p);
        let n = path.len() - 1;
        assert(has_neighbours(path[n - 1]));
        assert(adjacent_positions(path[n - 1]).contains(path[n]));
        distance_one_iff_adjacent(path[n - 1], path[n]);
    }
}

impl Game {
    /// The paths one step longer than `path`, into those of the first `j` neighbours of its end,
    /// in the order of `adjacent_positions`, that lie within the map and end no option of `found`.
    pub open spec fn option_children(self, path: Seq<Position>, found: Seq<(Position, Seq<Position>)>, j: int) -> Seq<Seq<Position>>
        decreases j,
    {
        if j <= 0 {
            Seq::empty()
        } else {
            let rest = self.option_children(path, found, j - 1);
            let q = adjacent_positions(path.last())[j - 1];
            if within_map(self.tiles@, q) && !has_destination(found, q) {
                rest.push(path.push(q))
            } else {
                rest
            }
        }
    }

    /// One path of a round of the search for the options of unit `unit_id`, on the paths of the
    /// next round and the options found so far: unless its end is a destination already or the
    /// unit may not move along it, its children join the next round and, where the unit may
    /// stay at its end, it becomes the option for that end.
    pub open spec fn option_step(
        self,
        unit_id: UnitId,
        st: (Seq<Seq<Position>>, Seq<(Position, Seq<Position>)>),
        path: Seq<Position>,
    ) -> (Seq<Seq<Position>>, Seq<(Position, Seq<Position>)>) {
        let (next, found) = st;
        if has_destination(found, path.last()) || self.move_path_result(unit_id, path) is Err {
            st
        } else {
            (
                next + self.option_children(path, found, 6),
                if self.stay_result(unit_id, path.last()) is Ok { found.push((path.last(), path)) } else { found },
            )
        }
    }

    /// The paths of `round` taken in turn by `option_step`.
    pub open spec fn option_round(
        self,
        unit_id: UnitId,
        round: Seq<Seq<Position>>,
        st: (Seq<Seq<Position>>, Seq<(Position, Seq<Position>)>),
    ) -> (Seq<Seq<Position>>, Seq<(Position, Seq<Position>)>)
        decreases round.len(),
    {
        if round.len() == 0 {
            st
        } else {
            self.option_step(unit_id, self.option_round(unit_id, round.drop_last(), st), round.last())
        }
    }

    /// The options found by at most `rounds` rounds of the search, starting from `round` with
    /// the options `found`; it stops early once a round brings no path for the next.
    pub open spec fn option_search(
        self,
        unit_id: UnitId,
        round: Seq<Seq<Position>>,
        found: Seq<(Position, Seq<Position>)>,
        rounds: nat,
    ) -> Seq<(Position, Seq<Position>)>
        decreases rounds,
    {
        if rounds == 0 || round.len() == 0 {
            found
        } else {
            let st = self.option_round(unit_id, round, (Seq::empty(), found));
            self.option_search(unit_id, st.0, st.1, (rounds - 1) as nat)
        }
    }

    /// Position of the tile that holds unit `unit_id` (meaningful where one does).
    pub open spec fn unit_position(self, unit_id: UnitId) -> Position {
        let t = self.tiles@[unit_tile_id(self.tiles@, unit_id)];
        Position(t.x, t.y)
    }

    /// The options of unit `unit_id`, as the breadth-first search finds them: one round per
    /// path length, from the path that stays where the unit is. A path of `n` steps costs at
    /// least `n` movement points, so rounds beyond its movement points bring nothing.
    pub open spec fn move_options(self, unit_id: UnitId) -> Seq<(Position, Seq<Position>)> {
        self.option_search(unit_id, seq![seq![self.unit_position(unit_id)]], Seq::empty(),
            (movement_points(self.units@[unit_id].unit_type) + 2) as nat)
    }

    /// `path` has `k` steps from `start`, each to a neighbour, all within the map.
    spec fn option_path(self, start: Position, k: nat, path: Seq<Position>) -> bool {
        &&& path.len() == k + 1
        &&& path[0] == start
        &&& forall|i: int| 0 <= i < path.len() ==> within_map(self.tiles@, #[trigger] path[i])
        &&& forall|i: int| 1 <= i < path.len() ==> adjacent_positions(path[i - 1]).contains(#[trigger] path[i])
    }

    /// Each option of `found` ends its path, which unit `unit_id` may move along and stop at its
    /// end; no two options share an end.
    pub open spec fn options_sound(self, unit_id: UnitId, found: Seq<(Position, Seq<Position>)>) -> bool {
        &&& forall|i: int| 0 <= i < found.len() ==> {
            &&& (#[trigger] found[i]).1.len() > 0
            &&& found[i].1.last() == found[i].0
            &&& self.move_path_result(unit_id, found[i].1) is Ok
            &&& self.stay_result(unit_id, found[i].0) is Ok
        }
        &&& forall|i: int, j: int| 0 <= i < j < found.len() ==> (#[trigger] found[i]).0 != (#[trigger] found[j]).0
    }

    proof fn lemma_option_path_measurable(self, start: Position, k: nat, path: Seq<Position>)
        requires
            self.option_path(start, k, path),
            tiles_have_neighbours(self.tiles@),
            k <= 100,
        ensures
            Game::path_measurable(path),
    {
        assert forall|i: int| 0 <= i < path.len() implies has_neighbours(#[trigger] path[i]) by {
            lemma_within_map_has_neighbours(self.tiles@, path[i]);
        }
        lemma_neighbour_path_distance(path);
        assert forall|i: int| 1 <= i < path.len() implies
            crate::game::game::distance_computable(path[i - 1], #[trigger] path[i]) by {
            assert(has_neighbours(path[i - 1]));
            distance_one_iff_adjacent(path[i - 1], path[i]);
        }
    }

    /// A unit on the map may stay where it is.
    proof fn lemma_start_path_ok(self, unit_id: UnitId, s: TileId)
        requires
            self.tiles.positions_unique(),
            self.tiles@.contains_key(s),
            self.tiles@[s].unit == Some(unit_id),
            self.units@.contains_key(unit_id),
        ensures
            self.move_path_result(unit_id, seq![Position(self.tiles@[s].x, self.tiles@[s].y)]) is Ok,
            self.stay_result(unit_id, Position(self.tiles@[s].x, self.tiles@[s].y)) is Ok,
    {
        let p = Position(self.tiles@[s].x, self.tiles@[s].y);
        let path = seq![p];
        assert(crate::game::game::tile_at(self.tiles@[s], p));
        assert(self.tiles.has_tile_at(p));
        let k = crate::game::game::tile_id_at(self.tiles@, p);
        assert(self.tiles.position_unique(p));
        assert(k == s);
        assert(path[0] == p);
        assert forall|i: int| 0 <= i < path.len() implies self.tiles.has_tile_at(#[trigger] path[i]) by {
            assert(path[i] == p);
        }
    }

    proof fn lemma_move_bounds_steps(self, unit_id: UnitId, path: Seq<Position>)
        requires
            self.move_path_result(unit_id, path) is Ok,
            path.len() >= 2,
        ensures
            path.len() - 1 <= movement_points(self.units@[unit_id].unit_type),
    {
        let t = self.units@[unit_id].unit_type;
        let ts = self.path_tiles(path).drop_first();
        lemma_path_cost_at_least_len(crate::model::movement_type_of(t), ts);
    }
}

/// Whether some option of `found` ends at `p`.
fn has_destination_in(found: &Vec<(Position, Vec<Position>)>, p: Position) -> (r: bool)
    ensures
        r == has_destination(options_view(found@), p),
{
    let mut i: usize = 0;
    while i < found.len()
        invariant
            i <= found@.len(),
            forall|j: int| 0 <= j < i ==> found@[j].0 != p,
        decreases found@.len() - i,
    {
        if found[i].0 == p {
            assert(options_view(found@)[i as int].0 == p);
            return true;
        }
        i = i + 1;
    }
    proof {
        if has_destination(options_view(found@), p) {
            let j = choose|j: int| 0 <= j < options_view(found@).len() && (#[trigger] options_view(found@)[j]).0 == p;
            assert(found@[j].0 == p);
        }
    }
    false
}

impl Game {
    /// Where unit `unit_id` can move this turn, each destination with the path found to it: a
    /// breadth-first search from the unit's position through the positions within the map's
    /// bounds. `None` where the unit is on no tile.
    pub fn unit_move_options(&self, unit_id: UnitId) -> (r: Option<Vec<(Position, Vec<Position>)>>)
        requires
            self.tiles.positions_unique(),
            self.tiles.placement_unique(unit_id),
            tiles_have_neighbours(self.tiles@),
        ensures
            r is None <==> !self.tiles.holds_unit(unit_id),
            r matches Some(v) ==> options_view(v@) == self.move_options(unit_id),
            r matches Some(v) ==> self.options_sound(unit_id, options_view(v@)),
            r matches Some(v) ==> (self.units@.contains_key(unit_id) ==> v@.len() > 0
                && options_view(v@)[0] == (self.unit_position(unit_id), seq![self.unit_position(unit_id)])),
    {
        let (unit_tile_key, unit_tile) = match self.tiles.get_unit_tile(unit_id) {
            Some(x) => x,
            None => {
                return None;
            },
        };
        let (min_x, min_y, max_x, max_y) = match self.tiles.rect() {
            Some(b) => b,
            None => {
                return None;
            },
        };
        let ghost tiles = self.tiles@;
        proof {
            assert(bounds(tiles, min_x, min_y, max_x, max_y));
            lemma_movement_points_bound(self.units@[unit_id].unit_type);
            let s = unit_tile_id(tiles, unit_id);
            assert(tiles[s].unit == Some(unit_id));
            assert(self.tiles.placement_unique(unit_id));
            assert(s == unit_tile_key);
        }
        let start = Position(unit_tile.x, unit_tile.y);
        let ghost rounds: nat = (movement_points(self.units@[unit_id].unit_type) + 2) as nat;
        let mut found: Vec<(Position, Vec<Position>)> = Vec::new();
        let mut round: Vec<Vec<Position>> = vec![vec![start]];
        let ghost mut k: nat = 0;
        proof {
            assert(start == self.unit_position(unit_id));
            assert(round@.len() == 1);
            assert(round@[0]@ =~= seq![start]);
            assert(paths_view(round@)[0] == round@[0]@);
            assert(paths_view(round@) =~= seq![seq![self.unit_position(unit_id)]]);
            assert(options_view(found@) =~= Seq::<(Position, Seq<Position>)>::empty());
            assert(within_map(tiles, start)) by {
                lemma_within_bounds(tiles, min_x, min_y, max_x, max_y, start);
                assert(tiles.contains_key(unit_tile_id(tiles, unit_id)));
            }
            assert(self.option_path(start, 0, paths_view(round@)[0]));
        }
        while round.len() > 0
            invariant
                self.tiles.positions_unique(),
                tiles_have_neighbours(self.tiles@),
                tiles == self.tiles@,
                bounds(tiles, min_x, min_y, max_x, max_y),
                rounds == movement_points(self.units@[unit_id].unit_type) + 2,
                rounds <= 14,
                k <= rounds,
                round@.len() > 0 ==> k < rounds,
                forall|i: int| 0 <= i < round@.len() ==> self.option_path(start, k, #[trigger] paths_view(round@)[i]),
                self.option_search(unit_id, paths_view(round@), options_view(found@), (rounds - k) as nat)
                    == self.move_options(unit_id),
                self.options_sound(unit_id, options_view(found@)),
                start == self.unit_position(unit_id),
                k > 0 && self.units@.contains_key(unit_id) ==> found@.len() > 0
                    && options_view(found@)[0] == (start, seq![start]),
                k == 0 ==> found@.len() == 0 && paths_view(round@) == seq![seq![start]],
                self.tiles@.contains_key(unit_tile_key),
                self.tiles@[unit_tile_key].unit == Some(unit_id),
                start == Position(self.tiles@[unit_tile_key].x, self.tiles@[unit_tile_key].y),
            decreases rounds - k,
        {
            let ghost found0 = options_view(found@);
            let ghost rv = paths_view(round@);
            let mut next: Vec<Vec<Position>> = Vec::new();
            let mut i: usize = 0;
            proof {
                assert(rv.take(0) =~= Seq::<Seq<Position>>::empty());
                assert(paths_view(next@) =~= Seq::<Seq<Position>>::empty());
            }
            while i < round.len()
                invariant
                    self.tiles.positions_unique(),
                    tiles_have_neighbours(self.tiles@),
                    tiles == self.tiles@,
                    bounds(tiles, min_x, min_y, max_x, max_y),
                    rounds == movement_points(self.units@[unit_id].unit_type) + 2,
                    rounds <= 14,
                    k < rounds,
                    i <= round@.len(),
                    rv == paths_view(round@),
                    forall|j: int| 0 <= j < round@.len() ==> self.option_path(start, k, #[trigger] rv[j]),
                    (paths_view(next@), options_view(found@)) == self.option_round(unit_id, rv.take(i as int),
                        (Seq::empty(), found0)),
                    forall|j: int| 0 <= j < next@.len() ==> self.option_path(start, k + 1, #[trigger] paths_view(next@)[j]),
                    next@.len() > 0 ==> k + 1 < rounds,
                    self.options_sound(unit_id, options_view(found@)),
                    start == self.unit_position(unit_id),
                    k == 0 ==> rv == seq![seq![start]],
                    (k > 0 || i > 0) && self.units@.contains_key(unit_id) ==> found@.len() > 0
                        && options_view(found@)[0] == (start, seq![start]),
                    k == 0 && i == 0 ==> found@.len() == 0,
                    self.tiles@.contains_key(unit_tile_key),
                    self.tiles@[unit_tile_key].unit == Some(unit_id),
                    start == Position(self.tiles@[unit_tile_key].x, self.tiles@[unit_tile_key].y),
                decreases round@.len() - i,
            {
                let ghost pv = rv[i as int];
                let ghost nv0 = paths_view(next@);
                let ghost fv = options_view(found@);
                proof {
                    assert(round@[i as int]@ == pv);
                    assert(rv.take(i + 1).drop_last() =~= rv.take(i as int));
                    assert(rv.take(i + 1).last() == pv);
                }
                let path = &round[i];
                let dest = path[path.len() - 1];
                assert(dest == pv.last());
                proof {
                    if k == 0 && i == 0 && self.units@.contains_key(unit_id) {
                        self.lemma_start_path_ok(unit_id, unit_tile_key);
                        assert(pv == seq![start]);
                        assert(dest == start);
                    }
                }
                let seen = has_destination_in(&found, dest);
                let moves = if seen {
                    false
                } else {
                    proof {
                        self.lemma_option_path_measurable(start, k, pv);
                    }
                    self.unit_can_move_path(unit_id, path.as_slice()).is_ok()
                };
                if moves {
                    proof {
                        if k >= 1 {
                            self.lemma_move_bounds_steps(unit_id, pv);
                        }
                        assert(has_neighbours(dest)) by {
                            lemma_within_map_has_neighbours(tiles, dest);
                        }
                    }
                    let adj = dest.adjacent();
                    let mut j: usize = 0;
                    while j < adj.len()
                        invariant
                            tiles == self.tiles@,
                            tiles_have_neighbours(self.tiles@),
                            bounds(tiles, min_x, min_y, max_x, max_y),
                            j <= adj@.len(),
                            adj@ == adjacent_positions(dest),
                            dest == pv.last(),
                            path@ == pv,
                            self.option_path(start, k, pv),
                            fv == options_view(found@),
                            paths_view(next@) == nv0 + self.option_children(pv, fv, j as int),
                            forall|x: int| 0 <= x < nv0.len() ==> self.option_path(start, k + 1, #[trigger] nv0[x]),
                            forall|x: int| 0 <= x < next@.len() ==> self.option_path(start, k + 1, #[trigger] paths_view(next@)[x]),
                        decreases adj@.len() - j,
                    {
                        let q = adj[j];
                        proof {
                            lemma_within_bounds(tiles, min_x, min_y, max_x, max_y, q);
                        }
                        let outside = q.0 < min_x || q.0 > max_x || q.1 < min_y || q.1 > max_y;
                        let taken = if outside { true } else { has_destination_in(&found, q) };
                        if !taken {
                            let mut extended = vstd::slice::slice_to_vec(path.as_slice());
                            extended.push(q);
                            let ghost ev = extended@;
                            next.push(extended);
                            proof {
                                assert(paths_view(next@) =~= paths_view(next@).drop_last().push(ev));
                                assert(paths_view(next@).drop_last() =~= nv0 + self.option_children(pv, fv, j as int));
                                assert(nv0 + self.option_children(pv, fv, j as int).push(pv.push(q))
                                    =~= (nv0 + self.option_children(pv, fv, j as int)).push(pv.push(q)));
                                assert(adj@.contains(q)) by {
                                    assert(adj@[j as int] == q);
                                }
                                assert(self.option_path(start, k + 1, ev)) by {
                                    assert forall|x: int| 0 <= x < ev.len() implies within_map(self.tiles@, #[trigger] ev[x]) by {
                                        if x < pv.len() {
                                            assert(ev[x] == pv[x]);
                                        }
                                    }
                                    assert forall|x: int| 1 <= x < ev.len() implies
                                        adjacent_positions(ev[x - 1]).contains(#[trigger] ev[x]) by {
                                        if x < pv.len() {
                                            assert(ev[x] == pv[x] && ev[x - 1] == pv[x - 1]);
                                        }
                                    }
                                }
                            }
                        }
                        j = j + 1;
                    }
                    assert(adj@.len() == 6);
                    if self.unit_can_stay_at(unit_id, &dest).is_ok() {
                        found.push((dest, vstd::slice::slice_to_vec(path.as_slice())));
                        proof {
                            let fv1 = options_view(found@);
                            assert(fv1 =~= fv.push((dest, pv)));
                            if fv.len() > 0 {
                                assert(fv1[0] == fv[0]);
                            }
                            assert(self.options_sound(unit_id, fv1)) by {
                                assert forall|a: int, b: int| 0 <= a < b < fv1.len() implies
                                    (#[trigger] fv1[a]).0 != (#[trigger] fv1[b]).0 by {
                                    if b == fv1.len() - 1 {
                                        assert(fv[a] == fv1[a]);
                                    } else {
                                        assert(fv[a] == fv1[a] && fv[b] == fv1[b]);
                                    }
                                }
                                assert forall|a: int| 0 <= a < fv1.len() implies {
                                    &&& (#[trigger] fv1[a]).1.len() > 0
                                    &&& fv1[a].1.last() == fv1[a].0
                                    &&& self.move_path_result(unit_id, fv1[a].1) is Ok
                                    &&& self.stay_result(unit_id, fv1[a].0) is Ok
                                } by {
                                    if a < fv.len() {
                                        assert(fv[a] == fv1[a]);
                                    }
                                }
                            }
                        }
                    }
                }
                i = i + 1;
            }
            proof {
                assert(rv.take(round@.len() as int) =~= rv);
            }
            round = next;
            proof {
                k = k + 1;
            }
        }
        Some(found)
    }
}

impl Game {
    proof fn lemma_option_step_sound(
        self,
        unit_id: UnitId,
        st: (Seq<Seq<Position>>, Seq<(Position, Seq<Position>)>),
        path: Seq<Position>,
    )
        requires
            self.options_sound(unit_id, st.1),
        ensures
            self.options_sound(unit_id, self.option_step(unit_id, st, path).1),
    {
        let found = st.1;
        let r = self.option_step(unit_id, st, path).1;
        if r != found {
            assert(r == found.push((path.last(), path)));
            assert forall|a: int, b: int| 0 <= a < b < r.len() implies (#[trigger] r[a]).0 != (#[trigger] r[b]).0 by {
                if b == r.len() - 1 {
                    assert(r[a] == found[a]);
                    assert(!has_destination(found, path.last()));
                } else {
                    assert(r[a] == found[a] && r[b] == found[b]);
                }
            }
            assert forall|a: int| 0 <= a < r.len() implies {
                &&& (#[trigger] r[a]).1.len() > 0
                &&& r[a].1.last() == r[a].0
                &&& self.move_path_result(unit_id, r[a].1) is Ok
                &&& self.stay_result(unit_id, r[a].0) is Ok
            } by {
                if a < found.len() {
                    assert(r[a] == found[a]);
                }
            }
        }
    }

    proof fn lemma_option_round_sound(
        self,
        unit_id: UnitId,
        round: Seq<Seq<Position>>,
        st: (Seq<Seq<Position>>, Seq<(Position, Seq<Position>)>),
    )
        requires
            self.options_sound(unit_id, st.1),
        ensures
            self.options_sound(unit_id, self.option_round(unit_id, round, st).1),
        decreases round.len(),
    {
        if round.len() > 0 {
            self.lemma_option_round_sound(unit_id, round.drop_last(), st);
            self.lemma_option_step_sound(unit_id, self.option_round(unit_id, round.drop_last(), st), round.last());
        }
    }

    proof fn lemma_option_search_sound(
        self,
        unit_id: UnitId,
        round: Seq<Seq<Position>>,
        found: Seq<(Position, Seq<Position>)>,
        rounds: nat,
    )
        requires
            self.options_sound(unit_id, found),
        ensures
            self.options_sound(unit_id, self.option_search(unit_id, round, found, rounds)),
        decreases rounds,
    {
        if rounds > 0 && round.len() > 0 {
            let st = self.option_round(unit_id, round, (Seq::empty(), found));
            self.lemma_option_round_sound(unit_id, round, (Seq::empty(), found));
            self.lemma_option_search_sound(unit_id, st.0, st.1, (rounds - 1) as nat);
        }
    }
}

/// Every option that the search offers a unit is a move the game accepts while the unit has
/// its turn: `move_and_wait` and the other moving actions take its path, which ends at the
/// option's destination.
pub proof fn move_options_are_moves(game: Game, unit_id: UnitId, i: int)
    requires
        0 <= i < game.move_options(unit_id).len(),
        game.units@.contains_key(unit_id),
        !game.units@[unit_id].moved,
        game.units@[unit_id].owner == game.spec_in_turn_number(),
    ensures
        move_check(game, unit_id, game.move_options(unit_id)[i].1) is Ok,
        game.move_options(unit_id)[i].1.last() == game.move_options(unit_id)[i].0,
{
    let start = seq![seq![game.unit_position(unit_id)]];
    let rounds = (movement_points(game.units@[unit_id].unit_type) + 2) as nat;
    assert(game.options_sound(unit_id, Seq::empty()));
    game.lemma_option_search_sound(unit_id, start, Seq::empty(), rounds);
    let opts = game.move_options(unit_id);
    assert(opts[i].1.len() > 0);
    assert(game.stay_result(unit_id, opts[i].0) is Ok);
}

impl Game {
    proof fn lemma_children_len(self, path: Seq<Position>, found: Seq<(Position, Seq<Position>)>, j: int)
        ensures
            forall|x: int| 0 <= x < self.option_children(path, found, j).len()
                ==> (#[trigger] self.option_children(path, found, j)[x]).len() == path.len() + 1,
        decreases j,
    {
        if j > 0 {
            self.lemma_children_len(path, found, j - 1);
            let rest = self.option_children(path, found, j - 1);
            let all = self.option_children(path, found, j);
            assert forall|x: int| 0 <= x < all.len() implies (#[trigger] all[x]).len() == path.len() + 1 by {
                if x < rest.len() {
                    assert(all[x] == rest[x]);
                }
            }
        }
    }

    /// A round of paths of `len` positions yields paths of `len + 1`, and yields any only if
    /// the unit may move along one of its paths.
    proof fn lemma_round_shape(
        self,
        unit_id: UnitId,
        round: Seq<Seq<Position>>,
        st: (Seq<Seq<Position>>, Seq<(Position, Seq<Position>)>),
        len: int,
    )
        requires
            forall|x: int| 0 <= x < round.len() ==> (#[trigger] round[x]).len() == len,
            forall|x: int| 0 <= x < st.0.len() ==> (#[trigger] st.0[x]).len() == len + 1,
        ensures
            forall|x: int| 0 <= x < self.option_round(unit_id, round, st).0.len()
                ==> (#[trigger] self.option_round(unit_id, round, st).0[x]).len() == len + 1,
            self.option_round(unit_id, round, st).0.len() > st.0.len() && len >= 2
                ==> len - 1 <= movement_points(self.units@[unit_id].unit_type),
        decreases round.len(),
    {
        if round.len() > 0 {
            let prev = self.option_round(unit_id, round.drop_last(), st);
            self.lemma_round_shape(unit_id, round.drop_last(), st, len);
            let path = round.last();
            assert(path == round[round.len() - 1]);
            if !has_destination(prev.1, path.last()) && self.move_path_result(unit_id, path) is Ok {
                self.lemma_children_len(path, prev.1, 6);
                let next = prev.0 + self.option_children(path, prev.1, 6);
                assert forall|x: int| 0 <= x < next.len() implies (#[trigger] next[x]).len() == len + 1 by {
                    if x >= prev.0.len() {
                        assert(next[x] == self.option_children(path, prev.1, 6)[x - prev.0.len()]);
                    }
                }
                if len >= 2 {
                    self.lemma_move_bounds_steps(unit_id, path);
                }
            }
        }
    }

    /// From a round of paths of `k` steps on, the search needs no more rounds than it is given.
    proof fn lemma_search_settles(
        self,
        unit_id: UnitId,
        round: Seq<Seq<Position>>,
        found: Seq<(Position, Seq<Position>)>,
        k: nat,
        extra: nat,
    )
        requires
            forall|x: int| 0 <= x < round.len() ==> (#[trigger] round[x]).len() == k + 1,
            round.len() > 0 ==> k <= movement_points(self.units@[unit_id].unit_type) + 1,
            k <= movement_points(self.units@[unit_id].unit_type) + 2,
        ensures
            self.option_search(unit_id, round, found,
                (movement_points(self.units@[unit_id].unit_type) + 2 - k + extra) as nat)
                == self.option_search(unit_id, round, found, (movement_points(self.units@[unit_id].unit_type) + 2 - k) as nat),
        decreases movement_points(self.units@[unit_id].unit_type) + 2 - k,
    {
        let mp = movement_points(self.units@[unit_id].unit_type);
        if round.len() > 0 {
            let st = self.option_round(unit_id, round, (Seq::empty(), found));
            self.lemma_round_shape(unit_id, round, (Seq::empty(), found), k + 1int);
            self.lemma_search_settles(unit_id, st.0, st.1, k + 1, extra);
        }
    }
}

/// The search for a unit's options is finished within its rounds: given more rounds, it finds
/// the same options, since a path of more steps than the unit's movement points is never a
/// move.
pub proof fn move_options_settle(game: Game, unit_id: UnitId, extra: nat)
    ensures
        game.option_search(unit_id, seq![seq![game.unit_position(unit_id)]], Seq::empty(),
            (movement_points(game.units@[unit_id].unit_type) + 2 + extra) as nat) == game.move_options(unit_id),
{
    let start = seq![seq![game.unit_position(unit_id)]];
    assert(start[0].len() == 1);
    game.lemma_search_settles(unit_id, start, Seq::empty(), 0, extra);
}

impl Game {
    proof fn lemma_option_search_extends(
        self,
        unit_id: UnitId,
        round: Seq<Seq<Position>>,
        found: Seq<(Position, Seq<Position>)>,
        rounds: nat,
    )
        ensures
            self.option_search(unit_id, round, found, rounds).len() >= found.len(),
            self.option_search(unit_id, round, found, rounds).take(found.len() as int) == found,
        decreases rounds,
    {
        if rounds > 0 && round.len() > 0 {
            let st = self.option_round(unit_id, round, (Seq::empty(), found));
            self.lemma_option_round_extends(unit_id, round, (Seq::empty(), found));
            self.lemma_option_search_extends(unit_id, st.0, st.1, (rounds - 1) as nat);
            let r = self.option_search(unit_id, st.0, st.1, (rounds - 1) as nat);
            assert(r.take(found.len() as int) =~= r.take(st.1.len() as int).take(found.len() as int));
        } else {
            assert(found.take(found.len() as int) =~= found);
        }
    }

    proof fn lemma_option_round_extends(
        self,
        unit_id: UnitId,
        round: Seq<Seq<Position>>,
        st: (Seq<Seq<Position>>, Seq<(Position, Seq<Position>)>),
    )
        ensures
            self.option_round(unit_id, round, st).1.len() >= st.1.len(),
            self.option_round(unit_id, round, st).1.take(st.1.len() as int) == st.1,
        decreases round.len(),
    {
        if round.len() > 0 {
            self.lemma_option_round_extends(unit_id, round.drop_last(), st);
            let prev = self.option_round(unit_id, round.drop_last(), st);
            let r = self.option_round(unit_id, round, st);
            if r.1 != prev.1 {
                assert(r.1.take(st.1.len() as int) =~= prev.1.take(st.1.len() as int));
            }
        } else {
            assert(st.1.take(st.1.len() as int) =~= st.1);
        }
    }
}

/// The options that the search finds for a unit are all legal, on any map: each ends its path,
/// the unit may move along that path and stop at its end, and no two share an end. Where no two
/// tiles share a position and the unit stands on a tile, its first option is to stay there.
pub proof fn move_options_are_legal(game: Game, unit_id: UnitId)
    ensures
        game.options_sound(unit_id, game.move_options(unit_id)),
        game.tiles.positions_unique() && game.tiles.holds_unit(unit_id) && game.units@.contains_key(unit_id) ==> {
            &&& game.move_options(unit_id).len() > 0
            &&& game.move_options(unit_id)[0] == (game.unit_position(unit_id), seq![game.unit_position(unit_id)])
        },
{
    let start = game.unit_position(unit_id);
    let first = seq![seq![start]];
    let rounds = (movement_points(game.units@[unit_id].unit_type) + 2) as nat;
    assert(game.options_sound(unit_id, Seq::empty()));
    game.lemma_option_search_sound(unit_id, first, Seq::empty(), rounds);
    if game.tiles.positions_unique() && game.tiles.holds_unit(unit_id) && game.units@.contains_key(unit_id) {
        let s = unit_tile_id(game.tiles@, unit_id);
        assert(game.tiles@.contains_key(s) && game.tiles@[s].unit == Some(unit_id));
        game.lemma_start_path_ok(unit_id, s);
        let empty = (Seq::<Seq<Position>>::empty(), Seq::<(Position, Seq<Position>)>::empty());
        assert(first.drop_last() =~= Seq::<Seq<Position>>::empty());
        assert(first.last() == seq![start]);
        assert(seq![start].last() == start);
        assert(!has_destination(Seq::<(Position, Seq<Position>)>::empty(), start));
        assert(start == Position(game.tiles@[s].x, game.tiles@[s].y));
        assert(game.option_round(unit_id, first.drop_last(), empty) == empty);
        let st = game.option_round(unit_id, first, empty);
        assert(st == game.option_step(unit_id, empty, seq![start]));
        assert(game.move_path_result(unit_id, seq![start]) is Ok);
        assert(st.1 =~= seq![(start, seq![start])]);
        game.lemma_option_search_extends(unit_id, st.0, st.1, (rounds - 1) as nat);
        let r = game.move_options(unit_id);
        assert(r == game.option_search(unit_id, st.0, st.1, (rounds - 1) as nat));
        assert(r.take(1)[0] == r[0]);
    }
}

/// A prefix of a sequence of tiles costs no more than the whole, and is enterable where the
/// whole is.
proof fn lemma_path_cost_prefix(m: Movement, ts: Seq<Tile>, j: int)
    requires
        path_cost(m, ts) is Some,
        0 <= j <= ts.len(),
    ensures
        path_cost(m, ts.take(j)) is Some,
        path_cost(m, ts.take(j))->0 <= path_cost(m, ts)->0,
    decreases ts.len(),
{
    if j == ts.len() {
        assert(ts.take(j) =~= ts);
    } else {
        lemma_terrain_cost_positive(m, ts.last().terrain);
        assert(ts.drop_last().take(j) =~= ts.take(j));
        lemma_path_cost_prefix(m, ts.drop_last(), j);
    }
}

impl Game {
    /// A path of neighbouring positions that the unit may move along may also be stopped short.
    proof fn lemma_move_prefix_ok(self, unit_id: UnitId, path: Seq<Position>, n: int)
        requires
            self.move_path_result(unit_id, path) is Ok,
            1 <= n <= path.len(),
            forall|i: int| 0 <= i < path.len() ==> has_neighbours(#[trigger] path[i]),
            forall|i: int| 1 <= i < path.len() ==> adjacent_positions(path[i - 1]).contains(#[trigger] path[i]),
        ensures
            self.move_path_result(unit_id, path.take(n)) is Ok,
    {
        let q = path.take(n);
        assert forall|i: int| 0 <= i < q.len() implies self.tiles.has_tile_at(#[trigger] q[i]) by {
            assert(q[i] == path[i]);
        }
        assert(q[0] == path[0]);
        if n >= 2 {
            self.lemma_move_bounds_steps(unit_id, path);
            lemma_movement_points_bound(self.units@[unit_id].unit_type);
            assert forall|i: int| 0 <= i < q.len() implies has_neighbours(#[trigger] q[i]) by {
                assert(q[i] == path[i]);
            }
            assert forall|i: int| 1 <= i < q.len() implies adjacent_positions(q[i - 1]).contains(#[trigger] q[i]) by {
                assert(q[i] == path[i] && q[i - 1] == path[i - 1]);
            }
            lemma_neighbour_path_distance(q);
            let t = self.units@[unit_id].unit_type;
            let m = crate::model::movement_type_of(t);
            let ts = self.path_tiles(path).drop_first();
            assert(self.path_tiles(q).drop_first() =~= ts.take(n - 1));
            lemma_path_cost_prefix(m, ts, n - 1);
            if self.path_blocked(unit_id, q) {
                let i = choose|i: int| 0 <= i < q.len() && self.blocks(#[trigger] self.path_tiles(q)[i], unit_id);
                assert(self.path_tiles(q)[i] == self.path_tiles(path)[i]);
                assert(self.path_blocked(unit_id, path));
            }
        }
    }
}

/// A prefix of `g` holds the options of `f`.
proof fn lemma_destination_in_prefix(f: Seq<(Position, Seq<Position>)>, g: Seq<(Position, Seq<Position>)>, p: Position)
    requires
        g.len() >= f.len(),
        g.take(f.len() as int) == f,
        has_destination(f, p),
    ensures
        has_destination(g, p),
{
    let i = choose|i: int| 0 <= i < f.len() && (#[trigger] f[i]).0 == p;
    assert(g.take(f.len() as int)[i] == g[i]);
}

impl Game {
    /// `path` starts nowhere in particular but steps from neighbour to neighbour within the map,
    /// away from the `i32` limits, and the unit may move along it.
    spec fn walkable(self, unit_id: UnitId, path: Seq<Position>) -> bool {
        &&& path.len() >= 1
        &&& forall|i: int| 0 <= i < path.len() ==> within_map(self.tiles@, #[trigger] path[i])
        &&& forall|i: int| 0 <= i < path.len() ==> has_neighbours(#[trigger] path[i])
        &&& forall|i: int| 1 <= i < path.len() ==> adjacent_positions(path[i - 1]).contains(#[trigger] path[i])
        &&& self.move_path_result(unit_id, path) is Ok
    }

    proof fn lemma_round_split(
        self,
        unit_id: UnitId,
        a: Seq<Seq<Position>>,
        b: Seq<Seq<Position>>,
        st: (Seq<Seq<Position>>, Seq<(Position, Seq<Position>)>),
    )
        ensures
            self.option_round(unit_id, a + b, st) == self.option_round(unit_id, b, self.option_round(unit_id, a, st)),
        decreases b.len(),
    {
        if b.len() == 0 {
            assert(a + b =~= a);
        } else {
            assert((a + b).drop_last() =~= a + b.drop_last());
            assert((a + b).last() == b.last());
            self.lemma_round_split(unit_id, a, b.drop_last(), st);
        }
    }

    proof fn lemma_round_grows(
        self,
        unit_id: UnitId,
        round: Seq<Seq<Position>>,
        st: (Seq<Seq<Position>>, Seq<(Position, Seq<Position>)>),
    )
        ensures
            self.option_round(unit_id, round, st).0.len() >= st.0.len(),
            self.option_round(unit_id, round, st).0.take(st.0.len() as int) == st.0,
            self.option_round(unit_id, round, st).1.len() >= st.1.len(),
            self.option_round(unit_id, round, st).1.take(st.1.len() as int) == st.1,
        decreases round.len(),
    {
        if round.len() > 0 {
            self.lemma_round_grows(unit_id, round.drop_last(), st);
            let prev = self.option_round(unit_id, round.drop_last(), st);
            let r = self.option_round(unit_id, round, st);
            assert(r.0.take(st.0.len() as int) =~= prev.0.take(st.0.len() as int));
            assert(r.1.take(st.1.len() as int) =~= prev.1.take(st.1.len() as int));
        } else {
            assert(st.0.take(st.0.len() as int) =~= st.0);
            assert(st.1.take(st.1.len() as int) =~= st.1);
        }
    }

    proof fn lemma_children_contain(self, path: Seq<Position>, found: Seq<(Position, Seq<Position>)>, j: int, m: int)
        requires
            0 <= m < j,
            within_map(self.tiles@, adjacent_positions(path.last())[m]),
            !has_destination(found, adjacent_positions(path.last())[m]),
        ensures
            self.option_children(path, found, j).contains(path.push(adjacent_positions(path.last())[m])),
        decreases j,
    {
        let c = self.option_children(path, found, j);
        if m == j - 1 {
            assert(c[c.len() - 1] == path.push(adjacent_positions(path.last())[m]));
        } else {
            self.lemma_children_contain(path, found, j - 1, m);
            let prev = self.option_children(path, found, j - 1);
            let x = choose|x: int| 0 <= x < prev.len() && prev[x] == path.push(adjacent_positions(path.last())[m]);
            assert(c[x] == prev[x]);
        }
    }

    /// Where round `round` stands at its `j`-th path: the step taken there, and what the round
    /// keeps of it.
    proof fn lemma_round_at(
        self,
        unit_id: UnitId,
        round: Seq<Seq<Position>>,
        st0: (Seq<Seq<Position>>, Seq<(Position, Seq<Position>)>),
        j: int,
    )
        requires
            0 <= j < round.len(),
        ensures
            self.option_round(unit_id, round.take(j + 1), st0)
                == self.option_step(unit_id, self.option_round(unit_id, round.take(j), st0), round[j]),
            self.option_round(unit_id, round, st0).0.len() >= self.option_round(unit_id, round.take(j + 1), st0).0.len(),
            self.option_round(unit_id, round, st0).0.take(self.option_round(unit_id, round.take(j + 1), st0).0.len() as int)
                == self.option_round(unit_id, round.take(j + 1), st0).0,
            self.option_round(unit_id, round, st0).1.len() >= self.option_round(unit_id, round.take(j + 1), st0).1.len(),
            self.option_round(unit_id, round, st0).1.take(self.option_round(unit_id, round.take(j + 1), st0).1.len() as int)
                == self.option_round(unit_id, round.take(j + 1), st0).1,
    {
        assert(round.take(j + 1).drop_last() =~= round.take(j));
        assert(round.take(j + 1).last() == round[j]);
        assert(round.take(j + 1) + round.skip(j + 1) =~= round);
        self.lemma_round_split(unit_id, round.take(j + 1), round.skip(j + 1), st0);
        self.lemma_round_grows(unit_id, round.skip(j + 1), self.option_round(unit_id, round.take(j + 1), st0));
    }

    /// One step on the path of `k + 1` positions of `path`: it finds the end of `path`, or puts
    /// the path one position longer into the next round.
    #[verifier::spinoff_prover]
    proof fn lemma_step_reaches(
        self,
        unit_id: UnitId,
        path: Seq<Position>,
        k: int,
        st: (Seq<Seq<Position>>, Seq<(Position, Seq<Position>)>),
    )
        requires
            self.walkable(unit_id, path),
            self.stay_result(unit_id, path.last()) is Ok,
            0 <= k < path.len(),
            k == 0 ==> st.1.len() == 0,
            forall|i: int| 1 <= i < path.len() - 1
                ==> !has_destination(self.option_step(unit_id, st, path.take(k + 1)).1, #[trigger] path[i]),
        ensures
            has_destination(self.option_step(unit_id, st, path.take(k + 1)).1, path.last())
                || (k + 1 < path.len() && self.option_step(unit_id, st, path.take(k + 1)).0.contains(path.take(k + 2))),
    {
        let q = path.take(k + 1);
        let r = self.option_step(unit_id, st, q);
        assert(q.last() == path[k]);
        let last = path.last();
        assert(last == path[path.len() - 1]);
        assert(r.1.len() >= st.1.len() && r.1.take(st.1.len() as int) =~= st.1);
        if has_destination(st.1, path[k]) {
            lemma_destination_in_prefix(st.1, r.1, path[k]);
        } else {
            self.lemma_move_prefix_ok(unit_id, path, k + 1);
            if k == path.len() - 1 {
                assert(r.1 == st.1.push((q.last(), q)));
                assert(r.1[st.1.len() as int].0 == last);
            } else {
                let p1 = path[k + 1];
                assert(adjacent_positions(path[k]).contains(p1));
                let m = choose|m: int| 0 <= m < adjacent_positions(path[k]).len() && adjacent_positions(path[k])[m] == p1;
                if has_destination(st.1, p1) {
                    lemma_destination_in_prefix(st.1, r.1, p1);
                } else {
                    self.lemma_children_contain(q, st.1, 6, m);
                    assert(q.push(p1) =~= path.take(k + 2));
                    let c = self.option_children(q, st.1, 6);
                    let x = choose|x: int| 0 <= x < c.len() && c[x] == path.take(k + 2);
                    assert(r.0 == st.0 + c);
                    assert(r.0[st.0.len() + x] == path.take(k + 2));
                }
            }
        }
    }

    /// Within one round, the path of `k + 1` positions of `path` either extends into the next
    /// round or its end is found.
    proof fn lemma_round_reaches(
        self,
        unit_id: UnitId,
        path: Seq<Position>,
        k: int,
        round: Seq<Seq<Position>>,
        found: Seq<(Position, Seq<Position>)>,
        j: int,
    )
        requires
            self.walkable(unit_id, path),
            self.stay_result(unit_id, path.last()) is Ok,
            0 <= k < path.len(),
            0 <= j < round.len(),
            round[j] == path.take(k + 1),
            k == 0 ==> j == 0 && found.len() == 0,
            forall|i: int| 1 <= i < path.len() - 1
                ==> !has_destination(self.option_round(unit_id, round, (Seq::empty(), found)).1, #[trigger] path[i]),
        ensures
            has_destination(self.option_round(unit_id, round, (Seq::empty(), found)).1, path.last())
                || (k + 1 < path.len() && self.option_round(unit_id, round, (Seq::empty(), found)).0.contains(path.take(k + 2))),
    {
        let st0 = (Seq::<Seq<Position>>::empty(), found);
        let sj = self.option_round(unit_id, round.take(j), st0);
        let sj1 = self.option_round(unit_id, round.take(j + 1), st0);
        let full = self.option_round(unit_id, round, st0);
        self.lemma_round_at(unit_id, round, st0, j);
        if k == 0 {
            assert(round.take(0) =~= Seq::<Seq<Position>>::empty());
            assert(sj == st0);
        }
        assert forall|i: int| 1 <= i < path.len() - 1 implies !has_destination(sj1.1, #[trigger] path[i]) by {
            if has_destination(sj1.1, path[i]) {
                lemma_destination_in_prefix(sj1.1, full.1, path[i]);
            }
        }
        self.lemma_step_reaches(unit_id, path, k, sj);
        if has_destination(sj1.1, path.last()) {
            lemma_destination_in_prefix(sj1.1, full.1, path.last());
        } else {
            let x = choose|x: int| 0 <= x < sj1.0.len() && sj1.0[x] == path.take(k + 2);
            assert(full.0.take(sj1.0.len() as int)[x] == full.0[x]);
        }
    }
}

impl Game {
    /// From round `k` on, a walkable path whose first `k + 1` positions are in the round, and
    /// whose inner positions end no option, ends an option.
    proof fn lemma_search_reaches(
        self,
        unit_id: UnitId,
        path: Seq<Position>,
        k: int,
        round: Seq<Seq<Position>>,
        found: Seq<(Position, Seq<Position>)>,
        rounds: nat,
    )
        requires
            self.walkable(unit_id, path),
            self.stay_result(unit_id, path.last()) is Ok,
            0 <= k < path.len(),
            round.contains(path.take(k + 1)) || has_destination(found, path.last()),
            k == 0 ==> round == seq![path.take(1)] && found.len() == 0,
            rounds >= path.len() - k,
            forall|i: int| 1 <= i < path.len() - 1
                ==> !has_destination(self.option_search(unit_id, round, found, rounds), #[trigger] path[i]),
        ensures
            has_destination(self.option_search(unit_id, round, found, rounds), path.last()),
        decreases path.len() - k,
    {
        let all = self.option_search(unit_id, round, found, rounds);
        self.lemma_option_search_extends(unit_id, round, found, rounds);
        if has_destination(found, path.last()) {
            lemma_destination_in_prefix(found, all, path.last());
        } else {
            let j = choose|j: int| 0 <= j < round.len() && round[j] == path.take(k + 1);
            if k == 0 {
                assert(j == 0);
            }
            let st = self.option_round(unit_id, round, (Seq::empty(), found));
            assert(all == self.option_search(unit_id, st.0, st.1, (rounds - 1) as nat));
            self.lemma_option_search_extends(unit_id, st.0, st.1, (rounds - 1) as nat);
            assert forall|i: int| 1 <= i < path.len() - 1 implies !has_destination(st.1, #[trigger] path[i]) by {
                if has_destination(st.1, path[i]) {
                    lemma_destination_in_prefix(st.1, all, path[i]);
                }
            }
            self.lemma_round_reaches(unit_id, path, k, round, found, j);
            if has_destination(st.1, path.last()) {
                lemma_destination_in_prefix(st.1, all, path.last());
            } else {
                self.lemma_search_reaches(unit_id, path, k + 1, st.0, st.1, (rounds - 1) as nat);
            }
        }
    }
}

/// The search finds every destination that the unit can reach without passing another
/// destination: where a path from the unit's position steps from neighbour to neighbour within
/// the map, the unit may move along it and stop at its end, and none of its inner positions is a
/// destination, its end is one. Tiles the unit may cross but not stop on, such as one held by a
/// friendly unit, are never destinations, so the search goes on through them.
pub proof fn move_options_complete(game: Game, unit_id: UnitId, path: Seq<Position>)
    requires
        path.len() >= 1,
        path[0] == game.unit_position(unit_id),
        forall|i: int| 0 <= i < path.len() ==> within_map(game.tiles@, #[trigger] path[i]),
        forall|i: int| 0 <= i < path.len() ==> has_neighbours(#[trigger] path[i]),
        forall|i: int| 1 <= i < path.len() ==> adjacent_positions(path[i - 1]).contains(#[trigger] path[i]),
        game.move_path_result(unit_id, path) is Ok,
        game.stay_result(unit_id, path.last()) is Ok,
        forall|i: int| 1 <= i < path.len() - 1 ==> !has_destination(game.move_options(unit_id), #[trigger] path[i]),
    ensures
        has_destination(game.move_options(unit_id), path.last()),
{
    let rounds = (movement_points(game.units@[unit_id].unit_type) + 2) as nat;
    if path.len() >= 2 {
        game.lemma_move_bounds_steps(unit_id, path);
    }
    assert(path.take(1) =~= seq![game.unit_position(unit_id)]);
    let first = seq![path.take(1)];
    assert(first[0] == path.take(1));
    game.lemma_search_reaches(unit_id, path, 0, first, Seq::empty(), rounds);
}

} // verus!

use crate::auth::UserId;
use crate::game::{
    ActionError, ActionResult, Game, GameMap, GameState, GameUpdateError, GameUpdateResult, Player,
    PlayerNumber, Players, Position, Rect, Tile, TileId, Tiles, Unit, UnitId, UnitModel, Units,
};
use crate::model::{
    movement, movement_points, movement_type_of, terrain, terrain_build_classes, terrain_cost,
    unit_type, Movement,
};
use std::collections::HashSet;
use vstd::prelude::*;

verus! {

broadcast use vstd::std_specs::hash::group_hash_axioms;

/// Id of the tile at `p` (meaningful where one is).
pub open spec fn tile_id_at(tiles: Map<TileId, Tile>, p: Position) -> TileId {
    choose|k: TileId| tiles.contains_key(k) && #[trigger] tile_at(tiles[k], p)
}

/// Whether `t` stands at `p`.
pub open spec fn tile_at(t: Tile, p: Position) -> bool {
    t.x == p.0 && t.y == p.1
}

/// `s` lists, without repeating an id, exactly the entries of `m` whose value satisfies `keep`.
pub open spec fn enumerates<V>(s: Seq<(usize, V)>, m: Map<usize, V>, keep: spec_fn(V) -> bool) -> bool {
    &&& forall|i: int, j: int| 0 <= i < j < s.len() ==> #[trigger] s[i].0 != #[trigger] s[j].0
    &&& forall|i: int|
        0 <= i < s.len() ==> m.contains_key(#[trigger] s[i].0) && m[s[i].0] == s[i].1 && keep(s[i].1)
    &&& forall|k: usize| #[trigger] m.contains_key(k) && keep(m[k]) ==> exists|i: int| 0 <= i < s.len() && s[i].0 == k
}

/// `s` lists every entry of `m` exactly once.
pub open spec fn lists_all<V>(s: Seq<(usize, V)>, m: Map<usize, V>) -> bool {
    enumerates(s, m, |v: V| true)
}

impl View for Tiles {
    type V = Map<TileId, Tile>;

    closed spec fn view(&self) -> Map<TileId, Tile> {
        self.0@
    }
}

impl Tiles {
    /// No two tiles stand at `p`.
    pub open spec fn position_unique(self, p: Position) -> bool {
        forall|i: TileId, j: TileId|
            #![trigger tile_at(self@[i], p), tile_at(self@[j], p)]
            self@.contains_key(i) && self@.contains_key(j) && tile_at(self@[i], p) && tile_at(self@[j], p) ==> i == j
    }

    /// `t` is one of the tiles.
    pub open spec fn has_tile(self, t: Tile) -> bool {
        exists|k: TileId| self@.contains_key(k) && self@[k] == t
    }

    /// Some tile stands at `p`.
    pub open spec fn has_tile_at(self, p: Position) -> bool {
        exists|i: TileId| self@.contains_key(i) && #[trigger] tile_at(self@[i], p)
    }

    /// No two tiles hold unit `u`.
    pub open spec fn placement_unique(self, u: UnitId) -> bool {
        forall|i: TileId, j: TileId|
            #![trigger self@[i].unit, self@[j].unit]
            self@.contains_key(i) && self@.contains_key(j) && self@[i].unit == Some(u) && self@[j].unit == Some(u) ==> i == j
    }

    /// Some tile holds unit `u`.
    pub open spec fn holds_unit(self, u: UnitId) -> bool {
        exists|i: TileId| self@.contains_key(i) && #[trigger] self@[i].unit == Some(u)
    }

    /// The tiles are finitely many.
    pub proof fn lemma_finite(&self)
        ensures
            self@.dom().finite(),
    {
    }

    /// The ids of all tiles, each once, in the map's own order.
    pub fn iter_ids(&self) -> (ids: Vec<TileId>)
        ensures
            ids@.no_duplicates(),
            ids@.to_set() == self@.dom(),
    {
        let mut ids: Vec<TileId> = Vec::new();
        for k in it: self.0.keys()
            invariant
                ids@ == it.seq().take(it.index()).unref(),
                it.seq().unref().to_set() == self@.dom(),
                it.seq().no_duplicates(),
                it.index() == it.seq().len() ==> ids@ == it.seq().unref(),
        {
            ids.push(*k);
        }
        ids
    }

    /// All tiles with their ids, each once, in the map's own order.
    pub fn iter_with_ids(&self) -> (r: Vec<(TileId, Tile)>)
        ensures
            lists_all(r@, self@),
    {
        let ids = self.iter_ids();
        let mut r: Vec<(TileId, Tile)> = Vec::new();
        let mut n: usize = 0;
        while n < ids.len()
            invariant
                n <= ids@.len(),
                ids@.no_duplicates(),
                ids@.to_set() == self@.dom(),
                r@.len() == n,
                forall|i: int| 0 <= i < n ==> (#[trigger] r@[i]).0 == ids@[i] && r@[i].1 == self@[ids@[i]],
            decreases ids@.len() - n,
        {
            let id = ids[n];
            assert(ids@.to_set().contains(id));
            let t = *self.0.get(&id).unwrap();
            r.push((id, t));
            n = n + 1;
        }
        proof {
            assert forall|k: usize| #[trigger] self@.contains_key(k) implies exists|i: int|
                0 <= i < r@.len() && r@[i].0 == k by {
                assert(ids@.to_set().contains(k));
                let i = choose|i: int| 0 <= i < ids@.len() && ids@[i] == k;
                assert(r@[i].0 == k);
            }
            assert forall|i: int| 0 <= i < r@.len() implies #[trigger] self@.contains_key(r@[i].0) by {
                assert(ids@.to_set().contains(ids@[i]));
            }
        }
        r
    }

    /// All tiles, each once, in the map's own order.
    pub fn iter(&self) -> (r: Vec<Tile>)
        ensures
            exists|e: Seq<(TileId, Tile)>|
                #[trigger] lists_all(e, self@) && r@ == e.map_values(|p: (TileId, Tile)| p.1),
    {
        let entries = self.iter_with_ids();
        let mut r: Vec<Tile> = Vec::new();
        let mut n: usize = 0;
        while n < entries.len()
            invariant
                n <= entries@.len(),
                r@ == entries@.take(n as int).map_values(|p: (TileId, Tile)| p.1),
            decreases entries@.len() - n,
        {
            r.push(entries[n].1);
            assert(entries@.take(n + 1).map_values(|p: (TileId, Tile)| p.1) =~= r@);
            n = n + 1;
        }
        assert(entries@.take(entries@.len() as int) =~= entries@);
        r
    }

    /// The tile with id `tile_id`, if any.
    pub fn get(&self, tile_id: TileId) -> (r: Option<Tile>)
        ensures
            r == self@.get(tile_id),
    {
        match self.0.get(&tile_id) {
            Some(t) => Some(*t),
            None => None,
        }
    }

    /// The tile that holds unit `unit_id`, with its id, if any.
    pub fn get_unit_tile(&self, unit_id: UnitId) -> (r: Option<(TileId, Tile)>)
        requires
            self.placement_unique(unit_id),
        ensures
            r is None <==> !self.holds_unit(unit_id),
            r matches Some((id, t)) ==> self@.contains_key(id) && self@[id] == t && t.unit == Some(unit_id),
    {
        let entries = self.iter_with_ids();
        let mut n: usize = 0;
        while n < entries.len()
            invariant
                n <= entries@.len(),
                lists_all(entries@, self@),
                forall|i: int| 0 <= i < n ==> (#[trigger] entries@[i]).1.unit != Some(unit_id),
            decreases entries@.len() - n,
        {
            if entries[n].1.unit == Some(unit_id) {
                assert(self@[entries@[n as int].0].unit == Some(unit_id));
                return Some(entries[n]);
            }
            n = n + 1;
        }
        proof {
            assert forall|k: TileId| self@.contains_key(k) implies #[trigger] self@[k].unit != Some(unit_id) by {
                let i = choose|i: int| 0 <= i < entries@.len() && entries@[i].0 == k;
                assert(entries@[i].1 == self@[k]);
            }
        }
        None
    }

    /// The tile at `p`, with its id.
    pub fn get_at(&self, p: &Position) -> (r: ActionResult<(TileId, Tile)>)
        requires
            self.position_unique(*p),
        ensures
            r is Err <==> !self.has_tile_at(*p),
            r matches Err(e) ==> e == ActionError::InvalidPath,
            r matches Ok((id, t)) ==> self@.contains_key(id) && self@[id] == t && tile_at(t, *p)
                && t == self.tile_at_position(*p),
    {
        let entries = self.iter_with_ids();
        let mut n: usize = 0;
        while n < entries.len()
            invariant
                n <= entries@.len(),
                lists_all(entries@, self@),
                forall|i: int| 0 <= i < n ==> !tile_at((#[trigger] entries@[i]).1, *p),
                self.position_unique(*p),
            decreases entries@.len() - n,
        {
            if entries[n].1.x == p.0 && entries[n].1.y == p.1 {
                assert(tile_at(self@[entries@[n as int].0], *p));
                proof {
                    let e0 = entries@[n as int].0;
                    assert(self@.contains_key(e0) && tile_at(self@[e0], *p));
                    assert(self.has_tile_at(*p));
                    let k = tile_id_at(self@, *p);
                    assert(tile_at(self@[k], *p));
                    assert(k == e0);
                }
                return Ok(entries[n]);
            }
            n = n + 1;
        }
        proof {
            assert forall|k: TileId| self@.contains_key(k) implies !#[trigger] tile_at(self@[k], *p) by {
                let i = choose|i: int| 0 <= i < entries@.len() && entries@[i].0 == k;
                assert(entries@[i].1 == self@[k]);
            }
        }
        Err(ActionError::InvalidPath)
    }

    /// The smallest rectangle `(min x, min y, max x, max y)` that holds every tile; `None` without tiles.
    pub fn rect(&self) -> (r: Option<Rect>)
        ensures
            r is None <==> self@.dom().is_empty(),
            r matches Some((x0, y0, x1, y1)) ==> {
                &&& forall|k: TileId| #[trigger] self@.contains_key(k) ==>
                    x0 <= self@[k].x <= x1 && y0 <= self@[k].y <= y1
                &&& exists|k: TileId| self@.contains_key(k) && #[trigger] self@[k].x == x0
                &&& exists|k: TileId| self@.contains_key(k) && #[trigger] self@[k].y == y0
                &&& exists|k: TileId| self@.contains_key(k) && #[trigger] self@[k].x == x1
                &&& exists|k: TileId| self@.contains_key(k) && #[trigger] self@[k].y == y1
            },
    {
        let entries = self.iter_with_ids();
        let mut acc: Option<Rect> = None;
        let mut n: usize = 0;
        while n < entries.len()
            invariant
                n <= entries@.len(),
                lists_all(entries@, self@),
                acc is None <==> n == 0,
                acc matches Some((x0, y0, x1, y1)) ==> {
                    &&& forall|i: int| 0 <= i < n ==>
                        x0 <= (#[trigger] entries@[i]).1.x <= x1 && y0 <= entries@[i].1.y <= y1
                    &&& exists|i: int| 0 <= i < n && (#[trigger] entries@[i]).1.x == x0
                    &&& exists|i: int| 0 <= i < n && (#[trigger] entries@[i]).1.y == y0
                    &&& exists|i: int| 0 <= i < n && (#[trigger] entries@[i]).1.x == x1
                    &&& exists|i: int| 0 <= i < n && (#[trigger] entries@[i]).1.y == y1
                },
            decreases entries@.len() - n,
        {
            let t = entries[n].1;
            acc = match acc {
                Some((x0, y0, x1, y1)) => Some((
                    if t.x < x0 { t.x } else { x0 },
                    if t.y < y0 { t.y } else { y0 },
                    if t.x > x1 { t.x } else { x1 },
                    if t.y > y1 { t.y } else { y1 },
                )),
                None => Some((t.x, t.y, t.x, t.y)),
            };
            n = n + 1;
        }
        proof {
            if entries@.len() == 0 {
                assert forall|k: TileId| !self@.contains_key(k) by {
                    if self@.contains_key(k) {
                        let i = choose|i: int| 0 <= i < entries@.len() && entries@[i].0 == k;
                    }
                }
                assert(self@.dom() =~= Set::empty());
            } else {
                assert(self@.contains_key(entries@[0].0));
            }
            if let Some((x0, y0, x1, y1)) = acc {
                assert forall|k: TileId| #[trigger] self@.contains_key(k) implies
                    x0 <= self@[k].x <= x1 && y0 <= self@[k].y <= y1 by {
                    let i = choose|i: int| 0 <= i < entries@.len() && entries@[i].0 == k;
                    assert(entries@[i].1 == self@[k]);
                }
                let a = choose|i: int| 0 <= i < entries@.len() && (#[trigger] entries@[i]).1.x == x0;
                assert(self@.contains_key(entries@[a].0));
                let b = choose|i: int| 0 <= i < entries@.len() && (#[trigger] entries@[i]).1.y == y0;
                assert(self@.contains_key(entries@[b].0));
                let c = choose|i: int| 0 <= i < entries@.len() && (#[trigger] entries@[i]).1.x == x1;
                assert(self@.contains_key(entries@[c].0));
                let d = choose|i: int| 0 <= i < entries@.len() && (#[trigger] entries@[i]).1.y == y1;
                assert(self@.contains_key(entries@[d].0));
            }
        }
        acc
    }

    /// The tiles owned by `player_number`, with their ids, each once.
    pub fn owned_by_player(&self, player_number: PlayerNumber) -> (r: Vec<(TileId, Tile)>)
        ensures
            enumerates(r@, self@, |t: Tile| t.owner == Some(player_number)),
    {
        let entries = self.iter_with_ids();
        let mut r: Vec<(TileId, Tile)> = Vec::new();
        let ghost mut from: Seq<int> = Seq::empty();
        let mut n: usize = 0;
        while n < entries.len()
            invariant
                n <= entries@.len(),
                lists_all(entries@, self@),
                from.len() == r@.len(),
                forall|i: int| 0 <= i < r@.len() ==> 0 <= #[trigger] from[i] < n && r@[i] == entries@[from[i]],
                forall|i: int, j: int| 0 <= i < j < r@.len() ==> #[trigger] from[i] < #[trigger] from[j],
                forall|i: int| 0 <= i < r@.len() ==> (#[trigger] r@[i]).1.owner == Some(player_number),
                forall|m: int| 0 <= m < n && (#[trigger] entries@[m]).1.owner == Some(player_number) ==>
                    exists|i: int| 0 <= i < r@.len() && from[i] == m,
            decreases entries@.len() - n,
        {
            let ghost old_r = r@;
            let ghost old_from = from;
            if entries[n].1.owner == Some(player_number) {
                proof {
                    from = from.push(n as int);
                }
                r.push(entries[n]);
            }
            proof {
                assert forall|m: int| 0 <= m < n + 1 && (#[trigger] entries@[m]).1.owner == Some(player_number) implies
                    exists|i: int| 0 <= i < r@.len() && from[i] == m by {
                    if m < n {
                        let i = choose|i: int| 0 <= i < old_r.len() && old_from[i] == m;
                        assert(from[i] == m);
                    } else {
                        assert(from[r@.len() - 1] == m);
                    }
                }
            }
            n = n + 1;
        }
        proof {
            assert forall|i: int, j: int| 0 <= i < j < r@.len() implies #[trigger] r@[i].0 != #[trigger] r@[j].0 by {
                assert(from[i] < from[j]);
                assert(entries@[from[i]].0 != entries@[from[j]].0);
            }
            assert forall|i: int| 0 <= i < r@.len() implies self@.contains_key(#[trigger] r@[i].0)
                && self@[r@[i].0] == r@[i].1 && r@[i].1.owner == Some(player_number) by {
                assert(r@[i] == entries@[from[i]]);
            }
            assert forall|k: usize| #[trigger] self@.contains_key(k) && self@[k].owner == Some(player_number) implies
                exists|i: int| 0 <= i < r@.len() && r@[i].0 == k by {
                let m = choose|m: int| 0 <= m < entries@.len() && entries@[m].0 == k;
                assert(entries@[m].1.owner == Some(player_number));
                let i = choose|i: int| 0 <= i < r@.len() && from[i] == m;
                assert(r@[i].0 == k);
            }
            assert(enumerates(r@, self@, |t: Tile| t.owner == Some(player_number)));
        }
        r
    }

    /// The tiles at the positions of `path`, in its order; `InvalidPath` if a position has no tile.
    pub fn get_path_tiles(&self, path: &[Position]) -> (r: ActionResult<Vec<Tile>>)
        requires
            forall|i: int| 0 <= i < path@.len() ==> self.position_unique(#[trigger] path@[i]),
        ensures
            r is Err <==> exists|i: int| 0 <= i < path@.len() && !self.has_tile_at(#[trigger] path@[i]),
            r matches Err(e) ==> e == ActionError::InvalidPath,
            r matches Ok(ts) ==> ts@.len() == path@.len() && forall|i: int| 0 <= i < path@.len() ==>
                tile_at(#[trigger] ts@[i], path@[i]) && self.has_tile(ts@[i]) && ts@[i] == self.tile_at_position(path@[i]),
    {
        let mut ts: Vec<Tile> = Vec::new();
        let mut n: usize = 0;
        while n < path.len()
            invariant
                n <= path@.len(),
                forall|i: int| 0 <= i < path@.len() ==> self.position_unique(#[trigger] path@[i]),
                ts@.len() == n,
                forall|i: int| 0 <= i < n ==>
                    tile_at(#[trigger] ts@[i], path@[i]) && self.has_tile(ts@[i]) && ts@[i] == self.tile_at_position(path@[i]),
                forall|i: int| 0 <= i < n ==> self.has_tile_at(#[trigger] path@[i]),
            decreases path@.len() - n,
        {
            match self.get_at(&path[n]) {
                Ok((id, t)) => {
                    ts.push(t);
                    assert(self@.contains_key(id) && self@[id] == ts@[n as int]);
                },
                Err(e) => {
                    return Err(e);
                },
            }
            n = n + 1;
        }
        Ok(ts)
    }

    /// Replaces the tile with id `id`; `InvalidTileId` if there is none.
    pub fn update(&mut self, id: TileId, tile: Tile) -> (r: GameUpdateResult<()>)
        ensures
            r is Ok <==> old(self)@.contains_key(id),
            r matches Err(e) ==> e == GameUpdateError::InvalidTileId && final(self)@ == old(self)@,
            r is Ok ==> final(self)@ == old(self)@.insert(id, tile),
    {
        if self.0.contains_key(&id) {
            self.0.insert(id, tile);
            Ok(())
        } else {
            Err(GameUpdateError::InvalidTileId)
        }
    }
}

/// The ids and models of a list of units.
pub open spec fn unit_models(s: Seq<(UnitId, Unit)>) -> Seq<(UnitId, UnitModel)> {
    s.map_values(|e: (UnitId, Unit)| (e.0, e.1@))
}

impl Unit {
    /// A copy of this unit with the same model.
    pub fn duplicate(&self) -> (r: Unit)
        ensures
            r@ == self@,
    {
        let carried = self.carried.clone();
        assert(carried@ =~= self.carried@);
        Unit {
            unit_type: self.unit_type,
            health: self.health,
            carried,
            owner: self.owner,
            deployed: self.deployed,
            moved: self.moved,
            capturing: self.capturing,
        }
    }
}

impl View for Units {
    type V = Map<UnitId, UnitModel>;

    closed spec fn view(&self) -> Map<UnitId, UnitModel> {
        self.0@.map_values(|u: Unit| u@)
    }
}

impl Units {
    /// The units are finitely many.
    pub proof fn lemma_finite(&self)
        ensures
            self@.dom().finite(),
    {
        assert(self@.dom() =~= self.0@.dom());
    }

    /// The ids of all units, each once, in the map's own order.
    pub fn iter_ids(&self) -> (ids: Vec<UnitId>)
        ensures
            ids@.no_duplicates(),
            ids@.to_set() == self@.dom(),
    {
        let mut ids: Vec<UnitId> = Vec::new();
        for k in it: self.0.keys()
            invariant
                ids@ == it.seq().take(it.index()).unref(),
                it.seq().unref().to_set() == self.0@.dom(),
                it.seq().no_duplicates(),
                it.index() == it.seq().len() ==> ids@ == it.seq().unref(),
        {
            ids.push(*k);
        }
        assert(self@.dom() =~= self.0@.dom());
        ids
    }

    /// The unit with id `id`, if any.
    pub fn get_ref(&self, id: &UnitId) -> (r: Option<&Unit>)
        ensures
            r is Some <==> self@.contains_key(*id),
            r matches Some(u) ==> u@ == self@[*id],
    {
        self.0.get(id)
    }

    /// A copy of the unit with id `unit_id`, if any.
    pub fn get(&self, unit_id: UnitId) -> (r: Option<Unit>)
        ensures
            r is Some <==> self@.contains_key(unit_id),
            r matches Some(u) ==> u@ == self@[unit_id],
    {
        match self.0.get(&unit_id) {
            Some(u) => Some(u.duplicate()),
            None => None,
        }
    }

    /// All units with their ids, each once, in the map's own order.
    pub fn iter_with_ids(&self) -> (r: Vec<(UnitId, Unit)>)
        ensures
            lists_all(unit_models(r@), self@),
    {
        self.filter_owner(None)
    }

    /// All units, each once, in the map's own order.
    pub fn iter(&self) -> (r: Vec<Unit>)
        ensures
            exists|e: Seq<(UnitId, Unit)>|
                #[trigger] lists_all(unit_models(e), self@) && r@ == e.map_values(|p: (UnitId, Unit)| p.1),
    {
        let entries = self.iter_with_ids();
        let mut r: Vec<Unit> = Vec::new();
        let mut n: usize = 0;
        while n < entries.len()
            invariant
                n <= entries@.len(),
                r@.len() == n,
                forall|i: int| 0 <= i < n ==> (#[trigger] r@[i])@ == entries@[i].1@,
            decreases entries@.len() - n,
        {
            let u = entries[n].1.duplicate();
            r.push(u);
            n = n + 1;
        }
        proof {
            let e = Seq::new(r@.len(), |i: int| (entries@[i].0, r@[i]));
            assert(unit_models(e) =~= unit_models(entries@));
            assert(r@ =~= e.map_values(|p: (UnitId, Unit)| p.1));
            assert(lists_all(unit_models(e), self@));
        }
        r
    }

    /// The units, with their ids, whose owner is `owner` (all units where `owner` is `None`).
    fn filter_owner(&self, owner: Option<PlayerNumber>) -> (r: Vec<(UnitId, Unit)>)
        ensures
            enumerates(unit_models(r@), self@, |u: UnitModel| owner is None || u.owner == owner),
    {
        let ids = self.iter_ids();
        let mut r: Vec<(UnitId, Unit)> = Vec::new();
        let ghost mut from: Seq<int> = Seq::empty();
        let mut n: usize = 0;
        while n < ids.len()
            invariant
                n <= ids@.len(),
                ids@.no_duplicates(),
                ids@.to_set() == self@.dom(),
                from.len() == r@.len(),
                forall|i: int| 0 <= i < r@.len() ==> 0 <= #[trigger] from[i] < n && r@[i].0 == ids@[from[i]],
                forall|i: int, j: int| 0 <= i < j < r@.len() ==> #[trigger] from[i] < #[trigger] from[j],
                forall|i: int| 0 <= i < r@.len() ==> (#[trigger] r@[i]).1@ == self@[r@[i].0]
                    && (owner is None || r@[i].1.owner == owner),
                forall|m: int| 0 <= m < n && (owner is None || self@[#[trigger] ids@[m]].owner == owner) ==>
                    exists|i: int| 0 <= i < r@.len() && from[i] == m,
            decreases ids@.len() - n,
        {
            let ghost old_r = r@;
            let ghost old_from = from;
            let id = ids[n];
            assert(ids@.to_set().contains(id));
            let u = self.0.get(&id).unwrap();
            if owner.is_none() || u.owner == owner {
                proof {
                    from = from.push(n as int);
                }
                r.push((id, u.duplicate()));
            }
            proof {
                assert forall|m: int| 0 <= m < n + 1 && (owner is None || self@[#[trigger] ids@[m]].owner == owner) implies
                    exists|i: int| 0 <= i < r@.len() && from[i] == m by {
                    if m < n {
                        let i = choose|i: int| 0 <= i < old_r.len() && old_from[i] == m;
                        assert(from[i] == m);
                    } else {
                        assert(from[r@.len() - 1] == m);
                    }
                }
            }
            n = n + 1;
        }
        proof {
            let s = unit_models(r@);
            assert forall|i: int, j: int| 0 <= i < j < s.len() implies #[trigger] s[i].0 != #[trigger] s[j].0 by {
                assert(from[i] < from[j]);
                assert(ids@[from[i]] != ids@[from[j]]);
            }
            assert forall|i: int| 0 <= i < s.len() implies self@.contains_key(#[trigger] s[i].0)
                && self@[s[i].0] == s[i].1 && (owner is None || s[i].1.owner == owner) by {
                assert(ids@.to_set().contains(ids@[from[i]]));
            }
            assert forall|k: usize| #[trigger] self@.contains_key(k) && (owner is None || self@[k].owner == owner) implies
                exists|i: int| 0 <= i < s.len() && s[i].0 == k by {
                assert(ids@.to_set().contains(k));
                let m = choose|m: int| 0 <= m < ids@.len() && ids@[m] == k;
                let i = choose|i: int| 0 <= i < r@.len() && from[i] == m;
                assert(s[i].0 == k);
            }
            assert(enumerates(s, self@, |u: UnitModel| owner is None || u.owner == owner));
        }
        r
    }

    /// The units owned by `player_number`, with their ids, each once.
    pub fn owned_by_player(&self, player_number: PlayerNumber) -> (r: Vec<(UnitId, Unit)>)
        ensures
            enumerates(unit_models(r@), self@, |u: UnitModel| u.owner == Some(player_number)),
    {
        let r = self.filter_owner(Some(player_number));
        assert(enumerates(unit_models(r@), self@, |u: UnitModel| u.owner == Some(player_number)));
        r
    }

    /// Replaces the unit with id `id`; `InvalidUnitId` if there is none.
    pub fn update(&mut self, id: UnitId, unit: Unit) -> (r: GameUpdateResult<()>)
        ensures
            r is Ok <==> old(self)@.contains_key(id),
            r matches Err(e) ==> e == GameUpdateError::InvalidUnitId && final(self)@ == old(self)@,
            r is Ok ==> final(self)@ == old(self)@.insert(id, unit@),
    {
        if self.0.contains_key(&id) {
            let ghost u = unit@;
            self.0.insert(id, unit);
            assert(self@ =~= old(self)@.insert(id, u));
            Ok(())
        } else {
            Err(GameUpdateError::InvalidUnitId)
        }
    }

    /// Adds `unit` under the id one above the largest id in use (0 for the first unit) and returns that id.
    pub fn insert(&mut self, unit: Unit) -> (r: UnitId)
        requires
            forall|k: UnitId| #[trigger] old(self)@.contains_key(k) ==> k < usize::MAX,
        ensures
            forall|k: UnitId| #[trigger] old(self)@.contains_key(k) ==> k < r,
            old(self)@.dom().is_empty() ==> r == 0,
            !old(self)@.dom().is_empty() ==> old(self)@.contains_key((r - 1) as UnitId),
            final(self)@ == old(self)@.insert(r, unit@),
    {
        let ids = self.iter_ids();
        let mut max: Option<UnitId> = None;
        let mut n: usize = 0;
        while n < ids.len()
            invariant
                n <= ids@.len(),
                ids@.to_set() == self@.dom(),
                max is None <==> n == 0,
                max matches Some(m) ==> (exists|i: int| 0 <= i < n && ids@[i] == m)
                    && forall|i: int| 0 <= i < n ==> #[trigger] ids@[i] <= m,
            decreases ids@.len() - n,
        {
            let id = ids[n];
            max = match max {
                Some(m) => if id > m { Some(id) } else { Some(m) },
                None => Some(id),
            };
            n = n + 1;
        }
        proof {
            if ids@.len() == 0 {
                assert forall|k: UnitId| !self@.contains_key(k) by {
                    if self@.contains_key(k) {
                        assert(ids@.to_set().contains(k));
                    }
                }
                assert(self@.dom() =~= Set::empty());
            } else {
                assert(ids@.to_set().contains(ids@[0]));
            }
        }
        let unit_id = match max {
            Some(m) => {
                assert(ids@.to_set().contains(m));
                m + 1
            },
            None => 0,
        };
        proof {
            assert forall|k: UnitId| #[trigger] self@.contains_key(k) implies k < unit_id by {
                assert(ids@.to_set().contains(k));
            }
        }
        let ghost u = unit@;
        self.0.insert(unit_id, unit);
        assert(self@ =~= old(self)@.insert(unit_id, u));
        unit_id
    }

    /// Removes the unit with id `unit_id`; `InvalidUnitId` if there is none.
    pub fn remove(&mut self, unit_id: UnitId) -> (r: GameUpdateResult<()>)
        ensures
            r is Ok <==> old(self)@.contains_key(unit_id),
            r matches Err(e) ==> e == GameUpdateError::InvalidUnitId,
            final(self)@ == old(self)@.remove(unit_id),
    {
        match self.0.remove(&unit_id) {
            Some(_) => {
                assert(self@ =~= old(self)@.remove(unit_id));
                Ok(())
            },
            None => {
                assert(self@ =~= old(self)@.remove(unit_id));
                Err(GameUpdateError::InvalidUnitId)
            },
        }
    }
}

impl View for Players {
    type V = Seq<Player>;

    closed spec fn view(&self) -> Seq<Player> {
        self.0@
    }
}

impl Players {
    /// No two seats have number `n`.
    pub open spec fn number_unique(self, n: PlayerNumber) -> bool {
        forall|i: int, j: int|
            #![trigger self@[i].number, self@[j].number]
            0 <= i < self@.len() && 0 <= j < self@.len() && self@[i].number == n && self@[j].number == n ==> i == j
    }

    /// Some seat has number `n`.
    pub open spec fn has_number(self, n: PlayerNumber) -> bool {
        exists|i: int| 0 <= i < self@.len() && #[trigger] self@[i].number == n
    }

    /// All seats, in turn order.
    pub fn iter(&self) -> (r: Vec<Player>)
        ensures
            r@ == self@,
    {
        let mut r: Vec<Player> = Vec::new();
        let mut n: usize = 0;
        while n < self.0.len()
            invariant
                n <= self@.len(),
                r@ == self@.take(n as int),
            decreases self@.len() - n,
        {
            r.push(self.0[n]);
            assert(r@ =~= self@.take(n + 1));
            n = n + 1;
        }
        assert(r@ =~= self@);
        r
    }

    /// Replaces the seat numbered `player.number`; `InvalidPlayerNumber` if there is none.
    pub fn update(&mut self, player: Player) -> (r: GameUpdateResult<()>)
        requires
            old(self).number_unique(player.number),
        ensures
            r is Ok <==> old(self).has_number(player.number),
            r matches Err(e) ==> e == GameUpdateError::InvalidPlayerNumber && final(self)@ == old(self)@,
            r is Ok ==> exists|i: int| 0 <= i < old(self)@.len() && old(self)@[i].number == player.number
                && final(self)@ == old(self)@.update(i, player),
    {
        let mut n: usize = 0;
        while n < self.0.len()
            invariant
                n <= self@.len(),
                self@ == old(self)@,
                forall|i: int| 0 <= i < n ==> (#[trigger] self@[i]).number != player.number,
            decreases self@.len() - n,
        {
            if self.0[n].number == player.number {
                self.0.set(n, player);
                return Ok(());
            }
            n = n + 1;
        }
        Err(GameUpdateError::InvalidPlayerNumber)
    }
}

/// Absolute value.
pub open spec fn abs(v: int) -> int {
    if v < 0 { -v } else { v }
}

/// Whether `v` is a value of `i32`.
pub open spec fn fits_i32(v: int) -> bool {
    i32::MIN <= v <= i32::MAX
}

/// Whether `v` is a value of `i32` whose negation is one too.
pub open spec fn abs_fits_i32(v: int) -> bool {
    i32::MIN < v <= i32::MAX
}

/// Number of steps from `a` to `b` on the hexagonal grid, as the game measures it.
pub open spec fn hex_distance(a: Position, b: Position) -> int {
    let (sx, sy, x, y) = (a.0 as int, a.1 as int, b.0 as int, b.1 as int);
    if y < sy && x > sx {
        (sy - y) + abs((x - sx) - (sy - y))
    } else if x < sx && y > sy {
        (sx - x) + abs((y - sy) - (sx - x))
    } else {
        abs(sx - x) + abs(sy - y)
    }
}

/// Whether measuring the distance from `a` to `b` stays within `i32` at every step.
pub open spec fn distance_computable(a: Position, b: Position) -> bool {
    let (sx, sy, x, y) = (a.0 as int, a.1 as int, b.0 as int, b.1 as int);
    if y < sy && x > sx {
        fits_i32(sy - y) && fits_i32(x - sx) && abs_fits_i32((x - sx) - (sy - y)) && fits_i32(hex_distance(a, b))
    } else if x < sx && y > sy {
        fits_i32(sx - x) && fits_i32(y - sy) && abs_fits_i32((y - sy) - (sx - x)) && fits_i32(hex_distance(a, b))
    } else {
        abs_fits_i32(sx - x) && abs_fits_i32(sy - y) && fits_i32(hex_distance(a, b))
    }
}

/// The six neighbours of `p`, in the order the game lists them.
pub open spec fn adjacent_positions(p: Position) -> Seq<Position> {
    seq![
        Position(p.0, (p.1 + 1) as i32),
        Position(p.0, (p.1 - 1) as i32),
        Position((p.0 + 1) as i32, p.1),
        Position((p.0 - 1) as i32, p.1),
        Position((p.0 - 1) as i32, (p.1 + 1) as i32),
        Position((p.0 + 1) as i32, (p.1 - 1) as i32),
    ]
}

/// Whether every neighbour of `p` has coordinates in `i32`.
pub open spec fn has_neighbours(p: Position) -> bool {
    i32::MIN < p.0 < i32::MAX && i32::MIN < p.1 < i32::MAX
}

fn abs_i32(v: i32) -> (r: i32)
    requires
        v > i32::MIN,
    ensures
        r == abs(v as int),
{
    if v < 0 { -v } else { v }
}

impl Position {
    /// Number of steps from this position to `other`.
    pub fn distance_to(&self, other: &Position) -> (r: u32)
        requires
            distance_computable(*self, *other),
        ensures
            r == hex_distance(*self, *other),
    {
        let Position(x, y) = *other;
        let Position(sx, sy) = *self;
        let result = if y < sy && x > sx {
            (sy - y) + abs_i32((x - sx) - (sy - y))
        } else if x < sx && y > sy {
            (sx - x) + abs_i32((y - sy) - (sx - x))
        } else {
            abs_i32(sx - x) + abs_i32(sy - y)
        };
        result as u32
    }

    /// The six neighbouring positions.
    pub fn adjacent(&self) -> (r: Vec<Position>)
        requires
            has_neighbours(*self),
        ensures
            r@ == adjacent_positions(*self),
    {
        let Position(x, y) = *self;
        let r = vec![
            Position(x, y + 1),
            Position(x, y - 1),
            Position(x + 1, y),
            Position(x - 1, y),
            Position(x - 1, y + 1),
            Position(x + 1, y - 1),
        ];
        assert(r@ =~= adjacent_positions(*self));
        r
    }
}

impl From<&(i32, i32)> for Position {
    fn from(v: &(i32, i32)) -> (r: Position) {
        Position(v.0, v.1)
    }
}

impl vstd::std_specs::convert::FromSpecImpl<&(i32, i32)> for Position {
    open spec fn obeys_from_spec() -> bool {
        true
    }

    open spec fn from_spec(v: &(i32, i32)) -> Position {
        Position(v.0, v.1)
    }
}

impl From<GameUpdateError> for ActionError {
    fn from(e: GameUpdateError) -> (r: ActionError) {
        ActionError::InternalError
    }
}

impl vstd::std_specs::convert::FromSpecImpl<GameUpdateError> for ActionError {
    open spec fn obeys_from_spec() -> bool {
        true
    }

    open spec fn from_spec(e: GameUpdateError) -> ActionError {
        ActionError::InternalError
    }
}

/// A position is no step away from itself.
pub proof fn distance_to_self_is_zero(p: Position)
    ensures
        hex_distance(p, p) == 0,
        distance_computable(p, p),
{
}

/// The positions one step away from `p` are exactly its six neighbours, measured either way.
pub proof fn distance_one_iff_adjacent(p: Position, q: Position)
    requires
        has_neighbours(p),
    ensures
        adjacent_positions(p).contains(q) <==> hex_distance(p, q) == 1,
        adjacent_positions(p).contains(q) <==> hex_distance(q, p) == 1,
        adjacent_positions(p).contains(q) ==> distance_computable(p, q) && distance_computable(q, p),
{
    let a = adjacent_positions(p);
    if hex_distance(p, q) == 1 || hex_distance(q, p) == 1 {
        if q == Position(p.0, (p.1 + 1) as i32) { assert(a[0] == q); }
        else if q == Position(p.0, (p.1 - 1) as i32) { assert(a[1] == q); }
        else if q == Position((p.0 + 1) as i32, p.1) { assert(a[2] == q); }
        else if q == Position((p.0 - 1) as i32, p.1) { assert(a[3] == q); }
        else if q == Position((p.0 - 1) as i32, (p.1 + 1) as i32) { assert(a[4] == q); }
        else { assert(a[5] == q); }
    }
}

/// The map after applying `updates` in order, stopping at the first id it does not hold.
pub open spec fn apply_updates<V>(m: Map<usize, V>, updates: Seq<(usize, V)>) -> Map<usize, V>
    decreases updates.len(),
{
    if updates.len() == 0 {
        m
    } else if !m.contains_key(updates[0].0) {
        m
    } else {
        apply_updates(m.insert(updates[0].0, updates[0].1), updates.drop_first())
    }
}

/// Every id that `updates` names is held by `m`.
pub open spec fn all_ids_held<V>(m: Map<usize, V>, updates: Seq<(usize, V)>) -> bool {
    forall|i: int| 0 <= i < updates.len() ==> m.contains_key(#[trigger] updates[i].0)
}

proof fn lemma_apply_updates_step<V>(m: Map<usize, V>, updates: Seq<(usize, V)>, n: int)
    requires
        0 <= n < updates.len(),
    ensures
        apply_updates(m, updates.skip(n)) == (if m.contains_key(updates[n].0) {
            apply_updates(m.insert(updates[n].0, updates[n].1), updates.skip(n + 1))
        } else {
            m
        }),
{
    assert(updates.skip(n).drop_first() =~= updates.skip(n + 1));
}

/// Sum of the steps between consecutive positions of `path`.
pub open spec fn path_distance(path: Seq<Position>) -> int
    decreases path.len(),
{
    if path.len() <= 1 {
        0
    } else {
        path_distance(path.drop_last()) + hex_distance(path[path.len() - 2], path[path.len() - 1])
    }
}

/// Movement points a unit of movement class `m` spends to enter the tiles of `ts` in turn; `None`
/// where one of them cannot be entered.
pub open spec fn path_cost(m: Movement, ts: Seq<Tile>) -> Option<int>
    decreases ts.len(),
{
    if ts.len() == 0 {
        Some(0)
    } else {
        match (path_cost(m, ts.drop_last()), terrain_cost(m, ts.last().terrain)) {
            (Some(a), Some(b)) => Some(a + b),
            _ => None,
        }
    }
}

proof fn lemma_path_cost_bound(m: Movement, ts: Seq<Tile>)
    ensures
        path_cost(m, ts) matches Some(c) ==> 0 <= c <= 4 * ts.len(),
    decreases ts.len(),
{
    if ts.len() > 0 {
        lemma_path_cost_bound(m, ts.drop_last());
    }
}

impl Tiles {
    /// The tile standing at `p` (meaningful where exactly one does).
    pub open spec fn tile_at_position(self, p: Position) -> Tile {
        self@[tile_id_at(self@, p)]
    }

    /// Every position has at most one tile, and every unit stands on at most one tile.
    pub open spec fn wf(self) -> bool {
        &&& self.positions_unique()
        &&& forall|u: UnitId| self.placement_unique(u)
    }

    /// No two tiles share a position.
    pub open spec fn positions_unique(self) -> bool {
        forall|p: Position| self.position_unique(p)
    }
}

/// The units on the map and in carriers are known; carried units are off the map; no unit is
/// in two carriers.
pub open spec fn units_consistent(tiles: Map<TileId, Tile>, units: Map<UnitId, UnitModel>) -> bool {
    &&& forall|k: TileId| #[trigger] tiles.contains_key(k) && tiles[k].unit is Some
        ==> units.contains_key(tiles[k].unit->0)
    &&& forall|u: UnitId, i: int| #[trigger] units.contains_key(u) && 0 <= i < units[u].carried.len()
        ==> units.contains_key(#[trigger] units[u].carried[i])
    &&& forall|u: UnitId, i: int, k: TileId| #[trigger] units.contains_key(u) && 0 <= i < units[u].carried.len()
        && #[trigger] tiles.contains_key(k) ==> tiles[k].unit != Some(#[trigger] units[u].carried[i])
    &&& forall|u: UnitId, v: UnitId, i: int, j: int|
        #![trigger units[u].carried[i], units[v].carried[j]]
        units.contains_key(u) && units.contains_key(v) && u != v && 0 <= i < units[u].carried.len()
        && 0 <= j < units[v].carried.len() ==> units[u].carried[i] != units[v].carried[j]
}

impl Game {
    /// What the game relies on: unique seat numbers, a seat in turn while it is in progress, and
    /// unique tile positions and unit placements.
    pub open spec fn wf(self) -> bool {
        &&& forall|n: PlayerNumber| self.players.number_unique(n)
        &&& self.state == GameState::InProgress ==> self.in_turn_index < self.players@.len()
        &&& self.tiles.wf()
        &&& units_consistent(self.tiles@, self.units@)
    }

    /// Number of the seat in turn while the game is in progress.
    pub open spec fn spec_in_turn_number(self) -> Option<PlayerNumber> {
        if self.state == GameState::InProgress {
            Some(self.players@[self.in_turn_index as int].number)
        } else {
            None
        }
    }

    /// The seats a game starts with: one per user, numbered from 1, each with `funds`.
    pub open spec fn initial_players(users: Seq<UserId>, funds: u32) -> Seq<Player> {
        Seq::new(users.len(), |i: int| Player {
            user_id: users[i],
            number: (i + 1) as u32,
            funds: funds,
            score: 0,
            alive: true,
        })
    }

    /// A new game on `map`, not yet started, with one seat per user.
    pub fn new(map: GameMap, players: &[UserId]) -> (r: Game)
        requires
            players@.len() < u32::MAX,
            forall|k: UnitId| #[trigger] map.units@.contains_key(k) ==> k < usize::MAX,
        ensures
            r.state == GameState::Pregame,
            r.units@ == map.units@.map_values(|u: Unit| u@),
            r.tiles@ == map.tiles@,
            r.players@ == Game::initial_players(players@, map.funds),
            r.in_turn_index == 0,
            r.round_count == 0,
            r.turn_count == 0,
            map.units@.dom().is_empty() ==> r.next_unit_id == 1,
            !map.units@.dom().is_empty() ==> map.units@.contains_key((r.next_unit_id - 1) as UnitId),
            forall|k: UnitId| #[trigger] map.units@.contains_key(k) ==> k < r.next_unit_id,
    {
        let funds = map.funds;
        let units = Units(map.units);
        let ids = units.iter_ids();
        let mut max_unit_id: UnitId = 0;
        let mut n: usize = 0;
        while n < ids.len()
            invariant
                n <= ids@.len(),
                ids@.to_set() == units@.dom(),
                forall|i: int| 0 <= i < n ==> #[trigger] ids@[i] <= max_unit_id,
                n == 0 ==> max_unit_id == 0,
                n > 0 ==> exists|i: int| 0 <= i < n && ids@[i] == max_unit_id,
            decreases ids@.len() - n,
        {
            if ids[n] > max_unit_id {
                max_unit_id = ids[n];
            }
            n = n + 1;
        }
        assert(units@.dom() =~= map.units@.dom());
        proof {
            if ids@.len() == 0 {
                assert forall|k: UnitId| !map.units@.contains_key(k) by {
                    if map.units@.contains_key(k) {
                        assert(ids@.to_set().contains(k));
                    }
                }
                assert(map.units@.dom() =~= Set::empty());
            } else {
                assert(ids@.to_set().contains(max_unit_id));
                assert(ids@.to_set().contains(ids@[0]));
            }
            assert forall|k: UnitId| #[trigger] map.units@.contains_key(k) implies k <= max_unit_id by {
                assert(ids@.to_set().contains(k));
            }
        }
        let mut seats: Vec<Player> = Vec::new();
        let mut i: usize = 0;
        while i < players.len()
            invariant
                i <= players@.len(),
                players@.len() < u32::MAX,
                seats@ == Game::initial_players(players@.take(i as int), funds),
            decreases players@.len() - i,
        {
            seats.push(Player { user_id: players[i], number: i as u32 + 1, funds, score: 0, alive: true });
            assert(seats@ =~= Game::initial_players(players@.take(i + 1), funds));
            i = i + 1;
        }
        assert(players@.take(players@.len() as int) =~= players@);
        Game {
            state: GameState::Pregame,
            units,
            tiles: Tiles(map.tiles),
            players: Players(seats),
            in_turn_index: 0,
            round_count: 0,
            turn_count: 0,
            next_unit_id: max_unit_id + 1,
        }
    }

    /// Puts the seat numbered `player_number` in turn; `InvalidPlayerNumber` if there is none.
    pub fn set_player_in_turn(&mut self, player_number: PlayerNumber) -> (r: GameUpdateResult<()>)
        ensures
            r is Ok <==> old(self).players.has_number(player_number),
            r matches Err(e) ==> e == GameUpdateError::InvalidPlayerNumber && *final(self) == *old(self),
            r is Ok ==> *final(self) == (Game { in_turn_index: final(self).in_turn_index, ..*old(self) })
                && final(self).in_turn_index < old(self).players@.len()
                && old(self).players@[final(self).in_turn_index as int].number == player_number
                && forall|i: int| 0 <= i < final(self).in_turn_index ==> (#[trigger] old(self).players@[i]).number != player_number,
    {
        let mut n: usize = 0;
        while n < self.players.0.len()
            invariant
                n <= self.players@.len(),
                *self == *old(self),
                forall|i: int| 0 <= i < n ==> (#[trigger] self.players@[i]).number != player_number,
            decreases self.players@.len() - n,
        {
            if self.players.0[n].number == player_number {
                self.in_turn_index = n;
                assert(old(self).players@[n as int].number == player_number);
                return Ok(());
            }
            n = n + 1;
        }
        Err(GameUpdateError::InvalidPlayerNumber)
    }

    /// Moves the game on to `state`: only set-up to in progress, and in progress to finished.
    pub fn set_state(&mut self, state: GameState) -> (r: GameUpdateResult<()>)
        ensures
            r is Ok <==> (old(self).state == GameState::Pregame && state == GameState::InProgress)
                || (old(self).state == GameState::InProgress && state == GameState::Finished),
            r matches Err(e) ==> e == GameUpdateError::InvalidStateTransition && *final(self) == *old(self),
            r is Ok ==> *final(self) == (Game { state, ..*old(self) }),
    {
        match (&self.state, &state) {
            (GameState::Pregame, GameState::InProgress) => {},
            (GameState::InProgress, GameState::Finished) => {},
            _ => {
                return Err(GameUpdateError::InvalidStateTransition);
            },
        }
        self.state = state;
        Ok(())
    }

    /// Replaces tiles, then units, in the given order; stops at the first id that is not held.
    pub fn update_tiles_and_units(&mut self, tiles: Vec<(TileId, Tile)>, units: Vec<(UnitId, Unit)>) -> (r: GameUpdateResult<()>)
        ensures
            final(self).tiles@ == apply_updates(old(self).tiles@, tiles@),
            !all_ids_held(old(self).tiles@, tiles@) ==> r == Err::<(), _>(GameUpdateError::InvalidTileId)
                && final(self).units@ == old(self).units@,
            all_ids_held(old(self).tiles@, tiles@) ==> final(self).units@ == apply_updates(old(self).units@, unit_models(units@)),
            all_ids_held(old(self).tiles@, tiles@) ==> (r is Ok <==> all_ids_held(old(self).units@, unit_models(units@))),
            all_ids_held(old(self).tiles@, tiles@) && r is Err ==> r == Err::<(), _>(GameUpdateError::InvalidUnitId),
            final(self).state == old(self).state,
            final(self).players == old(self).players,
            final(self).in_turn_index == old(self).in_turn_index,
            final(self).round_count == old(self).round_count,
            final(self).turn_count == old(self).turn_count,
            final(self).next_unit_id == old(self).next_unit_id,
    {
        let ghost t0 = self.tiles@;
        let mut n: usize = 0;
        let ghost ts = tiles@;
        assert(ts.skip(0) =~= ts);
        while n < tiles.len()
            invariant
                n <= ts.len(),
                tiles@ == ts,
                apply_updates(t0, ts) == apply_updates(self.tiles@, ts.skip(n as int)),
                self.tiles@.dom() == t0.dom(),
                ts == tiles@,
                t0 == old(self).tiles@,
                forall|i: int| 0 <= i < n ==> t0.contains_key(#[trigger] ts[i].0),
                self.units@ == old(self).units@,
                self.state == old(self).state,
                self.players == old(self).players,
                self.in_turn_index == old(self).in_turn_index,
                self.round_count == old(self).round_count,
                self.turn_count == old(self).turn_count,
                self.next_unit_id == old(self).next_unit_id,
            decreases ts.len() - n,
        {
            proof {
                lemma_apply_updates_step(self.tiles@, ts, n as int);
            }
            let (id, t) = tiles[n];
            if self.tiles.update(id, t).is_err() {
                assert(!t0.contains_key(ts[n as int].0));
                assert(apply_updates(self.tiles@, ts.skip(n as int)) == self.tiles@);
                return Err(GameUpdateError::InvalidTileId);
            }
            n = n + 1;
        }
        assert(ts.skip(ts.len() as int) =~= Seq::<(TileId, Tile)>::empty());
        let ghost u0 = self.units@;
        let ghost us = unit_models(units@);
        assert(us.skip(0) =~= us);
        let mut n: usize = 0;
        while n < units.len()
            invariant
                n <= us.len(),
                us == unit_models(units@),
                apply_updates(u0, us) == apply_updates(self.units@, us.skip(n as int)),
                self.units@.dom() == u0.dom(),
                forall|i: int| 0 <= i < n ==> u0.contains_key(#[trigger] us[i].0),
                self.tiles@ == apply_updates(t0, ts),
                ts == tiles@,
                all_ids_held(t0, ts),
                t0 == old(self).tiles@,
                u0 == old(self).units@,
                self.state == old(self).state,
                self.players == old(self).players,
                self.in_turn_index == old(self).in_turn_index,
                self.round_count == old(self).round_count,
                self.turn_count == old(self).turn_count,
                self.next_unit_id == old(self).next_unit_id,
            decreases us.len() - n,
        {
            proof {
                lemma_apply_updates_step(self.units@, us, n as int);
            }
            let id = units[n].0;
            let u = units[n].1.duplicate();
            if self.units.update(id, u).is_err() {
                assert(!u0.contains_key(us[n as int].0));
                assert(apply_updates(self.units@, us.skip(n as int)) == self.units@);
                assert(!all_ids_held(u0, us));
                return Err(GameUpdateError::InvalidUnitId);
            }
            n = n + 1;
        }
        assert(us.skip(us.len() as int) =~= Seq::<(UnitId, UnitModel)>::empty());
        Ok(())
    }
}

/// Index of the first living seat after `start`, going round the table once; `None` if none lives.
pub open spec fn next_alive_index(players: Seq<Player>, start: int, i: int) -> Option<int>
    decreases players.len() - i,
{
    if i >= players.len() {
        None
    } else if players[(i + 1 + start) % (players.len() as int)].alive {
        Some((i + 1 + start) % (players.len() as int))
    } else {
        next_alive_index(players, start, i + 1)
    }
}

impl Game {
    /// Number of the seat in turn; `None` unless the game is in progress.
    pub fn in_turn_number(&self) -> (r: Option<PlayerNumber>)
        requires
            self.state == GameState::InProgress ==> self.in_turn_index < self.players@.len(),
        ensures
            r == self.spec_in_turn_number(),
    {
        match self.state {
            GameState::InProgress => Some(self.players.0[self.in_turn_index].number),
            _ => None,
        }
    }

    /// The seat in turn; `None` unless the game is in progress.
    pub fn in_turn_player(&self) -> (r: Option<Player>)
        requires
            self.state == GameState::InProgress ==> self.in_turn_index < self.players@.len(),
        ensures
            self.state == GameState::InProgress ==> r == Some(self.players@[self.in_turn_index as int]),
            self.state != GameState::InProgress ==> r is None,
    {
        if self.state == GameState::InProgress {
            Some(self.players.0[self.in_turn_index])
        } else {
            None
        }
    }

    /// The first seat numbered `player_number`, if any.
    pub fn get_player(&self, player_number: PlayerNumber) -> (r: Option<Player>)
        ensures
            r is Some <==> self.players.has_number(player_number),
            r matches Some(p) ==> exists|i: int| 0 <= i < self.players@.len() && self.players@[i] == p
                && p.number == player_number
                && forall|j: int| 0 <= j < i ==> (#[trigger] self.players@[j]).number != player_number,
    {
        let mut n: usize = 0;
        while n < self.players.0.len()
            invariant
                n <= self.players@.len(),
                forall|i: int| 0 <= i < n ==> (#[trigger] self.players@[i]).number != player_number,
            decreases self.players@.len() - n,
        {
            if self.players.0[n].number == player_number {
                assert(self.players@[n as int].number == player_number);
                return Some(self.players.0[n]);
            }
            n = n + 1;
        }
        None
    }

    /// Number of the next living seat after the one in turn, going round the table.
    pub fn next_player_number(&self) -> (r: Option<PlayerNumber>)
        requires
            self.in_turn_index + self.players@.len() < usize::MAX,
        ensures
            r == (match next_alive_index(self.players@, self.in_turn_index as int, 0) {
                Some(k) => Some(self.players@[k].number),
                None => None,
            }),
    {
        let len = self.players.0.len();
        let mut i: usize = 0;
        while i < len
            invariant
                len == self.players@.len(),
                i <= len,
                self.in_turn_index + len < usize::MAX,
                next_alive_index(self.players@, self.in_turn_index as int, 0)
                    == next_alive_index(self.players@, self.in_turn_index as int, i as int),
            decreases len - i,
        {
            let k = (i + 1 + self.in_turn_index) % len;
            if self.players.0[k].alive {
                return Some(self.players.0[k].number);
            }
            i = i + 1;
        }
        None
    }

    /// Numbers of the players that own a unit.
    pub fn players_with_units(&self) -> (r: HashSet<PlayerNumber>)
        ensures
            forall|n: PlayerNumber| r@.contains(n) <==> exists|k: UnitId|
                self.units@.contains_key(k) && #[trigger] self.units@[k].owner == Some(n),
    {
        let units = self.units.iter_with_ids();
        let mut r: HashSet<PlayerNumber> = HashSet::new();
        let mut i: usize = 0;
        while i < units.len()
            invariant
                i <= units@.len(),
                lists_all(unit_models(units@), self.units@),
                forall|n: PlayerNumber| r@.contains(n) <==> exists|j: int|
                    0 <= j < i && #[trigger] units@[j].1.owner == Some(n),
            decreases units@.len() - i,
        {
            if let Some(owner) = units[i].1.owner {
                r.insert(owner);
            }
            proof {
                assert forall|n: PlayerNumber| r@.contains(n) <== exists|j: int|
                    0 <= j < i + 1 && #[trigger] units@[j].1.owner == Some(n) by {
                    let j = choose|j: int| 0 <= j < i + 1 && #[trigger] units@[j].1.owner == Some(n);
                    if j == i {
                    }
                }
            }
            i = i + 1;
        }
        proof {
            assert forall|n: PlayerNumber| r@.contains(n) <==> exists|k: UnitId|
                self.units@.contains_key(k) && #[trigger] self.units@[k].owner == Some(n) by {
                if r@.contains(n) {
                    let j = choose|j: int| 0 <= j < units@.len() && #[trigger] units@[j].1.owner == Some(n);
                    assert(unit_models(units@)[j].0 == units@[j].0);
                    assert(self.units@.contains_key(unit_models(units@)[j].0));
                    assert(self.units@[units@[j].0].owner == Some(n));
                }
                if exists|k: UnitId| self.units@.contains_key(k) && #[trigger] self.units@[k].owner == Some(n) {
                    let k = choose|k: UnitId| self.units@.contains_key(k) && #[trigger] self.units@[k].owner == Some(n);
                    let j = choose|j: int| 0 <= j < unit_models(units@).len() && unit_models(units@)[j].0 == k;
                    assert(unit_models(units@)[j].1 == self.units@[k]);
                    assert(units@[j].1.owner == Some(n));
                }
            }
        }
        r
    }

    /// Numbers of the players that own a tile on which units can be built.
    pub fn players_with_build_tiles(&self) -> (r: HashSet<PlayerNumber>)
        ensures
            forall|n: PlayerNumber| r@.contains(n) <==> exists|k: TileId|
                self.tiles@.contains_key(k) && #[trigger] self.tiles@[k].owner == Some(n)
                && terrain_build_classes(self.tiles@[k].terrain).len() > 0,
    {
        let tiles = self.tiles.iter_with_ids();
        let mut r: HashSet<PlayerNumber> = HashSet::new();
        let mut i: usize = 0;
        while i < tiles.len()
            invariant
                i <= tiles@.len(),
                lists_all(tiles@, self.tiles@),
                forall|n: PlayerNumber| r@.contains(n) <==> exists|j: int|
                    0 <= j < i && #[trigger] tiles@[j].1.owner == Some(n)
                    && terrain_build_classes(tiles@[j].1.terrain).len() > 0,
            decreases tiles@.len() - i,
        {
            let t = tiles[i].1;
            if terrain(t.terrain).build_classes.len() > 0 {
                if let Some(owner) = t.owner {
                    r.insert(owner);
                }
            }
            proof {
                assert forall|n: PlayerNumber| r@.contains(n) <== exists|j: int|
                    0 <= j < i + 1 && #[trigger] tiles@[j].1.owner == Some(n)
                    && terrain_build_classes(tiles@[j].1.terrain).len() > 0 by {
                    let j = choose|j: int| 0 <= j < i + 1 && #[trigger] tiles@[j].1.owner == Some(n)
                        && terrain_build_classes(tiles@[j].1.terrain).len() > 0;
                    if j == i {
                    }
                }
            }
            i = i + 1;
        }
        proof {
            assert forall|n: PlayerNumber| r@.contains(n) <==> exists|k: TileId|
                self.tiles@.contains_key(k) && #[trigger] self.tiles@[k].owner == Some(n)
                && terrain_build_classes(self.tiles@[k].terrain).len() > 0 by {
                if r@.contains(n) {
                    let j = choose|j: int| 0 <= j < tiles@.len() && #[trigger] tiles@[j].1.owner == Some(n)
                        && terrain_build_classes(tiles@[j].1.terrain).len() > 0;
                    assert(self.tiles@.contains_key(tiles@[j].0));
                    assert(self.tiles@[tiles@[j].0].owner == Some(n));
                }
                if exists|k: TileId| self.tiles@.contains_key(k) && #[trigger] self.tiles@[k].owner == Some(n)
                    && terrain_build_classes(self.tiles@[k].terrain).len() > 0 {
                    let k = choose|k: TileId| self.tiles@.contains_key(k) && #[trigger] self.tiles@[k].owner == Some(n)
                        && terrain_build_classes(self.tiles@[k].terrain).len() > 0;
                    let j = choose|j: int| 0 <= j < tiles@.len() && tiles@[j].0 == k;
                    assert(tiles@[j].1.owner == Some(n));
                }
            }
        }
        r
    }

    /// Whether `unit` may still act this turn.
    pub fn unit_has_turn(&self, unit: &Unit) -> (r: ActionResult<()>)
        requires
            self.state == GameState::InProgress ==> self.in_turn_index < self.players@.len(),
        ensures
            r == (if unit.moved {
                Err(ActionError::UnitAlreadyMoved)
            } else if unit.owner != self.spec_in_turn_number() {
                Err(ActionError::OwnerNotInTurn)
            } else {
                Ok(())
            }),
    {
        if unit.moved {
            return Err(ActionError::UnitAlreadyMoved);
        }
        if unit.owner != self.in_turn_number() {
            return Err(ActionError::OwnerNotInTurn);
        }
        Ok(())
    }

    /// Number of the only living seat, if exactly one lives.
    pub fn winner(&self) -> (r: Option<PlayerNumber>)
        ensures
            r matches Some(n) ==> exists|i: int| 0 <= i < self.players@.len() && self.players@[i].alive
                && self.players@[i].number == n
                && forall|j: int| 0 <= j < self.players@.len() && j != i ==> !(#[trigger] self.players@[j]).alive,
            r is None ==> !exists|i: int| 0 <= i < self.players@.len() && self.players@[i].alive
                && forall|j: int| 0 <= j < self.players@.len() && j != i ==> !(#[trigger] self.players@[j]).alive,
    {
        let len = self.players.0.len();
        let mut first: Option<usize> = None;
        let mut i: usize = 0;
        while i < len
            invariant
                len == self.players@.len(),
                i <= len,
                first is None ==> forall|j: int| 0 <= j < i ==> !(#[trigger] self.players@[j]).alive,
                first matches Some(f) ==> f < i && self.players@[f as int].alive
                    && forall|j: int| 0 <= j < i && j != f ==> !(#[trigger] self.players@[j]).alive,
            decreases len - i,
        {
            if self.players.0[i].alive {
                if let Some(f) = first {
                    proof {
                        assert forall|k: int| 0 <= k < len && self.players@[k].alive implies
                            exists|j: int| 0 <= j < len && j != k && (#[trigger] self.players@[j]).alive by {
                            if k == f {
                                assert(self.players@[i as int].alive);
                            } else {
                                assert(self.players@[f as int].alive);
                            }
                        }
                    }
                    return None;
                }
                first = Some(i);
            }
            i = i + 1;
        }
        match first {
            Some(f) => Some(self.players.0[f].number),
            None => None,
        }
    }

    /// Whether unit `unit_id` may end a move at `p`: there is a tile there, and no other unit on it.
    pub open spec fn stay_result(self, unit_id: UnitId, p: Position) -> ActionResult<()> {
        if !self.tiles.has_tile_at(p) {
            Err(ActionError::InvalidPath)
        } else if self.tiles.tile_at_position(p).unit is Some && self.tiles.tile_at_position(p).unit != Some(unit_id) {
            Err(ActionError::InvalidPath)
        } else {
            Ok(())
        }
    }

    /// Whether unit `unit_id` may end its move at `coords`.
    pub fn unit_can_stay_at(&self, unit_id: UnitId, coords: &Position) -> (r: ActionResult<()>)
        requires
            self.tiles.position_unique(*coords),
        ensures
            r == self.stay_result(unit_id, *coords),
    {
        let (_, tile) = self.tiles.get_at(coords)?;
        if tile.unit.is_some() && tile.unit != Some(unit_id) {
            return Err(ActionError::InvalidPath);
        }
        Ok(())
    }
}

proof fn lemma_path_distance_nonneg(path: Seq<Position>)
    ensures
        path_distance(path) >= 0,
    decreases path.len(),
{
    if path.len() > 1 {
        lemma_path_distance_nonneg(path.drop_last());
    }
}

proof fn lemma_path_distance_monotone(path: Seq<Position>, n: int)
    requires
        0 <= n <= path.len(),
    ensures
        0 <= path_distance(path.take(n)) <= path_distance(path),
    decreases path.len() - n,
{
    lemma_path_distance_nonneg(path.take(n));
    if n < path.len() {
        lemma_path_distance_monotone(path, n + 1);
        if n >= 1 {
            assert(path.take(n + 1).drop_last() =~= path.take(n));
        }
    } else {
        assert(path.take(n) =~= path);
    }
}

impl Game {
    /// The tiles at the positions of `path`.
    pub open spec fn path_tiles(self, path: Seq<Position>) -> Seq<Tile> {
        path.map_values(|p: Position| self.tiles.tile_at_position(p))
    }

    /// Some tile of `path` holds a unit whose owner differs from that of unit `unit_id`.
    pub open spec fn path_blocked(self, unit_id: UnitId, path: Seq<Position>) -> bool {
        exists|i: int| 0 <= i < path.len() && self.blocks(#[trigger] self.path_tiles(path)[i], unit_id)
    }

    /// Tile `t` holds a unit whose owner differs from that of unit `unit_id`.
    pub open spec fn blocks(self, t: Tile, unit_id: UnitId) -> bool {
        t.unit matches Some(u) && self.units@.contains_key(u) && self.units@[u].owner != self.units@[unit_id].owner
    }

    /// Whether summing the steps and movement costs of `path` stays within `u32`.
    pub open spec fn path_measurable(path: Seq<Position>) -> bool {
        &&& forall|i: int| 1 <= i < path.len() ==> distance_computable(path[i - 1], #[trigger] path[i])
        &&& path_distance(path) < u32::MAX
        &&& 4 * path.len() <= u32::MAX
    }

    /// Whether unit `unit_id` may move along `path`, and why not.
    pub open spec fn move_path_result(self, unit_id: UnitId, path: Seq<Position>) -> ActionResult<()> {
        if path.len() == 0 {
            Err(ActionError::InvalidPath)
        } else if !self.units@.contains_key(unit_id) {
            Err(ActionError::UnitNotFound)
        } else if exists|i: int| 0 <= i < path.len() && !self.tiles.has_tile_at(#[trigger] path[i]) {
            Err(ActionError::InvalidPath)
        } else if self.tiles.tile_at_position(path[0]).unit != Some(unit_id) {
            Err(ActionError::InvalidPath)
        } else if path.len() == 1 {
            Ok(())
        } else if path_distance(path) + 1 != (path.len() as u32) as int {
            Err(ActionError::InvalidPath)
        } else {
            let t = self.units@[unit_id].unit_type;
            match path_cost(movement_type_of(t), self.path_tiles(path).drop_first()) {
                None => Err(ActionError::InvalidPath),
                Some(c) => if c > movement_points(t) {
                    Err(ActionError::InvalidPath)
                } else if self.path_blocked(unit_id, path) {
                    Err(ActionError::InvalidPath)
                } else {
                    Ok(())
                },
            }
        }
    }

    /// Whether unit `unit_id` may move along `path` this turn, as far as the map goes.
    pub fn unit_can_move_path(&self, unit_id: UnitId, path: &[Position]) -> (r: ActionResult<()>)
        requires
            self.tiles.positions_unique(),
            Game::path_measurable(path@),
        ensures
            r == self.move_path_result(unit_id, path@),
    {
        if path.len() == 0 {
            return Err(ActionError::InvalidPath);
        }
        let unit = match self.units.get(unit_id) {
            Some(u) => u,
            None => {
                return Err(ActionError::UnitNotFound);
            },
        };
        assert(forall|i: int| 0 <= i < path@.len() ==> self.tiles.position_unique(#[trigger] path@[i]));
        let tiles = self.tiles.get_path_tiles(path)?;
        if tiles[0].unit != Some(unit_id) {
            return Err(ActionError::InvalidPath);
        }
        if path.len() == 1 {
            return Ok(());
        }
        let len = path.len();
        let mut distance: u32 = 0;
        let mut i: usize = 1;
        assert(path@.take(1).len() == 1);
        while i < len
            invariant
                len == path@.len(),
                1 <= i <= len,
                Game::path_measurable(path@),
                distance == path_distance(path@.take(i as int)),
            decreases len - i,
        {
            proof {
                lemma_path_distance_monotone(path@, i + 1);
                assert(path@.take(i + 1).drop_last() =~= path@.take(i as int));
            }
            distance = distance + path[i - 1].distance_to(&path[i]);
            i = i + 1;
        }
        assert(path@.take(len as int) =~= path@);
        if distance + 1 != len as u32 {
            return Err(ActionError::InvalidPath);
        }
        let unit_data = unit_type(unit.unit_type);
        let movement_type = movement(unit_data.movement_type);
        let ghost rest = self.path_tiles(path@).drop_first();
        assert(tiles@.drop_first() =~= rest);
        proof {
            lemma_path_cost_bound(movement_type_of(unit.unit_type), rest);
        }
        let mut cost: Option<u32> = Some(0);
        let mut k: usize = 1;
        while k < len
            invariant
                len == path@.len(),
                tiles@.len() == len,
                1 <= k <= len,
                4 * len <= u32::MAX,
                rest == tiles@.drop_first(),
                movement_type.movement == movement_type_of(unit@.unit_type),
                cost == (match path_cost(movement_type_of(unit@.unit_type), rest.take(k - 1)) {
                    Some(c) => Some(c as u32),
                    None => None,
                }),
                path_cost(movement_type_of(unit@.unit_type), rest.take(k - 1)) matches Some(c) ==> 0 <= c <= 4 * (k - 1),
            decreases len - k,
        {
            proof {
                lemma_path_cost_bound(movement_type_of(unit@.unit_type), rest.take(k as int));
                assert(rest.take(k as int).drop_last() =~= rest.take(k - 1));
                assert(rest.take(k as int).last() == tiles@[k as int]);
            }
            let tile_cost = movement_type.terrain_cost_map(tiles[k].terrain);
            cost = match (cost, tile_cost) {
                (Some(a), Some(b)) => Some(a + b),
                _ => None,
            };
            k = k + 1;
        }
        assert(rest.take(len - 1) =~= rest);
        let cost = match cost {
            Some(c) => c,
            None => {
                return Err(ActionError::InvalidPath);
            },
        };
        if cost > unit_data.movement {
            return Err(ActionError::InvalidPath);
        }
        let mut b: usize = 0;
        while b < len
            invariant
                len == path@.len(),
                tiles@.len() == len,
                b <= len,
                self.units@.contains_key(unit_id),
                unit@ == self.units@[unit_id],
                forall|j: int| 0 <= j < len ==> tiles@[j] == #[trigger] self.path_tiles(path@)[j],
                forall|j: int| 0 <= j < b ==> !self.blocks(#[trigger] self.path_tiles(path@)[j], unit_id),
            decreases len - b,
        {
            if let Some(u_id) = tiles[b].unit {
                if let Some(u) = self.units.get_ref(&u_id) {
                    if u.owner != unit.owner {
                        assert(self.path_tiles(path@)[b as int].unit == Some(u_id));
                        return Err(ActionError::InvalidPath);
                    }
                }
            }
            b = b + 1;
        }
        Ok(())
    }
}

/// `b` has the tiles of `a`, at the same places, holding the same units.
pub open spec fn same_layout(a: Map<TileId, Tile>, b: Map<TileId, Tile>) -> bool {
    &&& a.dom() == b.dom()
    &&& forall|k: TileId| #[trigger] a.contains_key(k) ==> b[k].x == a[k].x && b[k].y == a[k].y && b[k].unit == a[k].unit
}

/// Tiles that keep their places and units keep the tiles well formed.
pub proof fn lemma_same_layout_wf(a: Tiles, b: Tiles)
    requires
        a.wf(),
        same_layout(a@, b@),
    ensures
        b.wf(),
{
    assert forall|p: Position| b.position_unique(p) by {
        assert forall|i: TileId, j: TileId|
            b@.contains_key(i) && b@.contains_key(j) && tile_at(b@[i], p) && tile_at(b@[j], p) implies i == j by {
            assert(a@.contains_key(i) && a@.contains_key(j));
            assert(tile_at(a@[i], p) && tile_at(a@[j], p));
            assert(a.position_unique(p));
        }
    }
    assert forall|u: UnitId| b.placement_unique(u) by {
        assert forall|i: TileId, j: TileId|
            b@.contains_key(i) && b@.contains_key(j) && b@[i].unit == Some(u) && b@[j].unit == Some(u) implies i == j by {
            assert(a@.contains_key(i) && a@.contains_key(j));
            assert(a@[i].unit == Some(u) && a@[j].unit == Some(u));
            assert(a.placement_unique(u));
        }
    }
}

/// Index of the seat numbered `n` (meaningful where one is).
pub open spec fn seat_of(players: Seq<Player>, n: PlayerNumber) -> int {
    choose|i: int| 0 <= i < players.len() && #[trigger] players[i].number == n
}

/// Replacing a seat by one with the same number keeps seat numbers unique.
pub proof fn lemma_update_keeps_numbers_unique(a: Players, b: Players, i: int, p: Player)
    requires
        forall|n: PlayerNumber| a.number_unique(n),
        0 <= i < a@.len(),
        a@[i].number == p.number,
        b@ == a@.update(i, p),
    ensures
        forall|n: PlayerNumber| b.number_unique(n),
{
    assert forall|n: PlayerNumber| b.number_unique(n) by {
        assert forall|x: int, y: int|
            0 <= x < b@.len() && 0 <= y < b@.len() && b@[x].number == n && b@[y].number == n implies x == y by {
            assert(a@[x].number == b@[x].number);
            assert(a@[y].number == b@[y].number);
            assert(a.number_unique(n));
        }
    }
}

/// The seat that `next_alive_index` finds is a living seat.
pub proof fn lemma_next_alive_index_in_range(players: Seq<Player>, start: int, i: int)
    requires
        0 <= start,
        0 <= i,
    ensures
        next_alive_index(players, start, i) matches Some(k) ==> 0 <= k < players.len() && players[k].alive,
    decreases players.len() - i,
{
    if i < players.len() {
        lemma_next_alive_index_in_range(players, start, i + 1);
    }
}

proof fn lemma_next_alive_from(players: Seq<Player>, start: int, i: int)
    requires
        0 <= i,
    ensures
        next_alive_index(players, start, i) matches Some(k) ==> exists|d: int| #![trigger players[(start + d) % (players.len() as int)]]
            i + 1 <= d <= players.len() && k == (start + d) % (players.len() as int)
            && players[k].alive
            && forall|e: int| i + 1 <= e < d ==> !(#[trigger] players[(start + e) % (players.len() as int)]).alive,
        next_alive_index(players, start, i) is None ==> forall|e: int| i + 1 <= e <= players.len()
            ==> !(#[trigger] players[(start + e) % (players.len() as int)]).alive,
    decreases players.len() - i,
{
    let n = players.len() as int;
    if i < n {
        lemma_next_alive_from(players, start, i + 1);
        if players[(i + 1 + start) % n].alive {
            assert(players[(start + (i + 1)) % n] == players[(i + 1 + start) % n]);
        } else {
            assert((start + (i + 1)) % n == (i + 1 + start) % n);
            if let Some(k) = next_alive_index(players, start, i + 1) {
                let d = choose|d: int| #![trigger players[(start + d) % n]]
                    i + 2 <= d <= n && k == (start + d) % n && players[k].alive
                    && forall|e: int| i + 2 <= e < d ==> !(#[trigger] players[(start + e) % n]).alive;
                assert forall|e: int| i + 1 <= e < d implies !(#[trigger] players[(start + e) % n]).alive by {
                    if e == i + 1 {
                        assert((start + e) % n == (i + 1 + start) % n);
                    }
                }
            } else {
                assert forall|e: int| i + 1 <= e <= n implies !(#[trigger] players[(start + e) % n]).alive by {
                    if e == i + 1 {
                        assert((start + e) % n == (i + 1 + start) % n);
                    }
                }
            }
        }
    }
}

/// The seat that takes the turn after seat `start` is the first living seat after it, going
/// round the table: `d` places on for some `d` from 1 to the number of seats, with every seat
/// between the two dead; there is none only when every seat is dead.
pub proof fn next_seat_is_first_living_after(players: Seq<Player>, start: int)
    ensures
        next_alive_index(players, start, 0) matches Some(k) ==> exists|d: int| #![trigger players[(start + d) % (players.len() as int)]]
            1 <= d <= players.len() && k == (start + d) % (players.len() as int)
            && players[k].alive
            && forall|e: int| 1 <= e < d ==> !(#[trigger] players[(start + e) % (players.len() as int)]).alive,
        next_alive_index(players, start, 0) is None ==> forall|e: int| 1 <= e <= players.len()
            ==> !(#[trigger] players[(start + e) % (players.len() as int)]).alive,
{
    lemma_next_alive_from(players, start, 0);
}

} // verus!

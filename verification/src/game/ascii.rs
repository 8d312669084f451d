use crate::game::options::bounds;
use crate::game::game::{lists_all, unit_models};
use crate::game::map::{terrain_numbering, unit_type_numbering};
use crate::game::{Game, Tile, TileId, UnitId};
use crate::model::{terrain, unit_type, Terrain, UnitType};
use vstd::prelude::*;

verus! {

/// The character the drawing uses for the number `x`.
pub open spec fn glyph(x: u32) -> char {
    if x <= 9 {
        (48 + x) as char
    } else if x <= 35 {
        (97 + x) as char
    } else if x <= 61 {
        (65 + x) as char
    } else {
        '?'
    }
}

fn to_char(x: u32) -> (r: char)
    ensures
        r == glyph(x),
{
    if x <= 9 {
        (48u8 + x as u8) as char
    } else if x <= 35 {
        (97u8 + x as u8) as char
    } else if x <= 61 {
        (65u8 + x as u8) as char
    } else {
        '?'
    }
}

/// The glyph of an owner, a space for nobody.
pub open spec fn owner_glyph(o: Option<u32>) -> char {
    match o {
        Some(n) => glyph(n),
        None => ' ',
    }
}

fn owner_char(o: Option<u32>) -> (r: char)
    ensures
        r == owner_glyph(o),
{
    match o {
        Some(n) => to_char(n),
        None => ' ',
    }
}

/// Number of terrain `t`, in the order the terrains are declared.
pub open spec fn terrain_code(t: Terrain) -> u32 {
    match t {
        Terrain::Road => 0u32,
        Terrain::Plains => 1u32,
        Terrain::Forest => 2u32,
        Terrain::Mountains => 3u32,
        Terrain::Water => 4u32,
        Terrain::City => 5u32,
        Terrain::Base => 6u32,
        Terrain::Fort => 7u32,
        Terrain::Airport => 8u32,
        Terrain::Port => 9u32,
        Terrain::Beach => 10u32,
        Terrain::Bridge => 11u32,
        Terrain::HQ => 12u32,
    }
}

/// Number of terrain `t`.
fn terrain_number(t: Terrain) -> (r: u32)
    ensures
        r == terrain_code(t),
{
    match t {
        Terrain::Road => 0,
        Terrain::Plains => 1,
        Terrain::Forest => 2,
        Terrain::Mountains => 3,
        Terrain::Water => 4,
        Terrain::City => 5,
        Terrain::Base => 6,
        Terrain::Fort => 7,
        Terrain::Airport => 8,
        Terrain::Port => 9,
        Terrain::Beach => 10,
        Terrain::Bridge => 11,
        Terrain::HQ => 12,
    }
}

/// Number of unit type `t`, in the order the unit types are declared.
pub open spec fn unit_type_code(t: UnitType) -> u32 {
    match t {
        UnitType::Infantry => 0u32,
        UnitType::ATInfantry => 1u32,
        UnitType::Scout => 2u32,
        UnitType::LightTank => 3u32,
        UnitType::MediumTank => 4u32,
        UnitType::HeavyTank => 5u32,
        UnitType::LightArtillery => 6u32,
        UnitType::MediumArtillery => 7u32,
        UnitType::HeavyArtillery => 8u32,
        UnitType::AAVehicle => 9u32,
        UnitType::SAMVehicle => 10u32,
        UnitType::AttackCopter => 11u32,
        UnitType::Interceptor => 12u32,
        UnitType::Bomber => 13u32,
        UnitType::APC => 14u32,
        UnitType::TransportCopter => 15u32,
        UnitType::CargoShip => 16u32,
        UnitType::GunBoat => 17u32,
        UnitType::AABoat => 18u32,
        UnitType::Cruiser => 19u32,
    }
}

/// Number of unit type `t`.
fn unit_type_number(t: UnitType) -> (r: u32)
    ensures
        r == unit_type_code(t),
{
    match t {
        UnitType::Infantry => 0,
        UnitType::ATInfantry => 1,
        UnitType::Scout => 2,
        UnitType::LightTank => 3,
        UnitType::MediumTank => 4,
        UnitType::HeavyTank => 5,
        UnitType::LightArtillery => 6,
        UnitType::MediumArtillery => 7,
        UnitType::HeavyArtillery => 8,
        UnitType::AAVehicle => 9,
        UnitType::SAMVehicle => 10,
        UnitType::AttackCopter => 11,
        UnitType::Interceptor => 12,
        UnitType::Bomber => 13,
        UnitType::APC => 14,
        UnitType::TransportCopter => 15,
        UnitType::CargoShip => 16,
        UnitType::GunBoat => 17,
        UnitType::AABoat => 18,
        UnitType::Cruiser => 19,
    }
}

/// Row `r`, column `c` of the five by nine picture of a tile: a hexagon holding the glyphs of
/// its unit's owner and type above those of its own owner and terrain.
pub open spec fn picture(uow: char, uty: char, tow: char, ter: char, r: int, c: int) -> char {
    if r == 0 || r == 4 {
        if c == 2 || c == 6 {
            '·'
        } else if 3 <= c <= 5 {
            '-'
        } else {
            ' '
        }
    } else if r == 1 {
        if c == 1 {
            '/'
        } else if c == 7 {
            '\\'
        } else {
            ' '
        }
    } else if r == 2 {
        if c == 0 || c == 8 {
            '·'
        } else if c == 3 {
            uow
        } else if c == 4 {
            uty
        } else {
            ' '
        }
    } else if r == 3 {
        if c == 1 {
            '\\'
        } else if c == 7 {
            '/'
        } else if c == 3 {
            tow
        } else if c == 4 {
            ter
        } else {
            ' '
        }
    } else {
        ' '
    }
}

fn picture_char(uow: char, uty: char, tow: char, ter: char, r: i64, c: i64) -> (ch: char)
    ensures
        ch == picture(uow, uty, tow, ter, r as int, c as int),
{
    if r == 0 || r == 4 {
        if c == 2 || c == 6 {
            '·'
        } else if 3 <= c && c <= 5 {
            '-'
        } else {
            ' '
        }
    } else if r == 1 {
        if c == 1 {
            '/'
        } else if c == 7 {
            '\\'
        } else {
            ' '
        }
    } else if r == 2 {
        if c == 0 || c == 8 {
            '·'
        } else if c == 3 {
            uow
        } else if c == 4 {
            uty
        } else {
            ' '
        }
    } else if r == 3 {
        if c == 1 {
            '\\'
        } else if c == 7 {
            '/'
        } else if c == 3 {
            tow
        } else if c == 4 {
            ter
        } else {
            ' '
        }
    } else {
        ' '
    }
}

/// The least and greatest coordinates of the tiles.
pub open spec fn tiles_rect(tiles: Map<TileId, Tile>) -> (i32, i32, i32, i32) {
    choose|b: (i32, i32, i32, i32)| bounds(tiles, b.0, b.1, b.2, b.3)
}

proof fn lemma_bounds_unique(tiles: Map<TileId, Tile>, a: (i32, i32, i32, i32), b: (i32, i32, i32, i32))
    requires
        bounds(tiles, a.0, a.1, a.2, a.3),
        bounds(tiles, b.0, b.1, b.2, b.3),
    ensures
        a == b,
{
    let k0 = choose|k: TileId| tiles.contains_key(k) && #[trigger] tiles[k].x == a.0;
    let k1 = choose|k: TileId| tiles.contains_key(k) && #[trigger] tiles[k].y == a.1;
    let k2 = choose|k: TileId| tiles.contains_key(k) && #[trigger] tiles[k].x == a.2;
    let k3 = choose|k: TileId| tiles.contains_key(k) && #[trigger] tiles[k].y == a.3;
    let j0 = choose|k: TileId| tiles.contains_key(k) && #[trigger] tiles[k].x == b.0;
    let j1 = choose|k: TileId| tiles.contains_key(k) && #[trigger] tiles[k].y == b.1;
    let j2 = choose|k: TileId| tiles.contains_key(k) && #[trigger] tiles[k].x == b.2;
    let j3 = choose|k: TileId| tiles.contains_key(k) && #[trigger] tiles[k].y == b.3;
    assert(tiles.contains_key(k0) && tiles.contains_key(k1) && tiles.contains_key(k2) && tiles.contains_key(k3));
    assert(tiles.contains_key(j0) && tiles.contains_key(j1) && tiles.contains_key(j2) && tiles.contains_key(j3));
}

/// Whether every item of `s` is a space.
pub open spec fn blank(s: Seq<char>) -> bool {
    forall|i: int| 0 <= i < s.len() ==> s[i] == ' '
}

impl Game {
    /// The glyphs in the picture of tile `t`: its unit's owner and type, its owner, its terrain.
    pub open spec fn tile_glyphs(self, t: Tile) -> (char, char, char, char) {
        match t.unit {
            Some(u) => (owner_glyph(self.units@[u].owner), glyph(unit_type_code(self.units@[u].unit_type)),
                owner_glyph(t.owner), glyph(terrain_code(t.terrain))),
            None => (' ', ' ', owner_glyph(t.owner), glyph(terrain_code(t.terrain))),
        }
    }

    /// What the picture of tile `t` puts at row `r`, column `c` of the drawing whose least
    /// coordinates are `x0`, `y0`: the picture's centre is at row `2(x - x0) + 4(y - y0) + 2`,
    /// column `6(x - x0) + 4`; a space outside the picture.
    pub open spec fn tile_mark(self, t: Tile, x0: int, y0: int, r: int, c: int) -> char {
        let dr = r - (2 * (t.x - x0) + 4 * (t.y - y0) + 2) + 2;
        let dc = c - (6 * (t.x - x0) + 4) + 4;
        if 0 <= dr < 5 && 0 <= dc < 9 {
            let g = self.tile_glyphs(t);
            picture(g.0, g.1, g.2, g.3, dr, dc)
        } else {
            ' '
        }
    }

    /// The character at row `r`, column `c` of the drawing: the mark some tile's picture puts
    /// there, a space where none does.
    pub open spec fn drawing_char(self, x0: int, y0: int, r: int, c: int) -> char {
        if exists|k: TileId| #[trigger] self.tiles@.contains_key(k) && self.tile_mark(self.tiles@[k], x0, y0, r, c) != ' ' {
            let k = choose|k: TileId| #[trigger] self.tiles@.contains_key(k) && self.tile_mark(self.tiles@[k], x0, y0, r, c) != ' ';
            self.tile_mark(self.tiles@[k], x0, y0, r, c)
        } else {
            ' '
        }
    }

    /// Row `r` of the drawing, `w` characters wide.
    pub open spec fn drawing_row(self, x0: int, y0: int, w: int, r: int) -> Seq<char> {
        Seq::new(w as nat, |c: int| self.drawing_char(x0, y0, r, c))
    }

    /// The rows among the first `n` of the drawing that are not blank, joined by new lines.
    pub open spec fn drawing_text(self, x0: int, y0: int, w: int, n: int) -> Seq<char>
        decreases n,
    {
        if n <= 0 {
            Seq::empty()
        } else {
            let prev = self.drawing_text(x0, y0, w, n - 1);
            let row = self.drawing_row(x0, y0, w, n - 1);
            if blank(row) {
                prev
            } else if prev.len() == 0 {
                row
            } else {
                prev + seq!['\n'] + row
            }
        }
    }

    /// Some tile has terrain `t`.
    pub open spec fn has_terrain(self, t: Terrain) -> bool {
        exists|k: TileId| #[trigger] self.tiles@.contains_key(k) && self.tiles@[k].terrain == t
    }

    /// Some unit has type `t`.
    pub open spec fn has_unit_type(self, t: UnitType) -> bool {
        exists|k: UnitId| #[trigger] self.units@.contains_key(k) && self.units@[k].unit_type == t
    }

    /// The legend of the terrains on the map among the first `n`: each as its glyph, a colon
    /// and its name, separated by commas.
    pub open spec fn terrain_legend(self, n: int) -> Seq<char>
        decreases n,
    {
        if n <= 0 {
            Seq::empty()
        } else {
            let prev = self.terrain_legend(n - 1);
            let t = crate::game::map::terrain_numbering()[n - 1];
            if !self.has_terrain(t) {
                prev
            } else {
                let entry = seq![glyph(terrain_code(t)), ':', ' '] + crate::model::terrain_name(t);
                if prev.len() == 0 { entry } else { prev + seq![',', ' '] + entry }
            }
        }
    }

    /// The legend of the unit types in the game among the first `n`, like `terrain_legend`.
    pub open spec fn unit_legend(self, n: int) -> Seq<char>
        decreases n,
    {
        if n <= 0 {
            Seq::empty()
        } else {
            let prev = self.unit_legend(n - 1);
            let t = crate::game::map::unit_type_numbering()[n - 1];
            if !self.has_unit_type(t) {
                prev
            } else {
                let entry = seq![glyph(unit_type_code(t)), ':', ' '] + crate::model::unit_type_name(t);
                if prev.len() == 0 { entry } else { prev + seq![',', ' '] + entry }
            }
        }
    }

    /// The drawing of the map, then the legends of its terrains and its unit types, on lines of
    /// their own; `<no data>` for a game without tiles.
    pub open spec fn ascii_text(self) -> Seq<char> {
        if self.tiles@.dom().is_empty() {
            "<no data>"@
        } else {
            let b = tiles_rect(self.tiles@);
            let (x0, y0, x1, y1) = (b.0 as int, b.1 as int, b.2 as int, b.3 as int);
            self.drawing_text(x0, y0, 6 * (x1 - x0) + 9, 2 * (x1 - x0) + 4 * (y1 - y0) + 5) + seq!['\n']
                + self.terrain_legend(13) + seq!['\n'] + self.unit_legend(20)
        }
    }
}

/// Two tiles at different positions never put different marks on one spot of the drawing:
/// their pictures overlap on border lines only.
proof fn lemma_marks_agree(g: Game, a: Tile, b: Tile, x0: int, y0: int, r: int, c: int)
    requires
        g.tile_mark(a, x0, y0, r, c) != ' ',
        g.tile_mark(b, x0, y0, r, c) != ' ',
        a.x != b.x || a.y != b.y,
    ensures
        g.tile_mark(a, x0, y0, r, c) == g.tile_mark(b, x0, y0, r, c),
{
}

/// The characters of `chars` as a string, collected by std's `FromIterator<&char>` for
/// `String`; trusted, unproved: the string holds exactly these characters, in this order.
#[verifier::external_body]
fn string_from_chars(chars: &Vec<char>) -> (r: String)
    ensures
        r@ == chars@,
{
    chars.iter().collect()
}

/// Appends the characters of `s` to `text`.
fn push_str(text: &mut Vec<char>, s: &str)
    ensures
        final(text)@ == old(text)@ + s@,
{
    let n = s.unicode_len();
    let mut i: usize = 0;
    while i < n
        invariant
            n == s@.len(),
            i <= n,
            text@ == old(text)@ + s@.take(i as int),
        decreases n - i,
    {
        text.push(s.get_char(i));
        proof {
            assert(s@.take(i + 1) =~= s@.take(i as int).push(s@[i as int]));
        }
        i = i + 1;
    }
    assert(s@.take(n as int) =~= s@);
}

impl Game {
    /// The mark at row `r`, column `c` of the drawing, found among the tiles of `entries`.
    fn mark_at(&self, entries: &Vec<(TileId, Tile)>, x0: i32, y0: i32, r: i64, c: i64) -> (ch: char)
        requires
            lists_all(entries@, self.tiles@),
            self.tiles.positions_unique(),
            forall|k: TileId| #[trigger] self.tiles@.contains_key(k) && self.tiles@[k].unit is Some
                ==> self.units@.contains_key(self.tiles@[k].unit->0),
            -0x1_0000_0000 <= r <= 0x1_0000_0000,
            -0x1_0000_0000 <= c <= 0x1_0000_0000,
        ensures
            ch == self.drawing_char(x0 as int, y0 as int, r as int, c as int),
    {
        let mut j: usize = 0;
        while j < entries.len()
            invariant
                j <= entries@.len(),
                lists_all(entries@, self.tiles@),
                self.tiles.positions_unique(),
                forall|i: int| 0 <= i < j ==> self.tile_mark((#[trigger] entries@[i]).1, x0 as int, y0 as int, r as int,
                    c as int) == ' ',
                forall|k: TileId| #[trigger] self.tiles@.contains_key(k) && self.tiles@[k].unit is Some
                    ==> self.units@.contains_key(self.tiles@[k].unit->0),
                -0x1_0000_0000 <= r <= 0x1_0000_0000,
                -0x1_0000_0000 <= c <= 0x1_0000_0000,
            decreases entries@.len() - j,
        {
            let (id, t) = entries[j];
            assert(self.tiles@.contains_key(id) && self.tiles@[id] == t);
            let dr: i64 = r - (2 * (t.x as i64 - x0 as i64) + 4 * (t.y as i64 - y0 as i64) + 2) + 2;
            let dc: i64 = c - (6 * (t.x as i64 - x0 as i64) + 4) + 4;
            if 0 <= dr && dr < 5 && 0 <= dc && dc < 9 {
                let (uow, uty) = match t.unit {
                    Some(u) => {
                        let unit = self.units.get_ref(&u).unwrap();
                        (owner_char(unit.owner), to_char(unit_type_number(unit.unit_type)))
                    },
                    None => (' ', ' '),
                };
                let ch = picture_char(uow, uty, owner_char(t.owner), to_char(terrain_number(t.terrain)), dr, dc);
                assert(ch == self.tile_mark(t, x0 as int, y0 as int, r as int, c as int));
                if ch != ' ' {
                    proof {
                        let x0i = x0 as int;
                        let y0i = y0 as int;
                        assert(self.tiles@.contains_key(id) && self.tile_mark(self.tiles@[id], x0i, y0i, r as int, c as int) != ' ');
                        let k = choose|k: TileId| #[trigger] self.tiles@.contains_key(k)
                            && self.tile_mark(self.tiles@[k], x0i, y0i, r as int, c as int) != ' ';
                        let tk = self.tiles@[k];
                        if tk.x != t.x || tk.y != t.y {
                            lemma_marks_agree(*self, tk, t, x0i, y0i, r as int, c as int);
                        } else {
                            let p = crate::game::Position(t.x, t.y);
                            assert(self.tiles.position_unique(p));
                            assert(crate::game::game::tile_at(self.tiles@[k], p));
                            assert(crate::game::game::tile_at(self.tiles@[id], p));
                        }
                    }
                    return ch;
                }
            }
            j = j + 1;
        }
        proof {
            let x0i = x0 as int;
            let y0i = y0 as int;
            assert forall|k: TileId| #[trigger] self.tiles@.contains_key(k)
                implies self.tile_mark(self.tiles@[k], x0i, y0i, r as int, c as int) == ' ' by {
                let i = choose|i: int| 0 <= i < entries@.len() && entries@[i].0 == k;
                assert(self.tile_mark(entries@[i].1, x0i, y0i, r as int, c as int) == ' ');
            }
        }
        ' '
    }
}

impl Game {
    /// The legend of the terrains on the map.
    fn terrain_legend_text(&self, entries: &Vec<(TileId, Tile)>) -> (r: Vec<char>)
        requires
            lists_all(entries@, self.tiles@),
        ensures
            r@ == self.terrain_legend(13),
    {
        let all = [Terrain::Road, Terrain::Plains, Terrain::Forest, Terrain::Mountains, Terrain::Water,
            Terrain::City, Terrain::Base, Terrain::Fort, Terrain::Airport, Terrain::Port,
            Terrain::Beach, Terrain::Bridge, Terrain::HQ];
        assert(all@ =~= terrain_numbering());
        let mut text: Vec<char> = Vec::new();
        let mut i: usize = 0;
        while i < 13
            invariant
                i <= 13,
                all@ == terrain_numbering(),
                lists_all(entries@, self.tiles@),
                text@ == self.terrain_legend(i as int),
            decreases 13 - i,
        {
            let t = all[i];
            let mut present = false;
            let mut j: usize = 0;
            while j < entries.len()
                invariant
                    j <= entries@.len(),
                    present <==> exists|x: int| 0 <= x < j && (#[trigger] entries@[x]).1.terrain == t,
                decreases entries@.len() - j,
            {
                if entries[j].1.terrain == t {
                    present = true;
                }
                j = j + 1;
            }
            proof {
                if present {
                    let x = choose|x: int| 0 <= x < entries@.len() && (#[trigger] entries@[x]).1.terrain == t;
                    assert(self.tiles@.contains_key(entries@[x].0));
                }
                if self.has_terrain(t) {
                    let k = choose|k: TileId| #[trigger] self.tiles@.contains_key(k) && self.tiles@[k].terrain == t;
                    let x = choose|x: int| 0 <= x < entries@.len() && entries@[x].0 == k;
                    assert(entries@[x].1.terrain == t);
                }
            }
            if present {
                if text.len() > 0 {
                    text.push(',');
                    text.push(' ');
                }
                text.push(to_char(terrain_number(t)));
                text.push(':');
                text.push(' ');
                push_str(&mut text, terrain(t).name);
            }
            i = i + 1;
        }
        text
    }

    /// The legend of the unit types in the game.
    fn unit_legend_text(&self) -> (r: Vec<char>)
        ensures
            r@ == self.unit_legend(20),
    {
        let entries = self.units.iter_with_ids();
        let all = [UnitType::Infantry, UnitType::ATInfantry, UnitType::Scout, UnitType::LightTank,
            UnitType::MediumTank, UnitType::HeavyTank, UnitType::LightArtillery, UnitType::MediumArtillery,
            UnitType::HeavyArtillery, UnitType::AAVehicle, UnitType::SAMVehicle, UnitType::AttackCopter,
            UnitType::Interceptor, UnitType::Bomber, UnitType::APC, UnitType::TransportCopter,
            UnitType::CargoShip, UnitType::GunBoat, UnitType::AABoat, UnitType::Cruiser];
        assert(all@ =~= unit_type_numbering());
        let mut text: Vec<char> = Vec::new();
        let mut i: usize = 0;
        while i < 20
            invariant
                i <= 20,
                all@ == unit_type_numbering(),
                lists_all(unit_models(entries@), self.units@),
                text@ == self.unit_legend(i as int),
            decreases 20 - i,
        {
            let t = all[i];
            let mut present = false;
            let mut j: usize = 0;
            while j < entries.len()
                invariant
                    j <= entries@.len(),
                    present <==> exists|x: int| 0 <= x < j && (#[trigger] entries@[x]).1.unit_type == t,
                decreases entries@.len() - j,
            {
                if entries[j].1.unit_type == t {
                    present = true;
                }
                j = j + 1;
            }
            proof {
                let e = unit_models(entries@);
                if present {
                    let x = choose|x: int| 0 <= x < entries@.len() && (#[trigger] entries@[x]).1.unit_type == t;
                    assert(e[x].0 == entries@[x].0);
                    assert(self.units@.contains_key(e[x].0));
                }
                if self.has_unit_type(t) {
                    let k = choose|k: UnitId| #[trigger] self.units@.contains_key(k) && self.units@[k].unit_type == t;
                    let x = choose|x: int| 0 <= x < e.len() && e[x].0 == k;
                    assert(entries@[x].1.unit_type == t);
                }
            }
            if present {
                if text.len() > 0 {
                    text.push(',');
                    text.push(' ');
                }
                text.push(to_char(unit_type_number(t)));
                text.push(':');
                text.push(' ');
                push_str(&mut text, unit_type(t).name);
            }
            i = i + 1;
        }
        text
    }

    /// A drawing of the map in text, one hexagon per tile, followed by the legends of its
    /// terrains and unit types.
    pub fn ascii_representation(&self) -> (r: String)
        requires
            self.tiles.positions_unique(),
            forall|k: TileId| #[trigger] self.tiles@.contains_key(k) && self.tiles@[k].unit is Some
                ==> self.units@.contains_key(self.tiles@[k].unit->0),
            !self.tiles@.dom().is_empty() ==> {
                let b = tiles_rect(self.tiles@);
                &&& 6 * (b.2 - b.0) + 9 <= i32::MAX
                &&& 2 * (b.2 - b.0) + 4 * (b.3 - b.1) + 5 <= i32::MAX
            },
        ensures
            r@ == self.ascii_text(),
    {
        let (x0, y0, x1, y1) = match self.tiles.rect() {
            Some(b) => b,
            None => {
                return "<no data>".to_owned();
            },
        };
        proof {
            assert(bounds(self.tiles@, x0, y0, x1, y1));
            lemma_bounds_unique(self.tiles@, (x0, y0, x1, y1), tiles_rect(self.tiles@));
            assert(x0 <= x1 && y0 <= y1) by {
                let k = choose|k: TileId| self.tiles@.contains_key(k) && #[trigger] self.tiles@[k].x == x0;
            }
        }
        let height: i64 = 2 * (x1 as i64 - x0 as i64) + 4 * (y1 as i64 - y0 as i64) + 5;
        let width: i64 = 6 * (x1 as i64 - x0 as i64) + 9;
        let entries = self.tiles.iter_with_ids();
        let ghost x0i = x0 as int;
        let ghost y0i = y0 as int;
        let mut text: Vec<char> = Vec::new();
        let mut r: i64 = 0;
        while r < height
            invariant
                0 <= r <= height,
                x0i == x0 as int,
                y0i == y0 as int,
                x0 <= x1,
                y0 <= y1,
                height == 2 * (x1 - x0) + 4 * (y1 - y0) + 5,
                width == 6 * (x1 - x0) + 9,
                height <= i32::MAX,
                width <= i32::MAX,
                lists_all(entries@, self.tiles@),
                self.tiles.positions_unique(),
                forall|k: TileId| #[trigger] self.tiles@.contains_key(k) && self.tiles@[k].unit is Some
                    ==> self.units@.contains_key(self.tiles@[k].unit->0),
                text@ == self.drawing_text(x0i, y0i, width as int, r as int),
            decreases height - r,
        {
            let mut row: Vec<char> = Vec::new();
            let mut marked = false;
            let mut c: i64 = 0;
            while c < width
                invariant
                    0 <= c <= width,
                    0 <= r < height,
                    x0i == x0 as int,
                    y0i == y0 as int,
                    height <= i32::MAX,
                    width <= i32::MAX,
                    lists_all(entries@, self.tiles@),
                    self.tiles.positions_unique(),
                    forall|k: TileId| #[trigger] self.tiles@.contains_key(k) && self.tiles@[k].unit is Some
                        ==> self.units@.contains_key(self.tiles@[k].unit->0),
                    row@ == self.drawing_row(x0i, y0i, width as int, r as int).take(c as int),
                    marked <==> !blank(row@),
                decreases width - c,
            {
                let ch = self.mark_at(&entries, x0, y0, r, c);
                let ghost before = row@;
                row.push(ch);
                if ch != ' ' {
                    marked = true;
                }
                proof {
                    let full = self.drawing_row(x0i, y0i, width as int, r as int);
                    assert(full.len() == width);
                    assert(full[c as int] == self.drawing_char(x0i, y0i, r as int, c as int));
                    assert(row@[row@.len() - 1] == ch);
                    assert(row@ =~= full.take(c + 1));
                    if marked && ch == ' ' {
                        let i = choose|i: int| 0 <= i < before.len() && before[i] != ' ';
                        assert(row@[i] != ' ');
                    }
                    if !blank(row@) && ch == ' ' {
                        let i = choose|i: int| 0 <= i < row@.len() && row@[i] != ' ';
                        assert(before[i] != ' ');
                    }
                }
                c = c + 1;
            }
            proof {
                let full = self.drawing_row(x0i, y0i, width as int, r as int);
                assert(full.take(width as int) =~= full);
            }
            if marked {
                if text.len() > 0 {
                    text.push('\n');
                }
                text.append(&mut row);
            }
            r = r + 1;
        }
        text.push('\n');
        let mut terrains = self.terrain_legend_text(&entries);
        text.append(&mut terrains);
        text.push('\n');
        let mut unit_types = self.unit_legend_text();
        text.append(&mut unit_types);
        string_from_chars(&text)
    }
}

} // verus!

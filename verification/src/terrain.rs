//! The tile vocabulary, the column of tiles at one grid position, and the
//! terrain map that owns every column.

use crate::geometry::Point2D;
use vstd::prelude::*;

verus! {

/// An identifier of what a tile is made of. The physics carries it along
/// and never looks inside.
pub type Material = u32;

/// The physical state of a mineral or of water.
#[derive(Clone, Copy, Debug, PartialEq, Eq, Structural)]
pub enum State {
    Solid,
    Liquid,
}

/// The direction in which a ramp leads.
#[derive(Clone, Copy, Debug, PartialEq, Eq, Structural)]
pub enum Slope {
    Up,
    Down,
}

/// What occupies one elevation slot of one column.
#[derive(Clone, Copy, Debug, PartialEq, Eq, Structural)]
pub enum Tile {
    /// No matter.
    Empty,
    /// A mineral and its state.
    Stone(Material, State),
    /// Water, its state and its flow amount.
    Water(Material, State, u32),
    /// A ramp and the way it leads.
    Ramp(Material, Slope),
}

/// The class of a tile: its material class together with its state. The
/// physics selects its rules by this key.
#[derive(Clone, Copy, Debug, PartialEq, Eq, Structural)]
pub enum Kind {
    /// Empty space.
    Empty,
    /// Solid stone.
    Rock,
    /// Liquid stone.
    Molten,
    /// Solid water.
    Ice,
    /// Liquid water.
    Water,
    /// A ramp, whichever way it leads.
    Ramp,
}

impl Tile {
    /// The class of the tile.
    pub open spec fn kind_spec(self) -> Kind {
        match self {
            Tile::Empty => Kind::Empty,
            Tile::Stone(_, State::Solid) => Kind::Rock,
            Tile::Stone(_, State::Liquid) => Kind::Molten,
            Tile::Water(_, State::Solid, _) => Kind::Ice,
            Tile::Water(_, State::Liquid, _) => Kind::Water,
            Tile::Ramp(_, _) => Kind::Ramp,
        }
    }

    /// The class of the tile.
    pub fn kind(&self) -> (k: Kind)
        ensures
            k == self.kind_spec(),
    {
        match self {
            Tile::Empty => Kind::Empty,
            Tile::Stone(_, State::Solid) => Kind::Rock,
            Tile::Stone(_, State::Liquid) => Kind::Molten,
            Tile::Water(_, State::Solid, _) => Kind::Ice,
            Tile::Water(_, State::Liquid, _) => Kind::Water,
            Tile::Ramp(_, _) => Kind::Ramp,
        }
    }

    /// Whether the tile can be stood upon: rock and ice are solid, everything
    /// else gives way.
    pub open spec fn is_solid(self) -> bool {
        match self {
            Tile::Stone(_, State::Solid) => true,
            Tile::Water(_, State::Solid, _) => true,
            _ => false,
        }
    }

    /// Whether nothing is there.
    pub fn is_empty(&self) -> (b: bool)
        ensures
            b == (*self is Empty),
    {
        match self {
            Tile::Empty => true,
            _ => false,
        }
    }

    /// Whether the tile can be stood upon.
    pub fn solid(&self) -> (b: bool)
        ensures
            b == self.is_solid(),
    {
        match self {
            Tile::Stone(_, State::Solid) => true,
            Tile::Water(_, State::Solid, _) => true,
            _ => false,
        }
    }
}

/// The tile of a stack at elevation `h`; above the stack and below it there
/// is empty space.
pub open spec fn tile_or_empty(tiles: Seq<Tile>, h: int) -> Tile {
    if 0 <= h < tiles.len() {
        tiles[h]
    } else {
        Tile::Empty
    }
}

/// The tile of a stack that is shown at viewing level `level`: the tile at
/// that elevation, or the topmost stored tile where the stack ends below it.
/// An empty stack shows nothing.
pub open spec fn visible_tile_spec(tiles: Seq<Tile>, level: int) -> Option<Tile> {
    if tiles.len() == 0 {
        None
    } else if 0 <= level < tiles.len() {
        Some(tiles[level])
    } else {
        Some(tiles[tiles.len() - 1])
    }
}

/// The elevation of the lowest tile of a stack that is not solid, if the
/// stack has one among its first `n` tiles.
pub open spec fn first_open_spec(tiles: Seq<Tile>, n: int) -> Option<int>
    decreases n,
{
    if n <= 0 {
        None
    } else {
        match first_open_spec(tiles, n - 1) {
            Some(i) => Some(i),
            None => if n <= tiles.len() && !tiles[n - 1].is_solid() {
                Some(n - 1)
            } else {
                None
            },
        }
    }
}

/// `first_open_spec` finds the least elevation below `n` whose tile is not
/// solid, and finds none exactly when every tile below `n` is solid.
pub proof fn lemma_first_open(tiles: Seq<Tile>, n: int)
    requires
        0 <= n <= tiles.len(),
    ensures
        match first_open_spec(tiles, n) {
            Some(i) => {
                &&& 0 <= i < n
                &&& !tiles[i].is_solid()
                &&& forall|j: int| 0 <= j < i ==> (#[trigger] tiles[j]).is_solid()
            },
            None => forall|j: int| 0 <= j < n ==> (#[trigger] tiles[j]).is_solid(),
        },
    decreases n,
{
    if n > 0 {
        lemma_first_open(tiles, n - 1);
    }
}

/// The ordered stack of tiles at one grid position. Index 0 is the lowest
/// elevation.
#[derive(Debug)]
pub struct Column {
    pub tiles: Vec<Tile>,
}

impl View for Column {
    type V = Seq<Tile>;

    open spec fn view(&self) -> Seq<Tile> {
        self.tiles@
    }
}

impl Column {
    /// A column of the given tiles, lowest first.
    pub fn new(tiles: Vec<Tile>) -> (col: Column)
        ensures
            col@ == tiles@,
    {
        Column { tiles }
    }

    /// A column of `levels` empty tiles.
    pub fn empty(levels: usize) -> (col: Column)
        ensures
            col@ == Seq::new(levels as nat, |i: int| Tile::Empty),
    {
        let mut tiles: Vec<Tile> = Vec::new();
        let mut i: usize = 0;
        while i < levels
            invariant
                i <= levels,
                tiles@ == Seq::new(i as nat, |j: int| Tile::Empty),
            decreases levels - i,
        {
            tiles.push(Tile::Empty);
            i = i + 1;
            assert(tiles@ =~= Seq::new(i as nat, |j: int| Tile::Empty));
        }
        Column { tiles }
    }

    /// The number of elevations the column stores.
    pub fn len(&self) -> (n: usize)
        ensures
            n == self@.len(),
    {
        self.tiles.len()
    }

    /// A copy of the column.
    pub fn duplicate(&self) -> (col: Column)
        ensures
            col@ == self@,
    {
        let mut tiles: Vec<Tile> = Vec::new();
        let mut i: usize = 0;
        while i < self.tiles.len()
            invariant
                i <= self.tiles.len(),
                tiles@ == self.tiles@.take(i as int),
            decreases self.tiles.len() - i,
        {
            tiles.push(self.tiles[i]);
            i = i + 1;
            assert(tiles@ =~= self.tiles@.take(i as int));
        }
        assert(self.tiles@.take(self.tiles@.len() as int) =~= self.tiles@);
        Column { tiles }
    }

    /// The tile at elevation `h`, empty space beyond the top of the column.
    pub fn tile_or_empty(&self, h: usize) -> (t: Tile)
        ensures
            t == tile_or_empty(self@, h as int),
    {
        if h < self.tiles.len() {
            self.tiles[h]
        } else {
            Tile::Empty
        }
    }

    /// The tile at ground level.
    pub fn ground(&self) -> (t: Tile)
        ensures
            t == tile_or_empty(self@, 0),
    {
        self.tile_or_empty(0)
    }

    /// The tile shown at viewing level `level`: the one stored there, or the
    /// topmost stored tile where the column ends below that level.
    pub fn visible_tile(&self, level: usize) -> (t: Option<Tile>)
        ensures
            t == visible_tile_spec(self@, level as int),
    {
        let n: usize = self.tiles.len();
        if n == 0 {
            None
        } else if level < n {
            Some(self.tiles[level])
        } else {
            Some(self.tiles[n - 1])
        }
    }

    /// The elevation of the lowest tile that is not solid.
    pub fn first_open(&self) -> (found: Option<usize>)
        ensures
            match found {
                Some(i) => first_open_spec(self@, self@.len() as int) == Some(i as int),
                None => first_open_spec(self@, self@.len() as int) is None,
            },
    {
        let mut i: usize = 0;
        while i < self.tiles.len()
            invariant
                i <= self.tiles.len(),
                first_open_spec(self@, i as int) is None,
            decreases self.tiles.len() - i,
        {
            if !self.tiles[i].solid() {
                assert(first_open_spec(self@, i + 1) == Some(i as int));
                proof {
                    lemma_first_open_stable(self@, i + 1, self@.len() as int);
                }
                return Some(i);
            }
            i = i + 1;
        }
        None
    }
}

/// Once an open tile is found below `n`, looking further up finds the same.
pub proof fn lemma_first_open_stable(tiles: Seq<Tile>, n: int, m: int)
    requires
        0 <= n <= m,
        first_open_spec(tiles, n) is Some,
    ensures
        first_open_spec(tiles, m) == first_open_spec(tiles, n),
    decreases m - n,
{
    if n < m {
        lemma_first_open_stable(tiles, n, m - 1);
    }
}

/// The terrain as a mathematical value: the columns in row-major order with
/// the dimensions of the grid and the highest populated elevation.
pub struct Grid {
    pub width: nat,
    pub height: nat,
    pub highest_level: nat,
    pub columns: Seq<Seq<Tile>>,
}

impl Grid {
    /// The grid is rectangular and every column reaches `highest_level`.
    pub open spec fn wf(self) -> bool {
        &&& self.columns.len() == self.width * self.height
        &&& forall|i: int|
            0 <= i < self.columns.len() ==> (#[trigger] self.columns[i]).len()
                >= self.highest_level
    }

    /// Whether `p` is a position of the grid.
    pub open spec fn contains(self, p: Point2D) -> bool {
        p.0 < self.width && p.1 < self.height
    }

    /// The place of `p`'s column in row-major order.
    pub open spec fn index_of(self, p: Point2D) -> int {
        p.1 * self.width + p.0
    }

    /// The position whose column stands at place `i`.
    pub open spec fn point_of(self, i: int) -> Point2D {
        ((i % (self.width as int)) as usize, (i / (self.width as int)) as usize)
    }

    /// The column at `p`.
    pub open spec fn column(self, p: Point2D) -> Seq<Tile> {
        self.columns[self.index_of(p)]
    }

    /// The tile at `p` and elevation `h`; empty space above the column.
    pub open spec fn tile(self, p: Point2D, h: int) -> Tile {
        tile_or_empty(self.column(p), h)
    }

    /// The same grid with other columns.
    pub open spec fn with_columns(self, columns: Seq<Seq<Tile>>) -> Grid {
        Grid { columns, ..self }
    }
}

/// A position of the grid has a place among the columns, and `point_of`
/// leads back from that place to the position.
pub proof fn lemma_index_of(g: Grid, p: Point2D)
    requires
        g.columns.len() == g.width * g.height,
        g.contains(p),
    ensures
        0 <= g.index_of(p) < g.columns.len(),
        g.point_of(g.index_of(p)) == p,
{
    let w = g.width as int;
    let h = g.height as int;
    let x = p.0 as int;
    let y = p.1 as int;
    assert(y * w + x < w * h) by (nonlinear_arith)
        requires
            0 <= x < w,
            0 <= y < h,
    ;
    assert(0 <= y * w) by (nonlinear_arith)
        requires
            0 <= y,
            0 <= w,
    ;
    vstd::arithmetic::div_mod::lemma_fundamental_div_mod_converse(y * w + x, w, y, x);
}

/// A place among the columns belongs to a position of the grid, and
/// `index_of` leads back from that position to the place.
pub proof fn lemma_point_of(g: Grid, i: int)
    requires
        g.columns.len() == g.width * g.height,
        g.columns.len() <= usize::MAX,
        0 <= i < g.columns.len(),
    ensures
        g.contains(g.point_of(i)),
        g.index_of(g.point_of(i)) == i,
        g.point_of(i).0 < usize::MAX,
        g.point_of(i).1 < usize::MAX,
{
    let w = g.width as int;
    let h = g.height as int;
    assert(w > 0 && h > 0) by (nonlinear_arith)
        requires
            0 <= i < w * h,
            0 <= w,
            0 <= h,
    ;
    vstd::arithmetic::div_mod::lemma_fundamental_div_mod(i, w);
    vstd::arithmetic::div_mod::lemma_mod_bound(i, w);
    let q = i / w;
    let r = i % w;
    assert(0 <= q < h) by (nonlinear_arith)
        requires
            i == w * q + r,
            0 <= r < w,
            0 <= i < w * h,
            0 < h,
    ;
    assert(w * q == q * w) by (nonlinear_arith);
    assert(w <= w * h) by (nonlinear_arith)
        requires
            0 < w,
            0 < h,
    ;
    assert(h <= w * h) by (nonlinear_arith)
        requires
            0 < w,
            0 < h,
    ;
}

/// A rectangular grid of columns together with its width, its height and
/// the highest populated elevation. Every column stores at least
/// `highest_level` tiles.
#[derive(Debug)]
pub struct TerrainMap {
    width: usize,
    height: usize,
    highest_level: usize,
    columns: Vec<Column>,
}

impl View for TerrainMap {
    type V = Grid;

    closed spec fn view(&self) -> Grid {
        Grid {
            width: self.width as nat,
            height: self.height as nat,
            highest_level: self.highest_level as nat,
            columns: Seq::new(self.columns@.len(), |i: int| self.columns@[i]@),
        }
    }
}

/// The stacks of a sequence of columns.
pub open spec fn column_views(columns: Seq<Column>) -> Seq<Seq<Tile>> {
    Seq::new(columns.len(), |i: int| columns[i]@)
}

impl TerrainMap {
    /// The map's invariant: that of its grid, which also fits the machine.
    pub open spec fn wf(&self) -> bool {
        &&& self@.wf()
        &&& self@.width <= usize::MAX
        &&& self@.height <= usize::MAX
        &&& self@.highest_level <= usize::MAX
        &&& self@.columns.len() <= usize::MAX
    }

    /// The map of the given columns, row by row, or `None` where they do not
    /// make a `width` by `height` grid of columns that reach `highest_level`.
    pub fn new(width: usize, height: usize, highest_level: usize, columns: Vec<Column>) -> (out:
        Option<TerrainMap>)
        ensures
            out is Some <==> (Grid {
                width: width as nat,
                height: height as nat,
                highest_level: highest_level as nat,
                columns: column_views(columns@),
            }).wf(),
            out matches Some(map) ==> map.wf() && map@ == (Grid {
                width: width as nat,
                height: height as nat,
                highest_level: highest_level as nat,
                columns: column_views(columns@),
            }),
    {
        let ghost cols = column_views(columns@);
        let count: usize = columns.len();
        match width.checked_mul(height) {
            Some(n) => {
                if n != count {
                    return None;
                }
            },
            None => {
                return None;
            },
        }
        let mut i: usize = 0;
        while i < columns.len()
            invariant
                i <= columns.len(),
                cols == column_views(columns@),
                forall|j: int| 0 <= j < i ==> (#[trigger] cols[j]).len() >= highest_level,
            decreases columns.len() - i,
        {
            if columns[i].len() < highest_level {
                assert(cols[i as int].len() < highest_level);
                return None;
            }
            i = i + 1;
        }
        let map = TerrainMap { width, height, highest_level, columns };
        assert(map@.columns =~= cols);
        Some(map)
    }

    /// The number of columns in a row.
    pub fn width(&self) -> (w: usize)
        ensures
            w == self@.width,
    {
        self.width
    }

    /// The number of rows.
    pub fn height(&self) -> (h: usize)
        ensures
            h == self@.height,
    {
        self.height
    }

    /// The highest populated elevation: the physics looks at the elevations
    /// below it.
    pub fn highest_level(&self) -> (h: usize)
        ensures
            h == self@.highest_level,
    {
        self.highest_level
    }

    /// The number of columns.
    pub fn column_count(&self) -> (n: usize)
        ensures
            n == self@.columns.len(),
    {
        self.columns.len()
    }

    /// Whether `p` is a position of the map.
    pub fn contains(&self, p: Point2D) -> (b: bool)
        ensures
            b == self@.contains(p),
    {
        p.0 < self.width && p.1 < self.height
    }

    /// The position of the column that stands at place `i` in row-major
    /// order.
    pub fn point_at(&self, i: usize) -> (p: Point2D)
        requires
            self.wf(),
            i < self@.columns.len(),
        ensures
            p == self@.point_of(i as int),
            self@.contains(p),
            self@.index_of(p) == i,
    {
        proof {
            lemma_point_of(self@, i as int);
        }
        (i % self.width, i / self.width)
    }

    /// The place of `p`'s column among the columns.
    fn index(&self, p: Point2D) -> (i: usize)
        requires
            self.wf(),
            self@.contains(p),
        ensures
            i == self@.index_of(p),
            i < self.columns@.len(),
    {
        proof {
            lemma_index_of(self@, p);
            let w = self.width as int;
            let y = p.1 as int;
            assert(0 <= y * w <= y * w + p.0) by (nonlinear_arith)
                requires
                    0 <= y,
                    0 <= w,
                    0 <= p.0,
            ;
        }
        p.1 * self.width + p.0
    }

    /// The column at `p`.
    pub fn column(&self, p: Point2D) -> (col: &Column)
        requires
            self.wf(),
            self@.contains(p),
        ensures
            col@ == self@.column(p),
    {
        let i: usize = self.index(p);
        &self.columns[i]
    }

    /// The tile at `p` and elevation `h`; empty space above the column.
    pub fn tile(&self, p: Point2D, h: usize) -> (t: Tile)
        requires
            self.wf(),
            self@.contains(p),
        ensures
            t == self@.tile(p, h as int),
    {
        let i: usize = self.index(p);
        self.columns[i].tile_or_empty(h)
    }

    /// Puts `tile` at elevation `h` of the column at `p`.
    pub fn set_tile(&mut self, p: Point2D, h: usize, tile: Tile)
        requires
            old(self).wf(),
            old(self)@.contains(p),
            h < old(self)@.column(p).len(),
        ensures
            final(self).wf(),
            final(self)@ == old(self)@.with_columns(
                old(self)@.columns.update(
                    old(self)@.index_of(p),
                    old(self)@.column(p).update(h as int, tile),
                ),
            ),
    {
        let i: usize = self.index(p);
        let ghost before = self@;
        self.columns[i].tiles[h] = tile;
        assert(self@.columns =~= before.columns.update(
            before.index_of(p),
            before.column(p).update(h as int, tile),
        ));
    }

    /// Replaces every column, keeping the dimensions. The new columns must
    /// again make a grid of those dimensions.
    pub fn set_columns(&mut self, columns: Vec<Column>)
        requires
            old(self).wf(),
            old(self)@.with_columns(column_views(columns@)).wf(),
        ensures
            final(self).wf(),
            final(self)@ == old(self)@.with_columns(column_views(columns@)),
    {
        let ghost cols = column_views(columns@);
        self.columns = columns;
        assert(self@.columns =~= cols);
    }
}

/// The world as the physics sees it: the terrain map, once the world has
/// been generated.
#[derive(Debug)]
pub struct WorldState {
    pub map: Option<TerrainMap>,
}

impl View for WorldState {
    type V = Option<Grid>;

    open spec fn view(&self) -> Option<Grid> {
        match self.map {
            Some(map) => Some(map@),
            None => None,
        }
    }
}

impl WorldState {
    /// The world's invariant: that of its map, if it has one.
    pub open spec fn wf(&self) -> bool {
        self.map matches Some(map) ==> map.wf()
    }

    /// A world whose terrain has not been generated yet.
    pub fn new() -> (ws: WorldState)
        ensures
            ws.map is None,
            ws.wf(),
    {
        WorldState { map: None }
    }

    /// A world with the given terrain.
    pub fn with_map(map: TerrainMap) -> (ws: WorldState)
        requires
            map.wf(),
        ensures
            ws.map == Some(map),
            ws.wf(),
    {
        WorldState { map: Some(map) }
    }

    /// The width and the height of the terrain, if there is one.
    pub fn map_size(&self) -> (size: Option<(usize, usize)>)
        ensures
            size == match self@ {
                Some(g) => Some((g.width as usize, g.height as usize)),
                None => None,
            },
    {
        match &self.map {
            Some(map) => Some((map.width(), map.height())),
            None => None,
        }
    }

    /// The highest populated elevation of the terrain, if there is one.
    pub fn highest_level(&self) -> (level: Option<usize>)
        ensures
            level == match self@ {
                Some(g) => Some(g.highest_level as usize),
                None => None,
            },
    {
        match &self.map {
            Some(map) => Some(map.highest_level()),
            None => None,
        }
    }
}

} // verus!

//! The Game of Life grid: a rectangular matrix of boolean cells with
//! bounds-checked access, point toggling, bulk reset, and the standard
//! synchronous generation-advance rule (Moore neighborhood, hard edges).

use vstd::prelude::*;

verus! {

/// A grid coordinate, as produced by the enumeration: `x` is the column,
/// `y` the row.
#[derive(Clone, Copy)]
pub struct Cell {
    pub x: usize,
    pub y: usize,
}

/// A fixed-size rectangular matrix of boolean cells, `height` rows of
/// `width` columns each. `cells[y][x]` is true iff the cell at column `x`
/// of row `y` is alive.
pub struct Grid {
    pub height: usize,
    pub width: usize,
    pub cells: Vec<Vec<bool>>,
}

/// 1 if the boolean is true, else 0; used to count live neighbors.
pub open spec fn as_count(b: bool) -> int {
    if b {
        1
    } else {
        0
    }
}

/// True iff `(x, y)` is inside the matrix `g` and holds a live cell.
/// Out-of-bounds coordinates count as dead: the grid has hard edges,
/// with no wraparound.
pub open spec fn alive_in(g: Seq<Seq<bool>>, x: int, y: int) -> bool {
    0 <= y < g.len() && 0 <= x < g[y].len() && g[y][x]
}

/// The number of live cells among the up-to-8 in-bounds Moore neighbors
/// of `(x, y)`; the cell itself is not counted.
pub open spec fn live_neighbors(g: Seq<Seq<bool>>, x: int, y: int) -> int {
    as_count(alive_in(g, x - 1, y - 1)) + as_count(alive_in(g, x, y - 1)) + as_count(
        alive_in(g, x + 1, y - 1),
    ) + as_count(alive_in(g, x - 1, y)) + as_count(alive_in(g, x + 1, y)) + as_count(
        alive_in(g, x - 1, y + 1),
    ) + as_count(alive_in(g, x, y + 1)) + as_count(alive_in(g, x + 1, y + 1))
}

/// The state of cell `(x, y)` in the next generation, from the standard
/// rule: a live cell survives with exactly 2 or 3 live neighbors, a dead
/// cell is born with exactly 3.
pub open spec fn next_state(g: Seq<Seq<bool>>, x: int, y: int) -> bool {
    if alive_in(g, x, y) {
        live_neighbors(g, x, y) == 2 || live_neighbors(g, x, y) == 3
    } else {
        live_neighbors(g, x, y) == 3
    }
}

/// The whole next generation, every cell computed from the same snapshot
/// `g` of the current one.
pub open spec fn next_gen(g: Seq<Seq<bool>>) -> Seq<Seq<bool>> {
    Seq::new(g.len(), |y: int| Seq::new(g[y].len(), |x: int| next_state(g, x, y)))
}

/// The matrix `g` with the cell at `(x, y)` replaced by `value`.
pub open spec fn with_cell(g: Seq<Seq<bool>>, x: int, y: int, value: bool) -> Seq<Seq<bool>> {
    g.update(y, g[y].update(x, value))
}

/// The matrix `g` with the cell at `(x, y)` flipped.
pub open spec fn toggled_at(g: Seq<Seq<bool>>, x: int, y: int) -> Seq<Seq<bool>> {
    with_cell(g, x, y, !g[y][x])
}

/// An all-dead matrix of `height` rows of `width` columns.
pub open spec fn all_dead(width: int, height: int) -> Seq<Seq<bool>> {
    Seq::new(height as nat, |y: int| Seq::new(width as nat, |x: int| false))
}

impl View for Grid {
    type V = Seq<Seq<bool>>;

    open spec fn view(&self) -> Seq<Seq<bool>> {
        Seq::new(self.cells@.len(), |y: int| self.cells@[y]@)
    }
}

impl Grid {
    /// Both dimensions are positive and the matrix really is `height` rows
    /// of `width` columns. Established at construction and preserved by
    /// every operation.
    pub open spec fn well_formed(self) -> bool {
        &&& 0 < self.width
        &&& 0 < self.height
        &&& self@.len() == self.height
        &&& forall|y: int| 0 <= y < self.height ==> (#[trigger] self@[y]).len() == self.width
    }

    /// The state of the cell at `(x, y)`.
    pub open spec fn cell_at(self, x: int, y: int) -> bool {
        self@[y][x]
    }

    /// A new grid with the given dimensions, all cells dead.
    pub fn new(height: usize, width: usize) -> (g: Grid)
        requires
            0 < height,
            0 < width,
        ensures
            g.well_formed(),
            g.height == height,
            g.width == width,
            g@ =~~= all_dead(width as int, height as int),
    {
        let mut cells: Vec<Vec<bool>> = Vec::new();
        let mut y: usize = 0;
        while y < height
            invariant
                y <= height,
                cells@.len() == y,
                forall|j: int| 0 <= j < y ==> (#[trigger] cells@[j])@ =~= Seq::new(
                    width as nat,
                    |x: int| false,
                ),
            decreases height - y,
        {
            let mut row: Vec<bool> = Vec::new();
            let mut x: usize = 0;
            while x < width
                invariant
                    x <= width,
                    row@ =~= Seq::new(x as nat, |i: int| false),
                decreases width - x,
            {
                row.push(false);
                x = x + 1;
            }
            cells.push(row);
            y = y + 1;
        }
        Grid { height, width, cells }
    }

    /// True iff `(x, y)` lies inside the grid.
    pub fn is_coords_valid(&self, x: usize, y: usize) -> (valid: bool)
        ensures
            valid == (x < self.width && y < self.height),
    {
        if x >= self.width || y >= self.height {
            return false;
        }
        true
    }

    /// The live/dead state at `(x, y)`. Out-of-range coordinates are a
    /// caller defect, ruled out by the precondition.
    pub fn get_value(&self, x: usize, y: usize) -> (value: bool)
        requires
            self.well_formed(),
            x < self.width,
            y < self.height,
        ensures
            value == self.cell_at(x as int, y as int),
    {
        proof {
            assert(self@[y as int].len() == self.width);
        }
        self.cells[y][x]
    }

    /// Writes `value` at `(x, y)`, leaving every other cell and the
    /// dimensions unchanged.
    fn set_value(&mut self, x: usize, y: usize, value: bool)
        requires
            old(self).well_formed(),
            x < old(self).width,
            y < old(self).height,
        ensures
            final(self).well_formed(),
            final(self).width == old(self).width,
            final(self).height == old(self).height,
            final(self)@ == with_cell(old(self)@, x as int, y as int, value),
    {
        proof {
            assert(self@[y as int].len() == self.width);
        }
        self.cells[y][x] = value;
        proof {
            assert(self@ =~~= with_cell(old(self)@, x as int, y as int, value));
        }
    }

    /// Flips the cell at `(x, y)` in place. Immediate: not gated by any
    /// clock.
    pub fn toggle_value(&mut self, x: usize, y: usize)
        requires
            old(self).well_formed(),
            x < old(self).width,
            y < old(self).height,
        ensures
            final(self).well_formed(),
            final(self).width == old(self).width,
            final(self).height == old(self).height,
            final(self)@ == toggled_at(old(self)@, x as int, y as int),
    {
        let value = !self.get_value(x, y);
        self.set_value(x, y, value);
    }

    /// Counts the live cells among the up-to-8 Moore neighbors of
    /// `(x, y)`. Neighbor coordinates outside the grid are skipped: edge
    /// and corner cells have fewer than 8 neighbors, and the count never
    /// wraps around to the opposite edge.
    pub fn count_alive_neighbors(&self, x: usize, y: usize) -> (count: i32)
        requires
            self.well_formed(),
            x < self.width,
            y < self.height,
        ensures
            count == live_neighbors(self@, x as int, y as int),
            0 <= count <= 8,
    {
        let mut count: i32 = 0;
        if x > 0 && y > 0 && self.get_value(x - 1, y - 1) {
            count = count + 1;
        }
        if y > 0 && self.get_value(x, y - 1) {
            count = count + 1;
        }
        if x + 1 < self.width && y > 0 && self.get_value(x + 1, y - 1) {
            count = count + 1;
        }
        if x > 0 && self.get_value(x - 1, y) {
            count = count + 1;
        }
        if x + 1 < self.width && self.get_value(x + 1, y) {
            count = count + 1;
        }
        if x > 0 && y + 1 < self.height && self.get_value(x - 1, y + 1) {
            count = count + 1;
        }
        if y + 1 < self.height && self.get_value(x, y + 1) {
            count = count + 1;
        }
        if x + 1 < self.width && y + 1 < self.height && self.get_value(x + 1, y + 1) {
            count = count + 1;
        }
        count
    }

    /// Advances the grid by one generation. Every cell's next state is
    /// computed from the same snapshot of the current generation (the
    /// results are collected in a fresh matrix and swapped in at the end),
    /// and every cell of the grid is updated, the last row and column
    /// included.
    pub fn update(&mut self)
        requires
            old(self).well_formed(),
        ensures
            final(self).well_formed(),
            final(self).width == old(self).width,
            final(self).height == old(self).height,
            final(self)@ == next_gen(old(self)@),
    {
        let mut new_cells: Vec<Vec<bool>> = Vec::new();
        let mut y: usize = 0;
        while y < self.height
            invariant
                *self == *old(self),
                self.well_formed(),
                y <= self.height,
                new_cells@.len() == y,
                forall|j: int| 0 <= j < y ==> (#[trigger] new_cells@[j])@ =~= Seq::new(
                    self.width as nat,
                    |i: int| next_state(self@, i, j),
                ),
            decreases self.height - y,
        {
            let mut row: Vec<bool> = Vec::new();
            let mut x: usize = 0;
            while x < self.width
                invariant
                    *self == *old(self),
                    self.well_formed(),
                    y < self.height,
                    x <= self.width,
                    row@ =~= Seq::new(x as nat, |i: int| next_state(self@, i, y as int)),
                decreases self.width - x,
            {
                let alive_neighbors = self.count_alive_neighbors(x, y);
                let current_cell_is_alive = self.get_value(x, y);
                let next = if current_cell_is_alive {
                    alive_neighbors == 2 || alive_neighbors == 3
                } else {
                    alive_neighbors == 3
                };
                row.push(next);
                x = x + 1;
            }
            new_cells.push(row);
            y = y + 1;
        }
        self.cells = new_cells;
        proof {
            assert(self@ =~~= next_gen(old(self)@));
        }
    }

    /// Sets every cell to dead. Consumes no randomness and keeps the
    /// dimensions.
    pub fn clear(&mut self)
        requires
            old(self).well_formed(),
        ensures
            final(self).well_formed(),
            final(self).width == old(self).width,
            final(self).height == old(self).height,
            final(self)@ == all_dead(old(self).width as int, old(self).height as int),
    {
        let width = self.width;
        let height = self.height;
        let mut x: usize = 0;
        while x < width
            invariant
                self.well_formed(),
                self.width == width,
                self.height == height,
                x <= width,
                forall|i: int, j: int|
                    0 <= i < width && 0 <= j < height ==> #[trigger] self@[j][i] == (
                    if i < x {
                        false
                    } else {
                        old(self)@[j][i]
                    }),
            decreases width - x,
        {
            let mut y: usize = 0;
            while y < height
                invariant
                    self.well_formed(),
                    self.width == width,
                    self.height == height,
                    x < width,
                    y <= height,
                    forall|i: int, j: int|
                        0 <= i < width && 0 <= j < height ==> #[trigger] self@[j][i] == (
                        if i < x || (i == x && j < y) {
                            false
                        } else {
                            old(self)@[j][i]
                        }),
            decreases height - y,
            {
                self.set_value(x, y, false);
                y = y + 1;
            }
            x = x + 1;
        }
        proof {
            assert(self@ =~~= all_dead(width as int, height as int));
        }
    }

    /// Sets every cell independently to live with probability
    /// `numerator / denominator`, dead otherwise, overwriting the whole
    /// grid. The dimensions are kept; nothing can be promised about the
    /// drawn values themselves, except at the two degenerate
    /// probabilities: with probability 1 every cell ends up live, with
    /// probability 0 every cell ends up dead.
    pub fn reset_random(&mut self, numerator: u32, denominator: u32)
        requires
            old(self).well_formed(),
            0 < denominator,
            numerator <= denominator,
        ensures
            final(self).well_formed(),
            final(self).width == old(self).width,
            final(self).height == old(self).height,
            numerator == denominator ==> forall|x: int, y: int|
                0 <= x < final(self).width && 0 <= y < final(self).height
                    ==> #[trigger] final(self)@[y][x],
            numerator == 0 ==> final(self)@ == all_dead(
                old(self).width as int,
                old(self).height as int,
            ),
    {
        let width = self.width;
        let height = self.height;
        let mut x: usize = 0;
        while x < width
            invariant
                self.well_formed(),
                self.width == width,
                self.height == height,
                x <= width,
                0 < denominator,
                numerator <= denominator,
                numerator == denominator ==> forall|i: int, j: int|
                    0 <= i < x && 0 <= j < height ==> #[trigger] self@[j][i],
                numerator == 0 ==> forall|i: int, j: int|
                    0 <= i < x && 0 <= j < height ==> !(#[trigger] self@[j][i]),
            decreases width - x,
        {
            let mut y: usize = 0;
            while y < height
                invariant
                    self.well_formed(),
                    self.width == width,
                    self.height == height,
                    x < width,
                    y <= height,
                    0 < denominator,
                    numerator <= denominator,
                    numerator == denominator ==> forall|i: int, j: int|
                        0 <= j < height && (0 <= i < x || (i == x && 0 <= j < y))
                            ==> #[trigger] self@[j][i],
                    numerator == 0 ==> forall|i: int, j: int|
                        0 <= j < height && (0 <= i < x || (i == x && 0 <= j < y)) ==> !(
                        #[trigger] self@[j][i]),
                decreases height - y,
            {
                let value = draw_with_ratio(numerator, denominator);
                self.set_value(x, y, value);
                y = y + 1;
            }
            x = x + 1;
        }
        proof {
            if numerator == 0 {
                assert(self@ =~~= all_dead(width as int, height as int));
            }
        }
    }
}

/// Relies on rand::random_ratio: an unbiased boolean draw that is true
/// with probability `numerator / denominator`. The outcome is random, so
/// nothing is promised of it except at the two degenerate ratios, which
/// rand documents: with `numerator == denominator` the draw is always
/// true, and with `numerator == 0` it is always false. rand panics when
/// `denominator == 0` or `numerator > denominator`, so those inputs are
/// ruled out.
#[verifier::external_body]
fn draw_with_ratio(numerator: u32, denominator: u32) -> (value: bool)
    requires
        0 < denominator,
        numerator <= denominator,
    ensures
        numerator == denominator ==> value,
        numerator == 0 ==> !value,
{
    rand::random_ratio(numerator, denominator)
}

/// A restartable row-major enumeration of the grid: it yields the triple
/// `(x, y, alive)` for every coordinate, all columns of row 0, then all
/// columns of row 1, and so on, and then `None`. It borrows the grid, so
/// the whole enumeration reflects one consistent snapshot.
pub struct GridIterator<'a> {
    pub grid: &'a Grid,
    pub x: usize,
    pub y: usize,
}

impl<'a> GridIterator<'a> {
    /// The borrowed grid is well formed and the cursor is on a coordinate
    /// of the grid, or just past its last row.
    pub open spec fn well_formed(self) -> bool {
        &&& self.grid.well_formed()
        &&& self.y <= self.grid.height
        &&& if self.y < self.grid.height {
            self.x < self.grid.width
        } else {
            self.x == 0
        }
    }

    /// The grid under enumeration.
    pub open spec fn grid_view(self) -> Grid {
        *self.grid
    }

    /// The coordinate the next call will yield, as `(x, y)`.
    pub open spec fn cursor(self) -> (int, int) {
        (self.x as int, self.y as int)
    }

    /// Yields the triple at the cursor and moves the cursor one step in
    /// row-major order, or returns `None` once every coordinate has been
    /// yielded.
    pub fn next(&mut self) -> (item: Option<(usize, usize, bool)>)
        requires
            old(self).well_formed(),
        ensures
            final(self).well_formed(),
            final(self).grid_view() == old(self).grid_view(),
            old(self).y < old(self).grid.height ==> {
                &&& item == Some(
                    (
                        old(self).x,
                        old(self).y,
                        old(self).grid.cell_at(old(self).x as int, old(self).y as int),
                    ),
                )
                &&& if old(self).x + 1 < old(self).grid.width {
                    final(self).x == old(self).x + 1 && final(self).y == old(self).y
                } else {
                    final(self).x == 0 && final(self).y == old(self).y + 1
                }
            },
            old(self).y >= old(self).grid.height ==> item is None && *final(self) == *old(self),
    {
        let is_end = self.y >= self.grid.height;
        if is_end {
            return None;
        }

        let x_cpy = self.x;
        let y_cpy = self.y;
        let value = self.grid.get_value(self.x, self.y);

        self.x = self.x + 1;
        if self.x >= self.grid.width {
            self.x = 0;
            self.y = self.y + 1;
        }

        Some((x_cpy, y_cpy, value))
    }
}

impl Grid {
    /// A fresh enumeration of this grid, starting at `(0, 0)`.
    pub fn into_iter(&self) -> (it: GridIterator<'_>)
        requires
            self.well_formed(),
        ensures
            it.well_formed(),
            it.grid_view() == *self,
            it.cursor() == (0int, 0int),
    {
        GridIterator { grid: self, x: 0, y: 0 }
    }
}

/// A matrix of the given dimensions that is live at exactly the four
/// cells of the 2x2 block whose lowest coordinate is `(bx, by)`.
pub open spec fn block_at(width: int, height: int, bx: int, by: int) -> Seq<Seq<bool>> {
    Seq::new(
        height as nat,
        |y: int| Seq::new(width as nat, |x: int| bx <= x <= bx + 1 && by <= y <= by + 1),
    )
}

/// Still-life stability: a 2x2 block of live cells in the interior of the
/// grid, away from the edges, is left exactly as it is by a generation
/// advance — so, by applying this equality repeatedly, it survives any
/// number of advances.
pub proof fn lemma_block_is_still(width: int, height: int, bx: int, by: int)
    requires
        1 <= bx,
        bx + 2 <= width - 1,
        1 <= by,
        by + 2 <= height - 1,
    ensures
        next_gen(block_at(width, height, bx, by)) == block_at(width, height, bx, by),
{
    let g = block_at(width, height, bx, by);
    assert forall|x: int, y: int| 0 <= y < height && 0 <= x < width implies next_state(g, x, y)
        == g[y][x] by {
        assert(live_neighbors(g, x, y) == as_count(alive_in(g, x - 1, y - 1)) + as_count(
            alive_in(g, x, y - 1),
        ) + as_count(alive_in(g, x + 1, y - 1)) + as_count(alive_in(g, x - 1, y)) + as_count(
            alive_in(g, x + 1, y),
        ) + as_count(alive_in(g, x - 1, y + 1)) + as_count(alive_in(g, x, y + 1)) + as_count(
            alive_in(g, x + 1, y + 1),
        ));
    }
    assert(next_gen(g) =~~= g);
}

/// A matrix of the given dimensions that is live at exactly the three
/// cells of the horizontal blinker centered at `(cx, cy)`.
pub open spec fn blinker_row(width: int, height: int, cx: int, cy: int) -> Seq<Seq<bool>> {
    Seq::new(height as nat, |y: int| Seq::new(width as nat, |x: int| y == cy && cx - 1 <= x <= cx + 1))
}

/// A matrix of the given dimensions that is live at exactly the three
/// cells of the vertical blinker centered at `(cx, cy)`.
pub open spec fn blinker_column(width: int, height: int, cx: int, cy: int) -> Seq<Seq<bool>> {
    Seq::new(height as nat, |y: int| Seq::new(width as nat, |x: int| x == cx && cy - 1 <= y <= cy + 1))
}

/// Oscillator correctness: a blinker in the interior of the grid, with
/// every neighbor of its cells in bounds, flips between its horizontal
/// and vertical orientation at every single advance, and is back in its
/// original orientation after two.
pub proof fn lemma_blinker_oscillates(width: int, height: int, cx: int, cy: int)
    requires
        2 <= cx,
        cx + 2 <= width - 1,
        2 <= cy,
        cy + 2 <= height - 1,
    ensures
        next_gen(blinker_row(width, height, cx, cy)) == blinker_column(width, height, cx, cy),
        next_gen(blinker_column(width, height, cx, cy)) == blinker_row(width, height, cx, cy),
        next_gen(next_gen(blinker_row(width, height, cx, cy))) == blinker_row(
            width,
            height,
            cx,
            cy,
        ),
{
    let r = blinker_row(width, height, cx, cy);
    let c = blinker_column(width, height, cx, cy);
    assert forall|x: int, y: int| 0 <= y < height && 0 <= x < width implies next_state(r, x, y)
        == c[y][x] by {
        assert(live_neighbors(r, x, y) == as_count(alive_in(r, x - 1, y - 1)) + as_count(
            alive_in(r, x, y - 1),
        ) + as_count(alive_in(r, x + 1, y - 1)) + as_count(alive_in(r, x - 1, y)) + as_count(
            alive_in(r, x + 1, y),
        ) + as_count(alive_in(r, x - 1, y + 1)) + as_count(alive_in(r, x, y + 1)) + as_count(
            alive_in(r, x + 1, y + 1),
        ));
    }
    assert(next_gen(r) =~~= c);
    assert forall|x: int, y: int| 0 <= y < height && 0 <= x < width implies next_state(c, x, y)
        == r[y][x] by {
        assert(live_neighbors(c, x, y) == as_count(alive_in(c, x - 1, y - 1)) + as_count(
            alive_in(c, x, y - 1),
        ) + as_count(alive_in(c, x + 1, y - 1)) + as_count(alive_in(c, x - 1, y)) + as_count(
            alive_in(c, x + 1, y),
        ) + as_count(alive_in(c, x - 1, y + 1)) + as_count(alive_in(c, x, y + 1)) + as_count(
            alive_in(c, x + 1, y + 1),
        ));
    }
    assert(next_gen(c) =~~= r);
}

/// Clearing yields the all-dead matrix of the grid's dimensions whatever
/// the prior state was, so any two cleared grids of the same dimensions
/// are equal — in particular, clearing twice is the same as clearing
/// once — and every cell of a cleared grid reads dead.
pub proof fn lemma_clear_idempotent(g1: Grid, g2: Grid)
    requires
        g1.width == g2.width,
        g1.height == g2.height,
        g1@ == all_dead(g1.width as int, g1.height as int),
        g2@ == all_dead(g2.width as int, g2.height as int),
    ensures
        g1@ == g2@,
        forall|x: int, y: int|
            0 <= x < g1.width && 0 <= y < g1.height ==> !(#[trigger] g1.cell_at(x, y)),
{
}

/// The neighbor count never wraps around an edge: a corner cell is
/// evaluated from its at most 3 in-bounds neighbors and a cell on the
/// left edge from its at most 5, the terms for coordinates outside the
/// grid contributing nothing.
pub proof fn lemma_no_wraparound_at_edges(g: Seq<Seq<bool>>, y: int)
    ensures
        live_neighbors(g, 0, 0) == as_count(alive_in(g, 1, 0)) + as_count(alive_in(g, 0, 1))
            + as_count(alive_in(g, 1, 1)),
        live_neighbors(g, 0, y) == as_count(alive_in(g, 0, y - 1)) + as_count(
            alive_in(g, 1, y - 1),
        ) + as_count(alive_in(g, 1, y)) + as_count(alive_in(g, 0, y + 1)) + as_count(
            alive_in(g, 1, y + 1),
        ),
{
}

/// Toggling a cell twice in succession returns the matrix to its original
/// state: toggling is its own inverse.
pub proof fn lemma_toggle_twice_restores(g: Seq<Seq<bool>>, x: int, y: int)
    requires
        0 <= y < g.len(),
        0 <= x < g[y].len(),
    ensures
        toggled_at(toggled_at(g, x, y), x, y) =~~= g,
{
}

} // verus!

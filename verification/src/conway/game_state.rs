//! The cellular-automaton state engine: a rectangular grid of cells held in two
//! buffers, the step rule under two boundary modes, and the queries that
//! classify every cell against the generation before.

use vstd::prelude::*;

verus! {

/// What a grid is, mathematically: its extent, its boundary mode, the current
/// generation and the snapshot of the generation before, both row-major.
pub struct Grid {
    pub width: nat,
    pub height: nat,
    pub periodic: bool,
    pub cells: Seq<bool>,
    pub previous: Seq<bool>,
}

/// How a cell of the current generation relates to the one before.
#[derive(Clone, Copy, Debug, PartialEq, Eq, Structural)]
pub enum CellDelta {
    /// Alive now, dead before.
    Born,
    /// Dead now, alive before.
    Died,
    /// Alive now and before.
    Retained,
}

/// The cell at `(x, y)` of a row-major buffer; dead outside the grid.
pub open spec fn cell_at(cells: Seq<bool>, width: int, height: int, x: int, y: int) -> bool {
    0 <= x < width && 0 <= y < height && cells[y * width + x]
}

/// Whether the neighbour of `(x, y)` at offset `(dx, dy)` is alive. On a
/// periodic grid both axes wrap around; on a bounded grid a neighbour outside
/// the grid is dead.
pub open spec fn neighbor_alive(
    cells: Seq<bool>,
    width: int,
    height: int,
    periodic: bool,
    x: int,
    y: int,
    dx: int,
    dy: int,
) -> bool {
    if periodic {
        cells[((y + dy + height) % height) * width + ((x + dx + width) % width)]
    } else {
        cell_at(cells, width, height, x + dx, y + dy)
    }
}

/// One for a live neighbour, zero for a dead one.
pub open spec fn neighbor_weight(
    cells: Seq<bool>,
    width: int,
    height: int,
    periodic: bool,
    x: int,
    y: int,
    dx: int,
    dy: int,
) -> nat {
    if neighbor_alive(cells, width, height, periodic, x, y, dx, dy) {
        1
    } else {
        0
    }
}

/// The number of live cells among the eight positions adjacent to `(x, y)`.
pub open spec fn neighbor_count(
    cells: Seq<bool>,
    width: int,
    height: int,
    periodic: bool,
    x: int,
    y: int,
) -> nat {
    neighbor_weight(cells, width, height, periodic, x, y, -1, -1)
        + neighbor_weight(cells, width, height, periodic, x, y, 0, -1)
        + neighbor_weight(cells, width, height, periodic, x, y, 1, -1)
        + neighbor_weight(cells, width, height, periodic, x, y, -1, 0)
        + neighbor_weight(cells, width, height, periodic, x, y, 1, 0)
        + neighbor_weight(cells, width, height, periodic, x, y, -1, 1)
        + neighbor_weight(cells, width, height, periodic, x, y, 0, 1)
        + neighbor_weight(cells, width, height, periodic, x, y, 1, 1)
}

/// The rule: a live cell survives on two or three live neighbours, a dead cell
/// comes alive on exactly three.
pub open spec fn next_cell(alive: bool, count: nat) -> bool {
    if alive {
        count == 2 || count == 3
    } else {
        count == 3
    }
}

/// The generation that follows `cells`: the rule applied to every cell, each
/// reading the same prior generation.
pub open spec fn next_generation(cells: Seq<bool>, width: int, height: int, periodic: bool) -> Seq<
    bool,
> {
    Seq::new(
        (width * height) as nat,
        |i: int|
            next_cell(cells[i], neighbor_count(cells, width, height, periodic, i % width, i / width)),
    )
}

/// A buffer of `len` dead cells.
pub open spec fn all_dead(len: nat) -> Seq<bool> {
    Seq::new(len, |i: int| false)
}

/// The buffer of a `width` by `height` grid that keeps the cells of an
/// `old_width` by `old_height` grid where the two extents overlap, and is dead
/// elsewhere.
pub open spec fn resized(
    cells: Seq<bool>,
    old_width: int,
    old_height: int,
    width: int,
    height: int,
) -> Seq<bool> {
    Seq::new(
        (width * height) as nat,
        |i: int| cell_at(cells, old_width, old_height, i % width, i / width),
    )
}

/// Whether a cell with the given current and previous state falls under `kind`.
pub open spec fn has_delta(now: bool, before: bool, kind: CellDelta) -> bool {
    match kind {
        CellDelta::Born => now && !before,
        CellDelta::Died => !now && before,
        CellDelta::Retained => now && before,
    }
}

/// The coordinates `(x, y)` of the cells among the first `n` of the row-major
/// order that fall under `kind`, in that order.
pub open spec fn delta_cells(
    cells: Seq<bool>,
    previous: Seq<bool>,
    width: int,
    kind: CellDelta,
    n: nat,
) -> Seq<(usize, usize)>
    decreases n,
{
    if n == 0 {
        Seq::empty()
    } else {
        let i = n - 1;
        let before = delta_cells(cells, previous, width, kind, i as nat);
        if has_delta(cells[i], previous[i], kind) {
            before.push(((i % width) as usize, (i / width) as usize))
        } else {
            before
        }
    }
}

/// In a row-major buffer, `(x, y)` inside the grid lies at `y * width + x`,
/// which is inside the buffer and leads back to `x` and `y`.
pub proof fn lemma_cell_index(width: int, height: int, x: int, y: int)
    requires
        0 <= x < width,
        0 <= y < height,
    ensures
        0 <= y * width <= y * width + x < width * height,
        (y * width + x) % width == x,
        (y * width + x) / width == y,
{
    assert(y * width + x < width * height) by (nonlinear_arith)
        requires
            0 <= x < width,
            0 <= y < height,
    ;
    assert(0 <= y * width) by (nonlinear_arith)
        requires
            0 <= y,
            0 < width,
    ;
    vstd::arithmetic::div_mod::lemma_fundamental_div_mod_converse(y * width + x, width, y, x);
}

/// A position inside a row-major buffer splits into a column and a row inside
/// the grid.
pub proof fn lemma_index_cell(width: int, height: int, i: int)
    requires
        0 <= i < width * height,
        0 <= width,
    ensures
        0 < width,
        0 <= i % width < width,
        0 <= i / width < height,
        (i / width) * width + i % width == i,
{
    assert(0 < width) by (nonlinear_arith)
        requires
            0 <= i < width * height,
            0 <= width,
    ;
    vstd::arithmetic::div_mod::lemma_fundamental_div_mod(i, width);
    vstd::arithmetic::div_mod::lemma_mod_bound(i, width);
    let q = i / width;
    assert(q * width == width * q) by (nonlinear_arith);
    assert(0 <= q < height) by (nonlinear_arith)
        requires
            0 <= i < width * height,
            0 < width,
            i == width * q + i % width,
            0 <= i % width < width,
    ;
}

/// A coordinate moved by one step on a periodic axis either stays inside and
/// is the sum, or leaves at one end and comes back in at the other.
pub proof fn lemma_wrap(v: int, d: int, extent: int)
    requires
        0 <= v < extent,
        -1 <= d <= 1,
    ensures
        0 <= (v + d + extent) % extent < extent,
        (v + d + extent) % extent == (if v + d < 0 {
            extent - 1
        } else if v + d >= extent {
            0
        } else {
            v + d
        }),
{
    vstd::arithmetic::div_mod::lemma_mod_self_0(extent);
    if 0 <= v + d < extent {
        vstd::arithmetic::div_mod::lemma_mod_add_multiples_vanish(v + d, extent);
        vstd::arithmetic::div_mod::lemma_small_mod((v + d) as nat, extent as nat);
    } else if v + d < 0 {
        vstd::arithmetic::div_mod::lemma_small_mod((extent - 1) as nat, extent as nat);
        assert(v + d + extent == extent - 1);
    } else {
        vstd::arithmetic::div_mod::lemma_mod_add_multiples_vanish(extent, extent);
    }
}

/// Every coordinate that `delta_cells` lists lies inside the grid, among the
/// first `n` cells, and its cell falls under `kind`.
pub proof fn lemma_delta_cells_sound(
    cells: Seq<bool>,
    previous: Seq<bool>,
    width: int,
    height: int,
    kind: CellDelta,
    n: nat,
)
    requires
        0 <= width <= usize::MAX,
        0 <= height <= usize::MAX,
        n <= width * height,
    ensures
        forall|k: int|
            0 <= k < delta_cells(cells, previous, width, kind, n).len() ==> {
                let c = #[trigger] delta_cells(cells, previous, width, kind, n)[k];
                &&& c.0 < width
                &&& c.1 < height
                &&& c.1 * width + c.0 < n
                &&& has_delta(cells[c.1 * width + c.0], previous[c.1 * width + c.0], kind)
            },
    decreases n,
{
    if n > 0 {
        let i = n - 1;
        lemma_delta_cells_sound(cells, previous, width, height, kind, i as nat);
        lemma_index_cell(width, height, i);
        let before = delta_cells(cells, previous, width, kind, i as nat);
        let listed = delta_cells(cells, previous, width, kind, n);
        assert forall|k: int| 0 <= k < listed.len() implies {
            let c = #[trigger] listed[k];
            &&& c.0 < width
            &&& c.1 < height
            &&& c.1 * width + c.0 < n
            &&& has_delta(cells[c.1 * width + c.0], previous[c.1 * width + c.0], kind)
        } by {
            if k < before.len() {
                assert(listed[k] == before[k]);
            } else {
                assert(listed[k] == ((i % width) as usize, (i / width) as usize));
            }
        }
    }
}

/// Every cell among the first `n` that falls under `kind` is listed by
/// `delta_cells`, under its coordinate.
pub proof fn lemma_delta_cells_complete(
    cells: Seq<bool>,
    previous: Seq<bool>,
    width: int,
    height: int,
    kind: CellDelta,
    n: nat,
    x: int,
    y: int,
)
    requires
        0 <= x < width <= usize::MAX,
        0 <= y < height <= usize::MAX,
        n <= width * height,
        y * width + x < n,
        has_delta(cells[y * width + x], previous[y * width + x], kind),
    ensures
        delta_cells(cells, previous, width, kind, n).contains((x as usize, y as usize)),
    decreases n,
{
    let i = n - 1;
    let listed = delta_cells(cells, previous, width, kind, n);
    lemma_cell_index(width, height, x, y);
    if y * width + x == i {
        assert(listed.last() == (x as usize, y as usize));
    } else {
        lemma_delta_cells_complete(cells, previous, width, height, kind, i as nat, x, y);
        let before = delta_cells(cells, previous, width, kind, i as nat);
        let k = choose|k: int| 0 <= k < before.len() && before[k] == (x as usize, y as usize);
        assert(listed[k] == (x as usize, y as usize));
    }
}

/// The automaton: a grid of cells in two buffers of the same size. One
/// holds the current generation; the other holds the generation before and
/// is the buffer that the next step writes to.
pub struct ConwayGameState {
    width: usize,
    height: usize,
    cells: Vec<bool>,
    prev_cells: Vec<bool>,
    symmetry: bool,
}

impl View for ConwayGameState {
    type V = Grid;

    closed spec fn view(&self) -> Grid {
        Grid {
            width: self.width as nat,
            height: self.height as nat,
            periodic: self.symmetry,
            cells: self.cells@,
            previous: self.prev_cells@,
        }
    }
}

impl Grid {
    /// Width and height are numbers that the machine can hold, and both
    /// buffers hold exactly one cell for each position of the grid.
    pub open spec fn wf(self) -> bool {
        &&& self.width <= usize::MAX
        &&& self.height <= usize::MAX
        &&& self.cells.len() == self.width * self.height
        &&& self.previous.len() == self.width * self.height
    }

    /// The cell at `(x, y)` of the current generation.
    pub open spec fn cell(self, x: int, y: int) -> bool {
        cell_at(self.cells, self.width as int, self.height as int, x, y)
    }
}

impl ConwayGameState {
    /// Both buffers hold exactly one cell for each position of the grid.
    pub open spec fn wf(&self) -> bool {
        self@.wf()
    }

    /// The cells of a well-formed grid can be counted in a `usize`.
    pub proof fn lemma_extent_fits(&self)
        requires
            self.wf(),
        ensures
            self@.width * self@.height <= usize::MAX,
    {
        assert(self.cells.len() == self.cells@.len());
    }

    /// A grid of the given extent and boundary mode with every cell dead.
    pub fn new(width: usize, height: usize, symmetry: bool) -> (state: ConwayGameState)
        requires
            width * height <= usize::MAX,
        ensures
            state.wf(),
            state@.width == width,
            state@.height == height,
            state@.periodic == symmetry,
            state@.cells == all_dead((width * height) as nat),
            state@.previous == all_dead((width * height) as nat),
    {
        let cells = vec![false; width * height];
        let prev_cells = vec![false; width * height];
        assert(cells@ =~= all_dead((width * height) as nat));
        assert(prev_cells@ =~= all_dead((width * height) as nat));
        ConwayGameState { width, height, symmetry, cells, prev_cells }
    }

    pub fn get_width(&self) -> (width: usize)
        ensures
            width == self@.width,
    {
        self.width
    }

    pub fn get_height(&self) -> (height: usize)
        ensures
            height == self@.height,
    {
        self.height
    }

    /// Whether neighbour lookups wrap around the edges.
    pub fn get_is_periodic(&self) -> (periodic: bool)
        ensures
            periodic == self@.periodic,
    {
        self.symmetry
    }

    /// Switches the boundary mode; the cells stay as they are.
    pub fn set_is_periodic(&mut self, periodic: bool)
        ensures
            final(self)@ == (Grid { periodic, ..old(self)@ }),
    {
        self.symmetry = periodic;
    }

    /// The current generation, row-major.
    pub fn get_cells(&self) -> (cells: &Vec<bool>)
        ensures
            cells@ == self@.cells,
    {
        &self.cells
    }

    /// Replaces the current generation wholesale and forgets the one before.
    pub fn set_cells(&mut self, cells: Vec<bool>)
        requires
            old(self).wf(),
            cells.len() == old(self)@.width * old(self)@.height,
        ensures
            final(self).wf(),
            final(self)@ == (Grid {
                cells: cells@,
                previous: all_dead((old(self)@.width * old(self)@.height) as nat),
                ..old(self)@
            }),
    {
        let prev_cells = vec![false; self.width * self.height];
        assert(prev_cells@ =~= all_dead((self.width * self.height) as nat));
        self.cells = cells;
        self.prev_cells = prev_cells;
    }

    /// Whether the cell at `(x, y)` is alive.
    pub fn get_cell(&self, x: usize, y: usize) -> (alive: bool)
        requires
            self.wf(),
            x < self@.width,
            y < self@.height,
        ensures
            alive == self@.cell(x as int, y as int),
    {
        proof {
            self.lemma_extent_fits();
            lemma_cell_index(self.width as int, self.height as int, x as int, y as int);
        }
        self.cells[y * self.width + x]
    }

    /// Makes the cell at `(x, y)` alive or dead; every other cell stays.
    pub fn set_cell(&mut self, x: usize, y: usize, value: bool)
        requires
            old(self).wf(),
            x < old(self)@.width,
            y < old(self)@.height,
        ensures
            final(self).wf(),
            final(self)@ == (Grid {
                cells: old(self)@.cells.update(y * old(self)@.width + x, value),
                ..old(self)@
            }),
            final(self)@.cell(x as int, y as int) == value,
    {
        proof {
            self.lemma_extent_fits();
            lemma_cell_index(self.width as int, self.height as int, x as int, y as int);
        }
        let idx = y * self.width + x;
        self.cells.set(idx, value);
    }

    /// The position next to `v` in direction `d` along an axis of the given
    /// extent: wrapped around on a periodic grid, absent beyond the edge of a
    /// bounded one.
    fn step_along(v: usize, d: i8, extent: usize, periodic: bool) -> (moved: Option<usize>)
        requires
            v < extent,
            -1 <= d <= 1,
        ensures
            periodic ==> moved == Some(((v + d + extent) % (extent as int)) as usize),
            !periodic ==> moved == (if 0 <= v + d < extent {
                Some((v + d) as usize)
            } else {
                None
            }),
            moved is Some ==> moved->0 < extent,
    {
        proof {
            lemma_wrap(v as int, d as int, extent as int);
        }
        if d == 0 {
            Some(v)
        } else if d < 0 {
            if v > 0 {
                Some(v - 1)
            } else if periodic {
                Some(extent - 1)
            } else {
                None
            }
        } else {
            if v + 1 < extent {
                Some(v + 1)
            } else if periodic {
                Some(0)
            } else {
                None
            }
        }
    }

    /// Whether the neighbour of `(x, y)` at offset `(dx, dy)` is alive.
    fn neighbor_is_alive(&self, x: usize, y: usize, dx: i8, dy: i8) -> (alive: bool)
        requires
            self.wf(),
            x < self@.width,
            y < self@.height,
            -1 <= dx <= 1,
            -1 <= dy <= 1,
        ensures
            alive == neighbor_alive(
                self@.cells,
                self@.width as int,
                self@.height as int,
                self@.periodic,
                x as int,
                y as int,
                dx as int,
                dy as int,
            ),
    {
        let nx = Self::step_along(x, dx, self.width, self.symmetry);
        let ny = Self::step_along(y, dy, self.height, self.symmetry);
        match (nx, ny) {
            (Some(nx), Some(ny)) => {
                proof {
                    self.lemma_extent_fits();
                    lemma_cell_index(self.width as int, self.height as int, nx as int, ny as int);
                }
                self.cells[ny * self.width + nx]
            },
            _ => false,
        }
    }

    /// Counts the live cells among the eight neighbours of `(x, y)`.
    pub fn count_neighors(&self, x: usize, y: usize) -> (count: usize)
        requires
            self.wf(),
            x < self@.width,
            y < self@.height,
        ensures
            count == neighbor_count(
                self@.cells,
                self@.width as int,
                self@.height as int,
                self@.periodic,
                x as int,
                y as int,
            ),
            count <= 8,
    {
        let mut count: usize = 0;
        let mut dy: i8 = -1;
        while dy <= 1
            invariant
                self.wf(),
                x < self@.width,
                y < self@.height,
                -1 <= dy <= 2,
                count == self.rows_weight(x as int, y as int, dy as int),
                count <= 3 * (dy + 1),
            decreases 2 - dy,
        {
            let mut dx: i8 = -1;
            while dx <= 1
                invariant
                    self.wf(),
                    x < self@.width,
                    y < self@.height,
                    -1 <= dy <= 1,
                    -1 <= dx <= 2,
                    count == self.rows_weight(x as int, y as int, dy as int) + self.row_weight(
                        x as int,
                        y as int,
                        dy as int,
                        dx as int,
                    ),
                    count <= 3 * (dy + 1) + (dx + 1),
                decreases 2 - dx,
            {
                if !(dx == 0 && dy == 0) && self.neighbor_is_alive(x, y, dx, dy) {
                    count += 1;
                }
                dx += 1;
            }
            dy += 1;
        }
        proof {
            reveal_with_fuel(ConwayGameState::rows_weight, 4);
            reveal_with_fuel(ConwayGameState::row_weight, 4);
        }
        count
    }

    /// Advances the grid by one generation. Every cell of the new generation is
    /// computed from the old one alone, which is kept as the snapshot that the
    /// delta queries compare against.
    pub fn step(&mut self)
        requires
            old(self).wf(),
        ensures
            final(self).wf(),
            final(self)@ == (Grid {
                cells: next_generation(
                    old(self)@.cells,
                    old(self)@.width as int,
                    old(self)@.height as int,
                    old(self)@.periodic,
                ),
                previous: old(self)@.cells,
                ..old(self)@
            }),
    {
        let ghost next = next_generation(
            self@.cells,
            self@.width as int,
            self@.height as int,
            self@.periodic,
        );
        proof {
            self.lemma_extent_fits();
        }
        let mut y: usize = 0;
        while y < self.height
            invariant
                self.wf(),
                self@.width * self@.height <= usize::MAX,
                y <= self.height,
                self@ == (Grid { previous: self@.previous, ..old(self)@ }),
                forall|i: int| 0 <= i < y * self.width ==> self.prev_cells@[i] == next[i],
                next == next_generation(
                    self@.cells,
                    self@.width as int,
                    self@.height as int,
                    self@.periodic,
                ),
            decreases self.height - y,
        {
            let mut x: usize = 0;
            while x < self.width
                invariant
                    self.wf(),
                    self@.width * self@.height <= usize::MAX,
                    y < self.height,
                    x <= self.width,
                    self@ == (Grid { previous: self@.previous, ..old(self)@ }),
                    forall|i: int| 0 <= i < y * self.width + x ==> self.prev_cells@[i] == next[i],
                    next == next_generation(
                        self@.cells,
                        self@.width as int,
                        self@.height as int,
                        self@.periodic,
                    ),
                decreases self.width - x,
            {
                proof {
                    lemma_cell_index(self.width as int, self.height as int, x as int, y as int);
                }
                let count = self.count_neighors(x, y);
                let idx = y * self.width + x;
                let alive = if self.cells[idx] {
                    count == 2 || count == 3
                } else {
                    count == 3
                };
                self.prev_cells.set(idx, alive);
                x += 1;
            }
            proof {
                assert((y + 1) * self.width == y * self.width + self.width) by (nonlinear_arith);
            }
            y += 1;
        }
        proof {
            assert(self.height * self.width == self.width * self.height) by (nonlinear_arith);
            assert(self.prev_cells@ =~= next);
        }
        std::mem::swap(&mut self.cells, &mut self.prev_cells);
    }

    /// Changes the extent of the grid. A cell keeps its state where its
    /// coordinate exists in both the old and the new extent; every other cell
    /// of the new grid is dead.
    pub fn resize(&mut self, width: usize, height: usize)
        requires
            old(self).wf(),
            width * height <= usize::MAX,
        ensures
            final(self).wf(),
            final(self)@ == (Grid {
                width: width as nat,
                height: height as nat,
                cells: resized(
                    old(self)@.cells,
                    old(self)@.width as int,
                    old(self)@.height as int,
                    width as int,
                    height as int,
                ),
                previous: resized(
                    old(self)@.previous,
                    old(self)@.width as int,
                    old(self)@.height as int,
                    width as int,
                    height as int,
                ),
                ..old(self)@
            }),
            forall|x: int, y: int|
                0 <= x < width && 0 <= y < height ==> #[trigger] final(self)@.cell(x, y) == old(
                    self,
                )@.cell(x, y),
    {
        self.cells =
        ConwayGameState::resize_cells(&self.cells, (width, height), (self.width, self.height));
        self.prev_cells =
        ConwayGameState::resize_cells(&self.prev_cells, (width, height), (self.width, self.height));
        proof {
            assert forall|x: int, y: int| 0 <= x < width && 0 <= y < height implies cell_at(
                self.cells@,
                width as int,
                height as int,
                x,
                y,
            ) == #[trigger] old(self)@.cell(x, y) by {
                lemma_cell_index(width as int, height as int, x, y);
            }
        }
        self.width = width;
        self.height = height;
    }

    /// Makes every cell dead, in the current generation and in the snapshot.
    pub fn clear(&mut self)
        requires
            old(self).wf(),
        ensures
            final(self).wf(),
            final(self)@ == (Grid {
                cells: all_dead((old(self)@.width * old(self)@.height) as nat),
                previous: all_dead((old(self)@.width * old(self)@.height) as nat),
                ..old(self)@
            }),
    {
        let n = self.cells.len();
        let mut i: usize = 0;
        while i < n
            invariant
                self.wf(),
                n == self.cells.len(),
                i <= n,
                self@ == (Grid { cells: self@.cells, previous: self@.previous, ..old(self)@ }),
                forall|j: int| 0 <= j < i ==> !self.cells@[j] && !self.prev_cells@[j],
            decreases n - i,
        {
            self.cells.set(i, false);
            self.prev_cells.set(i, false);
            i += 1;
        }
        proof {
            assert(self.cells@ =~= all_dead((self@.width * self@.height) as nat));
            assert(self.prev_cells@ =~= all_dead((self@.width * self@.height) as nat));
        }
    }

    /// The buffer of a grid of extent `new_size` that keeps the cells of a grid
    /// of extent `old_size` where the two overlap.
    fn resize_cells(cells: &Vec<bool>, new_size: (usize, usize), old_size: (usize, usize)) -> (new_cells:
        Vec<bool>)
        requires
            cells.len() == old_size.0 * old_size.1,
            new_size.0 * new_size.1 <= usize::MAX,
        ensures
            new_cells@ == resized(
                cells@,
                old_size.0 as int,
                old_size.1 as int,
                new_size.0 as int,
                new_size.1 as int,
            ),
    {
        let ghost target = resized(
            cells@,
            old_size.0 as int,
            old_size.1 as int,
            new_size.0 as int,
            new_size.1 as int,
        );
        let mut new_cells = vec![false; new_size.0 * new_size.1];
        let rows = if old_size.1 < new_size.1 {
            old_size.1
        } else {
            new_size.1
        };
        let columns = if old_size.0 < new_size.0 {
            old_size.0
        } else {
            new_size.0
        };
        let ghost nw = new_size.0 as int;
        let mut y: usize = 0;
        while y < rows
            invariant
                cells.len() == old_size.0 * old_size.1,
                new_size.0 * new_size.1 <= usize::MAX,
                new_cells.len() == new_size.0 * new_size.1,
                target.len() == new_cells.len(),
                target == resized(
                    cells@,
                    old_size.0 as int,
                    old_size.1 as int,
                    new_size.0 as int,
                    new_size.1 as int,
                ),
                nw == new_size.0,
                rows == vstd::math::min(old_size.1 as int, new_size.1 as int),
                columns == vstd::math::min(old_size.0 as int, new_size.0 as int),
                y <= rows,
                forall|i: int|
                    0 <= i < new_cells.len() ==> #[trigger] new_cells@[i] == (i / nw < y && target[i]),
            decreases rows - y,
        {
            let mut x: usize = 0;
            proof {
                assert forall|i: int| 0 <= i < new_cells.len() implies new_cells@[i] == ((i / nw < y
                    || (i / nw == y && i % nw < x)) && target[i]) by {
                    lemma_index_cell(nw, new_size.1 as int, i);
                }
            }
            while x < columns
                invariant
                    cells.len() == old_size.0 * old_size.1,
                    new_size.0 * new_size.1 <= usize::MAX,
                    new_cells.len() == new_size.0 * new_size.1,
                    target.len() == new_cells.len(),
                    target == resized(
                        cells@,
                        old_size.0 as int,
                        old_size.1 as int,
                        new_size.0 as int,
                        new_size.1 as int,
                    ),
                    nw == new_size.0,
                    rows == vstd::math::min(old_size.1 as int, new_size.1 as int),
                    columns == vstd::math::min(old_size.0 as int, new_size.0 as int),
                    y < rows,
                    x <= columns,
                    forall|i: int|
                        0 <= i < new_cells.len() ==> #[trigger] new_cells@[i] == ((i / nw < y || (i
                            / nw == y && i % nw < x)) && target[i]),
                decreases columns - x,
            {
                proof {
                    lemma_cell_index(new_size.0 as int, new_size.1 as int, x as int, y as int);
                    lemma_cell_index(old_size.0 as int, old_size.1 as int, x as int, y as int);
                }
                let ghost before = new_cells@;
                let to = y * new_size.0 + x;
                new_cells.set(to, cells[y * old_size.0 + x]);
                proof {
                    assert forall|i: int| 0 <= i < new_cells.len() implies new_cells@[i] == ((i / nw
                        < y || (i / nw == y && i % nw < x + 1)) && target[i]) by {
                        lemma_index_cell(nw, new_size.1 as int, i);
                        if i != to {
                            assert(new_cells@[i] == before[i]);
                            assert(!(i / nw == y && i % nw == x));
                        } else {
                            assert(target[i] == cells@[y * old_size.0 + x]);
                        }
                    }
                }
                x += 1;
            }
            proof {
                assert forall|i: int| 0 <= i < new_cells.len() implies new_cells@[i] == (i / nw < y
                    + 1 && target[i]) by {
                    lemma_index_cell(nw, new_size.1 as int, i);
                    assert(target[i] ==> i % nw < columns);
                }
            }
            y += 1;
        }
        proof {
            assert forall|i: int| 0 <= i < target.len() implies new_cells@[i] == target[i] by {
                lemma_index_cell(nw, new_size.1 as int, i);
                assert(target[i] ==> i / nw < rows);
            }
            assert(new_cells@ =~= target);
        }
        new_cells
    }

    /// The coordinates of the cells that fall under `kind`, row by row from
    /// the top and from left to right within a row.
    pub fn get_cells_with_delta(&self, kind: CellDelta) -> (found: Vec<(usize, usize)>)
        requires
            self.wf(),
        ensures
            found@ == delta_cells(
                self@.cells,
                self@.previous,
                self@.width as int,
                kind,
                self@.width * self@.height,
            ),
            forall|k: int|
                0 <= k < found@.len() ==> (#[trigger] found@[k]).0 < self@.width && found@[k].1
                    < self@.height,
    {
        proof {
            self.lemma_extent_fits();
            lemma_delta_cells_sound(
                self@.cells,
                self@.previous,
                self@.width as int,
                self@.height as int,
                kind,
                self@.width * self@.height,
            );
        }
        let mut found: Vec<(usize, usize)> = Vec::new();
        let mut y: usize = 0;
        while y < self.height
            invariant
                self.wf(),
                self@.width * self@.height <= usize::MAX,
                y <= self.height,
                0 <= y * self.width,
                found@ == delta_cells(
                    self@.cells,
                    self@.previous,
                    self@.width as int,
                    kind,
                    (y * self.width) as nat,
                ),
            decreases self.height - y,
        {
            let mut x: usize = 0;
            while x < self.width
                invariant
                    self.wf(),
                    self@.width * self@.height <= usize::MAX,
                    y < self.height,
                    x <= self.width,
                    0 <= y * self.width,
                    found@ == delta_cells(
                        self@.cells,
                        self@.previous,
                        self@.width as int,
                        kind,
                        (y * self.width + x) as nat,
                    ),
                decreases self.width - x,
            {
                proof {
                    lemma_cell_index(self.width as int, self.height as int, x as int, y as int);
                }
                let idx = y * self.width + x;
                let now = self.cells[idx];
                let before = self.prev_cells[idx];
                let matches = match kind {
                    CellDelta::Born => now && !before,
                    CellDelta::Died => !now && before,
                    CellDelta::Retained => now && before,
                };
                if matches {
                    found.push((x, y));
                }
                x += 1;
            }
            proof {
                assert((y + 1) * self.width == y * self.width + self.width) by (nonlinear_arith);
            }
            y += 1;
        }
        proof {
            assert(self.height * self.width == self.width * self.height) by (nonlinear_arith);
        }
        found
    }

    /// The cells that are alive now and were dead in the generation before.
    pub fn get_newly_born_cells(&self) -> (born: Vec<(usize, usize)>)
        requires
            self.wf(),
        ensures
            born@ == delta_cells(
                self@.cells,
                self@.previous,
                self@.width as int,
                CellDelta::Born,
                self@.width * self@.height,
            ),
            forall|k: int|
                0 <= k < born@.len() ==> (#[trigger] born@[k]).0 < self@.width && born@[k].1
                    < self@.height,
    {
        self.get_cells_with_delta(CellDelta::Born)
    }

    /// The cells that are dead now and were alive in the generation before.
    pub fn get_newly_dead_cells(&self) -> (died: Vec<(usize, usize)>)
        requires
            self.wf(),
        ensures
            died@ == delta_cells(
                self@.cells,
                self@.previous,
                self@.width as int,
                CellDelta::Died,
                self@.width * self@.height,
            ),
            forall|k: int|
                0 <= k < died@.len() ==> (#[trigger] died@[k]).0 < self@.width && died@[k].1
                    < self@.height,
    {
        self.get_cells_with_delta(CellDelta::Died)
    }

    /// The cells that are alive now and were alive in the generation before.
    pub fn get_retained_cells(&self) -> (retained: Vec<(usize, usize)>)
        requires
            self.wf(),
        ensures
            retained@ == delta_cells(
                self@.cells,
                self@.previous,
                self@.width as int,
                CellDelta::Retained,
                self@.width * self@.height,
            ),
            forall|k: int|
                0 <= k < retained@.len() ==> (#[trigger] retained@[k]).0 < self@.width && retained@[k].1
                    < self@.height,
    {
        self.get_cells_with_delta(CellDelta::Retained)
    }

    /// The live neighbours of `(x, y)` in the row at offset `dy`, among the
    /// offsets below `dx`.
    closed spec fn row_weight(&self, x: int, y: int, dy: int, dx: int) -> nat
        decreases dx + 1,
    {
        if dx <= -1 {
            0
        } else {
            let rest = self.row_weight(x, y, dy, dx - 1);
            if dx - 1 == 0 && dy == 0 {
                rest
            } else {
                rest + neighbor_weight(
                    self@.cells,
                    self@.width as int,
                    self@.height as int,
                    self@.periodic,
                    x,
                    y,
                    dx - 1,
                    dy,
                )
            }
        }
    }

    /// The live neighbours of `(x, y)` in the rows at offsets below `dy`.
    closed spec fn rows_weight(&self, x: int, y: int, dy: int) -> nat
        decreases dy + 1,
    {
        if dy <= -1 {
            0
        } else {
            self.rows_weight(x, y, dy - 1) + self.row_weight(x, y, dy - 1, 2)
        }
    }
}

} // verus!

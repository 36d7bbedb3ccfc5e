//! What holds of the step rule on every grid: dead grids stay dead, lonely
//! cells die, the block stands still and the blinker comes back.

use vstd::prelude::*;
use crate::conway::game_state::{
    all_dead,
    cell_at,
    lemma_cell_index,
    lemma_index_cell,
    lemma_wrap,
    neighbor_alive,
    neighbor_count,
    next_cell,
    next_generation,
};

verus! {

/// The grid after `n` generations.
pub open spec fn generations(cells: Seq<bool>, width: int, height: int, periodic: bool, n: nat) -> Seq<
    bool,
>
    decreases n,
{
    if n == 0 {
        cells
    } else {
        next_generation(
            generations(cells, width, height, periodic, (n - 1) as nat),
            width,
            height,
            periodic,
        )
    }
}

/// The neighbour of a cell of the grid at an offset of at most one step in
/// each direction, as a coordinate: where it lies on a periodic grid, and
/// whether it lies inside a bounded one.
pub open spec fn neighbor_x(width: int, periodic: bool, x: int, dx: int) -> int {
    if !periodic {
        x + dx
    } else if x + dx < 0 {
        width - 1
    } else if x + dx >= width {
        0
    } else {
        x + dx
    }
}

/// Whether the neighbour of `(x, y)` at offset `(dx, dy)` is alive, said over
/// its coordinate.
pub proof fn lemma_neighbor_alive(
    cells: Seq<bool>,
    width: int,
    height: int,
    periodic: bool,
    x: int,
    y: int,
    dx: int,
    dy: int,
)
    requires
        0 <= x < width,
        0 <= y < height,
        -1 <= dx <= 1,
        -1 <= dy <= 1,
    ensures
        neighbor_alive(cells, width, height, periodic, x, y, dx, dy) == cell_at(
            cells,
            width,
            height,
            neighbor_x(width, periodic, x, dx),
            neighbor_x(height, periodic, y, dy),
        ),
        periodic ==> 0 <= neighbor_x(width, periodic, x, dx) < width && 0 <= neighbor_x(
            height,
            periodic,
            y,
            dy,
        ) < height,
{
    lemma_wrap(x, dx, width);
    lemma_wrap(y, dy, height);
}

/// A grid without a live cell has none after a step, whatever its extent and
/// boundary mode: nothing comes alive by itself.
pub proof fn lemma_dead_grid_stays_dead(width: nat, height: nat, periodic: bool)
    ensures
        next_generation(all_dead(width * height), width as int, height as int, periodic)
            == all_dead(width * height),
{
    let w = width as int;
    let h = height as int;
    let dead = all_dead(width * height);
    let next = next_generation(dead, w, h, periodic);
    assert forall|i: int| 0 <= i < next.len() implies !next[i] by {
        lemma_index_cell(w, h, i);
        lemma_no_live_neighbors(dead, w, h, periodic, i % w, i / w);
    }
    assert(next =~= dead);
}

/// A cell of a grid without a live cell has no live neighbour.
proof fn lemma_no_live_neighbors(
    cells: Seq<bool>,
    width: int,
    height: int,
    periodic: bool,
    x: int,
    y: int,
)
    requires
        0 <= x < width,
        0 <= y < height,
        cells.len() == width * height,
        forall|i: int| 0 <= i < cells.len() ==> !#[trigger] cells[i],
    ensures
        neighbor_count(cells, width, height, periodic, x, y) == 0,
{
    assert forall|dx: int, dy: int| -1 <= dx <= 1 && -1 <= dy <= 1 implies !#[trigger] neighbor_alive(
        cells,
        width,
        height,
        periodic,
        x,
        y,
        dx,
        dy,
    ) by {
        lemma_neighbor_alive(cells, width, height, periodic, x, y, dx, dy);
        let nx = neighbor_x(width, periodic, x, dx);
        let ny = neighbor_x(height, periodic, y, dy);
        if 0 <= nx < width && 0 <= ny < height {
            lemma_cell_index(width, height, nx, ny);
        }
    }
}

/// A live cell without a live neighbour is dead after a step, in both
/// boundary modes.
pub proof fn lemma_lonely_cell_dies(
    cells: Seq<bool>,
    width: nat,
    height: nat,
    periodic: bool,
    x: int,
    y: int,
)
    requires
        cells.len() == width * height,
        0 <= x < width,
        0 <= y < height,
        cells[y * width + x],
        neighbor_count(cells, width as int, height as int, periodic, x, y) == 0,
    ensures
        !next_generation(cells, width as int, height as int, periodic)[y * width + x],
{
    lemma_cell_index(width as int, height as int, x, y);
}

/// Whether `(x, y)` is one of the four cells of the block whose top-left cell
/// is `(bx, by)`.
pub open spec fn in_block(bx: int, by: int, x: int, y: int) -> bool {
    bx <= x <= bx + 1 && by <= y <= by + 1
}

/// The grid whose live cells are the four cells of a block.
pub open spec fn block_grid(width: int, height: int, bx: int, by: int) -> Seq<bool> {
    Seq::new((width * height) as nat, |i: int| in_block(bx, by, i % width, i / width))
}

/// Whether `(x, y)` is one of the three cells of the blinker around
/// `(cx, cy)`, which lies in a row if `flat` is set and in a column if not.
pub open spec fn in_blinker(cx: int, cy: int, flat: bool, x: int, y: int) -> bool {
    if flat {
        y == cy && cx - 1 <= x <= cx + 1
    } else {
        x == cx && cy - 1 <= y <= cy + 1
    }
}

/// The grid whose live cells are the three cells of a blinker.
pub open spec fn blinker_grid(width: int, height: int, cx: int, cy: int, flat: bool) -> Seq<bool> {
    Seq::new((width * height) as nat, |i: int| in_blinker(cx, cy, flat, i % width, i / width))
}

/// The grid whose one live cell is `(cx, cy)`.
pub open spec fn single_cell_grid(width: int, height: int, cx: int, cy: int) -> Seq<bool> {
    Seq::new((width * height) as nat, |i: int| i % width == cx && i / width == cy)
}

/// The eight neighbours of a cell of the block grid are alive where they are
/// cells of the block.
proof fn lemma_block_neighbors(
    width: int,
    height: int,
    periodic: bool,
    bx: int,
    by: int,
    x: int,
    y: int,
)
    requires
        0 <= x < width,
        0 <= y < height,
    ensures
        forall|dx: int, dy: int|
            -1 <= dx <= 1 && -1 <= dy <= 1 ==> #[trigger] neighbor_alive(
                block_grid(width, height, bx, by),
                width,
                height,
                periodic,
                x,
                y,
                dx,
                dy,
            ) == {
                let nx = neighbor_x(width, periodic, x, dx);
                let ny = neighbor_x(height, periodic, y, dy);
                0 <= nx < width && 0 <= ny < height && in_block(bx, by, nx, ny)
            },
{
    let grid = block_grid(width, height, bx, by);
    assert forall|dx: int, dy: int| -1 <= dx <= 1 && -1 <= dy <= 1 implies #[trigger] neighbor_alive(
        grid,
        width,
        height,
        periodic,
        x,
        y,
        dx,
        dy,
    ) == {
        let nx = neighbor_x(width, periodic, x, dx);
        let ny = neighbor_x(height, periodic, y, dy);
        0 <= nx < width && 0 <= ny < height && in_block(bx, by, nx, ny)
    } by {
        lemma_neighbor_alive(grid, width, height, periodic, x, y, dx, dy);
        let nx = neighbor_x(width, periodic, x, dx);
        let ny = neighbor_x(height, periodic, y, dy);
        if 0 <= nx < width && 0 <= ny < height {
            lemma_cell_index(width, height, nx, ny);
        }
    }
}

/// The block is a still life: on a grid of at least four by four cells, in
/// either boundary mode, a step leaves the grid whose live cells are the four
/// cells of a block as it is.
pub proof fn lemma_block_is_still(width: int, height: int, periodic: bool, bx: int, by: int)
    requires
        4 <= width,
        4 <= height,
        0 <= bx,
        bx + 1 < width,
        0 <= by,
        by + 1 < height,
    ensures
        next_generation(block_grid(width, height, bx, by), width, height, periodic) == block_grid(
            width,
            height,
            bx,
            by,
        ),
{
    let grid = block_grid(width, height, bx, by);
    let next = next_generation(grid, width, height, periodic);
    assert forall|i: int| 0 <= i < next.len() implies next[i] == grid[i] by {
        lemma_index_cell(width, height, i);
        let x = i % width;
        let y = i / width;
        lemma_block_neighbors(width, height, periodic, bx, by, x, y);
        lemma_block_cell(width, height, periodic, bx, by, x, y);
    }
    assert(next =~= grid);
}

/// The rule leaves each cell of the block grid as it is.
proof fn lemma_block_cell(
    width: int,
    height: int,
    periodic: bool,
    bx: int,
    by: int,
    x: int,
    y: int,
)
    requires
        4 <= width,
        4 <= height,
        0 <= bx,
        bx + 1 < width,
        0 <= by,
        by + 1 < height,
        0 <= x < width,
        0 <= y < height,
        forall|dx: int, dy: int|
            -1 <= dx <= 1 && -1 <= dy <= 1 ==> #[trigger] neighbor_alive(
                block_grid(width, height, bx, by),
                width,
                height,
                periodic,
                x,
                y,
                dx,
                dy,
            ) == {
                let nx = neighbor_x(width, periodic, x, dx);
                let ny = neighbor_x(height, periodic, y, dy);
                0 <= nx < width && 0 <= ny < height && in_block(bx, by, nx, ny)
            },
    ensures
        next_cell(
            in_block(bx, by, x, y),
            neighbor_count(block_grid(width, height, bx, by), width, height, periodic, x, y),
        ) == in_block(bx, by, x, y),
{
}

/// The block stands still for any number of generations.
pub proof fn lemma_block_is_still_forever(
    width: int,
    height: int,
    periodic: bool,
    bx: int,
    by: int,
    n: nat,
)
    requires
        4 <= width,
        4 <= height,
        0 <= bx,
        bx + 1 < width,
        0 <= by,
        by + 1 < height,
    ensures
        generations(block_grid(width, height, bx, by), width, height, periodic, n) == block_grid(
            width,
            height,
            bx,
            by,
        ),
    decreases n,
{
    if n > 0 {
        lemma_block_is_still_forever(width, height, periodic, bx, by, (n - 1) as nat);
        lemma_block_is_still(width, height, periodic, bx, by);
    }
}

/// The eight neighbours of a cell of a blinker grid are alive where they are
/// cells of the blinker.
proof fn lemma_blinker_neighbors(
    width: int,
    height: int,
    periodic: bool,
    cx: int,
    cy: int,
    flat: bool,
    x: int,
    y: int,
)
    requires
        0 <= x < width,
        0 <= y < height,
    ensures
        forall|dx: int, dy: int|
            -1 <= dx <= 1 && -1 <= dy <= 1 ==> #[trigger] neighbor_alive(
                blinker_grid(width, height, cx, cy, flat),
                width,
                height,
                periodic,
                x,
                y,
                dx,
                dy,
            ) == {
                let nx = neighbor_x(width, periodic, x, dx);
                let ny = neighbor_x(height, periodic, y, dy);
                0 <= nx < width && 0 <= ny < height && in_blinker(cx, cy, flat, nx, ny)
            },
{
    let grid = blinker_grid(width, height, cx, cy, flat);
    assert forall|dx: int, dy: int| -1 <= dx <= 1 && -1 <= dy <= 1 implies #[trigger] neighbor_alive(
        grid,
        width,
        height,
        periodic,
        x,
        y,
        dx,
        dy,
    ) == {
        let nx = neighbor_x(width, periodic, x, dx);
        let ny = neighbor_x(height, periodic, y, dy);
        0 <= nx < width && 0 <= ny < height && in_blinker(cx, cy, flat, nx, ny)
    } by {
        lemma_neighbor_alive(grid, width, height, periodic, x, y, dx, dy);
        let nx = neighbor_x(width, periodic, x, dx);
        let ny = neighbor_x(height, periodic, y, dy);
        if 0 <= nx < width && 0 <= ny < height {
            lemma_cell_index(width, height, nx, ny);
        }
    }
}

/// The rule turns each cell of a blinker grid into the cell of the blinker
/// that lies the other way.
proof fn lemma_blinker_cell(
    width: int,
    height: int,
    periodic: bool,
    cx: int,
    cy: int,
    flat: bool,
    x: int,
    y: int,
)
    requires
        4 <= width,
        4 <= height,
        1 <= cx,
        cx + 1 < width,
        1 <= cy,
        cy + 1 < height,
        0 <= x < width,
        0 <= y < height,
        forall|dx: int, dy: int|
            -1 <= dx <= 1 && -1 <= dy <= 1 ==> #[trigger] neighbor_alive(
                blinker_grid(width, height, cx, cy, flat),
                width,
                height,
                periodic,
                x,
                y,
                dx,
                dy,
            ) == {
                let nx = neighbor_x(width, periodic, x, dx);
                let ny = neighbor_x(height, periodic, y, dy);
                0 <= nx < width && 0 <= ny < height && in_blinker(cx, cy, flat, nx, ny)
            },
    ensures
        next_cell(
            in_blinker(cx, cy, flat, x, y),
            neighbor_count(
                blinker_grid(width, height, cx, cy, flat),
                width,
                height,
                periodic,
                x,
                y,
            ),
        ) == in_blinker(cx, cy, !flat, x, y),
{
}

/// A step turns a blinker by a quarter: the three cells in a row become the
/// three cells in a column around the same middle, and the other way round.
pub proof fn lemma_blinker_turns(
    width: int,
    height: int,
    periodic: bool,
    cx: int,
    cy: int,
    flat: bool,
)
    requires
        4 <= width,
        4 <= height,
        1 <= cx,
        cx + 1 < width,
        1 <= cy,
        cy + 1 < height,
    ensures
        next_generation(blinker_grid(width, height, cx, cy, flat), width, height, periodic)
            == blinker_grid(width, height, cx, cy, !flat),
{
    let grid = blinker_grid(width, height, cx, cy, flat);
    let turned = blinker_grid(width, height, cx, cy, !flat);
    let next = next_generation(grid, width, height, periodic);
    assert forall|i: int| 0 <= i < next.len() implies next[i] == turned[i] by {
        lemma_index_cell(width, height, i);
        let x = i % width;
        let y = i / width;
        lemma_blinker_neighbors(width, height, periodic, cx, cy, flat, x, y);
        lemma_blinker_cell(width, height, periodic, cx, cy, flat, x, y);
    }
    assert(next =~= turned);
}

/// The blinker has period two: on a grid of at least four by four cells, with
/// the blinker's middle away from the edges, the grid is after one step
/// another one and after two steps the same again, in either boundary mode.
pub proof fn lemma_blinker_returns(
    width: int,
    height: int,
    periodic: bool,
    cx: int,
    cy: int,
    flat: bool,
)
    requires
        4 <= width,
        4 <= height,
        1 <= cx,
        cx + 1 < width,
        1 <= cy,
        cy + 1 < height,
    ensures
        generations(blinker_grid(width, height, cx, cy, flat), width, height, periodic, 2)
            == blinker_grid(width, height, cx, cy, flat),
        generations(blinker_grid(width, height, cx, cy, flat), width, height, periodic, 1)
            != blinker_grid(width, height, cx, cy, flat),
{
    let grid = blinker_grid(width, height, cx, cy, flat);
    let turned = blinker_grid(width, height, cx, cy, !flat);
    lemma_blinker_turns(width, height, periodic, cx, cy, flat);
    lemma_blinker_turns(width, height, periodic, cx, cy, !flat);
    assert(generations(grid, width, height, periodic, 0) == grid);
    assert(generations(grid, width, height, periodic, 1) == turned);
    assert(generations(grid, width, height, periodic, 2) == grid) by {
        reveal_with_fuel(generations, 3);
    }
    // The two grids differ in the cell beside the middle.
    lemma_cell_index(width, height, cx + 1, cy);
    let i = cy * width + (cx + 1);
    assert(grid[i] != turned[i]);
}

/// The eight neighbours of a cell of a grid with one live cell are alive
/// where they are that cell.
proof fn lemma_single_cell_neighbors(
    width: int,
    height: int,
    periodic: bool,
    cx: int,
    cy: int,
    x: int,
    y: int,
)
    requires
        0 <= x < width,
        0 <= y < height,
    ensures
        forall|dx: int, dy: int|
            -1 <= dx <= 1 && -1 <= dy <= 1 ==> #[trigger] neighbor_alive(
                single_cell_grid(width, height, cx, cy),
                width,
                height,
                periodic,
                x,
                y,
                dx,
                dy,
            ) == {
                let nx = neighbor_x(width, periodic, x, dx);
                let ny = neighbor_x(height, periodic, y, dy);
                0 <= nx < width && 0 <= ny < height && nx == cx && ny == cy
            },
{
    let grid = single_cell_grid(width, height, cx, cy);
    assert forall|dx: int, dy: int| -1 <= dx <= 1 && -1 <= dy <= 1 implies #[trigger] neighbor_alive(
        grid,
        width,
        height,
        periodic,
        x,
        y,
        dx,
        dy,
    ) == {
        let nx = neighbor_x(width, periodic, x, dx);
        let ny = neighbor_x(height, periodic, y, dy);
        0 <= nx < width && 0 <= ny < height && nx == cx && ny == cy
    } by {
        lemma_neighbor_alive(grid, width, height, periodic, x, y, dx, dy);
        let nx = neighbor_x(width, periodic, x, dx);
        let ny = neighbor_x(height, periodic, y, dy);
        if 0 <= nx < width && 0 <= ny < height {
            lemma_cell_index(width, height, nx, ny);
        }
    }
}

/// The rule leaves no cell of a grid with one live cell alive.
proof fn lemma_single_cell_cell(
    width: int,
    height: int,
    periodic: bool,
    cx: int,
    cy: int,
    x: int,
    y: int,
)
    requires
        periodic ==> 3 <= width && 3 <= height,
        0 <= cx < width,
        0 <= cy < height,
        0 <= x < width,
        0 <= y < height,
        forall|dx: int, dy: int|
            -1 <= dx <= 1 && -1 <= dy <= 1 ==> #[trigger] neighbor_alive(
                single_cell_grid(width, height, cx, cy),
                width,
                height,
                periodic,
                x,
                y,
                dx,
                dy,
            ) == {
                let nx = neighbor_x(width, periodic, x, dx);
                let ny = neighbor_x(height, periodic, y, dy);
                0 <= nx < width && 0 <= ny < height && nx == cx && ny == cy
            },
    ensures
        neighbor_count(single_cell_grid(width, height, cx, cy), width, height, periodic, x, y) <= 1,
        x == cx && y == cy ==> neighbor_count(
            single_cell_grid(width, height, cx, cy),
            width,
            height,
            periodic,
            x,
            y,
        ) == 0,
{
}

/// A single live cell dies and nothing is born: the grid whose one live cell
/// is `(cx, cy)` is all dead after a step. On a bounded grid this holds of
/// every extent; on a periodic grid it holds where the grid is at least three
/// cells wide and high, so that no cell is its own neighbour and none meets
/// the live cell twice.
pub proof fn lemma_single_cell_dies(width: int, height: int, periodic: bool, cx: int, cy: int)
    requires
        periodic ==> 3 <= width && 3 <= height,
        0 <= cx < width,
        0 <= cy < height,
    ensures
        single_cell_grid(width, height, cx, cy)[cy * width + cx],
        neighbor_count(single_cell_grid(width, height, cx, cy), width, height, periodic, cx, cy)
            == 0,
        next_generation(single_cell_grid(width, height, cx, cy), width, height, periodic)
            == all_dead((width * height) as nat),
{
    let grid = single_cell_grid(width, height, cx, cy);
    let next = next_generation(grid, width, height, periodic);
    lemma_cell_index(width, height, cx, cy);
    lemma_single_cell_neighbors(width, height, periodic, cx, cy, cx, cy);
    lemma_single_cell_cell(width, height, periodic, cx, cy, cx, cy);
    assert forall|i: int| 0 <= i < next.len() implies !next[i] by {
        lemma_index_cell(width, height, i);
        let x = i % width;
        let y = i / width;
        lemma_single_cell_neighbors(width, height, periodic, cx, cy, x, y);
        lemma_single_cell_cell(width, height, periodic, cx, cy, x, y);
    }
    assert(next =~= all_dead((width * height) as nat));
}

} // verus!

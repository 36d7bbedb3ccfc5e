//! The interactive board: the automaton presented inside a rectangle of the
//! screen, with a hover cell, cell toggling by mouse, and loading and saving.

use vstd::prelude::*;
use crate::conway::game_state::{
    all_dead,
    delta_cells,
    next_generation,
    resized,
    CellDelta,
    ConwayGameState,
    Grid,
};
use crate::conway::snapshot::{
    parse_snapshot,
    read_snapshot,
    snapshot_text,
    write_snapshot,
    ImportError,
    SnapshotModel,
};
use crate::engine::geometry::{Color, Rect};
use crate::engine::input::MouseButton;
use crate::engine::view::UiView;

verus! {

/// The colour behind the cells.
pub open spec fn board_background_color() -> Color {
    Color { r: 0, g: 0, b: 0 }
}

/// The colour of a cell that was alive before and still is.
pub open spec fn board_cell_color() -> Color {
    Color { r: 255, g: 255, b: 255 }
}

/// The colour of the hover cell when it is alive.
pub open spec fn board_hovering_alive_cell_color() -> Color {
    Color { r: 255, g: 0, b: 0 }
}

/// The colour of the hover cell when it is dead.
pub open spec fn board_hovering_dead_cell_color() -> Color {
    Color { r: 0, g: 255, b: 0 }
}

/// The colour of a cell that has just come alive.
pub open spec fn board_newly_alive_cell_color() -> Color {
    Color { r: 255, g: 255, b: 255 }
}

/// The colour of a cell that has just died.
pub open spec fn board_newly_dead_cell_color() -> Color {
    Color { r: 50, g: 50, b: 50 }
}

/// The side of a cell in pixels: the largest whole number of pixels at which
/// the grid still fits into the rectangle in both directions.
pub open spec fn cell_length_in(view_bound: Rect, width: nat, height: nat) -> nat {
    vstd::math::min(view_bound.w as int / width as int, view_bound.h as int / height as int) as nat
}

/// The rectangle that the cells fill: as large as the grid at that cell
/// length, centred in the rectangle of the view.
pub open spec fn render_bound_in(view_bound: Rect, width: nat, height: nat) -> Rect {
    let cell_length = cell_length_in(view_bound, width, height);
    let center = view_bound.spec_center();
    Rect::spec_from_center(
        center.0,
        center.1,
        (cell_length * width) as int,
        (cell_length * height) as int,
    )
}

/// The cell under the pixel `(px, py)`, which lies inside the rectangle of
/// the view: the rectangle is divided evenly among the columns and among the
/// rows, and the pixel belongs to the column and row into which it falls.
pub open spec fn cell_index_at(view_bound: Rect, width: nat, height: nat, px: int, py: int) -> (
    int,
    int,
) {
    (
        (px - view_bound.x) * width / (view_bound.w as int),
        (py - view_bound.y) * height / (view_bound.h as int),
    )
}

/// The square of one cell on the screen, `cell_length` pixels wide, counted
/// from the point `(ox, oy)`.
pub open spec fn cell_rect(cell: (usize, usize), cell_length: nat, ox: int, oy: int) -> Rect {
    Rect::spec_new(
        cell.0 * cell_length + ox,
        cell.1 * cell_length + oy,
        cell_length as int,
        cell_length as int,
    )
}

/// The squares of a sequence of cells, in the same order.
pub open spec fn cell_rects(cells: Seq<(usize, usize)>, cell_length: nat, ox: int, oy: int) -> Seq<
    Rect,
> {
    Seq::new(cells.len(), |i: int| cell_rect(cells[i], cell_length, ox, oy))
}

/// The hover cell, kept where it still exists in a grid of the given extent.
pub open spec fn hover_within(hover: Option<(usize, usize)>, width: nat, height: nat) -> Option<
    (usize, usize),
> {
    match hover {
        Some((x, y)) => if x < width && y < height {
            hover
        } else {
            None
        },
        None => None,
    }
}

/// The board as a mathematical value.
pub struct Board {
    pub view_bound: Rect,
    pub render_bound: Rect,
    pub cell_length: nat,
    pub grid: Grid,
    pub hover: Option<(usize, usize)>,
}

impl Board {
    /// The grid is well formed and not empty, the layout is the one that the
    /// rectangle of the view and the extent of the grid give, and the hover
    /// cell, if any, is a cell of the grid.
    pub open spec fn wf(self) -> bool {
        &&& self.grid.wf()
        &&& self.grid.width > 0
        &&& self.grid.height > 0
        &&& self.view_bound.wf()
        &&& self.cell_length == cell_length_in(self.view_bound, self.grid.width, self.grid.height)
        &&& self.render_bound == render_bound_in(
            self.view_bound,
            self.grid.width,
            self.grid.height,
        )
        &&& self.hover == hover_within(self.hover, self.grid.width, self.grid.height)
    }

    /// A board of the given extent and boundary mode with every cell dead,
    /// laid out inside `view_bound`, without a hover cell.
    pub open spec fn empty(width: nat, height: nat, periodic: bool, view_bound: Rect) -> Board {
        Board {
            view_bound,
            render_bound: render_bound_in(view_bound, width, height),
            cell_length: cell_length_in(view_bound, width, height),
            grid: Grid {
                width,
                height,
                periodic,
                cells: all_dead(width * height),
                previous: all_dead(width * height),
            },
            hover: None,
        }
    }

    /// The board after its grid has taken a new extent.
    pub open spec fn resized(self, width: nat, height: nat) -> Board {
        Board {
            view_bound: self.view_bound,
            render_bound: render_bound_in(self.view_bound, width, height),
            cell_length: cell_length_in(self.view_bound, width, height),
            grid: Grid {
                width,
                height,
                cells: resized(
                    self.grid.cells,
                    self.grid.width as int,
                    self.grid.height as int,
                    width as int,
                    height as int,
                ),
                previous: resized(
                    self.grid.previous,
                    self.grid.width as int,
                    self.grid.height as int,
                    width as int,
                    height as int,
                ),
                periodic: self.grid.periodic,
            },
            hover: hover_within(self.hover, width, height),
        }
    }

    /// The board after it has taken over a saved board.
    pub open spec fn loaded(self, snapshot: SnapshotModel) -> Board {
        Board {
            grid: Grid {
                width: snapshot.width,
                height: snapshot.height,
                periodic: snapshot.periodic,
                cells: snapshot.cells,
                previous: all_dead((snapshot.width * snapshot.height) as nat),
            },
            ..self.resized(snapshot.width, snapshot.height)
        }
    }

    /// The board after one generation.
    pub open spec fn stepped(self) -> Board {
        Board {
            grid: Grid {
                cells: next_generation(
                    self.grid.cells,
                    self.grid.width as int,
                    self.grid.height as int,
                    self.grid.periodic,
                ),
                previous: self.grid.cells,
                ..self.grid
            },
            ..self
        }
    }

    /// The board after the pointer moved to `(x, y)`: the cell under it is the
    /// hover cell, and outside the rectangle of the view there is none.
    pub open spec fn hovered(self, x: int, y: int) -> Board {
        Board {
            hover: if self.view_bound.spec_contains(x, y) {
                let cell = cell_index_at(self.view_bound, self.grid.width, self.grid.height, x, y);
                Some((cell.0 as usize, cell.1 as usize))
            } else {
                None
            },
            ..self
        }
    }

    /// The board after a mouse button went down at `(x, y)`: the left button
    /// inside the rectangle of the view turns the cell under it from dead to
    /// alive or from alive to dead, and anything else changes nothing.
    pub open spec fn pressed(self, button: MouseButton, x: int, y: int) -> Board {
        if button == MouseButton::Left && self.view_bound.spec_contains(x, y) {
            let cell = cell_index_at(self.view_bound, self.grid.width, self.grid.height, x, y);
            let at = cell.1 * self.grid.width + cell.0;
            Board {
                grid: Grid { cells: self.grid.cells.update(at, !self.grid.cells[at]), ..self.grid },
                ..self
            }
        } else {
            self
        }
    }

    /// The board with every cell dead.
    pub open spec fn cleared(self) -> Board {
        Board {
            grid: Grid {
                cells: all_dead((self.grid.width * self.grid.height) as nat),
                previous: all_dead((self.grid.width * self.grid.height) as nat),
                ..self.grid
            },
            ..self
        }
    }

    /// What a save file of this board holds.
    pub open spec fn snapshot(self) -> SnapshotModel {
        SnapshotModel {
            width: self.grid.width,
            height: self.grid.height,
            periodic: self.grid.periodic,
            cells: self.grid.cells,
        }
    }
}

/// One layer of a frame: squares to fill in one colour.
pub struct Layer {
    pub color: Color,
    pub rects: Vec<Rect>,
}

/// What is to be drawn for the board: an off-screen target of the given
/// extent is filled with the background colour, the layers are painted onto it
/// in their order, and the target is then copied into `destination`.
pub struct BoardFrame {
    pub width: u32,
    pub height: u32,
    pub background: Color,
    pub layers: Vec<Layer>,
    pub destination: Rect,
}

/// The automaton laid out in a rectangle of the screen. `view_bound` is the
/// rectangle that was asked for; the cells fill `render_bound`, which is
/// centred in it and holds a whole number of pixels for every cell.
pub struct BoardView {
    view_bound: Rect,
    render_bound: Rect,
    cell_length: usize,
    game_state: ConwayGameState,
    hovering_cell: Option<(usize, usize)>,
}

impl View for BoardView {
    type V = Board;

    closed spec fn view(&self) -> Board {
        Board {
            view_bound: self.view_bound,
            render_bound: self.render_bound,
            cell_length: self.cell_length as nat,
            grid: self.game_state@,
            hover: self.hovering_cell,
        }
    }
}

/// The cell length and the rectangle of the cells for a grid of the given
/// extent inside `view_bound`.
fn layout(view_bound: Rect, width: usize, height: usize) -> (found: (usize, Rect))
    requires
        view_bound.wf(),
        width > 0,
        height > 0,
    ensures
        found.0 == cell_length_in(view_bound, width as nat, height as nat),
        found.1 == render_bound_in(view_bound, width as nat, height as nat),
        found.0 * width <= view_bound.w,
        found.0 * height <= view_bound.h,
{
    let across = view_bound.width() as usize / width;
    let down = view_bound.height() as usize / height;
    let cell_length = if across < down {
        across
    } else {
        down
    };
    proof {
        lemma_layout_fits(view_bound, width as nat, height as nat);
    }
    let render_bound = Rect::from_center(
        view_bound.center(),
        (cell_length * width) as u32,
        (cell_length * height) as u32,
    );
    (cell_length, render_bound)
}

impl BoardView {
    /// Whether the board is well formed.
    pub open spec fn wf(&self) -> bool {
        self@.wf()
    }

    /// A board of the given extent and boundary mode, all cells dead, laid
    /// out inside `view_bound`.
    pub fn new(board_width: usize, board_height: usize, periodic: bool, view_bound: Rect) -> (board:
        BoardView)
        requires
            board_width > 0,
            board_height > 0,
            board_width * board_height <= usize::MAX,
            view_bound.wf(),
        ensures
            board.wf(),
            board@ == Board::empty(board_width as nat, board_height as nat, periodic, view_bound),
    {
        let (cell_length, render_bound) = layout(view_bound, board_width, board_height);
        BoardView {
            view_bound,
            render_bound,
            cell_length,
            game_state: ConwayGameState::new(board_width, board_height, periodic),
            hovering_cell: None,
        }
    }

    /// Advances the automaton by one generation.
    pub fn step(&mut self)
        requires
            old(self).wf(),
        ensures
            final(self).wf(),
            final(self)@ == old(self)@.stepped(),
    {
        self.game_state.step();
    }

    /// Gives the grid a new extent and lays the board out anew. Cells keep
    /// their state where the old and the new extent overlap; the hover cell
    /// stays where it still exists.
    pub fn resize(&mut self, width: usize, height: usize)
        requires
            old(self).wf(),
            width > 0,
            height > 0,
            width * height <= usize::MAX,
        ensures
            final(self).wf(),
            final(self)@ == old(self)@.resized(width as nat, height as nat),
    {
        self.game_state.resize(width, height);
        let (cell_length, render_bound) = layout(self.view_bound, width, height);
        self.cell_length = cell_length;
        self.render_bound = render_bound;
        self.hovering_cell = match self.hovering_cell {
            Some((x, y)) => if x < width && y < height {
                Some((x, y))
            } else {
                None
            },
            None => None,
        };
    }

    /// Switches the boundary mode.
    pub fn set_periodic(&mut self, periodic: bool)
        requires
            old(self).wf(),
        ensures
            final(self).wf(),
            final(self)@ == (Board { grid: Grid { periodic, ..old(self)@.grid }, ..old(self)@ }),
    {
        self.game_state.set_is_periodic(periodic);
    }

    /// Makes every cell dead.
    pub fn clear(&mut self)
        requires
            old(self).wf(),
        ensures
            final(self).wf(),
            final(self)@ == old(self)@.cleared(),
    {
        self.game_state.clear();
    }

    /// The text of a save file that holds this board.
    pub fn export_to_file(&self) -> (text: String)
        requires
            self.wf(),
        ensures
            text@ == snapshot_text(self@.snapshot()),
    {
        write_snapshot(
            self.game_state.get_width(),
            self.game_state.get_height(),
            self.game_state.get_is_periodic(),
            self.game_state.get_cells(),
        )
    }

    /// Takes over the board that the text of a save file holds. A text that
    /// holds none is rejected and leaves the board as it is.
    pub fn import_from_file(&mut self, text: &str) -> (outcome: Result<(), ImportError>)
        requires
            old(self).wf(),
        ensures
            final(self).wf(),
            match parse_snapshot(text@) {
                Ok(snapshot) => outcome is Ok && final(self)@ == old(self)@.loaded(snapshot),
                Err(e) => outcome == Err::<(), ImportError>(e) && final(self)@ == old(self)@,
            },
    {
        let snapshot = match read_snapshot(text) {
            Ok(snapshot) => snapshot,
            Err(e) => { return Err(e); },
        };
        assert(snapshot.width * snapshot.height <= 64 * 64) by (nonlinear_arith)
            requires
                snapshot.width <= 64,
                snapshot.height <= 64,
        ;
        self.resize(snapshot.width, snapshot.height);
        self.set_periodic(snapshot.periodic);
        self.game_state.set_cells(snapshot.cells);
        Ok(())
    }

    /// The cell under the pixel `(x, y)`, which lies inside the rectangle of
    /// the view.
    pub fn get_cell_index(&self, x: i32, y: i32) -> (cell: (usize, usize))
        requires
            self.wf(),
            self@.view_bound.spec_contains(x as int, y as int),
        ensures
            (cell.0 as int, cell.1 as int) == cell_index_at(
                self@.view_bound,
                self@.grid.width,
                self@.grid.height,
                x as int,
                y as int,
            ),
            cell.0 < self@.grid.width,
            cell.1 < self@.grid.height,
    {
        let across = (x as i64 - self.view_bound.x() as i64) as u128;
        let down = (y as i64 - self.view_bound.y() as i64) as u128;
        let width = self.game_state.get_width() as u128;
        let height = self.game_state.get_height() as u128;
        let view_width = self.view_bound.width() as u128;
        let view_height = self.view_bound.height() as u128;
        proof {
            lemma_scaled_index(across as int, width as int, view_width as int);
            lemma_scaled_index(down as int, height as int, view_height as int);
        }
        ((across * width / view_width) as usize, (down * height / view_height) as usize)
    }

    /// The squares of the given cells of the grid, in the same order, counted
    /// from the top-left corner of the cells' rectangle on the screen if
    /// `offset` is set, and from the origin if not.
    pub fn map_cells_to_rect(&self, cells: &Vec<(usize, usize)>, offset: bool) -> (rects: Vec<Rect>)
        requires
            self.wf(),
            forall|k: int|
                0 <= k < cells@.len() ==> (#[trigger] cells@[k]).0 < self@.grid.width
                    && cells@[k].1 < self@.grid.height,
        ensures
            rects@ == cell_rects(
                cells@,
                self@.cell_length,
                if offset {
                    self@.render_bound.x as int
                } else {
                    0
                },
                if offset {
                    self@.render_bound.y as int
                } else {
                    0
                },
            ),
    {
        let ox: i32 = if offset {
            self.render_bound.x()
        } else {
            0
        };
        let oy: i32 = if offset {
            self.render_bound.y()
        } else {
            0
        };
        let ghost target = cell_rects(cells@, self@.cell_length, ox as int, oy as int);
        let mut rects: Vec<Rect> = Vec::new();
        let mut i: usize = 0;
        while i < cells.len()
            invariant
                self.wf(),
                i <= cells.len(),
                forall|k: int|
                    0 <= k < cells@.len() ==> (#[trigger] cells@[k]).0 < self@.grid.width
                        && cells@[k].1 < self@.grid.height,
                target == cell_rects(cells@, self@.cell_length, ox as int, oy as int),
                ox == 0 || ox == self@.render_bound.x,
                oy == 0 || oy == self@.render_bound.y,
                rects@ == target.take(i as int),
            decreases cells.len() - i,
        {
            let (x, y) = cells[i];
            proof {
                lemma_layout_fits(self@.view_bound, self@.grid.width, self@.grid.height);
                lemma_cell_offset(x as int, self@.cell_length as int, self@.grid.width as int);
                lemma_cell_offset(y as int, self@.cell_length as int, self@.grid.height as int);
            }
            let rect = Rect::new(
                (x * self.cell_length) as i32 + ox,
                (y * self.cell_length) as i32 + oy,
                self.cell_length as u32,
                self.cell_length as u32,
            );
            rects.push(rect);
            assert(rects@ =~= target.take(i + 1));
            i += 1;
        }
        assert(target.take(cells.len() as int) =~= target);
        rects
    }

    /// What is to be drawn: the retained cells, then the newly born, then the
    /// newly dead, then, if there is a hover cell, its square in a colour that
    /// tells whether it is alive. Squares are counted from the origin of the
    /// off-screen target, which is as large as the cells' rectangle and is
    /// copied into the rectangle of the view.
    pub fn render(&self) -> (frame: BoardFrame)
        requires
            self.wf(),
        ensures
            frame.width == self@.render_bound.w,
            frame.height == self@.render_bound.h,
            frame.background == board_background_color(),
            frame.destination == self@.view_bound,
            frame.layers@.len() == (if self@.hover is Some {
                4int
            } else {
                3int
            }),
            frame.layers@[0].color == board_cell_color(),
            frame.layers@[0].rects@ == cell_rects(
                delta_cells(
                    self@.grid.cells,
                    self@.grid.previous,
                    self@.grid.width as int,
                    CellDelta::Retained,
                    self@.grid.width * self@.grid.height,
                ),
                self@.cell_length,
                0,
                0,
            ),
            frame.layers@[1].color == board_newly_alive_cell_color(),
            frame.layers@[1].rects@ == cell_rects(
                delta_cells(
                    self@.grid.cells,
                    self@.grid.previous,
                    self@.grid.width as int,
                    CellDelta::Born,
                    self@.grid.width * self@.grid.height,
                ),
                self@.cell_length,
                0,
                0,
            ),
            frame.layers@[2].color == board_newly_dead_cell_color(),
            frame.layers@[2].rects@ == cell_rects(
                delta_cells(
                    self@.grid.cells,
                    self@.grid.previous,
                    self@.grid.width as int,
                    CellDelta::Died,
                    self@.grid.width * self@.grid.height,
                ),
                self@.cell_length,
                0,
                0,
            ),
            match self@.hover {
                Some(cell) => {
                    &&& frame.layers@[3].color == (if self@.grid.cell(
                        cell.0 as int,
                        cell.1 as int,
                    ) {
                        board_hovering_alive_cell_color()
                    } else {
                        board_hovering_dead_cell_color()
                    })
                    &&& frame.layers@[3].rects@ == cell_rects(seq![cell], self@.cell_length, 0, 0)
                },
                None => true,
            },
    {
        let mut layers: Vec<Layer> = Vec::new();
        let retained = self.game_state.get_retained_cells();
        layers.push(
            Layer {
                color: Color { r: 255, g: 255, b: 255 },
                rects: self.map_cells_to_rect(&retained, false),
            },
        );
        let born = self.game_state.get_newly_born_cells();
        layers.push(
            Layer {
                color: Color { r: 255, g: 255, b: 255 },
                rects: self.map_cells_to_rect(&born, false),
            },
        );
        let died = self.game_state.get_newly_dead_cells();
        layers.push(
            Layer { color: Color { r: 50, g: 50, b: 50 }, rects: self.map_cells_to_rect(&died, false) },
        );
        if let Some((x, y)) = self.hovering_cell {
            let color = if self.game_state.get_cell(x, y) {
                Color { r: 255, g: 0, b: 0 }
            } else {
                Color { r: 0, g: 255, b: 0 }
            };
            let mut hovered: Vec<(usize, usize)> = Vec::new();
            hovered.push((x, y));
            assert(hovered@ =~= seq![(x, y)]);
            layers.push(Layer { color, rects: self.map_cells_to_rect(&hovered, false) });
        }
        BoardFrame {
            width: self.render_bound.width(),
            height: self.render_bound.height(),
            background: Color { r: 0, g: 0, b: 0 },
            layers,
            destination: self.view_bound,
        }
    }

    /// One tick of the simulation: the automaton advances by one generation.
    pub fn on_tick(&mut self)
        requires
            old(self).wf(),
        ensures
            final(self).wf(),
            final(self)@ == old(self)@.stepped(),
    {
        self.step();
    }

    /// The pointer moved to `(x, y)`: the cell under it becomes the hover
    /// cell, and outside the rectangle of the view there is none.
    pub fn on_mouse_motion(&mut self, x: i32, y: i32)
        requires
            old(self).wf(),
        ensures
            final(self).wf(),
            final(self)@ == old(self)@.hovered(x as int, y as int),
    {
        if self.view_bound.contains_point(x, y) {
            self.hovering_cell = Some(self.get_cell_index(x, y));
        } else {
            self.hovering_cell = None;
        }
    }

    /// A mouse button went down at `(x, y)`: the left button inside the
    /// rectangle of the view turns the cell under it from dead to alive or
    /// from alive to dead. Anything else changes nothing.
    pub fn on_mouse_button_down(&mut self, button: MouseButton, x: i32, y: i32)
        requires
            old(self).wf(),
        ensures
            final(self).wf(),
            final(self)@ == old(self)@.pressed(button, x as int, y as int),
    {
        if self.view_bound.contains_point(x, y) {
            if let MouseButton::Left = button {
                let (cx, cy) = self.get_cell_index(x, y);
                let alive = self.game_state.get_cell(cx, cy);
                self.game_state.set_cell(cx, cy, !alive);
            }
        }
    }

    /// The rectangle of the view.
    pub fn get_bound(&self) -> (bound: Rect)
        ensures
            bound == self@.view_bound,
    {
        self.view_bound
    }

    /// The rectangle that the cells fill.
    pub fn get_render_bound(&self) -> (bound: Rect)
        ensures
            bound == self@.render_bound,
    {
        self.render_bound
    }

    /// The side of a cell in pixels.
    pub fn get_cell_length(&self) -> (cell_length: usize)
        ensures
            cell_length == self@.cell_length,
    {
        self.cell_length
    }

    /// The cell under the pointer, if the pointer is over the board.
    pub fn get_hovering_cell(&self) -> (hover: Option<(usize, usize)>)
        ensures
            hover == self@.hover,
    {
        self.hovering_cell
    }

    /// The automaton behind the board.
    pub fn get_game_state(&self) -> (state: &ConwayGameState)
        ensures
            state@ == self@.grid,
    {
        &self.game_state
    }
}

impl<A> UiView<A> for BoardView {
    open spec fn wf(&self) -> bool {
        self@.wf()
    }

    open spec fn spec_bound(&self) -> Rect {
        self@.view_bound
    }

    open spec fn after_key_down(&self, after: &Self, key: i32) -> bool {
        after@ == self@
    }

    open spec fn fired_by_key_down(&self, key: i32) -> Seq<A> {
        Seq::empty()
    }

    open spec fn after_mouse_button_down(&self, after: &Self, button: MouseButton, x: i32, y: i32) -> bool {
        after@ == self@.pressed(button, x as int, y as int)
    }

    open spec fn fired_by_mouse_button_down(&self, button: MouseButton, x: i32, y: i32) -> Seq<A> {
        Seq::empty()
    }

    open spec fn after_mouse_motion(&self, after: &Self, x: i32, y: i32) -> bool {
        after@ == self@.hovered(x as int, y as int)
    }

    open spec fn after_tick(&self, after: &Self) -> bool {
        after@ == self@.stepped()
    }

    fn get_bound(&self) -> (bound: Rect) {
        self.view_bound
    }

    fn on_key_down(&mut self, key: i32) -> (fired: Vec<A>) {
        Vec::new()
    }

    fn on_mouse_button_down(&mut self, button: MouseButton, x: i32, y: i32) -> (fired: Vec<A>) {
        BoardView::on_mouse_button_down(self, button, x, y);
        Vec::new()
    }

    fn on_mouse_motion(&mut self, x: i32, y: i32) {
        BoardView::on_mouse_motion(self, x, y);
    }

    fn on_tick(&mut self) {
        self.step();
    }
}

/// A position inside an extent, scaled to a number of parts, falls into one
/// of the parts.
proof fn lemma_scaled_index(offset: int, parts: int, extent: int)
    requires
        0 <= offset < extent,
        0 < parts,
        extent <= 0x3fff_ffff,
        parts <= usize::MAX,
    ensures
        0 <= offset * parts <= u128::MAX,
        0 <= offset * parts / extent < parts,
{
    assert(0 <= offset * parts < extent * parts) by (nonlinear_arith)
        requires
            0 <= offset < extent,
            0 < parts,
    ;
    assert(extent * parts <= 0x3fff_ffff * 0x1_0000_0000_0000_0000) by (nonlinear_arith)
        requires
            0 < extent <= 0x3fff_ffff,
            0 < parts <= 0x1_0000_0000_0000_0000,
    ;
    vstd::arithmetic::div_mod::lemma_div_pos_is_pos(offset * parts, extent);
    vstd::arithmetic::div_mod::lemma_multiply_divide_lt(offset * parts, extent, parts);
}

/// At the cell length of the layout the grid is no wider and no higher than
/// the rectangle of the view.
proof fn lemma_layout_fits(view_bound: Rect, width: nat, height: nat)
    requires
        view_bound.wf(),
        width > 0,
        height > 0,
    ensures
        cell_length_in(view_bound, width, height) * width <= view_bound.w,
        cell_length_in(view_bound, width, height) * height <= view_bound.h,
{
    let w = view_bound.w as int;
    let h = view_bound.h as int;
    let cell_length = cell_length_in(view_bound, width, height) as int;
    vstd::arithmetic::div_mod::lemma_fundamental_div_mod(w, width as int);
    vstd::arithmetic::div_mod::lemma_fundamental_div_mod(h, height as int);
    vstd::arithmetic::div_mod::lemma_div_pos_is_pos(w, width as int);
    vstd::arithmetic::div_mod::lemma_div_pos_is_pos(h, height as int);
    assert(cell_length * width <= w) by (nonlinear_arith)
        requires
            0 <= cell_length <= w / (width as int),
            0 < width,
            w == (width as int) * (w / (width as int)) + w % (width as int),
            0 <= w % (width as int),
    ;
    assert(cell_length * height <= h) by (nonlinear_arith)
        requires
            0 <= cell_length <= h / (height as int),
            0 < height,
            h == (height as int) * (h / (height as int)) + h % (height as int),
            0 <= h % (height as int),
    ;
}

/// The offset of a cell is no more than the extent of the whole grid.
proof fn lemma_cell_offset(index: int, cell_length: int, count: int)
    requires
        0 <= index < count,
        0 <= cell_length,
    ensures
        0 <= index * cell_length <= cell_length * count,
{
    assert(0 <= index * cell_length <= cell_length * count) by (nonlinear_arith)
        requires
            0 <= index < count,
            0 <= cell_length,
    ;
}

/// The pixel in the top-left corner of the view lies in the first cell of the
/// grid; a pointer on or past the right or the bottom edge of the view, or
/// before its left or top edge, leaves the board without a hover cell; and a
/// pointer anywhere else is over a cell of the grid.
pub proof fn lemma_pointer_mapping(board: Board, x: int, y: int)
    requires
        board.wf(),
    ensures
        board.hovered(board.view_bound.x as int, board.view_bound.y as int).hover == Some(
            (0usize, 0usize),
        ),
        x < board.view_bound.x || x >= board.view_bound.x + board.view_bound.w || y
            < board.view_bound.y || y >= board.view_bound.y + board.view_bound.h ==> board.hovered(
            x,
            y,
        ).hover is None,
        board.hovered(x, y).wf(),
{
    let bound = board.view_bound;
    let columns = board.grid.width as int;
    let rows = board.grid.height as int;
    assert(0int * columns / (bound.w as int) == 0 && 0int * rows / (bound.h as int) == 0)
        by (nonlinear_arith)
        requires
            bound.w > 0,
            bound.h > 0,
    ;
    if bound.spec_contains(x, y) {
        lemma_scaled_index(x - bound.x, board.grid.width as int, bound.w as int);
        lemma_scaled_index(y - bound.y, board.grid.height as int, bound.h as int);
    }
}

/// Saving a board and loading the text again gives a board with the same
/// width, height and boundary mode and with every cell as it was, for every
/// board whose width and height a save file may hold.
pub proof fn lemma_export_import_round_trip(board: Board)
    requires
        board.wf(),
        crate::conway::snapshot::valid_board_size(board.grid.width as int),
        crate::conway::snapshot::valid_board_size(board.grid.height as int),
    ensures
        parse_snapshot(snapshot_text(board.snapshot())) == Ok::<SnapshotModel, ImportError>(
            board.snapshot(),
        ),
        board.loaded(board.snapshot()).snapshot() == board.snapshot(),
        board.loaded(board.snapshot()).view_bound == board.view_bound,
        board.loaded(board.snapshot()).render_bound == board.render_bound,
        board.loaded(board.snapshot()).cell_length == board.cell_length,
        board.loaded(board.snapshot()).hover == board.hover,
{
    crate::conway::snapshot::lemma_snapshot_round_trip(board.snapshot());
}

} // verus!

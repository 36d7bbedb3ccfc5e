use conway_rs::conway::board::BoardView;
use conway_rs::conway::snapshot::ImportError;
use conway_rs::engine::geometry::{Color, Rect};
use conway_rs::engine::input::MouseButton;

fn board() -> BoardView {
    BoardView::new(32, 32, false, Rect::new(200, 0, 600, 600))
}

fn live_cells(board: &BoardView) -> Vec<(usize, usize)> {
    let state = board.get_game_state();
    let mut found = Vec::new();
    for y in 0..state.get_height() {
        for x in 0..state.get_width() {
            if state.get_cell(x, y) {
                found.push((x, y));
            }
        }
    }
    found
}

#[test]
fn new_board_is_centred_at_a_whole_cell_length() {
    let board = board();
    assert_eq!(board.get_cell_length(), 18);
    assert_eq!(board.get_bound(), Rect::new(200, 0, 600, 600));
    assert_eq!(board.get_render_bound(), Rect::new(212, 12, 576, 576));
    assert_eq!(board.get_hovering_cell(), None);
    assert!(live_cells(&board).is_empty());
    assert!(!board.get_game_state().get_is_periodic());
}

#[test]
fn cell_length_follows_the_tighter_direction() {
    let board = BoardView::new(10, 20, true, Rect::new(0, 0, 100, 100));
    assert_eq!(board.get_cell_length(), 5);
    assert_eq!(board.get_render_bound(), Rect::new(25, 0, 50, 100));
    assert!(board.get_game_state().get_is_periodic());
}

#[test]
fn a_view_smaller_than_the_grid_gives_cells_of_no_length() {
    let board = BoardView::new(64, 64, false, Rect::new(0, 0, 40, 40));
    assert_eq!(board.get_cell_length(), 0);
    assert_eq!(board.get_render_bound(), Rect::new(20, 20, 1, 1));
    assert_eq!(board.map_cells_to_rect(&vec![(3, 4)], false), vec![Rect::new(0, 0, 1, 1)]);
}

#[test]
fn top_left_pixel_maps_to_the_first_cell() {
    let mut board = board();
    assert_eq!(board.get_cell_index(200, 0), (0, 0));
    board.on_mouse_motion(200, 0);
    assert_eq!(board.get_hovering_cell(), Some((0, 0)));
}

#[test]
fn a_pixel_past_the_bottom_right_is_outside() {
    let mut board = board();
    board.on_mouse_motion(799, 599);
    assert_eq!(board.get_hovering_cell(), Some((31, 31)));
    board.on_mouse_motion(800, 600);
    assert_eq!(board.get_hovering_cell(), None);
    board.on_mouse_motion(799, 599);
    board.on_mouse_motion(800, 599);
    assert_eq!(board.get_hovering_cell(), None);
    board.on_mouse_motion(799, 599);
    board.on_mouse_motion(199, 0);
    assert_eq!(board.get_hovering_cell(), None);
}

#[test]
fn pixels_map_to_cells_by_the_outer_bound() {
    let board = board();
    // 600 pixels over 32 cells: 18.75 pixels a cell.
    assert_eq!(board.get_cell_index(200 + 18, 18), (0, 0));
    assert_eq!(board.get_cell_index(200 + 19, 19), (1, 1));
    assert_eq!(board.get_cell_index(200 + 37, 38), (1, 2));
    assert_eq!(board.get_cell_index(200 + 75, 74), (4, 3));
    assert_eq!(board.get_cell_index(200 + 300, 599), (16, 31));
    let uneven = BoardView::new(9, 8, false, Rect::new(-50, 10, 600, 100));
    assert_eq!(uneven.get_cell_index(150, 10), (3, 0));
    assert_eq!(uneven.get_cell_index(149, 22), (2, 0));
    assert_eq!(uneven.get_cell_index(549, 109), (8, 7));
}

#[test]
fn left_click_toggles_the_cell_under_the_pointer() {
    let mut board = board();
    board.on_mouse_button_down(MouseButton::Left, 200 + 40, 60);
    assert_eq!(live_cells(&board), vec![(2, 3)]);
    board.on_mouse_button_down(MouseButton::Left, 200 + 100, 100);
    assert_eq!(live_cells(&board), vec![(2, 3), (5, 5)]);
    board.on_mouse_button_down(MouseButton::Left, 200 + 41, 61);
    assert_eq!(live_cells(&board), vec![(5, 5)]);
}

#[test]
fn other_buttons_and_clicks_outside_change_nothing() {
    let mut board = board();
    board.on_mouse_button_down(MouseButton::Right, 240, 60);
    board.on_mouse_button_down(MouseButton::Middle, 240, 60);
    board.on_mouse_button_down(MouseButton::Left, 199, 60);
    board.on_mouse_button_down(MouseButton::Left, 240, 600);
    board.on_mouse_button_down(MouseButton::Left, 240, -1);
    assert!(live_cells(&board).is_empty());
}

#[test]
fn on_tick_advances_the_automaton() {
    let mut board = BoardView::new(8, 8, false, Rect::new(0, 0, 80, 80));
    for x in [20, 30, 40] {
        board.on_mouse_button_down(MouseButton::Left, x, 35);
    }
    assert_eq!(live_cells(&board), vec![(2, 3), (3, 3), (4, 3)]);
    board.on_tick();
    assert_eq!(live_cells(&board), vec![(3, 2), (3, 3), (3, 4)]);
    board.step();
    assert_eq!(live_cells(&board), vec![(2, 3), (3, 3), (4, 3)]);
}

#[test]
fn render_lists_the_layers_in_their_order() {
    // The view is wider than the cells' rectangle: 85 pixels for 8 columns.
    let mut board = BoardView::new(8, 8, false, Rect::new(0, 0, 85, 80));
    for x in [22, 32, 43] {
        board.on_mouse_button_down(MouseButton::Left, x, 35);
    }
    assert_eq!(live_cells(&board), vec![(2, 3), (3, 3), (4, 3)]);
    board.step();
    let frame = board.render();
    assert_eq!((frame.width, frame.height), (80, 80));
    assert_eq!(frame.destination, Rect::new(0, 0, 85, 80));
    assert_eq!(frame.background, Color { r: 0, g: 0, b: 0 });
    assert_eq!(frame.layers.len(), 3);
    assert_eq!(frame.layers[0].color, Color { r: 255, g: 255, b: 255 });
    assert_eq!(frame.layers[0].rects, vec![Rect::new(30, 30, 10, 10)]);
    assert_eq!(frame.layers[1].color, Color { r: 255, g: 255, b: 255 });
    assert_eq!(frame.layers[1].rects, vec![Rect::new(30, 20, 10, 10), Rect::new(30, 40, 10, 10)]);
    assert_eq!(frame.layers[2].color, Color { r: 50, g: 50, b: 50 });
    assert_eq!(frame.layers[2].rects, vec![Rect::new(20, 30, 10, 10), Rect::new(40, 30, 10, 10)]);
}

#[test]
fn render_highlights_the_hover_cell_by_its_state() {
    let mut board = BoardView::new(8, 8, false, Rect::new(0, 0, 80, 80));
    board.on_mouse_button_down(MouseButton::Left, 25, 35);
    board.on_mouse_motion(25, 35);
    let frame = board.render();
    assert_eq!(frame.layers.len(), 4);
    assert_eq!(frame.layers[3].color, Color { r: 255, g: 0, b: 0 });
    assert_eq!(frame.layers[3].rects, vec![Rect::new(20, 30, 10, 10)]);
    board.on_mouse_motion(75, 5);
    let frame = board.render();
    assert_eq!(frame.layers[3].color, Color { r: 0, g: 255, b: 0 });
    assert_eq!(frame.layers[3].rects, vec![Rect::new(70, 0, 10, 10)]);
}

#[test]
fn map_cells_to_rect_counts_from_the_render_bound_when_asked() {
    let board = board();
    let cells = vec![(0, 0), (2, 3), (31, 31)];
    assert_eq!(
        board.map_cells_to_rect(&cells, false),
        vec![Rect::new(0, 0, 18, 18), Rect::new(36, 54, 18, 18), Rect::new(558, 558, 18, 18)]
    );
    assert_eq!(
        board.map_cells_to_rect(&cells, true),
        vec![Rect::new(212, 12, 18, 18), Rect::new(248, 66, 18, 18), Rect::new(770, 570, 18, 18)]
    );
}

#[test]
fn resize_lays_the_board_out_anew_and_keeps_the_overlap() {
    let mut board = board();
    board.on_mouse_button_down(MouseButton::Left, 200, 0);
    board.on_mouse_button_down(MouseButton::Left, 799, 599);
    board.on_mouse_motion(799, 599);
    board.resize(8, 10);
    assert_eq!(board.get_cell_length(), 60);
    assert_eq!(board.get_render_bound(), Rect::new(260, 0, 480, 600));
    assert_eq!(live_cells(&board), vec![(0, 0)]);
    assert_eq!(board.get_hovering_cell(), None);
    board.on_mouse_motion(200, 0);
    board.resize(64, 64);
    assert_eq!(board.get_hovering_cell(), Some((0, 0)));
    assert_eq!(board.get_cell_length(), 9);
}

#[test]
fn export_then_import_reproduces_the_board() {
    let mut board = BoardView::new(10, 8, true, Rect::new(0, 0, 100, 80));
    for &(x, y) in &[(0, 0), (95, 75), (33, 41), (57, 12)] {
        board.on_mouse_button_down(MouseButton::Left, x, y);
    }
    let cells = live_cells(&board);
    assert_eq!(cells.len(), 4);
    let text = board.export_to_file();
    assert!(text.starts_with("10 8 true\n"));

    let mut other = BoardView::new(32, 32, false, Rect::new(0, 0, 100, 80));
    other.on_mouse_button_down(MouseButton::Left, 50, 50);
    assert_eq!(other.import_from_file(&text), Ok(()));
    assert_eq!(other.get_game_state().get_width(), 10);
    assert_eq!(other.get_game_state().get_height(), 8);
    assert!(other.get_game_state().get_is_periodic());
    assert_eq!(other.get_game_state().get_cells(), board.get_game_state().get_cells());
    assert_eq!(other.get_cell_length(), 10);
    assert!(other.get_game_state().get_retained_cells().is_empty());

    assert_eq!(board.import_from_file(&text), Ok(()));
    assert_eq!(live_cells(&board), cells);
    assert_eq!(board.export_to_file(), text);
}

#[test]
fn import_rejects_bad_sizes_and_leaves_the_board_alone() {
    let mut board = BoardView::new(8, 8, true, Rect::new(0, 0, 80, 80));
    board.on_mouse_button_down(MouseButton::Left, 15, 25);
    board.on_mouse_motion(15, 25);
    let before = board.export_to_file();
    let narrow = format!("4 8 false\n{}", "0".repeat(32));
    let wide = format!("100 8 false\n{}", "0".repeat(800));
    assert_eq!(board.import_from_file(&narrow), Err(ImportError::InvalidBoardSize));
    assert_eq!(board.import_from_file(&wide), Err(ImportError::InvalidBoardSize));
    assert_eq!(board.import_from_file("8 8 false\n0101"), Err(ImportError::InvalidCellCount));
    assert_eq!(board.import_from_file("8 8 maybe\n0101"), Err(ImportError::InvalidHeader));
    assert_eq!(board.import_from_file(""), Err(ImportError::InvalidFormat));
    assert_eq!(board.export_to_file(), before);
    assert_eq!(board.get_hovering_cell(), Some((1, 2)));
    assert_eq!(board.get_cell_length(), 10);
}

#[test]
fn a_small_board_can_be_saved_but_not_loaded() {
    let board = BoardView::new(4, 4, false, Rect::new(0, 0, 80, 80));
    let text = board.export_to_file();
    assert_eq!(text, "4 4 false\n0000000000000000");
    let mut other = BoardView::new(8, 8, false, Rect::new(0, 0, 80, 80));
    assert_eq!(other.import_from_file(&text), Err(ImportError::InvalidBoardSize));
}

#[test]
fn clear_and_set_periodic_delegate_to_the_automaton() {
    let mut board = BoardView::new(8, 8, false, Rect::new(0, 0, 80, 80));
    board.on_mouse_button_down(MouseButton::Left, 15, 25);
    board.set_periodic(true);
    assert!(board.get_game_state().get_is_periodic());
    assert_eq!(live_cells(&board), vec![(1, 2)]);
    board.clear();
    assert!(live_cells(&board).is_empty());
    assert!(board.get_game_state().get_is_periodic());
}

#[test]
fn import_takes_a_last_line_that_ends_in_a_carriage_return() {
    let mut board = BoardView::new(10, 10, false, Rect::new(0, 0, 100, 100));
    let text = format!("8 8 true\n1{}\r", "0".repeat(62));
    assert_eq!(board.import_from_file(&text), Ok(()));
    assert_eq!(board.get_game_state().get_width(), 8);
    assert_eq!(live_cells(&board), vec![(0, 0)]);
    let before = board.export_to_file();
    let too_long = format!("9 9 true\n{}\r", "0".repeat(81));
    assert_eq!(board.import_from_file(&too_long), Err(ImportError::InvalidCellCount));
    assert_eq!(board.export_to_file(), before);
}

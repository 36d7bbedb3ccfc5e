use conway_rs::conway::snapshot::ImportError;
use conway_rs::conway::{
    ends_input, phases, ControlAction, ConwayApp, ConwayView, FileRequest, HostPhase,
};
use conway_rs::engine::frame_limiter::{FrameDecision, FrameStepType};
use conway_rs::engine::geometry::Rect;
use conway_rs::engine::input::{InputEvent, MouseButton};
use conway_rs::engine::view::image::ImageDraw;
use conway_rs::engine::view::text::TextDraw;
use conway_rs::engine::view::UiView;

static FONT: [u8; 4] = [0, 1, 2, 3];
static LOGO: [u8; 2] = [9, 9];

fn app() -> ConwayApp {
    ConwayApp::create(32, 32, false, &FONT, &LOGO, 0)
}

fn click(x: i32, y: i32) -> InputEvent {
    InputEvent::MouseButtonDown { button: MouseButton::Left, x, y }
}

fn label(app: &ConwayApp, index: usize) -> String {
    match app.get_components().get(index) {
        ConwayView::Text(text) => text.get_text().clone(),
        _ => panic!("no text at {}", index),
    }
}

fn live_cells(app: &ConwayApp) -> Vec<(usize, usize)> {
    let state = app.get_board().get_game_state();
    let mut found = Vec::new();
    for y in 0..state.get_height() {
        for x in 0..state.get_width() {
            if state.get_cell(x, y) {
                found.push((x, y));
            }
        }
    }
    found
}

#[test]
fn create_lays_out_the_panel() {
    let app = app();
    assert!(!app.is_running());
    assert!(!app.is_paused());
    assert_eq!(app.get_tick_rate(), 1);
    let components = app.get_components();
    assert_eq!(components.len(), 17);
    let bounds: Vec<Rect> = (0..17).map(|i| components.get(i).get_bound()).collect();
    assert_eq!(bounds[0], Rect::new(200, 0, 600, 600));
    assert_eq!(bounds[1], Rect::new(20, 20, 150, 40));
    let controls = [
        Rect::new(20, 150, 100, 40),
        Rect::new(20, 200, 100, 40),
        Rect::new(20, 100, 100, 40),
        Rect::new(20, 250, 100, 40),
        Rect::new(20, 300, 100, 40),
        Rect::new(20, 350, 100, 40),
        Rect::new(20, 400, 100, 40),
    ];
    for (k, bound) in controls.iter().enumerate() {
        assert_eq!(bounds[2 + 2 * k], *bound);
        assert_eq!(bounds[3 + 2 * k], *bound);
        assert!(matches!(components.get(2 + 2 * k), ConwayView::Text(_)));
        assert!(matches!(components.get(3 + 2 * k), ConwayView::Button(_)));
    }
    assert_eq!(bounds[16], Rect::new(20, 480, 100, 100));
    assert_eq!(components.get_bound(), Rect::new(20, 0, 780, 600));
    let labels: Vec<String> = [1, 2, 4, 6, 8, 10, 12, 14].iter().map(|i| label(&app, *i)).collect();
    assert_eq!(
        labels,
        vec!["Speed: 1", "Speed Up", "Speed Down", "Pause", "Clear", "Load", "Save", "Exit"]
    );
    match components.get(1) {
        ConwayView::Text(text) => assert_eq!((text.get_size(), text.get_font()), (26, &FONT[..])),
        _ => panic!(),
    }
    match components.get(16) {
        ConwayView::Image(image) => assert_eq!(image.get_image(), &LOGO[..]),
        _ => panic!(),
    }
    assert_eq!(app.get_board().get_game_state().get_width(), 32);
    assert!(live_cells(&app).is_empty());
}

#[test]
fn speed_goes_up_and_down_within_its_limits() {
    let mut app = app();
    assert!(app.handle_event(&click(30, 210)).is_empty());
    assert_eq!((app.get_tick_rate(), label(&app, 1)), (1, "Speed: 1".to_string()));
    for expected in [2, 3, 4, 5, 5, 5] {
        assert!(app.handle_event(&click(30, 160)).is_empty());
        assert_eq!(app.get_tick_rate(), expected);
        assert_eq!(label(&app, 1), format!("Speed: {}", expected));
    }
    for expected in [4, 3, 2, 1, 1] {
        assert_eq!(app.apply(ControlAction::SpeedDown), None);
        assert_eq!(app.get_tick_rate(), expected);
        assert_eq!(label(&app, 1), format!("Speed: {}", expected));
    }
}

#[test]
fn a_new_speed_changes_the_interval_at_once() {
    let mut app = app();
    assert_eq!(app.poll(0), Ok(FrameDecision::Wait(16_666_666)));
    assert_eq!(app.poll(250_000_000), Ok(FrameDecision::Fire(FrameStepType::Render)));
    app.apply(ControlAction::SpeedUp);
    app.apply(ControlAction::SpeedUp);
    app.apply(ControlAction::SpeedUp);
    assert_eq!(app.poll(250_000_001), Ok(FrameDecision::Fire(FrameStepType::Physics)));
}

#[test]
fn pause_flips_the_flag_and_the_label() {
    let mut app = app();
    app.handle_event(&click(119, 139));
    assert!(app.is_paused());
    assert_eq!(label(&app, 6), "Resume");
    app.handle_event(&click(20, 100));
    assert!(!app.is_paused());
    assert_eq!(label(&app, 6), "Pause");
    app.handle_event(&InputEvent::MouseButtonDown { button: MouseButton::Right, x: 20, y: 100 });
    assert!(!app.is_paused());
}

#[test]
fn tick_advances_the_board_unless_paused() {
    let mut app = app();
    for x in [250, 270, 290] {
        app.handle_event(&click(x, 100));
    }
    assert_eq!(live_cells(&app), vec![(2, 5), (3, 5), (4, 5)]);
    app.on_tick();
    assert_eq!(live_cells(&app), vec![(3, 4), (3, 5), (3, 6)]);
    app.apply(ControlAction::TogglePause);
    app.on_tick();
    assert_eq!(live_cells(&app), vec![(3, 4), (3, 5), (3, 6)]);
    app.apply(ControlAction::TogglePause);
    app.on_tick();
    assert_eq!(live_cells(&app), vec![(2, 5), (3, 5), (4, 5)]);
}

#[test]
fn clear_button_kills_every_cell() {
    let mut app = app();
    app.handle_event(&click(250, 100));
    assert_eq!(live_cells(&app).len(), 1);
    assert!(app.handle_event(&click(50, 260)).is_empty());
    assert!(live_cells(&app).is_empty());
}

#[test]
fn load_and_save_are_left_to_the_host() {
    let mut app = app();
    assert_eq!(app.handle_event(&click(50, 310)), vec![FileRequest::Load]);
    assert_eq!(app.handle_event(&click(50, 360)), vec![FileRequest::Save]);
    assert_eq!(app.apply(ControlAction::Load), Some(FileRequest::Load));
    assert_eq!(app.apply(ControlAction::Save), Some(FileRequest::Save));
    assert_eq!(app.apply(ControlAction::Clear), None);
}

#[test]
fn save_then_load_reproduces_the_board() {
    let mut app = app();
    app.handle_event(&click(250, 100));
    app.handle_event(&click(799, 599));
    let text = app.save();
    assert!(text.starts_with("32 32 false\n"));
    let mut other = ConwayApp::create(8, 8, true, &FONT, &LOGO, 0);
    assert_eq!(other.load(&text), Ok(()));
    assert_eq!(live_cells(&other), vec![(2, 5), (31, 31)]);
    assert_eq!(other.save(), text);
    assert_eq!(other.load("4 4 false\n0000000000000000"), Err(ImportError::InvalidBoardSize));
    assert_eq!(other.save(), text);
}

#[test]
fn quit_escape_and_exit_end_the_application() {
    for event in [InputEvent::Quit, InputEvent::KeyDown { keycode: Some(27) }, click(50, 410)] {
        let mut app = app();
        app.start();
        assert!(app.is_running());
        assert!(app.handle_event(&event).is_empty());
        assert!(!app.is_running());
    }
    let mut app = app();
    app.start();
    for event in [
        InputEvent::KeyDown { keycode: Some(13) },
        InputEvent::KeyDown { keycode: None },
        InputEvent::Other,
        InputEvent::MouseMotion { x: 50, y: 410 },
        click(121, 410),
    ] {
        app.handle_event(&event);
        assert!(app.is_running());
    }
}

#[test]
fn motion_sets_the_hover_cell() {
    let mut app = app();
    app.handle_event(&InputEvent::MouseMotion { x: 200, y: 0 });
    assert_eq!(app.get_board().get_hovering_cell(), Some((0, 0)));
    app.handle_event(&InputEvent::MouseMotion { x: 800, y: 600 });
    assert_eq!(app.get_board().get_hovering_cell(), None);
}

#[test]
fn raster_bookkeeping_reaches_the_views() {
    let mut app = app();
    app.set_text_rasterized(1, 90, 30);
    app.set_text_rasterized(0, 90, 30);
    app.set_text_rasterized(99, 90, 30);
    app.set_image_loaded(16);
    app.set_image_loaded(1);
    match app.get_components().get(1) {
        ConwayView::Text(text) => assert_eq!(
            text.render(),
            TextDraw::Copy { source: Rect::new(0, 0, 90, 30), destination: Rect::new(20, 20, 90, 30) }
        ),
        _ => panic!(),
    }
    match app.get_components().get(2) {
        ConwayView::Text(text) => assert_eq!(text.render(), TextDraw::Rasterize),
        _ => panic!(),
    }
    match app.get_components().get(16) {
        ConwayView::Image(image) => {
            assert_eq!(image.render(), ImageDraw::Copy { destination: Rect::new(20, 480, 100, 100) })
        }
        _ => panic!(),
    }
    app.apply(ControlAction::SpeedUp);
    match app.get_components().get(1) {
        ConwayView::Text(text) => assert_eq!(text.render(), TextDraw::Rasterize),
        _ => panic!(),
    }
}

#[test]
fn phases_put_input_and_drawing_before_the_tick() {
    assert_eq!(phases(FrameStepType::Render), vec![HostPhase::Input, HostPhase::Draw]);
    assert_eq!(phases(FrameStepType::Physics), vec![HostPhase::Tick]);
    assert_eq!(
        phases(FrameStepType::RenderAndPhysics),
        vec![HostPhase::Input, HostPhase::Draw, HostPhase::Tick]
    );
}

#[test]
fn input_ends_with_quit_or_escape() {
    assert!(ends_input(&InputEvent::Quit));
    assert!(ends_input(&InputEvent::KeyDown { keycode: Some(27) }));
    assert!(!ends_input(&InputEvent::KeyDown { keycode: Some(28) }));
    assert!(!ends_input(&InputEvent::KeyDown { keycode: None }));
    assert!(!ends_input(&InputEvent::Other));
    assert!(!ends_input(&InputEvent::MouseMotion { x: 0, y: 0 }));
    // The exit button stops the application, but not the taking of input.
    assert!(!ends_input(&click(50, 410)));
}

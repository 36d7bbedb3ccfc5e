//! The Game of Life application: the automaton, the board that presents it,
//! the save-file format, and the control panel around the board.

pub mod board;
pub mod game_state;
pub mod laws;
pub mod snapshot;

use vstd::prelude::*;
use vstd::string::StringExecFns;
use crate::conway::board::{Board, BoardView};
use crate::conway::snapshot::SnapshotModel;
use crate::conway::snapshot::{append_decimal, decimal_digits, ImportError};
use crate::engine::frame_limiter::{
    ClockError,
    FrameDecision,
    FrameLimiter,
    FrameStepType,
    Schedule,
};
use crate::engine::geometry::{Color, Rect};
use crate::engine::input::{InputEvent, MouseButton, KEY_ESCAPE};
use crate::engine::view::image::Image;
use crate::engine::view::text::{clipped_bound, Text};
use crate::engine::view::chain::{lemma_union_of_bounds_take, union_of_bounds};
use crate::engine::view::{ButtonView, ImageView, TextView, UiView, ViewChain};

verus! {

/// What the buttons of the control panel fire.
#[derive(Clone, Copy, Debug, PartialEq, Eq, Structural)]
pub enum ControlAction {
    SpeedUp,
    SpeedDown,
    TogglePause,
    Clear,
    Load,
    Save,
    Exit,
}

/// One element of the application's view tree.
pub enum ConwayView {
    Board(BoardView),
    Button(ButtonView<ControlAction>),
    Text(TextView),
    Image(ImageView),
}

/// One element of the application's view tree as a mathematical value.
pub enum ViewModel {
    Board(Board),
    Button { bound: Rect, action: ControlAction },
    Text(Text),
    Image(Image),
}

impl ViewModel {
    pub open spec fn wf(self) -> bool {
        match self {
            ViewModel::Board(board) => board.wf(),
            ViewModel::Button { bound, action } => bound.wf(),
            ViewModel::Text(text) => text.bound.wf(),
            ViewModel::Image(image) => image.bound.wf(),
        }
    }

    /// The rectangle of the view.
    pub open spec fn bound(self) -> Rect {
        match self {
            ViewModel::Board(board) => board.view_bound,
            ViewModel::Button { bound, action } => bound,
            ViewModel::Text(text) => text.bound,
            ViewModel::Image(image) => image.bound,
        }
    }

    /// The view after a mouse button went down: the board reacts, and no
    /// other view changes.
    pub open spec fn pressed(self, button: MouseButton, x: int, y: int) -> ViewModel {
        match self {
            ViewModel::Board(board) => ViewModel::Board(board.pressed(button, x, y)),
            _ => self,
        }
    }

    /// What a mouse button going down fires: the action of a button, if it
    /// is the left mouse button that went down and the pointer is inside the
    /// button's rectangle.
    pub open spec fn fired(self, button: MouseButton, x: int, y: int) -> Seq<ControlAction> {
        match self {
            ViewModel::Button { bound, action } => if button == MouseButton::Left
                && bound.spec_contains(x, y) {
                seq![action]
            } else {
                Seq::empty()
            },
            _ => Seq::empty(),
        }
    }

    /// The view after the pointer moved: the board takes a new hover cell,
    /// and no other view changes.
    pub open spec fn hovered(self, x: int, y: int) -> ViewModel {
        match self {
            ViewModel::Board(board) => ViewModel::Board(board.hovered(x, y)),
            _ => self,
        }
    }

    /// The view after a tick: the board advances by one generation, and no
    /// other view changes.
    pub open spec fn stepped(self) -> ViewModel {
        match self {
            ViewModel::Board(board) => ViewModel::Board(board.stepped()),
            _ => self,
        }
    }

    /// The view after an input event has reached it.
    pub open spec fn after_event(self, event: InputEvent) -> ViewModel {
        match event {
            InputEvent::MouseButtonDown { button, x, y } => self.pressed(button, x as int, y as int),
            InputEvent::MouseMotion { x, y } => self.hovered(x as int, y as int),
            _ => self,
        }
    }

    /// The board with every cell dead; any other view as it is.
    pub open spec fn cleared(self) -> ViewModel {
        match self {
            ViewModel::Board(board) => ViewModel::Board(board.cleared()),
            _ => self,
        }
    }

    /// The board after it has taken over a saved board; any other view as it
    /// is.
    pub open spec fn loaded(self, snapshot: SnapshotModel) -> ViewModel {
        match self {
            ViewModel::Board(board) => ViewModel::Board(board.loaded(snapshot)),
            _ => self,
        }
    }

    /// A text with another wording, not rasterised yet; any other view as it
    /// is.
    pub open spec fn with_text(self, wording: Seq<char>) -> ViewModel {
        match self {
            ViewModel::Text(text) => ViewModel::Text(
                Text { text: wording, render_bound: None, ..text },
            ),
            _ => self,
        }
    }

    /// A text that has been rasterised to a bitmap of the given extent; any
    /// other view as it is.
    pub open spec fn rasterized(self, surface_width: u32, surface_height: u32) -> ViewModel {
        match self {
            ViewModel::Text(text) => ViewModel::Text(
                Text {
                    render_bound: Some(clipped_bound(text.bound, surface_width, surface_height)),
                    ..text
                },
            ),
            _ => self,
        }
    }

    /// An image whose picture has been decoded; any other view as it is.
    pub open spec fn decoded(self) -> ViewModel {
        match self {
            ViewModel::Image(image) => ViewModel::Image(Image { loaded: true, ..image }),
            _ => self,
        }
    }
}

impl View for ConwayView {
    type V = ViewModel;

    open spec fn view(&self) -> ViewModel {
        match self {
            ConwayView::Board(v) => ViewModel::Board(v@),
            ConwayView::Button(v) => ViewModel::Button { bound: v.bound(), action: v.action() },
            ConwayView::Text(v) => ViewModel::Text(v@),
            ConwayView::Image(v) => ViewModel::Image(v@),
        }
    }
}

impl UiView<ControlAction> for ConwayView {
    open spec fn wf(&self) -> bool {
        self@.wf()
    }

    open spec fn spec_bound(&self) -> Rect {
        self@.bound()
    }

    open spec fn after_key_down(&self, after: &Self, key: i32) -> bool {
        after@ == self@
    }

    open spec fn fired_by_key_down(&self, key: i32) -> Seq<ControlAction> {
        Seq::empty()
    }

    open spec fn after_mouse_button_down(&self, after: &Self, button: MouseButton, x: i32, y: i32) -> bool {
        after@ == self@.pressed(button, x as int, y as int)
    }

    open spec fn fired_by_mouse_button_down(&self, button: MouseButton, x: i32, y: i32) -> Seq<
        ControlAction,
    > {
        self@.fired(button, x as int, y as int)
    }

    open spec fn after_mouse_motion(&self, after: &Self, x: i32, y: i32) -> bool {
        after@ == self@.hovered(x as int, y as int)
    }

    open spec fn after_tick(&self, after: &Self) -> bool {
        after@ == self@.stepped()
    }

    fn get_bound(&self) -> (bound: Rect) {
        match self {
            ConwayView::Board(v) => v.get_bound(),
            ConwayView::Button(v) => v.get_bound(),
            ConwayView::Text(v) => <TextView as UiView<ControlAction>>::get_bound(v),
            ConwayView::Image(v) => <ImageView as UiView<ControlAction>>::get_bound(v),
        }
    }

    fn on_key_down(&mut self, key: i32) -> (fired: Vec<ControlAction>) {
        Vec::new()
    }

    fn on_mouse_button_down(&mut self, button: MouseButton, x: i32, y: i32) -> (fired: Vec<
        ControlAction,
    >) {
        match self {
            ConwayView::Board(v) => {
                v.on_mouse_button_down(button, x, y);
                Vec::new()
            },
            ConwayView::Button(v) => v.on_mouse_button_down(button, x, y),
            _ => Vec::new(),
        }
    }

    fn on_mouse_motion(&mut self, x: i32, y: i32) {
        match self {
            ConwayView::Board(v) => v.on_mouse_motion(x, y),
            _ => {},
        }
    }

    fn on_tick(&mut self) {
        match self {
            ConwayView::Board(v) => v.on_tick(),
            _ => {},
        }
    }
}

/// What the host is to do with a file on behalf of the application.
#[derive(Clone, Copy, Debug, PartialEq, Eq, Structural)]
pub enum FileRequest {
    /// Let the user pick a save file, read it, and hand its text to `load`.
    Load,
    /// Let the user pick a place, and write the text that `save` gives there.
    Save,
}

/// One part of a turn of the host loop.
#[derive(Clone, Copy, Debug, PartialEq, Eq, Structural)]
pub enum HostPhase {
    /// Take the pending input events, one by one, and hand each to
    /// `handle_event`, up to and including the first that ends the input; if
    /// the application is no longer running afterwards, leave the loop.
    Input,
    /// Draw every view.
    Draw,
    /// Call `on_tick`.
    Tick,
}

/// What the host is to do when the scheduler says that `step` is due, in
/// this order. A frame that is due together with a tick is drawn before the
/// tick, so that it shows the grid as it was before that tick.
pub open spec fn phases_of(step: FrameStepType) -> Seq<HostPhase> {
    match step {
        FrameStepType::Render => seq![HostPhase::Input, HostPhase::Draw],
        FrameStepType::Physics => seq![HostPhase::Tick],
        FrameStepType::RenderAndPhysics => seq![
            HostPhase::Input,
            HostPhase::Draw,
            HostPhase::Tick,
        ],
    }
}

/// The parts of the turn of the host loop in which `step` is due.
pub fn phases(step: FrameStepType) -> (plan: Vec<HostPhase>)
    ensures
        plan@ == phases_of(step),
{
    let mut plan: Vec<HostPhase> = Vec::new();
    match step {
        FrameStepType::Render => {
            plan.push(HostPhase::Input);
            plan.push(HostPhase::Draw);
        },
        FrameStepType::Physics => {
            plan.push(HostPhase::Tick);
        },
        FrameStepType::RenderAndPhysics => {
            plan.push(HostPhase::Input);
            plan.push(HostPhase::Draw);
            plan.push(HostPhase::Tick);
        },
    }
    assert(plan@ =~= phases_of(step));
    plan
}

/// Whether the host stops taking input events after this one: it does after
/// an event that ends the application.
pub fn ends_input(event: &InputEvent) -> (ends: bool)
    ensures
        ends == is_quit(*event),
{
    match *event {
        InputEvent::Quit => true,
        InputEvent::KeyDown { keycode: Some(key) } => key == KEY_ESCAPE,
        _ => false,
    }
}

/// The slowest and the fastest simulation rate that the controls allow, in
/// generations per second.
pub const MIN_TICK_RATE: u32 = 1;

pub const MAX_TICK_RATE: u32 = 5;

/// The redraw rate, in frames per second.
pub const RENDER_RATE: u32 = 60;

/// The number of views in the application's view tree.
pub const VIEW_COUNT: usize = 17;

/// The places of the views that change while the application runs.
pub const BOARD_INDEX: usize = 0;

pub const SPEED_TEXT_INDEX: usize = 1;

pub const PAUSE_TEXT_INDEX: usize = 6;

/// The place of the logo.
pub const LOGO_INDEX: usize = 16;

pub open spec fn board_bound() -> Rect {
    Rect { x: 200, y: 0, w: 600, h: 600 }
}

pub open spec fn speed_text_bound() -> Rect {
    Rect { x: 20, y: 20, w: 150, h: 40 }
}

pub open spec fn pause_button_bound() -> Rect {
    Rect { x: 20, y: 100, w: 100, h: 40 }
}

pub open spec fn speedup_button_bound() -> Rect {
    Rect { x: 20, y: 150, w: 100, h: 40 }
}

pub open spec fn speeddown_button_bound() -> Rect {
    Rect { x: 20, y: 200, w: 100, h: 40 }
}

pub open spec fn clear_button_bound() -> Rect {
    Rect { x: 20, y: 250, w: 100, h: 40 }
}

pub open spec fn load_button_bound() -> Rect {
    Rect { x: 20, y: 300, w: 100, h: 40 }
}

pub open spec fn save_button_bound() -> Rect {
    Rect { x: 20, y: 350, w: 100, h: 40 }
}

pub open spec fn exit_button_bound() -> Rect {
    Rect { x: 20, y: 400, w: 100, h: 40 }
}

pub open spec fn logo_bound() -> Rect {
    Rect { x: 20, y: 480, w: 100, h: 100 }
}

/// What a press of a mouse button at `(x, y)` fires in the control panel: the
/// action of the button under the pointer, if the left button went down.
pub open spec fn control_fired(button: MouseButton, x: int, y: int) -> Seq<ControlAction> {
    if button != MouseButton::Left {
        Seq::empty()
    } else if speedup_button_bound().spec_contains(x, y) {
        seq![ControlAction::SpeedUp]
    } else if speeddown_button_bound().spec_contains(x, y) {
        seq![ControlAction::SpeedDown]
    } else if pause_button_bound().spec_contains(x, y) {
        seq![ControlAction::TogglePause]
    } else if clear_button_bound().spec_contains(x, y) {
        seq![ControlAction::Clear]
    } else if load_button_bound().spec_contains(x, y) {
        seq![ControlAction::Load]
    } else if save_button_bound().spec_contains(x, y) {
        seq![ControlAction::Save]
    } else if exit_button_bound().spec_contains(x, y) {
        seq![ControlAction::Exit]
    } else {
        Seq::empty()
    }
}

/// What an input event fires in the control panel.
pub open spec fn event_fired(event: InputEvent) -> Seq<ControlAction> {
    match event {
        InputEvent::MouseButtonDown { button, x, y } => control_fired(button, x as int, y as int),
        _ => Seq::empty(),
    }
}

/// Whether the event ends the application before any view sees it: the
/// window was closed, or the escape key went down.
pub open spec fn is_quit(event: InputEvent) -> bool {
    event == InputEvent::Quit || event == (InputEvent::KeyDown { keycode: Some(KEY_ESCAPE) })
}

/// The text of the speed display.
pub open spec fn speed_label(rate: nat) -> Seq<char> {
    "Speed: "@ + decimal_digits(rate)
}

/// The text on the pause button.
pub open spec fn pause_label(paused: bool) -> Seq<char> {
    if paused {
        "Resume"@
    } else {
        "Pause"@
    }
}

/// The file request that an action stands for, if it stands for one.
pub open spec fn request_of(action: ControlAction) -> Option<FileRequest> {
    match action {
        ControlAction::Load => Some(FileRequest::Load),
        ControlAction::Save => Some(FileRequest::Save),
        _ => None,
    }
}

/// The file requests among a sequence of actions, in their order.
pub open spec fn requests_of(actions: Seq<ControlAction>) -> Seq<FileRequest>
    decreases actions.len(),
{
    if actions.len() == 0 {
        Seq::empty()
    } else {
        match request_of(actions.last()) {
            Some(request) => requests_of(actions.drop_last()).push(request),
            None => requests_of(actions.drop_last()),
        }
    }
}

/// A black text that has not been rasterised yet.
pub open spec fn label_model(bound: Rect, wording: Seq<char>, size: u16, font: Seq<u8>) -> ViewModel {
    ViewModel::Text(
        Text {
            bound,
            text: wording,
            font,
            size,
            color: Color { r: 0, g: 0, b: 0 },
            render_bound: None,
        },
    )
}

/// The views of the application as it starts: the board first, then the
/// speed display, then for each control its text and on top of it its
/// button, and the logo last. Later views are drawn on top of earlier ones.
pub open spec fn initial_views(board: Board, font: Seq<u8>, logo: Seq<u8>) -> Seq<ViewModel> {
    seq![
        ViewModel::Board(board),
        label_model(speed_text_bound(), speed_label(MIN_TICK_RATE as nat), 26, font),
        label_model(speedup_button_bound(), "Speed Up"@, 18, font),
        ViewModel::Button { bound: speedup_button_bound(), action: ControlAction::SpeedUp },
        label_model(speeddown_button_bound(), "Speed Down"@, 18, font),
        ViewModel::Button { bound: speeddown_button_bound(), action: ControlAction::SpeedDown },
        label_model(pause_button_bound(), pause_label(false), 18, font),
        ViewModel::Button { bound: pause_button_bound(), action: ControlAction::TogglePause },
        label_model(clear_button_bound(), "Clear"@, 18, font),
        ViewModel::Button { bound: clear_button_bound(), action: ControlAction::Clear },
        label_model(load_button_bound(), "Load"@, 18, font),
        ViewModel::Button { bound: load_button_bound(), action: ControlAction::Load },
        label_model(save_button_bound(), "Save"@, 18, font),
        ViewModel::Button { bound: save_button_bound(), action: ControlAction::Save },
        label_model(exit_button_bound(), "Exit"@, 18, font),
        ViewModel::Button { bound: exit_button_bound(), action: ControlAction::Exit },
        ViewModel::Image(Image { bound: logo_bound(), image: logo, loaded: false }),
    ]
}

/// The rectangles of the views, in their order.
pub open spec fn bounds_of(views: Seq<ViewModel>) -> Seq<Rect> {
    Seq::new(views.len(), |i: int| views[i].bound())
}

/// The rectangle around the whole application: the board and the panel.
pub open spec fn panel_bound() -> Rect {
    Rect { x: 20, y: 0, w: 780, h: 600 }
}

/// Whether the view is the button in `bound` that fires `action`.
pub open spec fn is_button(view: ViewModel, bound: Rect, action: ControlAction) -> bool {
    view == (ViewModel::Button { bound, action })
}

/// Whether the view is a text in `bound`.
pub open spec fn is_text(view: ViewModel, bound: Rect) -> bool {
    match view {
        ViewModel::Text(text) => text.bound == bound,
        _ => false,
    }
}

/// Whether the views are laid out as the control panel around the board is:
/// the board first, then the speed display, then a text and a button for
/// each control, and the logo last.
pub open spec fn is_panel(views: Seq<ViewModel>) -> bool {
    &&& views.len() == VIEW_COUNT
    &&& views[0] is Board
    &&& views[0].bound() == board_bound()
    &&& is_text(views[1], speed_text_bound())
    &&& is_text(views[2], speedup_button_bound())
    &&& is_button(views[3], speedup_button_bound(), ControlAction::SpeedUp)
    &&& is_text(views[4], speeddown_button_bound())
    &&& is_button(views[5], speeddown_button_bound(), ControlAction::SpeedDown)
    &&& is_text(views[6], pause_button_bound())
    &&& is_button(views[7], pause_button_bound(), ControlAction::TogglePause)
    &&& is_text(views[8], clear_button_bound())
    &&& is_button(views[9], clear_button_bound(), ControlAction::Clear)
    &&& is_text(views[10], load_button_bound())
    &&& is_button(views[11], load_button_bound(), ControlAction::Load)
    &&& is_text(views[12], save_button_bound())
    &&& is_button(views[13], save_button_bound(), ControlAction::Save)
    &&& is_text(views[14], exit_button_bound())
    &&& is_button(views[15], exit_button_bound(), ControlAction::Exit)
    &&& views[16] is Image
    &&& views[16].bound() == logo_bound()
}

/// The application as a mathematical value.
pub struct AppModel {
    pub running: bool,
    pub paused: bool,
    pub schedule: Schedule,
    /// The views, in drawing order.
    pub views: Seq<ViewModel>,
    /// The rectangle of the view tree: the union of the rectangles that the
    /// views had when they were added.
    pub bound: Rect,
}

impl AppModel {
    /// The views are laid out as the control panel is and are well formed,
    /// the rectangle of the view tree is the one around them, and the
    /// simulation rate is within its limits.
    pub open spec fn wf(self) -> bool {
        &&& is_panel(self.views)
        &&& self.bound == panel_bound()
        &&& forall|i: int| 0 <= i < self.views.len() ==> (#[trigger] self.views[i]).wf()
        &&& MIN_TICK_RATE <= self.schedule.physics_rate <= MAX_TICK_RATE
    }

    /// The board.
    pub open spec fn board(self) -> Board {
        match self.views[BOARD_INDEX as int] {
            ViewModel::Board(board) => board,
            _ => arbitrary(),
        }
    }

    /// The application with another simulation rate, which the speed
    /// display shows.
    pub open spec fn with_tick_rate(self, rate: nat) -> AppModel {
        AppModel {
            schedule: Schedule {
                physics_rate: rate,
                physics_interval: crate::engine::frame_limiter::interval_of(rate),
                ..self.schedule
            },
            views: self.views.update(
                SPEED_TEXT_INDEX as int,
                self.views[SPEED_TEXT_INDEX as int].with_text(speed_label(rate)),
            ),
            ..self
        }
    }

    /// The application after one action of the control panel. The speed goes
    /// up and down by one within its limits; pausing flips the pause flag and
    /// the text on the button; clearing kills every cell; leaving stops the
    /// application; loading and saving are left to the host.
    pub open spec fn after_action(self, action: ControlAction) -> AppModel {
        match action {
            ControlAction::SpeedUp => self.with_tick_rate(
                vstd::math::min((self.schedule.physics_rate + 1) as int, MAX_TICK_RATE as int) as nat,
            ),
            ControlAction::SpeedDown => self.with_tick_rate(
                vstd::math::max(self.schedule.physics_rate - 1, MIN_TICK_RATE as int) as nat,
            ),
            ControlAction::TogglePause => AppModel {
                paused: !self.paused,
                views: self.views.update(
                    PAUSE_TEXT_INDEX as int,
                    self.views[PAUSE_TEXT_INDEX as int].with_text(pause_label(!self.paused)),
                ),
                ..self
            },
            ControlAction::Clear => AppModel {
                views: self.views.update(
                    BOARD_INDEX as int,
                    self.views[BOARD_INDEX as int].cleared(),
                ),
                ..self
            },
            ControlAction::Load => self,
            ControlAction::Save => self,
            ControlAction::Exit => AppModel { running: false, ..self },
        }
    }

    /// The application after a sequence of actions, one after the other.
    pub open spec fn after_actions(self, actions: Seq<ControlAction>) -> AppModel
        decreases actions.len(),
    {
        if actions.len() == 0 {
            self
        } else {
            self.after_actions(actions.drop_last()).after_action(actions.last())
        }
    }

    /// The application after every view has seen an event.
    pub open spec fn dispatched(self, event: InputEvent) -> AppModel {
        AppModel {
            views: Seq::new(self.views.len(), |i: int| self.views[i].after_event(event)),
            ..self
        }
    }

    /// The application after an input event. An event that ends the
    /// application reaches no view. Any other event goes to every view, and
    /// what it fires is then carried out.
    pub open spec fn after_event(self, event: InputEvent) -> AppModel {
        if is_quit(event) {
            AppModel { running: false, ..self }
        } else {
            self.dispatched(event).after_actions(event_fired(event))
        }
    }

    /// The application after a tick: every view sees it, unless the
    /// application is paused.
    pub open spec fn after_tick(self) -> AppModel {
        if self.paused {
            self
        } else {
            AppModel {
                views: Seq::new(self.views.len(), |i: int| self.views[i].stepped()),
                ..self
            }
        }
    }

    /// The application after the board has taken over a saved board.
    pub open spec fn loaded(self, snapshot: SnapshotModel) -> AppModel {
        AppModel {
            views: self.views.update(
                BOARD_INDEX as int,
                self.views[BOARD_INDEX as int].loaded(snapshot),
            ),
            ..self
        }
    }

    /// The application after the view at place `index` has been changed to
    /// `view`; a place that does not exist changes nothing.
    pub open spec fn with_view(self, index: int, view: ViewModel) -> AppModel {
        if 0 <= index < self.views.len() {
            AppModel { views: self.views.update(index, view), ..self }
        } else {
            self
        }
    }
}

/// The application: the view tree, the scheduler, and the two flags that
/// the controls and the host set.
pub struct ConwayApp {
    components: ViewChain<ConwayView>,
    fps_limiter: FrameLimiter,
    pause: bool,
    running: bool,
}

impl View for ConwayApp {
    type V = AppModel;

    closed spec fn view(&self) -> AppModel {
        AppModel {
            running: self.running,
            paused: self.pause,
            schedule: self.fps_limiter@,
            views: Seq::new(
                self.components.children().len(),
                |i: int| self.components.children()[i]@,
            ),
            bound: self.components.bound(),
        }
    }
}

impl ConwayApp {
    /// The views of the application, in drawing order.
    pub closed spec fn views(&self) -> Seq<ConwayView> {
        self.components.children()
    }

    /// Whether the application is well formed.
    pub closed spec fn wf(&self) -> bool {
        &&& self.components.all_wf::<ControlAction>()
        &&& self@.wf()
    }

    /// A well-formed application has a well-formed value, and its value
    /// holds the value of each of its views.
    pub proof fn lemma_wf(&self)
        ensures
            self.wf() ==> self@.wf(),
            self@.views.len() == self.views().len(),
            forall|i: int| 0 <= i < self.views().len() ==> self@.views[i] == (#[trigger] self.views()[i])@,
    {
    }
}

impl ConwayApp {
    /// Whether the application has been started and not been left since.
    pub fn is_running(&self) -> (running: bool)
        ensures
            running == self@.running,
    {
        self.running
    }

    /// Whether the simulation is paused.
    pub fn is_paused(&self) -> (paused: bool)
        ensures
            paused == self@.paused,
    {
        self.pause
    }

    /// The simulation rate, in generations per second.
    pub fn get_tick_rate(&self) -> (rate: u32)
        ensures
            rate == self@.schedule.physics_rate,
    {
        self.fps_limiter.get_physics_rate()
    }

    /// The scheduler of the application.
    pub fn get_limiter(&self) -> (limiter: &FrameLimiter)
        ensures
            limiter@ == self@.schedule,
    {
        &self.fps_limiter
    }

    /// The views of the application, in drawing order: later views are drawn
    /// on top of earlier ones.
    pub fn get_components(&self) -> (components: &ViewChain<ConwayView>)
        ensures
            components.children() == self.views(),
            components.bound() == self@.bound,
    {
        &self.components
    }

    /// The board.
    pub fn get_board(&self) -> (board: &BoardView)
        requires
            self.wf(),
        ensures
            board@ == self@.board(),
            board.wf(),
    {
        proof {
            self.lemma_wf();
            assert(self@.views[0].wf());
        }
        match self.components.get(BOARD_INDEX) {
            ConwayView::Board(board) => board,
            _ => vstd::pervasive::unreached(),
        }
    }

    /// Marks the application as running; the host does so when it enters its
    /// loop.
    pub fn start(&mut self)
        requires
            old(self).wf(),
        ensures
            final(self).wf(),
            final(self)@ == (AppModel { running: true, ..old(self)@ }),
    {
        self.running = true;
    }

    /// Asks the scheduler what is due at time `now`.
    pub fn poll(&mut self, now: u64) -> (decision: Result<FrameDecision, ClockError>)
        requires
            old(self).wf(),
        ensures
            final(self).wf(),
            decision == old(self)@.schedule.decision(now as nat),
            final(self)@ == (AppModel {
                schedule: old(self)@.schedule.after(now as nat),
                ..old(self)@
            }),
    {
        self.fps_limiter.poll(now)
    }

    /// One tick of the simulation: every view sees it, and the board
    /// advances by one generation, unless the simulation is paused.
    pub fn on_tick(&mut self)
        requires
            old(self).wf(),
        ensures
            final(self).wf(),
            final(self)@ == old(self)@.after_tick(),
    {
        if !self.pause {
            self.components.on_tick();
            proof {
                let before = old(self).components.children();
                let after = self.components.children();
                assert forall|i: int| 0 <= i < after.len() implies (#[trigger] after[i])@
                    == before[i]@.stepped() by {
                    assert(before[i].after_tick(&after[i]));
                }
                assert(self@.views =~= old(self)@.after_tick().views);
                lemma_panel_stays(old(self)@.views, self@.views);
            }
        }
    }

    /// The text of a save file that holds the board.
    pub fn save(&self) -> (text: String)
        requires
            self.wf(),
        ensures
            text@ == crate::conway::snapshot::snapshot_text(self@.board().snapshot()),
    {
        self.get_board().export_to_file()
    }

    /// Changes the view at place `index` in place.
    fn view_mut(&mut self, index: usize) -> (view: &mut ConwayView)
        requires
            old(self).wf(),
            index < VIEW_COUNT,
        ensures
            *view == old(self).views()[index as int],
            view.wf(),
            final(self)@ == old(self)@.with_view(index as int, final(view)@),
            final(view).wf() && is_panel(final(self)@.views) ==> final(self).wf(),
    {
        proof {
            old(self).lemma_wf();
            assert(old(self)@.views[index as int].wf());
        }
        let ghost before = self.components.children();
        let view = self.components.get_mut(index);
        assert(Seq::new(before.len(), |i: int| before.update(index as int, *final(view))[i]@)
            =~= old(self)@.views.update(index as int, final(view)@));
        assert(final(view).wf() ==> forall|i: int|
            0 <= i < before.len() ==> (#[trigger] before.update(index as int, *final(view))[i]).wf())
            by {
            if final(view).wf() {
                lemma_one_view_changed(
                    before,
                    before.update(index as int, *final(view)),
                    index as int,
                );
            }
        }
        view
    }

    /// Takes over the board that the text of a save file holds. A text that
    /// holds none is rejected and changes nothing.
    pub fn load(&mut self, text: &str) -> (outcome: Result<(), ImportError>)
        requires
            old(self).wf(),
        ensures
            final(self).wf(),
            match crate::conway::snapshot::parse_snapshot(text@) {
                Ok(snapshot) => outcome is Ok && final(self)@ == old(self)@.loaded(snapshot),
                Err(e) => outcome == Err::<(), ImportError>(e) && final(self)@ == old(self)@,
            },
    {
        proof {
            old(self).lemma_wf();
        }
        let outcome = match self.view_mut(BOARD_INDEX) {
            ConwayView::Board(board) => board.import_from_file(text),
            _ => Ok(()),
        };
        proof {
            assert(self@.views =~= (match crate::conway::snapshot::parse_snapshot(text@) {
                Ok(snapshot) => old(self)@.loaded(snapshot).views,
                Err(e) => old(self)@.views,
            }));
        }
        outcome
    }

    /// Sets the simulation rate and shows it.
    fn set_tick_rate(&mut self, rate: u32)
        requires
            old(self).wf(),
            MIN_TICK_RATE <= rate <= MAX_TICK_RATE,
        ensures
            final(self).wf(),
            final(self)@ == old(self)@.with_tick_rate(rate as nat),
    {
        proof {
            old(self).lemma_wf();
        }
        self.fps_limiter.set_physics_rate(rate);
        let mut label = String::from_str("Speed: ");
        append_decimal(&mut label, rate as usize);
        self.set_label(SPEED_TEXT_INDEX, label);
    }

    /// Replaces the text of the text view at place `index`.
    fn set_label(&mut self, index: usize, label: String)
        requires
            old(self).wf(),
            index == SPEED_TEXT_INDEX || index == PAUSE_TEXT_INDEX,
        ensures
            final(self).wf(),
            final(self)@ == (AppModel {
                views: old(self)@.views.update(
                    index as int,
                    old(self)@.views[index as int].with_text(label@),
                ),
                ..old(self)@
            }),
    {
        proof {
            old(self).lemma_wf();
        }
        match self.view_mut(index) {
            ConwayView::Text(text) => text.set_text(label),
            _ => {},
        }
    }

    /// Carries out one action of the control panel. Loading and saving are
    /// left to the host, which is told so.
    pub fn apply(&mut self, action: ControlAction) -> (request: Option<FileRequest>)
        requires
            old(self).wf(),
        ensures
            final(self).wf(),
            final(self)@ == old(self)@.after_action(action),
            request == request_of(action),
    {
        proof {
            old(self).lemma_wf();
        }
        match action {
            ControlAction::SpeedUp => {
                let current_speed = self.fps_limiter.get_physics_rate();
                let next_speed = if current_speed + 1 < MAX_TICK_RATE {
                    current_speed + 1
                } else {
                    MAX_TICK_RATE
                };
                self.set_tick_rate(next_speed);
                None
            },
            ControlAction::SpeedDown => {
                let current_speed = self.fps_limiter.get_physics_rate();
                let next_speed = if current_speed - 1 > MIN_TICK_RATE {
                    current_speed - 1
                } else {
                    MIN_TICK_RATE
                };
                self.set_tick_rate(next_speed);
                None
            },
            ControlAction::TogglePause => {
                if self.pause {
                    self.pause = false;
                    self.set_label(PAUSE_TEXT_INDEX, String::from_str("Pause"));
                } else {
                    self.pause = true;
                    self.set_label(PAUSE_TEXT_INDEX, String::from_str("Resume"));
                }
                None
            },
            ControlAction::Clear => {
                match self.view_mut(BOARD_INDEX) {
                    ConwayView::Board(board) => board.clear(),
                    _ => {},
                }
                None
            },
            ControlAction::Load => Some(FileRequest::Load),
            ControlAction::Save => Some(FileRequest::Save),
            ControlAction::Exit => {
                self.running = false;
                None
            },
        }
    }

    /// Records that the host has rasterised the text of the view at place
    /// `index` to a bitmap of the given extent. A place that holds no text
    /// is left alone.
    pub fn set_text_rasterized(&mut self, index: usize, surface_width: u32, surface_height: u32)
        requires
            old(self).wf(),
        ensures
            final(self).wf(),
            final(self)@ == old(self)@.with_view(
                index as int,
                old(self)@.views[index as int].rasterized(surface_width, surface_height),
            ),
    {
        proof {
            old(self).lemma_wf();
        }
        if index < VIEW_COUNT {
            match self.view_mut(index) {
                ConwayView::Text(text) => text.set_rasterized(surface_width, surface_height),
                _ => {},
            }
        }
    }

    /// Records that the host holds the decoded picture of the view at place
    /// `index`. A place that holds no image is left alone.
    pub fn set_image_loaded(&mut self, index: usize)
        requires
            old(self).wf(),
        ensures
            final(self).wf(),
            final(self)@ == old(self)@.with_view(
                index as int,
                old(self)@.views[index as int].decoded(),
            ),
    {
        proof {
            old(self).lemma_wf();
        }
        if index < VIEW_COUNT {
            match self.view_mut(index) {
                ConwayView::Image(image) => image.set_loaded(),
                _ => {},
            }
        }
    }
}

/// Adds a control to the panel: its text, and on top of it the button that
/// fires `action`.
fn add_control(
    components: &mut ViewChain<ConwayView>,
    bound: Rect,
    label: &str,
    font: &'static [u8],
    action: ControlAction,
)
    requires
        old(components).all_wf::<ControlAction>(),
        bound.wf(),
    ensures
        final(components).all_wf::<ControlAction>(),
        final(components).children().len() == old(components).children().len() + 2,
        forall|i: int|
            0 <= i < old(components).children().len() ==> final(components).children()[i] == old(
                components,
            ).children()[i],
        final(components).children()[old(components).children().len() as int]@ == label_model(
            bound,
            label@,
            18,
            font@,
        ),
        final(components).children()[(old(components).children().len() + 1) as int]@
            == (ViewModel::Button { bound, action }),
        final(components).bound() == (if old(components).children().len() == 0 {
            bound.spec_union(bound)
        } else {
            old(components).bound().spec_union(bound).spec_union(bound)
        }),
{
    let text = TextView::new(bound, String::from_str(label), font, 18, Color { r: 0, g: 0, b: 0 });
    components.add_view(ConwayView::Text(text));
    components.add_view(ConwayView::Button(ButtonView::new(bound, action)));
}

impl ConwayApp {
    /// The application as it starts: a board of the given extent and
    /// boundary mode with every cell dead, the control panel beside it, the
    /// simulation at one generation per second and not paused, and the
    /// scheduler counting from `now`. `font` holds the font of the texts and
    /// `logo` the picture in the corner.
    pub fn create(
        board_width: usize,
        board_height: usize,
        periodic: bool,
        font: &'static [u8],
        logo: &'static [u8],
        now: u64,
    ) -> (app: ConwayApp)
        requires
            board_width > 0,
            board_height > 0,
            board_width * board_height <= usize::MAX,
        ensures
            app.wf(),
            app@ == (AppModel {
                running: false,
                paused: false,
                schedule: Schedule::starting(RENDER_RATE as nat, MIN_TICK_RATE as nat, now as nat),
                views: initial_views(
                    Board::empty(board_width as nat, board_height as nat, periodic, board_bound()),
                    font@,
                    logo@,
                ),
                bound: panel_bound(),
            }),
            app@.bound == union_of_bounds(bounds_of(app@.views)),
    {
        let mut components: ViewChain<ConwayView> = ViewChain::new();
        let black = Color { r: 0, g: 0, b: 0 };

        let board_view = BoardView::new(
            board_width,
            board_height,
            periodic,
            Rect::new(200, 0, 600, 600),
        );
        components.add_view(ConwayView::Board(board_view));

        let mut speed = String::from_str("Speed: ");
        append_decimal(&mut speed, MIN_TICK_RATE as usize);
        let speed_text = TextView::new(Rect::new(20, 20, 150, 40), speed, font, 26, black);
        components.add_view(ConwayView::Text(speed_text));

        add_control(
            &mut components,
            Rect::new(20, 150, 100, 40),
            "Speed Up",
            font,
            ControlAction::SpeedUp,
        );
        add_control(
            &mut components,
            Rect::new(20, 200, 100, 40),
            "Speed Down",
            font,
            ControlAction::SpeedDown,
        );
        add_control(
            &mut components,
            Rect::new(20, 100, 100, 40),
            "Pause",
            font,
            ControlAction::TogglePause,
        );
        add_control(&mut components, Rect::new(20, 250, 100, 40), "Clear", font, ControlAction::Clear);
        add_control(&mut components, Rect::new(20, 300, 100, 40), "Load", font, ControlAction::Load);
        add_control(&mut components, Rect::new(20, 350, 100, 40), "Save", font, ControlAction::Save);
        add_control(&mut components, Rect::new(20, 400, 100, 40), "Exit", font, ControlAction::Exit);

        // The logo sits in the corner below the controls.
        let logo_view = ImageView::new(Rect::new(20, 480, 100, 100), logo);
        components.add_view(ConwayView::Image(logo_view));

        let app = ConwayApp {
            components,
            fps_limiter: FrameLimiter::new(RENDER_RATE, MIN_TICK_RATE, now),
            pause: false,
            running: false,
        };
        proof {
            let expected = initial_views(
                Board::empty(board_width as nat, board_height as nat, periodic, board_bound()),
                font@,
                logo@,
            );
            assert(app@.views =~= expected);
            lemma_panel_bound(app@.views);
        }
        app
    }
}

/// The rectangle around the views of the panel, joined one after the other in
/// their order, is the rectangle around the whole application.
pub proof fn lemma_panel_bound(views: Seq<ViewModel>)
    requires
        is_panel(views),
    ensures
        union_of_bounds(bounds_of(views)) == panel_bound(),
{
    let bounds = bounds_of(views);
    lemma_union_of_bounds_take(bounds, 0);
    assert(union_of_bounds(bounds.take(1)) == board_bound());
    lemma_union_of_bounds_take(bounds, 1);
    assert(union_of_bounds(bounds.take(2)) == panel_bound());
    lemma_union_of_bounds_take(bounds, 2);
    lemma_union_of_bounds_take(bounds, 3);
    assert(union_of_bounds(bounds.take(4)) == panel_bound());
    lemma_union_of_bounds_take(bounds, 4);
    lemma_union_of_bounds_take(bounds, 5);
    assert(union_of_bounds(bounds.take(6)) == panel_bound());
    lemma_union_of_bounds_take(bounds, 6);
    lemma_union_of_bounds_take(bounds, 7);
    assert(union_of_bounds(bounds.take(8)) == panel_bound());
    lemma_union_of_bounds_take(bounds, 8);
    lemma_union_of_bounds_take(bounds, 9);
    assert(union_of_bounds(bounds.take(10)) == panel_bound());
    lemma_union_of_bounds_take(bounds, 10);
    lemma_union_of_bounds_take(bounds, 11);
    assert(union_of_bounds(bounds.take(12)) == panel_bound());
    lemma_union_of_bounds_take(bounds, 12);
    lemma_union_of_bounds_take(bounds, 13);
    assert(union_of_bounds(bounds.take(14)) == panel_bound());
    lemma_union_of_bounds_take(bounds, 14);
    lemma_union_of_bounds_take(bounds, 15);
    assert(union_of_bounds(bounds.take(16)) == panel_bound());
    lemma_union_of_bounds_take(bounds, 16);
    assert(bounds.take(17) =~= bounds);
}

/// Views stay well formed when one of them is replaced by a well-formed view.
proof fn lemma_one_view_changed(before: Seq<ConwayView>, after: Seq<ConwayView>, index: int)
    requires
        0 <= index < before.len(),
        forall|i: int| 0 <= i < before.len() ==> (#[trigger] before[i]).wf(),
        after == before.update(index, after[index]),
        after[index].wf(),
    ensures
        forall|i: int| 0 <= i < after.len() ==> (#[trigger] after[i]).wf(),
{
    assert forall|i: int| 0 <= i < after.len() implies (#[trigger] after[i]).wf() by {
        if i != index {
            assert(after[i] == before[i]);
        }
    }
}

/// The panel stays the panel when every view has seen an event or a tick:
/// only the board changes, and it keeps its rectangle.
proof fn lemma_panel_stays(before: Seq<ViewModel>, after: Seq<ViewModel>)
    requires
        is_panel(before),
        after.len() == before.len(),
        forall|i: int|
            0 <= i < before.len() ==> (#[trigger] after[i]).bound() == before[i].bound() && (
            before[i] is Board ==> after[i] is Board) && (!(before[i] is Board) ==> after[i]
                == before[i]),
    ensures
        is_panel(after),
{
}

/// No key fires anything in the views of the application.
proof fn lemma_keys_fire_nothing(views: Seq<ConwayView>, key: i32, n: nat)
    ensures
        crate::engine::view::chain::chain_fired_by_key_down::<ControlAction, ConwayView>(
            views,
            key,
            n,
        ) == Seq::<ControlAction>::empty(),
    decreases n,
{
    if n > 0 {
        lemma_keys_fire_nothing(views, key, (n - 1) as nat);
        assert(Seq::<ControlAction>::empty() + Seq::<ControlAction>::empty()
            =~= Seq::<ControlAction>::empty());
    }
}

/// What the first `n` views fire is what the views before the last of them
/// fire, and then what that one fires.
proof fn lemma_panel_fired_step(
    views: Seq<ConwayView>,
    button: MouseButton,
    x: i32,
    y: i32,
    n: nat,
    so_far: Seq<ControlAction>,
)
    requires
        n > 0,
        crate::engine::view::chain::chain_fired_by_mouse_button_down::<ControlAction, ConwayView>(
            views,
            button,
            x,
            y,
            (n - 1) as nat,
        ) == so_far,
    ensures
        crate::engine::view::chain::chain_fired_by_mouse_button_down::<ControlAction, ConwayView>(
            views,
            button,
            x,
            y,
            n,
        ) == so_far + views[n - 1]@.fired(button, x as int, y as int),
{
}

/// What a press fires in the control panel is the action of the one button
/// under the pointer.
proof fn lemma_panel_fired(views: Seq<ConwayView>, button: MouseButton, x: i32, y: i32)
    requires
        views.len() == VIEW_COUNT,
        is_panel(Seq::new(views.len(), |i: int| views[i]@)),
    ensures
        crate::engine::view::chain::chain_fired_by_mouse_button_down::<ControlAction, ConwayView>(
            views,
            button,
            x,
            y,
            views.len(),
        ) == control_fired(button, x as int, y as int),
{
    let models = Seq::new(views.len(), |i: int| views[i]@);
    assert forall|i: int| 0 <= i < views.len() implies (#[trigger] views[i])@ == models[i] by {}
    let none = Seq::<ControlAction>::empty();
    let f = |n: nat|
        crate::engine::view::chain::chain_fired_by_mouse_button_down::<ControlAction, ConwayView>(
            views,
            button,
            x,
            y,
            n,
        );
    let g = |i: int| models[i].fired(button, x as int, y as int);
    assert(f(0) == none);
    lemma_panel_fired_step(views, button, x, y, 1, f(0));
    lemma_panel_fired_step(views, button, x, y, 2, f(1));
    lemma_panel_fired_step(views, button, x, y, 3, f(2));
    assert(f(3) =~= none);
    lemma_panel_fired_step(views, button, x, y, 4, f(3));
    lemma_panel_fired_step(views, button, x, y, 5, f(4));
    assert(f(5) =~= g(3));
    lemma_panel_fired_step(views, button, x, y, 6, f(5));
    lemma_panel_fired_step(views, button, x, y, 7, f(6));
    assert(f(7) =~= g(3) + g(5));
    lemma_panel_fired_step(views, button, x, y, 8, f(7));
    lemma_panel_fired_step(views, button, x, y, 9, f(8));
    assert(f(9) =~= g(3) + g(5) + g(7));
    lemma_panel_fired_step(views, button, x, y, 10, f(9));
    lemma_panel_fired_step(views, button, x, y, 11, f(10));
    assert(f(11) =~= g(3) + g(5) + g(7) + g(9));
    lemma_panel_fired_step(views, button, x, y, 12, f(11));
    lemma_panel_fired_step(views, button, x, y, 13, f(12));
    assert(f(13) =~= g(3) + g(5) + g(7) + g(9) + g(11));
    lemma_panel_fired_step(views, button, x, y, 14, f(13));
    lemma_panel_fired_step(views, button, x, y, 15, f(14));
    assert(f(15) =~= g(3) + g(5) + g(7) + g(9) + g(11) + g(13));
    lemma_panel_fired_step(views, button, x, y, 16, f(15));
    lemma_panel_fired_step(views, button, x, y, 17, f(16));
    assert(f(17) =~= g(3) + g(5) + g(7) + g(9) + g(11) + g(13) + g(15));
    assert(f(17) =~= control_fired(button, x as int, y as int));
}

impl ConwayApp {
    /// Takes one input event. The closing of the window and the escape key
    /// end the application and reach no view. Every other event goes to
    /// every view; the actions that it fires are then carried out in their
    /// order, and the file requests among them are handed to the host.
    pub fn handle_event(&mut self, event: &InputEvent) -> (requests: Vec<FileRequest>)
        requires
            old(self).wf(),
        ensures
            final(self).wf(),
            final(self)@ == old(self)@.after_event(*event),
            requests@ == (if is_quit(*event) {
                Seq::<FileRequest>::empty()
            } else {
                requests_of(event_fired(*event))
            }),
    {
        if ends_input(event) {
            self.running = false;
            return Vec::new();
        }
        proof {
            old(self).lemma_wf();
        }
        let fired = self.components.on_event(event);
        proof {
            let before = old(self).components.children();
            let after = self.components.children();
            match *event {
                InputEvent::KeyDown { keycode: Some(key) } => {
                    lemma_keys_fire_nothing(before, key, before.len());
                    assert forall|i: int| 0 <= i < after.len() implies (#[trigger] after[i])@
                        == before[i]@.after_event(*event) by {
                        assert(before[i].after_key_down(&after[i], key));
                    }
                },
                InputEvent::MouseButtonDown { button, x, y } => {
                    lemma_panel_fired(before, button, x, y);
                    assert forall|i: int| 0 <= i < after.len() implies (#[trigger] after[i])@
                        == before[i]@.after_event(*event) by {
                        assert(before[i].after_mouse_button_down(&after[i], button, x, y));
                    }
                },
                InputEvent::MouseMotion { x, y } => {
                    assert forall|i: int| 0 <= i < after.len() implies (#[trigger] after[i])@
                        == before[i]@.after_event(*event) by {
                        assert(before[i].after_mouse_motion(&after[i], x, y));
                    }
                },
                _ => {},
            }
            assert(self@.views =~= old(self)@.dispatched(*event).views);
            lemma_panel_stays(old(self)@.views, self@.views);
        }
        let ghost dispatched = self@;
        let mut requests: Vec<FileRequest> = Vec::new();
        let mut i: usize = 0;
        while i < fired.len()
            invariant
                i <= fired.len(),
                self.wf(),
                self@ == dispatched.after_actions(fired@.take(i as int)),
                requests@ == requests_of(fired@.take(i as int)),
            decreases fired.len() - i,
        {
            proof {
                let next = fired@.take(i + 1);
                assert(next.drop_last() =~= fired@.take(i as int));
                assert(next.last() == fired@[i as int]);
            }
            if let Some(request) = self.apply(fired[i]) {
                requests.push(request);
            }
            i += 1;
        }
        assert(fired@.take(fired.len() as int) =~= fired@);
        requests
    }
}

} // verus!

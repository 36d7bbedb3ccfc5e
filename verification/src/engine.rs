//! The presentation shell: geometry, input, errors, the scheduler, the views,
//! and the life cycle of the engine that hosts an application.

pub mod error;
pub mod frame_limiter;
pub mod geometry;
pub mod input;
pub mod resource_manager;
pub mod view;

use vstd::prelude::*;
use vstd::string::StringExecFns;
use self::error::EngineError;

verus! {

/// Where the engine is in its life.
#[derive(Clone, Copy, Debug, PartialEq, Eq, Structural)]
pub enum EngineState {
    /// Built, and no application has run yet.
    Init,
    /// An application has been started.
    Running,
    /// The engine has been stopped.
    Stopped,
}

impl EngineState {
    /// Starts the one application that an engine runs: a new engine starts
    /// running, and an engine that has run, or was stopped, refuses.
    pub fn begin_run(&mut self) -> (outcome: Result<(), EngineError>)
        ensures
            *old(self) == EngineState::Init ==> outcome is Ok && *final(self)
                == EngineState::Running,
            *old(self) != EngineState::Init ==> outcome == Err::<(), EngineError>(
                EngineError::StateError,
            ) && *final(self) == *old(self),
    {
        if let EngineState::Init = *self {
            *self = EngineState::Running;
            Ok(())
        } else {
            Err(EngineError::StateError)
        }
    }

    /// Stops a running engine; an engine that is not running refuses.
    pub fn stop(&mut self) -> (outcome: Result<(), EngineError>)
        ensures
            *old(self) == EngineState::Running ==> outcome is Ok && *final(self)
                == EngineState::Stopped,
            *old(self) != EngineState::Running ==> outcome == Err::<(), EngineError>(
                EngineError::StateError,
            ) && *final(self) == *old(self),
    {
        if let EngineState::Running = *self {
            *self = EngineState::Stopped;
            Ok(())
        } else {
            Err(EngineError::StateError)
        }
    }
}

/// The window that the engine opens.
pub struct WindowConfig {
    pub title: String,
    pub width: u32,
    pub height: u32,
}

/// What has been asked of the window so far, as a mathematical value.
pub struct WindowRequest {
    pub title: Option<Seq<char>>,
    pub width: Option<u32>,
    pub height: Option<u32>,
}

pub open spec fn default_window_title() -> Seq<char> {
    "SDL2 Window"@
}

pub const DEFAULT_WINDOW_WIDTH: u32 = 800;

pub const DEFAULT_WINDOW_HEIGHT: u32 = 600;

/// Collects what is asked of the window before the engine is built.
pub struct EngineBuilder {
    window_title: Option<String>,
    window_width: Option<u32>,
    window_height: Option<u32>,
}

impl View for EngineBuilder {
    type V = WindowRequest;

    closed spec fn view(&self) -> WindowRequest {
        WindowRequest {
            title: match self.window_title {
                Some(title) => Some(title@),
                None => None,
            },
            width: self.window_width,
            height: self.window_height,
        }
    }
}

impl EngineBuilder {
    /// A builder of which nothing has been asked yet.
    pub fn new() -> (builder: Self)
        ensures
            builder@ == (WindowRequest { title: None, width: None, height: None }),
    {
        EngineBuilder { window_title: None, window_width: None, window_height: None }
    }

    /// Asks for a window title.
    pub fn window_title(self, title: String) -> (builder: Self)
        ensures
            builder@ == (WindowRequest { title: Some(title@), ..self@ }),
    {
        EngineBuilder {
            window_title: Some(title),
            window_width: self.window_width,
            window_height: self.window_height,
        }
    }

    /// Asks for a window size.
    pub fn window_size(self, width: u32, height: u32) -> (builder: Self)
        ensures
            builder@ == (WindowRequest { width: Some(width), height: Some(height), ..self@ }),
    {
        EngineBuilder {
            window_title: self.window_title,
            window_width: Some(width),
            window_height: Some(height),
        }
    }

    /// The window to open: what was asked for, and the default for the rest.
    pub fn window_config(self) -> (config: WindowConfig)
        ensures
            config.title@ == (match self@.title {
                Some(title) => title,
                None => default_window_title(),
            }),
            config.width == (match self@.width {
                Some(width) => width,
                None => DEFAULT_WINDOW_WIDTH,
            }),
            config.height == (match self@.height {
                Some(height) => height,
                None => DEFAULT_WINDOW_HEIGHT,
            }),
    {
        let title = match self.window_title {
            Some(title) => title,
            None => String::from_str("SDL2 Window"),
        };
        let width = match self.window_width {
            Some(width) => width,
            None => DEFAULT_WINDOW_WIDTH,
        };
        let height = match self.window_height {
            Some(height) => height,
            None => DEFAULT_WINDOW_HEIGHT,
        };
        WindowConfig { title, width, height }
    }
}

} // verus!

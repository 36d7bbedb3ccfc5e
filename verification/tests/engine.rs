use std::cell::Cell;
use std::rc::Rc;

use conway_rs::engine::error::EngineError;
use conway_rs::engine::resource_manager::{FontDetails, ResourceLoader, ResourceManager};
use conway_rs::engine::{EngineBuilder, EngineState};

#[test]
fn builder_falls_back_to_the_defaults() {
    let config = EngineBuilder::new().window_config();
    assert_eq!(config.title, "SDL2 Window");
    assert_eq!((config.width, config.height), (800, 600));
}

#[test]
fn builder_keeps_what_was_asked_for() {
    let config = EngineBuilder::new()
        .window_title("Conway's Game of Life".to_string())
        .window_size(640, 480)
        .window_config();
    assert_eq!(config.title, "Conway's Game of Life");
    assert_eq!((config.width, config.height), (640, 480));
    let config = EngineBuilder::new().window_size(1, 2).window_title("a".to_string()).window_config();
    assert_eq!((config.title.as_str(), config.width, config.height), ("a", 1, 2));
}

#[test]
fn engine_runs_once_and_stops_once() {
    let mut state = EngineState::Init;
    assert!(matches!(state.stop(), Err(EngineError::StateError)));
    assert_eq!(state, EngineState::Init);
    assert!(state.begin_run().is_ok());
    assert_eq!(state, EngineState::Running);
    assert!(matches!(state.begin_run(), Err(EngineError::StateError)));
    assert_eq!(state, EngineState::Running);
    assert!(state.stop().is_ok());
    assert_eq!(state, EngineState::Stopped);
    assert!(matches!(state.stop(), Err(EngineError::StateError)));
    assert!(matches!(state.begin_run(), Err(EngineError::StateError)));
    assert_eq!(state, EngineState::Stopped);
}

struct CountingLoader {
    calls: Cell<u32>,
}

impl<'l> ResourceLoader<'l, String> for CountingLoader {
    type Args = FontDetails;

    fn load(&'l self, data: &FontDetails) -> Result<String, String> {
        self.calls.set(self.calls.get() + 1);
        if data.size == 0 {
            Err("no size".to_string())
        } else {
            Ok(format!("{}@{}", data.content.len(), data.size))
        }
    }
}

static FONT_A: [u8; 2] = [1, 2];
static FONT_B: [u8; 3] = [1, 2, 3];
static FONT_A_AGAIN: [u8; 2] = [1, 2];

#[test]
fn resource_is_loaded_once_and_shared() {
    let loader = CountingLoader { calls: Cell::new(0) };
    let mut manager: ResourceManager<FontDetails, String, CountingLoader> = ResourceManager::new(&loader);
    let first = manager.load(&FontDetails { content: &FONT_A, size: 18 }).unwrap();
    assert_eq!(*first, "2@18");
    assert_eq!(loader.calls.get(), 1);
    let second = manager.load(&FontDetails { content: &FONT_A_AGAIN, size: 18 }).unwrap();
    assert!(Rc::ptr_eq(&first, &second));
    assert_eq!(loader.calls.get(), 1);
}

#[test]
fn resources_are_told_apart_by_content_and_size() {
    let loader = CountingLoader { calls: Cell::new(0) };
    let mut manager: ResourceManager<FontDetails, String, CountingLoader> = ResourceManager::new(&loader);
    let a18 = manager.load(&FontDetails { content: &FONT_A, size: 18 }).unwrap();
    let a26 = manager.load(&FontDetails { content: &FONT_A, size: 26 }).unwrap();
    let b18 = manager.load(&FontDetails { content: &FONT_B, size: 18 }).unwrap();
    assert_eq!((a18.as_str(), a26.as_str(), b18.as_str()), ("2@18", "2@26", "3@18"));
    assert_eq!(loader.calls.get(), 3);
    assert!(Rc::ptr_eq(&a26, &manager.load(&FontDetails { content: &FONT_A, size: 26 }).unwrap()));
    assert!(Rc::ptr_eq(&a18, &manager.lookup(&FontDetails { content: &FONT_A, size: 18 }).unwrap()));
    assert!(manager.lookup(&FontDetails { content: &FONT_B, size: 26 }).is_none());
    assert_eq!(loader.calls.get(), 3);
}

#[test]
fn a_failed_load_is_handed_on_and_caches_nothing() {
    let loader = CountingLoader { calls: Cell::new(0) };
    let mut manager: ResourceManager<FontDetails, String, CountingLoader> = ResourceManager::new(&loader);
    let details = FontDetails { content: &FONT_A, size: 0 };
    assert_eq!(manager.load(&details), Err("no size".to_string()));
    assert!(manager.lookup(&details).is_none());
    assert_eq!(manager.load(&details), Err("no size".to_string()));
    assert_eq!(loader.calls.get(), 2);
}

#[test]
fn store_caches_a_resource_and_hands_a_failure_on() {
    let loader = CountingLoader { calls: Cell::new(0) };
    let mut manager: ResourceManager<FontDetails, String, CountingLoader> = ResourceManager::new(&loader);
    let details = FontDetails { content: &FONT_B, size: 12 };
    assert_eq!(manager.store(&details, Err("broken".to_string())), Err("broken".to_string()));
    assert!(manager.lookup(&details).is_none());
    let stored = manager.store(&details, Ok("font".to_string())).unwrap();
    assert_eq!(*stored, "font");
    assert!(Rc::ptr_eq(&stored, &manager.load(&details).unwrap()));
    assert_eq!(loader.calls.get(), 0);
}

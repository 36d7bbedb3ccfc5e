//! What every element on the screen can do: report its rectangle and react to
//! keys, to the mouse and to the tick of the simulation. An element that
//! reacts to an event may fire actions, which the host carries out.

pub mod button;
pub mod chain;
pub mod image;
pub mod text;

use vstd::prelude::*;
use crate::engine::geometry::Rect;
use crate::engine::input::{InputEvent, MouseButton};

pub use self::button::ButtonView;
pub use self::chain::ViewChain;
pub use self::image::ImageView;
pub use self::text::TextView;

verus! {

/// An element of the view tree. `A` is the type of the actions that elements
/// fire. Each handler is described by a relation between the element before
/// and after the event and by the sequence of actions that the event fires.
pub trait UiView<A>: Sized {
    /// Whether the element is well formed.
    spec fn wf(&self) -> bool;

    /// The rectangle of the element.
    spec fn spec_bound(&self) -> Rect;

    /// Whether `after` is this element after the key `key` went down.
    spec fn after_key_down(&self, after: &Self, key: i32) -> bool;

    /// What the key `key` going down fires.
    spec fn fired_by_key_down(&self, key: i32) -> Seq<A>;

    /// Whether `after` is this element after a mouse button went down.
    spec fn after_mouse_button_down(&self, after: &Self, button: MouseButton, x: i32, y: i32) -> bool;

    /// What a mouse button going down fires.
    spec fn fired_by_mouse_button_down(&self, button: MouseButton, x: i32, y: i32) -> Seq<A>;

    /// Whether `after` is this element after the pointer moved.
    spec fn after_mouse_motion(&self, after: &Self, x: i32, y: i32) -> bool;

    /// Whether `after` is this element after a tick of the simulation.
    spec fn after_tick(&self, after: &Self) -> bool;

    /// The rectangle of the element.
    fn get_bound(&self) -> (bound: Rect)
        requires
            self.wf(),
        ensures
            bound == self.spec_bound(),
            bound.wf(),
    ;

    /// A key went down.
    fn on_key_down(&mut self, key: i32) -> (fired: Vec<A>)
        requires
            old(self).wf(),
        ensures
            final(self).wf(),
            old(self).after_key_down(final(self), key),
            fired@ == old(self).fired_by_key_down(key),
    ;

    /// A mouse button went down with the pointer at `(x, y)`.
    fn on_mouse_button_down(&mut self, button: MouseButton, x: i32, y: i32) -> (fired: Vec<A>)
        requires
            old(self).wf(),
        ensures
            final(self).wf(),
            old(self).after_mouse_button_down(final(self), button, x, y),
            fired@ == old(self).fired_by_mouse_button_down(button, x, y),
    ;

    /// The pointer moved to `(x, y)`.
    fn on_mouse_motion(&mut self, x: i32, y: i32)
        requires
            old(self).wf(),
        ensures
            final(self).wf(),
            old(self).after_mouse_motion(final(self), x, y),
    ;

    /// The simulation ticked.
    fn on_tick(&mut self)
        requires
            old(self).wf(),
        ensures
            final(self).wf(),
            old(self).after_tick(final(self)),
    ;

    /// Hands an input event to the one handler that is meant for it: a key
    /// with a key code goes to the key handler, a button press to the button
    /// handler, a motion to the motion handler. Any other event is dropped
    /// and changes nothing.
    fn on_event(&mut self, event: &InputEvent) -> (fired: Vec<A>)
        requires
            old(self).wf(),
        ensures
            final(self).wf(),
            match *event {
                InputEvent::KeyDown { keycode: Some(key) } => old(self).after_key_down(
                    final(self),
                    key,
                ) && fired@ == old(self).fired_by_key_down(key),
                InputEvent::MouseButtonDown { button, x, y } => old(self).after_mouse_button_down(
                    final(self),
                    button,
                    x,
                    y,
                ) && fired@ == old(self).fired_by_mouse_button_down(button, x, y),
                InputEvent::MouseMotion { x, y } => old(self).after_mouse_motion(final(self), x, y)
                    && fired@ == Seq::<A>::empty(),
                _ => *final(self) == *old(self) && fired@ == Seq::<A>::empty(),
            },
    {
        match *event {
            InputEvent::KeyDown { keycode: Some(key) } => self.on_key_down(key),
            InputEvent::MouseButtonDown { button, x, y } => self.on_mouse_button_down(button, x, y),
            InputEvent::MouseMotion { x, y } => {
                self.on_mouse_motion(x, y);
                Vec::new()
            },
            _ => Vec::new(),
        }
    }
}

} // verus!

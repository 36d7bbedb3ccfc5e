//! The button: a rectangle that fires its action when the left mouse button
//! goes down inside it. It draws nothing itself.

use vstd::prelude::*;
use crate::engine::geometry::Rect;
use crate::engine::input::MouseButton;
use crate::engine::view::UiView;

verus! {

/// A rectangle on the screen that fires the action `action` when it is
/// pressed.
pub struct ButtonView<A> {
    bound: Rect,
    action: A,
}

impl<A: Copy> ButtonView<A> {
    /// The rectangle of the button.
    pub closed spec fn bound(&self) -> Rect {
        self.bound
    }

    /// What the button fires.
    pub closed spec fn action(&self) -> A {
        self.action
    }

    /// What a press fires: the action, if it is the left button that went
    /// down and the pointer is inside the rectangle; nothing otherwise.
    pub open spec fn fired(&self, button: MouseButton, x: i32, y: i32) -> Seq<A> {
        if button == MouseButton::Left && self.bound().spec_contains(x as int, y as int) {
            seq![self.action()]
        } else {
            Seq::empty()
        }
    }

    /// A button in the rectangle `bound` that fires `action`.
    pub fn new(bound: Rect, action: A) -> (button: ButtonView<A>)
        ensures
            button.bound() == bound,
            button.action() == action,
    {
        ButtonView { bound, action }
    }
}

impl<A: Copy> UiView<A> for ButtonView<A> {
    open spec fn wf(&self) -> bool {
        self.bound().wf()
    }

    open spec fn spec_bound(&self) -> Rect {
        self.bound()
    }

    open spec fn after_key_down(&self, after: &Self, key: i32) -> bool {
        *after == *self
    }

    open spec fn fired_by_key_down(&self, key: i32) -> Seq<A> {
        Seq::empty()
    }

    open spec fn after_mouse_button_down(&self, after: &Self, button: MouseButton, x: i32, y: i32) -> bool {
        *after == *self
    }

    open spec fn fired_by_mouse_button_down(&self, button: MouseButton, x: i32, y: i32) -> Seq<A> {
        self.fired(button, x, y)
    }

    open spec fn after_mouse_motion(&self, after: &Self, x: i32, y: i32) -> bool {
        *after == *self
    }

    open spec fn after_tick(&self, after: &Self) -> bool {
        *after == *self
    }

    fn get_bound(&self) -> (bound: Rect) {
        self.bound
    }

    fn on_key_down(&mut self, key: i32) -> (fired: Vec<A>) {
        Vec::new()
    }

    fn on_mouse_button_down(&mut self, button: MouseButton, x: i32, y: i32) -> (fired: Vec<A>) {
        assert(old(self).wf());
        let mut fired: Vec<A> = Vec::new();
        if let MouseButton::Left = button {
            if self.bound.contains_point(x, y) {
                fired.push(self.action);
            }
        }
        assert(old(self).after_mouse_button_down(&*self, button, x, y));
        assert(fired@ =~= old(self).fired_by_mouse_button_down(button, x, y));
        fired
    }

    fn on_mouse_motion(&mut self, x: i32, y: i32) {
    }

    fn on_tick(&mut self) {
    }
}

} // verus!

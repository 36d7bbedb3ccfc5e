//! The image view: a picture, given as the bytes of an image file, that fills
//! the view's rectangle. The host decodes the bytes when the view is first
//! drawn.

use vstd::prelude::*;
use crate::engine::geometry::Rect;
use crate::engine::input::MouseButton;
use crate::engine::view::UiView;

verus! {

/// The image view as a mathematical value.
pub struct Image {
    pub bound: Rect,
    pub image: Seq<u8>,
    pub loaded: bool,
}

/// What the host is to do to draw the image.
#[derive(Clone, Copy, Debug, PartialEq, Eq, Structural)]
pub enum ImageDraw {
    /// Decode the image, report it with `set_loaded`, and ask again.
    Load,
    /// Copy the whole picture to `destination`.
    Copy { destination: Rect },
}

/// A picture in a rectangle, and the record of whether the host holds it
/// decoded.
pub struct ImageView {
    bound: Rect,
    image: &'static [u8],
    loaded: bool,
}

impl View for ImageView {
    type V = Image;

    closed spec fn view(&self) -> Image {
        Image { bound: self.bound, image: self.image@, loaded: self.loaded }
    }
}

impl ImageView {
    /// An image view whose picture has not been decoded yet.
    pub fn new(bound: Rect, image: &'static [u8]) -> (view: ImageView)
        ensures
            view@ == (Image { bound, image: image@, loaded: false }),
    {
        ImageView { bound, image, loaded: false }
    }

    /// Records that the host holds the decoded picture.
    pub fn set_loaded(&mut self)
        ensures
            final(self)@ == (Image { loaded: true, ..old(self)@ }),
    {
        self.loaded = true;
    }

    /// What the host is to do to draw the image.
    pub fn render(&self) -> (draw: ImageDraw)
        ensures
            draw == (if self@.loaded {
                ImageDraw::Copy { destination: self@.bound }
            } else {
                ImageDraw::Load
            }),
    {
        if self.loaded {
            ImageDraw::Copy { destination: self.bound }
        } else {
            ImageDraw::Load
        }
    }

    pub fn get_image(&self) -> (image: &'static [u8])
        ensures
            image@ == self@.image,
    {
        self.image
    }
}

impl<A> UiView<A> for ImageView {
    open spec fn wf(&self) -> bool {
        self@.bound.wf()
    }

    open spec fn spec_bound(&self) -> Rect {
        self@.bound
    }

    open spec fn after_key_down(&self, after: &Self, key: i32) -> bool {
        after@ == self@
    }

    open spec fn fired_by_key_down(&self, key: i32) -> Seq<A> {
        Seq::empty()
    }

    open spec fn after_mouse_button_down(&self, after: &Self, button: MouseButton, x: i32, y: i32) -> bool {
        after@ == self@
    }

    open spec fn fired_by_mouse_button_down(&self, button: MouseButton, x: i32, y: i32) -> Seq<A> {
        Seq::empty()
    }

    open spec fn after_mouse_motion(&self, after: &Self, x: i32, y: i32) -> bool {
        after@ == self@
    }

    open spec fn after_tick(&self, after: &Self) -> bool {
        after@ == self@
    }

    fn get_bound(&self) -> (bound: Rect) {
        self.bound
    }

    fn on_key_down(&mut self, key: i32) -> (fired: Vec<A>) {
        Vec::new()
    }

    fn on_mouse_button_down(&mut self, button: MouseButton, x: i32, y: i32) -> (fired: Vec<A>) {
        Vec::new()
    }

    fn on_mouse_motion(&mut self, x: i32, y: i32) {
    }

    fn on_tick(&mut self) {
    }
}

} // verus!

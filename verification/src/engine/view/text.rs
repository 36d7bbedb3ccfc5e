//! The text view: a line of text in a font, size and colour. The text is
//! rasterised by the host when it is first drawn and again after every change
//! to the text or the colour; what is drawn is clipped to the view's rectangle.

use vstd::prelude::*;
use crate::engine::geometry::{Color, Rect};
use crate::engine::input::MouseButton;
use crate::engine::view::UiView;

verus! {

/// The text view as a mathematical value.
pub struct Text {
    pub bound: Rect,
    pub text: Seq<char>,
    pub font: Seq<u8>,
    pub size: u16,
    pub color: Color,
    /// Where the rasterised text is drawn; `None` until it has been rasterised.
    pub render_bound: Option<Rect>,
}

/// The rectangle into which text of the given natural extent is drawn: it
/// shares its top-left corner with the view, and is in each direction the
/// smaller of the text and the view.
pub open spec fn clipped_bound(bound: Rect, surface_width: u32, surface_height: u32) -> Rect {
    Rect::spec_new(
        bound.x as int,
        bound.y as int,
        vstd::math::min(surface_width as int, bound.w as int),
        vstd::math::min(surface_height as int, bound.h as int),
    )
}

/// What the host is to do to draw the text.
#[derive(Clone, Copy, Debug, PartialEq, Eq, Structural)]
pub enum TextDraw {
    /// Rasterise the text in its font, size and colour, report the extent of
    /// the result with `set_rasterized`, and ask again.
    Rasterize,
    /// Copy the part `source` of the rasterised text to `destination`.
    Copy { source: Rect, destination: Rect },
}

/// A line of text with its font, size and colour, and the record of where
/// its rasterised bitmap is drawn.
pub struct TextView {
    bound: Rect,
    text: String,
    font: &'static [u8],
    size: u16,
    color: Color,
    render_bound: Option<Rect>,
}

impl View for TextView {
    type V = Text;

    closed spec fn view(&self) -> Text {
        Text {
            bound: self.bound,
            text: self.text@,
            font: self.font@,
            size: self.size,
            color: self.color,
            render_bound: self.render_bound,
        }
    }
}

impl TextView {
    /// A text view that has not been rasterised yet.
    pub fn new(bound: Rect, text: String, font: &'static [u8], size: u16, color: Color) -> (view:
        TextView)
        ensures
            view@ == (Text {
                bound,
                text: text@,
                font: font@,
                size,
                color,
                render_bound: None,
            }),
    {
        TextView { bound, text, font, size, color, render_bound: None }
    }

    /// Replaces the text; what was rasterised is no longer valid.
    pub fn set_text(&mut self, text: String)
        ensures
            final(self)@ == (Text { text: text@, render_bound: None, ..old(self)@ }),
    {
        self.text = text;
        self.render_bound = None;
    }

    /// Replaces the colour; what was rasterised is no longer valid.
    pub fn set_color(&mut self, color: Color)
        ensures
            final(self)@ == (Text { color, render_bound: None, ..old(self)@ }),
    {
        self.color = color;
        self.render_bound = None;
    }

    /// Records that the text has been rasterised to a bitmap of the given
    /// extent.
    pub fn set_rasterized(&mut self, surface_width: u32, surface_height: u32)
        ensures
            final(self)@ == (Text {
                render_bound: Some(clipped_bound(old(self)@.bound, surface_width, surface_height)),
                ..old(self)@
            }),
    {
        let width = if surface_width < self.bound.width() {
            surface_width
        } else {
            self.bound.width()
        };
        let height = if surface_height < self.bound.height() {
            surface_height
        } else {
            self.bound.height()
        };
        self.render_bound = Some(Rect::new(self.bound.x(), self.bound.y(), width, height));
    }

    /// What the host is to do to draw the text.
    pub fn render(&self) -> (draw: TextDraw)
        ensures
            draw == (match self@.render_bound {
                None => TextDraw::Rasterize,
                Some(render_bound) => TextDraw::Copy {
                    source: Rect::spec_new(0, 0, render_bound.w as int, render_bound.h as int),
                    destination: render_bound,
                },
            }),
    {
        match self.render_bound {
            None => TextDraw::Rasterize,
            Some(render_bound) => TextDraw::Copy {
                source: Rect::new(0, 0, render_bound.width(), render_bound.height()),
                destination: render_bound,
            },
        }
    }

    pub fn get_text(&self) -> (text: &String)
        ensures
            text@ == self@.text,
    {
        &self.text
    }

    pub fn get_font(&self) -> (font: &'static [u8])
        ensures
            font@ == self@.font,
    {
        self.font
    }

    pub fn get_size(&self) -> (size: u16)
        ensures
            size == self@.size,
    {
        self.size
    }

    pub fn get_color(&self) -> (color: Color)
        ensures
            color == self@.color,
    {
        self.color
    }
}

impl<A> UiView<A> for TextView {
    open spec fn wf(&self) -> bool {
        self@.bound.wf()
    }

    open spec fn spec_bound(&self) -> Rect {
        self@.bound
    }

    open spec fn after_key_down(&self, after: &Self, key: i32) -> bool {
        after@ == self@
    }

    open spec fn fired_by_key_down(&self, key: i32) -> Seq<A> {
        Seq::empty()
    }

    open spec fn after_mouse_button_down(&self, after: &Self, button: MouseButton, x: i32, y: i32) -> bool {
        after@ == self@
    }

    open spec fn fired_by_mouse_button_down(&self, button: MouseButton, x: i32, y: i32) -> Seq<A> {
        Seq::empty()
    }

    open spec fn after_mouse_motion(&self, after: &Self, x: i32, y: i32) -> bool {
        after@ == self@
    }

    open spec fn after_tick(&self, after: &Self) -> bool {
        after@ == self@
    }

    fn get_bound(&self) -> (bound: Rect) {
        self.bound
    }

    fn on_key_down(&mut self, key: i32) -> (fired: Vec<A>) {
        Vec::new()
    }

    fn on_mouse_button_down(&mut self, button: MouseButton, x: i32, y: i32) -> (fired: Vec<A>) {
        Vec::new()
    }

    fn on_mouse_motion(&mut self, x: i32, y: i32) {
    }

    fn on_tick(&mut self) {
    }
}

} // verus!

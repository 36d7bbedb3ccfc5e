use conway_rs::engine::geometry::{Color, Rect};
use conway_rs::engine::input::{InputEvent, MouseButton};
use conway_rs::engine::view::image::ImageDraw;
use conway_rs::engine::view::text::TextDraw;
use conway_rs::engine::view::{ButtonView, ImageView, TextView, UiView, ViewChain};

static FONT: [u8; 3] = [1, 2, 3];

#[test]
fn button_fires_on_a_left_press_inside() {
    let mut button = ButtonView::new(Rect::new(20, 100, 100, 40), 7u8);
    assert_eq!(button.on_mouse_button_down(MouseButton::Left, 20, 100), vec![7]);
    assert_eq!(button.on_mouse_button_down(MouseButton::Left, 119, 139), vec![7]);
    assert_eq!(button.on_mouse_button_down(MouseButton::Left, 120, 139), Vec::<u8>::new());
    assert_eq!(button.on_mouse_button_down(MouseButton::Left, 119, 140), Vec::<u8>::new());
    assert_eq!(button.on_mouse_button_down(MouseButton::Left, 19, 100), Vec::<u8>::new());
    assert_eq!(button.on_mouse_button_down(MouseButton::Right, 50, 120), Vec::<u8>::new());
    assert_eq!(button.on_key_down(13), Vec::<u8>::new());
    assert_eq!(button.get_bound(), Rect::new(20, 100, 100, 40));
}

#[test]
fn chain_hands_every_event_to_every_child_in_order() {
    let mut chain: ViewChain<ButtonView<u8>> = ViewChain::new();
    chain.add_view(ButtonView::new(Rect::new(0, 0, 10, 10), 1));
    chain.add_view(ButtonView::new(Rect::new(5, 5, 10, 10), 2));
    chain.add_view(ButtonView::new(Rect::new(0, 0, 100, 100), 3));
    assert_eq!(chain.len(), 3);
    assert_eq!(chain.on_mouse_button_down(MouseButton::Left, 7, 7), vec![1, 2, 3]);
    assert_eq!(chain.on_mouse_button_down(MouseButton::Left, 12, 12), vec![2, 3]);
    assert_eq!(chain.on_mouse_button_down(MouseButton::Left, 2, 2), vec![1, 3]);
    assert_eq!(chain.on_mouse_button_down(MouseButton::Left, 200, 2), Vec::<u8>::new());
    assert_eq!(chain.on_mouse_button_down(MouseButton::Middle, 7, 7), Vec::<u8>::new());
    assert_eq!(chain.on_key_down(32), Vec::<u8>::new());
    chain.on_mouse_motion(1, 1);
    chain.on_tick();
    assert_eq!(chain.get(1).get_bound(), Rect::new(5, 5, 10, 10));
}

#[test]
fn chain_bound_is_the_union_of_the_children() {
    let mut chain: ViewChain<ButtonView<u8>> = ViewChain::new();
    assert_eq!(chain.get_bound(), Rect::new(0, 0, 1, 1));
    assert_eq!(chain.len(), 0);
    chain.add_view(ButtonView::new(Rect::new(200, 10, 600, 600), 1));
    assert_eq!(chain.get_bound(), Rect::new(200, 10, 600, 600));
    chain.add_view(ButtonView::new(Rect::new(20, 20, 150, 40), 2));
    assert_eq!(chain.get_bound(), Rect::new(20, 10, 780, 600));
    chain.add_view(ButtonView::new(Rect::new(20, 480, 100, 200), 3));
    assert_eq!(chain.get_bound(), Rect::new(20, 10, 780, 670));
}

#[test]
fn chains_nest() {
    let mut inner: ViewChain<ButtonView<u8>> = ViewChain::new();
    inner.add_view(ButtonView::new(Rect::new(0, 0, 10, 10), 1));
    inner.add_view(ButtonView::new(Rect::new(0, 0, 20, 20), 2));
    let mut second: ViewChain<ButtonView<u8>> = ViewChain::new();
    second.add_view(ButtonView::new(Rect::new(0, 0, 30, 30), 3));
    let mut outer: ViewChain<ViewChain<ButtonView<u8>>> = ViewChain::new();
    outer.add_view(inner);
    outer.add_view(second);
    assert_eq!(outer.get_bound(), Rect::new(0, 0, 30, 30));
    assert_eq!(outer.on_mouse_button_down(MouseButton::Left, 5, 5), vec![1, 2, 3]);
    assert_eq!(outer.on_mouse_button_down(MouseButton::Left, 15, 5), vec![2, 3]);
    assert_eq!(outer.on_mouse_button_down(MouseButton::Left, 25, 5), vec![3]);
}

#[test]
fn on_event_goes_to_the_handler_meant_for_it() {
    let mut button = ButtonView::new(Rect::new(0, 0, 10, 10), 'a');
    let press = InputEvent::MouseButtonDown { button: MouseButton::Left, x: 3, y: 3 };
    assert_eq!(button.on_event(&press), vec!['a']);
    let miss = InputEvent::MouseButtonDown { button: MouseButton::Left, x: 13, y: 3 };
    assert_eq!(button.on_event(&miss), Vec::<char>::new());
    assert_eq!(button.on_event(&InputEvent::MouseMotion { x: 3, y: 3 }), Vec::<char>::new());
    assert_eq!(button.on_event(&InputEvent::KeyDown { keycode: Some(5) }), Vec::<char>::new());
    assert_eq!(button.on_event(&InputEvent::KeyDown { keycode: None }), Vec::<char>::new());
    assert_eq!(button.on_event(&InputEvent::Quit), Vec::<char>::new());
    assert_eq!(button.on_event(&InputEvent::Other), Vec::<char>::new());
}

#[test]
fn text_is_rasterised_once_and_again_after_a_change() {
    let black = Color { r: 0, g: 0, b: 0 };
    let mut text = TextView::new(Rect::new(20, 20, 150, 40), "Speed: 1".to_string(), &FONT, 26, black);
    assert_eq!(text.render(), TextDraw::Rasterize);
    text.set_rasterized(90, 30);
    let copy = TextDraw::Copy { source: Rect::new(0, 0, 90, 30), destination: Rect::new(20, 20, 90, 30) };
    assert_eq!(text.render(), copy);
    assert_eq!(text.render(), copy);
    text.set_text("Speed: 2".to_string());
    assert_eq!(text.get_text(), "Speed: 2");
    assert_eq!(text.render(), TextDraw::Rasterize);
    text.set_rasterized(90, 30);
    text.set_color(Color { r: 9, g: 8, b: 7 });
    assert_eq!(text.get_color(), Color { r: 9, g: 8, b: 7 });
    assert_eq!(text.render(), TextDraw::Rasterize);
    assert_eq!(text.get_size(), 26);
    assert_eq!(text.get_font(), &FONT[..]);
}

#[test]
fn text_is_clipped_to_its_bound() {
    let black = Color { r: 0, g: 0, b: 0 };
    let mut text = TextView::new(Rect::new(20, 20, 150, 40), "wide".to_string(), &FONT, 26, black);
    text.set_rasterized(400, 30);
    assert_eq!(
        text.render(),
        TextDraw::Copy { source: Rect::new(0, 0, 150, 30), destination: Rect::new(20, 20, 150, 30) }
    );
    text.set_rasterized(100, 64);
    assert_eq!(
        text.render(),
        TextDraw::Copy { source: Rect::new(0, 0, 100, 40), destination: Rect::new(20, 20, 100, 40) }
    );
    text.set_rasterized(0, 0);
    assert_eq!(
        text.render(),
        TextDraw::Copy { source: Rect::new(0, 0, 1, 1), destination: Rect::new(20, 20, 1, 1) }
    );
}

#[test]
fn image_is_loaded_before_it_is_copied() {
    let mut image = ImageView::new(Rect::new(20, 480, 100, 100), &FONT);
    assert_eq!(image.render(), ImageDraw::Load);
    image.set_loaded();
    assert_eq!(image.render(), ImageDraw::Copy { destination: Rect::new(20, 480, 100, 100) });
    assert_eq!(image.get_image(), &FONT[..]);
}

#[test]
fn chain_hands_on_what_on_event_decomposes() {
    let mut chain: ViewChain<ButtonView<u8>> = ViewChain::new();
    chain.add_view(ButtonView::new(Rect::new(0, 0, 10, 10), 1));
    chain.add_view(ButtonView::new(Rect::new(0, 0, 20, 20), 2));
    let press = InputEvent::MouseButtonDown { button: MouseButton::Left, x: 15, y: 15 };
    assert_eq!(chain.on_event(&press), vec![2]);
    assert_eq!(chain.on_event(&InputEvent::Quit), Vec::<u8>::new());
    assert_eq!(chain.on_event(&InputEvent::KeyDown { keycode: Some(27) }), Vec::<u8>::new());
}

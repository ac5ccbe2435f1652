//! Tests of the window builder and the window state machine.

use rg3d::window::{
    Handle, UiContext, WidgetBuilder, Window, WindowBuilder, WindowMessage, WindowTitle,
};

fn build_default(ui: &mut UiContext) -> Handle {
    WindowBuilder::new(WidgetBuilder::new()).build(ui)
}

fn built_window(configure: impl FnOnce(WindowBuilder) -> WindowBuilder) -> Window {
    let mut ui = UiContext::new();
    let builder = configure(WindowBuilder::new(WidgetBuilder::new()));
    builder.build(&mut ui);
    ui.windows.pop().expect("one window built")
}

#[test]
fn builder_defaults() {
    let w = built_window(|b| b);
    assert!(w.visible);
    assert!(!w.minimized);
    assert!(w.can_close);
    assert!(w.can_minimize);
    assert!(!w.is_dragging);
    assert_eq!(w.content, Handle::new(0, 0));
    assert_eq!(w.grips_dragging, vec![false; 8]);
}

#[test]
fn builder_setters_reach_the_window() {
    let content = Handle::new(42, 7);
    let w = built_window(|b| {
        b.with_content(content).can_close(false).can_minimize(false).open(false)
    });
    assert_eq!(w.content, content);
    assert!(!w.can_close);
    assert!(!w.can_minimize);
    assert!(!w.visible);
}

#[test]
fn build_allocates_default_chrome() {
    // With no title and no custom buttons the build allocates the minimize
    // button, the close button, the header and the window, in that order.
    let mut ui = UiContext::new();
    let h = build_default(&mut ui);
    assert_eq!(ui.next_node_index, 5);
    assert_eq!(h, Handle::new(4, 1));
    let w = &ui.windows[0];
    assert_eq!(w.minimize_button, Handle::new(1, 1));
    assert_eq!(w.close_button, Handle::new(2, 1));
    assert_eq!(w.header, Handle::new(3, 1));
}

#[test]
fn text_title_allocates_a_node() {
    let mut ui = UiContext::new();
    let h = WindowBuilder::new(WidgetBuilder::new())
        .with_title(WindowTitle::Text(String::from("Settings")))
        .build(&mut ui);
    // One extra node for the title text.
    assert_eq!(ui.next_node_index, 6);
    assert_eq!(h, Handle::new(5, 1));
    assert_eq!(ui.windows[0].minimize_button, Handle::new(2, 1));
}

#[test]
fn custom_buttons_are_kept() {
    let minimize = Handle::new(90, 1);
    let close = Handle::new(91, 1);
    let w = built_window(|b| b.with_minimize_button(minimize).with_close_button(close));
    assert_eq!(w.minimize_button, minimize);
    assert_eq!(w.close_button, close);
}

#[test]
fn modal_build_pushes_picking_restriction() {
    let mut ui = UiContext::new();
    let h = WindowBuilder::new(WidgetBuilder::new()).modal(true).build(&mut ui);
    assert_eq!(ui.picking_restrictions, vec![h]);
    let mut plain = UiContext::new();
    build_default(&mut plain);
    assert!(plain.picking_restrictions.is_empty());
}

#[test]
fn window_state_transitions() {
    let mut w = built_window(|b| b);
    w.close();
    assert!(!w.visible);
    w.open();
    assert!(w.visible);
    w.minimize(true);
    assert!(w.minimized);
    w.minimize(false);
    assert!(!w.minimized);
    w.set_can_close(false);
    assert!(!w.can_close);
    w.set_can_minimize(false);
    assert!(!w.can_minimize);
}

#[test]
fn window_messages_drive_state() {
    let mut w = built_window(|b| b);
    w.handle_window_message(WindowMessage::Close);
    assert!(!w.visible);
    w.handle_window_message(WindowMessage::OpenModal);
    assert!(w.visible);
    w.handle_window_message(WindowMessage::Move(10, -20));
    assert_eq!((w.desired_x, w.desired_y), (10, -20));
    w.handle_window_message(WindowMessage::MoveStart);
    assert!(w.is_dragging());
    w.handle_window_message(WindowMessage::MoveEnd);
    assert!(!w.is_dragging());
}

#[test]
fn remove_ref_clears_matching_handles() {
    let mut w = built_window(|b| b.with_content(Handle::new(42, 7)));
    let header = w.header;
    w.remove_ref(header);
    assert_eq!(w.header, Handle::new(0, 0));
    assert_eq!(w.content, Handle::new(42, 7));
    w.remove_ref(Handle::new(42, 7));
    assert_eq!(w.content, Handle::new(0, 0));
}

#[test]
fn grip_tracking() {
    let mut w = built_window(|b| b);
    assert!(!w.has_active_grip());
    w.grips_dragging[5] = true;
    assert!(w.has_active_grip());
    assert_eq!(w.drag_delta(), (0, 0));
}

use iced_pure::capability::Widget;
use iced_pure::dispatch::{Event, Interaction, Shell, Status};
use iced_pure::geometry::{add_saturating, Length, Limits, Node, Point, Rectangle, Size};
use iced_pure::tree::{State, Tree};
use iced_pure::widget;
use iced_pure::widget::{
    button, checkbox, container, image, row, scrollable, slider, text, text_input, Element, Kind,
};

fn sz(width: u32, height: u32) -> Size {
    Size { width, height }
}

fn limits(w: u32, h: u32) -> Limits {
    Limits::new(sz(0, 0), sz(w, h))
}

fn pt(x: u32, y: u32) -> Point {
    Point { x, y }
}

/// Two buttons side by side, each around a 10x10 text, 5 pixels apart.
fn two_buttons() -> Element {
    row()
        .spacing(5)
        .push(button(text(sz(10, 10))).on_press(1))
        .push(button(text(sz(10, 10))).on_press(2))
}

#[test]
fn constructors_set_kind_and_children() {
    assert_eq!(widget::column().kind, Kind::Column);
    assert_eq!(row().kind, Kind::Row);
    assert_eq!(button(text(sz(1, 1))).kind, Kind::Button);
    assert_eq!(button(text(sz(1, 1))).children.len(), 1);
    assert_eq!(image(sz(4, 3)).content, sz(4, 3));
    assert_eq!(container(text(sz(1, 1))).kind, Kind::Container);
    assert_eq!(scrollable(widget::column()).kind, Kind::Scrollable);
    assert_eq!(checkbox(sz(2, 2), 9).on_press, Some(9));
    assert_eq!(text_input(sz(2, 2)).kind, Kind::TextInput);
    assert_eq!(slider(sz(2, 2)).kind, Kind::Slider);
    assert!(widget::column().children.is_empty());
}

#[test]
fn fresh_tree_mirrors_widget() {
    let w = widget::column().push(button(text(sz(1, 1)))).push(scrollable(text(sz(1, 1))));
    let t = Tree::new(&w);
    assert_eq!(t.tag, Kind::Column);
    assert_eq!(t.state, State::Empty);
    assert_eq!(t.children.len(), 2);
    assert_eq!(t.children[0].state, State::Button { is_pressed: false });
    assert_eq!(t.children[1].state, State::Scrollable { offset: 0 });
    assert_eq!(t.children[1].children[0].tag, Kind::Text);
}

#[test]
fn tag_is_stable_across_content() {
    let a = button(text(sz(1, 1)));
    let b = button(image(sz(50, 50))).on_press(3).width(Length::Fill);
    assert_eq!(a.tag(), b.tag());
    let mut t = Tree::new(&a);
    t.state = State::Button { is_pressed: true };
    t.diff(&b);
    assert_eq!(t.tag, Kind::Button);
    assert_eq!(t.state, State::Button { is_pressed: true });
    // the child changed kind, so it alone is rebuilt
    assert_eq!(t.children[0].tag, Kind::Image);
}

#[test]
fn kind_change_resets_state() {
    let mut t = Tree::new(&scrollable(text(sz(1, 1))));
    t.state = State::Scrollable { offset: 40 };
    let b = button(text(sz(1, 1)));
    t.diff(&b);
    assert_eq!(t.tag, Kind::Button);
    assert_eq!(t.state, b.state());
    assert_eq!(t.state, State::Button { is_pressed: false });
}

#[test]
fn removing_first_child_shifts_positions() {
    let first = widget::column().push(scrollable(text(sz(1, 1)))).push(button(text(sz(1, 1))));
    let mut t = Tree::new(&first);
    t.children[0].state = State::Scrollable { offset: 7 };
    t.children[1].state = State::Button { is_pressed: true };
    let second = widget::column().push(button(text(sz(1, 1))));
    t.diff(&second);
    assert_eq!(t.children.len(), 1);
    assert_eq!(t.children[0].tag, Kind::Button);
    assert_eq!(t.children[0].state, State::Button { is_pressed: false });
}

#[test]
fn added_children_get_fresh_state() {
    let mut t = Tree::new(&widget::column().push(button(text(sz(1, 1)))));
    t.children[0].state = State::Button { is_pressed: true };
    t.diff(&widget::column().push(button(text(sz(1, 1)))).push(text_input(sz(3, 3))));
    assert_eq!(t.children.len(), 2);
    assert_eq!(t.children[0].state, State::Button { is_pressed: true });
    assert_eq!(t.children[1].state, State::TextInput { is_focused: false, cursor: 0 });
}

#[test]
fn column_layout_exact() {
    let w = widget::column().spacing(5).padding(2).push(text(sz(10, 4))).push(text(sz(6, 8)));
    let n = w.layout(&limits(100, 100));
    assert_eq!(n.size, sz(14, 21));
    assert_eq!(n.position, pt(0, 0));
    assert_eq!(n.children[0].position, pt(2, 2));
    assert_eq!(n.children[1].position, pt(2, 11));
    assert_eq!(n.children[0].size, sz(10, 4));
    assert_eq!(n.children[1].size, sz(6, 8));
}

#[test]
fn row_layout_exact() {
    let w = row().spacing(3).push(text(sz(10, 4))).push(text(sz(6, 8)));
    let n = w.layout(&limits(100, 100));
    assert_eq!(n.size, sz(19, 8));
    assert_eq!(n.children[0].position, pt(0, 0));
    assert_eq!(n.children[1].position, pt(13, 0));
}

#[test]
fn fill_and_units_policies() {
    let n = widget::column().width(Length::Fill).layout(&limits(100, 50));
    assert_eq!(n.size, sz(100, 0));
    let n = image(sz(30, 30)).width(Length::Units(500)).height(Length::Units(7)).layout(&limits(100, 50));
    assert_eq!(n.size, sz(100, 7));
    let lim = Limits::new(sz(20, 20), sz(100, 100));
    assert_eq!(lim.resolve(Length::Shrink, Length::Shrink, sz(5, 200)), sz(20, 100));
    assert_eq!(lim.loose().min, sz(0, 0));
}

fn same_nodes(a: &Node, b: &Node) -> bool {
    a.size == b.size
        && a.position == b.position
        && a.children.len() == b.children.len()
        && a.children.iter().zip(b.children.iter()).all(|(x, y)| same_nodes(x, y))
}

#[test]
fn layout_is_deterministic() {
    let w = widget::column().padding(3).spacing(1).push(two_buttons()).push(image(sz(40, 20)));
    let a = w.layout(&limits(300, 300));
    let b = w.layout(&limits(300, 300));
    assert!(same_nodes(&a, &b));
}

#[test]
fn hash_ignores_messages_and_sees_sizes() {
    let a = widget::column().push(button(text(sz(5, 5))).on_press(1));
    let b = widget::column().push(button(text(sz(5, 5))).on_press(2));
    assert_eq!(a.layout_hash(), b.layout_hash());
    let c = widget::column().push(button(text(sz(5, 5))).on_press(1).width(Length::Fill));
    assert_ne!(a.layout_hash(), c.layout_hash());
    let d = widget::column().push(button(text(sz(5, 6))).on_press(1));
    assert_ne!(a.layout_hash(), d.layout_hash());
}

#[test]
fn layout_key_lists_properties() {
    let mut key: Vec<u64> = Vec::new();
    image(sz(4, 3)).width(Length::Units(9)).hash_layout(&mut key);
    assert_eq!(key, vec![9, 2, 9, 1, 0, 4, 3, 0, 0, 0]);
}

#[test]
fn rectangle_contains_half_open() {
    let r = Rectangle { x: 10, y: 10, width: 5, height: 5 };
    assert!(r.contains(pt(10, 10)));
    assert!(r.contains(pt(14, 14)));
    assert!(!r.contains(pt(15, 10)));
    assert!(!r.contains(pt(9, 12)));
}

#[test]
fn capture_stops_propagation() {
    let w = two_buttons();
    let node = w.layout(&limits(200, 200));
    let mut t = Tree::new(&w);
    t.children[0].state = State::Button { is_pressed: true };
    t.children[1].state = State::Button { is_pressed: true };
    let mut shell = Shell::new();
    let st = w.on_event(&mut t, Event::ButtonReleased, &node, pt(0, 0), pt(3, 3), &mut shell);
    assert_eq!(st, Status::Captured);
    assert_eq!(t.children[0].state, State::Button { is_pressed: false });
    // the second button never saw the release
    assert_eq!(t.children[1].state, State::Button { is_pressed: true });
    assert_eq!(shell.messages, vec![1]);
    assert!(shell.redraw_requested);
    assert!(!shell.layout_invalidated);
}

#[test]
fn ignored_event_changes_nothing() {
    let w = two_buttons();
    let node = w.layout(&limits(200, 200));
    let mut t = Tree::new(&w);
    let mut shell = Shell::new();
    let st = w.on_event(&mut t, Event::KeyPressed(13), &node, pt(0, 0), pt(3, 3), &mut shell);
    assert_eq!(st, Status::Ignored);
    assert_eq!(t.children[0].state, State::Button { is_pressed: false });
    assert!(shell.messages.is_empty());
    let st = w.on_event(&mut t, Event::ButtonPressed, &node, pt(0, 0), pt(12, 3), &mut shell);
    assert_eq!(st, Status::Ignored);
    assert!(!shell.redraw_requested);
}

#[test]
fn two_frames_then_press() {
    let frame1 = two_buttons();
    let mut t = Tree::new(&frame1);
    let frame2 = two_buttons();
    t.diff(&frame2);
    assert_eq!(t.children.len(), 2);
    assert_eq!(t.children[0].state, State::Button { is_pressed: false });
    assert_eq!(t.children[1].state, State::Button { is_pressed: false });
    let node = frame2.layout(&limits(200, 200));
    assert_eq!(node.children[1].position, pt(15, 0));
    let mut shell = Shell::new();
    let st = frame2.on_event(&mut t, Event::ButtonPressed, &node, pt(0, 0), pt(17, 3), &mut shell);
    assert_eq!(st, Status::Captured);
    assert_eq!(t.children[0].state, State::Button { is_pressed: false });
    assert_eq!(t.children[1].state, State::Button { is_pressed: true });
    let st = frame2.on_event(&mut t, Event::ButtonReleased, &node, pt(0, 0), pt(17, 3), &mut shell);
    assert_eq!(st, Status::Captured);
    assert_eq!(t.children[1].state, State::Button { is_pressed: false });
    assert_eq!(shell.messages, vec![2]);
}

#[test]
fn pressed_state_survives_next_frame() {
    let w = two_buttons();
    let node = w.layout(&limits(200, 200));
    let mut t = Tree::new(&w);
    let mut shell = Shell::new();
    w.on_event(&mut t, Event::ButtonPressed, &node, pt(0, 0), pt(2, 2), &mut shell);
    t.diff(&two_buttons());
    assert_eq!(t.children[0].state, State::Button { is_pressed: true });
}

#[test]
fn release_outside_publishes_nothing() {
    let w = two_buttons();
    let node = w.layout(&limits(200, 200));
    let mut t = Tree::new(&w);
    let mut shell = Shell::new();
    w.on_event(&mut t, Event::ButtonPressed, &node, pt(0, 0), pt(2, 2), &mut shell);
    let st = w.on_event(&mut t, Event::ButtonReleased, &node, pt(0, 0), pt(100, 100), &mut shell);
    assert_eq!(st, Status::Captured);
    assert!(shell.messages.is_empty());
}

#[test]
fn wheel_scrolls_scrollable() {
    let w = scrollable(text(sz(10, 10)));
    let node = w.layout(&limits(50, 50));
    let mut t = Tree::new(&w);
    let mut shell = Shell::new();
    let st = w.on_event(&mut t, Event::WheelScrolled(3), &node, pt(0, 0), pt(1, 1), &mut shell);
    assert_eq!(st, Status::Captured);
    assert_eq!(t.state, State::Scrollable { offset: 3 });
    let st = w.on_event(&mut t, Event::WheelScrolled(3), &node, pt(0, 0), pt(40, 40), &mut shell);
    assert_eq!(st, Status::Ignored);
    assert_eq!(t.state, State::Scrollable { offset: 3 });
    let st = w.on_event(&mut t, Event::WheelScrolled(-1), &node, pt(0, 0), pt(1, 1), &mut shell);
    assert_eq!(st, Status::Captured);
    assert_eq!(t.state, State::Scrollable { offset: 2 });
    w.on_event(&mut t, Event::WheelScrolled(-10), &node, pt(0, 0), pt(1, 1), &mut shell);
    assert_eq!(t.state, State::Scrollable { offset: 0 });
}

#[test]
fn checkbox_toggles_on_release() {
    let w = checkbox(sz(8, 8), 5);
    let node = w.layout(&limits(50, 50));
    let mut t = Tree::new(&w);
    let mut shell = Shell::new();
    assert_eq!(w.on_event(&mut t, Event::ButtonPressed, &node, pt(0, 0), pt(1, 1), &mut shell), Status::Captured);
    assert_eq!(w.on_event(&mut t, Event::ButtonReleased, &node, pt(0, 0), pt(1, 1), &mut shell), Status::Captured);
    assert_eq!(shell.messages, vec![5]);
}

#[test]
fn mouse_interaction_topmost_wins() {
    let w = row().push(button(text(sz(10, 10)))).push(text_input(sz(10, 10))).push(slider(sz(10, 10)));
    let node = w.layout(&limits(100, 100));
    let t = Tree::new(&w);
    assert_eq!(w.mouse_interaction(&t, &node, pt(0, 0), pt(5, 5)), Interaction::Pointer);
    assert_eq!(w.mouse_interaction(&t, &node, pt(0, 0), pt(15, 5)), Interaction::Text);
    assert_eq!(w.mouse_interaction(&t, &node, pt(0, 0), pt(25, 5)), Interaction::Grab);
    assert_eq!(w.mouse_interaction(&t, &node, pt(0, 0), pt(90, 90)), Interaction::Idle);
}

#[test]
fn shell_flags_and_queue() {
    let mut s = Shell::new();
    assert!(!s.redraw_requested && !s.layout_invalidated);
    s.publish(4);
    s.publish(7);
    s.request_redraw();
    s.invalidate_layout();
    assert_eq!(s.messages, vec![4, 7]);
    assert!(s.redraw_requested && s.layout_invalidated);
}

#[test]
fn widget_interface_forwards() {
    let w = widget::column().width(Length::Fill).push(button(text(sz(4, 4))));
    assert_eq!(Widget::tag(&w), Kind::Column);
    assert_eq!(Widget::width(&w), Length::Fill);
    assert_eq!(Widget::height(&w), Length::Shrink);
    assert_eq!(Widget::state(&w), State::Empty);
    assert_eq!(Widget::children_state(&w)[0].state, State::Button { is_pressed: false });
    let node = Widget::layout(&w, &limits(40, 40));
    assert_eq!(node.size, sz(40, 4));
    let mut t = Tree::new(&w);
    assert!(w.is_aligned(&t, &node));
    t.children[0].state = State::Button { is_pressed: true };
    Widget::diff(&w, &mut t);
    assert_eq!(t.children[0].state, State::Button { is_pressed: true });
    let mut shell = Shell::new();
    let st = Widget::on_event(&w, &mut t, Event::ButtonReleased, &node, pt(0, 0), pt(1, 1), &mut shell);
    assert_eq!(st, Status::Captured);
    assert_eq!(Widget::mouse_interaction(&w, &t, &node, pt(0, 0), pt(1, 1)), Interaction::Pointer);
}

#[test]
fn misaligned_tree_detected() {
    let w = two_buttons();
    let node = w.layout(&limits(100, 100));
    let t = Tree::new(&widget::column());
    assert!(!w.is_aligned(&t, &node));
}

#[test]
fn saturating_geometry() {
    assert_eq!(add_saturating(u32::MAX - 1, 5), u32::MAX);
    assert_eq!(add_saturating(2, 3), 5);
    assert!(!Limits::new(sz(5, 0), sz(4, 10)).is_wf());
}

#[test]
fn text_input_focus_and_keys() {
    let w = text_input(sz(20, 5));
    let node = w.layout(&limits(50, 50));
    let mut t = Tree::new(&w);
    let mut shell = Shell::new();
    assert_eq!(w.on_event(&mut t, Event::KeyPressed(65), &node, pt(0, 0), pt(1, 1), &mut shell), Status::Ignored);
    assert_eq!(w.on_event(&mut t, Event::ButtonPressed, &node, pt(0, 0), pt(1, 1), &mut shell), Status::Captured);
    assert_eq!(t.state, State::TextInput { is_focused: true, cursor: 0 });
    assert_eq!(w.on_event(&mut t, Event::KeyPressed(65), &node, pt(0, 0), pt(1, 1), &mut shell), Status::Captured);
    assert_eq!(t.state, State::TextInput { is_focused: true, cursor: 1 });
}

#[test]
fn slider_drag_cycle() {
    let w = slider(sz(20, 5));
    let node = w.layout(&limits(50, 50));
    let mut t = Tree::new(&w);
    let mut shell = Shell::new();
    assert_eq!(w.on_event(&mut t, Event::ButtonPressed, &node, pt(0, 0), pt(30, 1), &mut shell), Status::Ignored);
    assert_eq!(w.on_event(&mut t, Event::ButtonPressed, &node, pt(0, 0), pt(3, 1), &mut shell), Status::Captured);
    assert_eq!(t.state, State::Slider { is_dragging: true });
    assert_eq!(w.on_event(&mut t, Event::ButtonReleased, &node, pt(0, 0), pt(40, 40), &mut shell), Status::Captured);
    assert_eq!(t.state, State::Slider { is_dragging: false });
    assert!(shell.messages.is_empty());
}

#[test]
fn tag_mismatch_is_not_aligned() {
    let w = widget::column().push(text(sz(3, 3)));
    let node = w.layout(&limits(100, 100));
    let other = row().push(text(sz(3, 3)));
    let t = Tree::new(&other);
    assert!(!w.is_aligned(&t, &node));
    let mut t = Tree::new(&w);
    assert!(w.is_aligned(&t, &node));
    t.children[0].state = State::Button { is_pressed: true };
    assert!(!w.is_aligned(&t, &node));
}

#[test]
fn widget_diff_rebuilds_changed_kind() {
    let first = widget::column().push(scrollable(text(sz(1, 1)))).push(button(text(sz(1, 1))));
    let mut t = Tree::new(&first);
    t.children[0].state = State::Scrollable { offset: 9 };
    let second = widget::column().push(button(text(sz(1, 1))));
    Widget::diff(&second, &mut t);
    assert_eq!(t.children.len(), 1);
    assert_eq!(t.children[0].tag, Kind::Button);
    assert_eq!(t.children[0].state, State::Button { is_pressed: false });
    assert_eq!(t.children[0].children[0].tag, Kind::Text);
}

//! End-to-end checks of the tree engine on concrete values.

use std::collections::HashMap;
use std::rc::Rc;

use widgem::accessible::{AccessibleNode, AccessibleNodes, AccessibleRole};
use widgem::address::{AddressBook, WidgetAddress};
use widgem::events::{CursorIcon, ElementState, MouseButton, MouseInputEvent};
use widgem::geometry::{Point, Rect, Size};
use widgem::ids::{RawWidgetId, WidgetIdSource};
use widgem::style::{default_style, ComputedStyle, Element, MyPseudoClass, Selector, SelectorComponent, WidgetScope};
use widgem::system::{add_interval, add_timer, report_error, CoreError, ErrorSink, ReportError, System};
use widgem::widget::{ButtonState, LabelState, Widget, WidgetCommon, WidgetGeometry, WidgetKind};
use widgem::window::Window;

fn rect(x: i64, y: i64, w: i64, h: i64) -> Rect {
    Rect { top_left: Point { x, y }, size: Size { x: w, y: h } }
}

fn make_system() -> System {
    let style = ComputedStyle::new(default_style(), 100);
    System::new(Rc::new(style))
}

fn make_widget(sys: &mut System, kind: WidgetKind) -> Widget {
    let id = RawWidgetId::new(&mut sys.id_source);
    let scope = WidgetScope::root(Rc::clone(&sys.default_style));
    Widget {
        common: WidgetCommon {
            id,
            is_focusable: false,
            enable_ime: false,
            cursor_icon: CursorIcon::Default,
            receives_all_mouse_events: false,
            is_accessible: true,
            is_focused: false,
            is_window_focused: false,
            is_mouse_over: false,
            parent_scope: scope,
            is_explicitly_enabled: true,
            is_explicitly_visible: true,
            explicit_style: None,
            mount_point: None,
            geometry: None,
            explicit_rect_in_parent: None,
            size_hint_x_cache: None,
            size_hint_y_cache: HashMap::new(),
            pending_accessible_update: false,
            event_filter: None,
            style_element: Element::new(String::from("widget")),
        },
        kind,
        children: Vec::new(),
    }
}

fn button(sys: &mut System, at: Rect) -> Widget {
    let mut w = make_widget(sys, WidgetKind::Button(ButtonState {
        text: String::from("ok"),
        is_pressed: false,
    }));
    w.common.geometry = Some(WidgetGeometry { rect_in_parent: at, rect_in_window: at });
    w
}

fn press_at(x: i64, y: i64) -> MouseInputEvent {
    MouseInputEvent {
        device_id: 1,
        state: ElementState::Pressed,
        button: MouseButton::Left,
        num_clicks: 1,
        pos: Point { x, y },
        pos_in_window: Point { x, y },
    }
}

/// Hit-test containment: inside the rect the press lands and is remapped;
/// outside it never reaches the widget.
#[test]
fn hit_test_containment() {
    let ev = press_at(15, 25);
    let inside = ev.map_to_child(rect(10, 20, 30, 30), false);
    let mapped = inside.expect("position inside the rect must be offered");
    assert_eq!(mapped.pos, Point { x: 5, y: 5 });
    let outside = press_at(5, 5).map_to_child(rect(10, 20, 30, 30), false);
    assert!(outside.is_none());
    let forced = press_at(5, 5).map_to_child(rect(10, 20, 30, 30), true);
    assert_eq!(forced.expect("capture-all child sees everything").pos, Point { x: -5, y: -15 });
}

/// Reverse z-order: of two overlapping buttons, the later-added one gets
/// the press; the earlier one stays untouched.
#[test]
fn reverse_z_order() {
    let mut sys = make_system();
    let mut win = Window::new(7, 1);
    let mut root = make_widget(&mut sys, WidgetKind::Stack);
    root.common.geometry = Some(WidgetGeometry {
        rect_in_parent: rect(0, 0, 100, 100),
        rect_in_window: rect(0, 0, 100, 100),
    });
    let a = button(&mut sys, rect(0, 0, 50, 50));
    let b = button(&mut sys, rect(25, 25, 50, 50));
    let a_id = a.common.id;
    let b_id = b.common.id;
    root.children.push(a);
    root.children.push(b);
    win.shared.begin_mouse_event();
    let accepted = root.dispatch_mouse_input(&mut sys, &mut win.shared, &press_at(30, 30));
    let acceptor = win.shared.end_mouse_event();
    assert!(accepted);
    assert_eq!(acceptor, Some(b_id));
    assert_ne!(acceptor, Some(a_id));
    match &root.children[0].kind {
        WidgetKind::Button(st) => assert!(!st.is_pressed),
        _ => panic!("first child must still be the untouched button"),
    }
    match &root.children[1].kind {
        WidgetKind::Button(st) => assert!(st.is_pressed),
        _ => panic!("second child must be the pressed button"),
    }
}

/// Mouse capture: the widget that accepts a press becomes the grabber,
/// keeps every event of the gesture, and is released with the button.
#[test]
fn mouse_capture() {
    let mut sys = make_system();
    let mut win = Window::new(7, 1);
    let mut root = make_widget(&mut sys, WidgetKind::Stack);
    root.common.geometry = Some(WidgetGeometry {
        rect_in_parent: rect(0, 0, 100, 100),
        rect_in_window: rect(0, 0, 100, 100),
    });
    let b = button(&mut sys, rect(0, 0, 50, 50));
    let b_id = b.common.id;
    root.children.push(b);
    win.root_widget = Some(root);
    win.cursor_position = Some(Point { x: 10, y: 10 });
    let (routed, accepted) =
        win.handle_mouse_input(&mut sys, 0, 1, ElementState::Pressed, MouseButton::Left);
    assert_eq!(routed, Some(b_id));
    assert!(accepted);
    assert_eq!(win.mouse_grabber_widget, Some(b_id));
    // The pointer leaves the button, yet the move and the release still
    // go there.
    let (moved_to, _) = win.handle_mouse_move(&mut sys, 1, Point { x: 90, y: 90 });
    assert_eq!(moved_to, Some(b_id));
    let (routed, _) =
        win.handle_mouse_input(&mut sys, 10, 1, ElementState::Released, MouseButton::Left);
    assert_eq!(routed, Some(b_id));
    assert_eq!(win.mouse_grabber_widget, None);
}

/// The acceptor's cursor icon becomes the window's on acceptance, and the
/// multi-click counter respects the double-click window.
#[test]
fn cursor_and_clicks() {
    let mut sys = make_system();
    let mut win = Window::new(7, 1);
    let mut b = button(&mut sys, rect(0, 0, 50, 50));
    b.common.cursor_icon = CursorIcon::Pointer;
    root_with(&mut sys, &mut win, b);
    win.cursor_position = Some(Point { x: 10, y: 10 });
    let _ = win.handle_mouse_input(&mut sys, 0, 1, ElementState::Pressed, MouseButton::Left);
    assert_eq!(win.shared.cursor_icon, CursorIcon::Pointer);
    assert_eq!(win.num_clicks, 1);
    let _ = win.handle_mouse_input(&mut sys, 50, 1, ElementState::Released, MouseButton::Left);
    let _ = win.handle_mouse_input(&mut sys, 100, 1, ElementState::Pressed, MouseButton::Left);
    assert_eq!(win.num_clicks, 2);
    let _ = win.handle_mouse_input(&mut sys, 150, 1, ElementState::Released, MouseButton::Left);
    // Too late for a triple click.
    let _ = win.handle_mouse_input(&mut sys, 1000, 1, ElementState::Pressed, MouseButton::Left);
    assert_eq!(win.num_clicks, 1);
}

fn root_with(sys: &mut System, win: &mut Window, widget: Widget) {
    let mut root = make_widget(sys, WidgetKind::Stack);
    root.common.geometry = Some(WidgetGeometry {
        rect_in_parent: rect(0, 0, 100, 100),
        rect_in_window: rect(0, 0, 100, 100),
    });
    root.children.push(widget);
    win.root_widget = Some(root);
}

/// Moving over a fresh widget synthesizes an enter: it is recorded under
/// the pointer and marked hovered.
#[test]
fn mouse_enter_synthesis() {
    let mut sys = make_system();
    let mut win = Window::new(7, 1);
    let b = button(&mut sys, rect(0, 0, 50, 50));
    let b_id = b.common.id;
    let mut root = make_widget(&mut sys, WidgetKind::Stack);
    root.common.geometry = Some(WidgetGeometry {
        rect_in_parent: rect(0, 0, 100, 100),
        rect_in_window: rect(0, 0, 100, 100),
    });
    let root_mp = widgem::widget::MountPoint {
        address: WidgetAddress::window_root(7),
        window_id: 7,
        parent_id: None,
        index_in_parent: 0,
    };
    root.children.push(b);
    let _ = root.dispatch_mount(&mut sys, &mut win.shared, root_mp);
    win.root_widget = Some(root);
    let (_, accepted) = win.handle_mouse_move(&mut sys, 1, Point { x: 10, y: 10 });
    assert!(accepted);
    assert!(win.shared.is_mouse_entered(b_id));
    match &win.root_widget.as_ref().unwrap().children[0].common {
        c => assert!(c.is_mouse_over),
    }
}

/// An unchanged visibility flag is a no-op; a change drops the memoized
/// hints and queues the address for the next layout pass.
#[test]
fn set_visible_invalidates_hints() {
    let mut sys = make_system();
    let mut win = Window::new(7, 1);
    let mut b = button(&mut sys, rect(0, 0, 50, 50));
    let _ = b.dispatch_mount(&mut sys, &mut win.shared, widgem::widget::MountPoint {
        address: WidgetAddress::window_root(7),
        window_id: 7,
        parent_id: None,
        index_in_parent: 0,
    });
    let _ = b.size_hint_x();
    assert!(b.common.size_hint_x_cache.is_some());
    b.set_visible(&mut win.shared, true);
    assert!(b.common.size_hint_x_cache.is_some());
    assert_eq!(win.shared.pending_size_hint_invalidations.len(), 0);
    b.set_visible(&mut win.shared, false);
    assert!(b.common.size_hint_x_cache.is_none());
    assert_eq!(win.shared.pending_size_hint_invalidations.len(), 1);
}

/// A pending widget pushes its role, label and bounds into the mirror.
#[test]
fn accessible_content_sync() {
    let mut sys = make_system();
    let mut win = Window::new(7, 1);
    let mut b = button(&mut sys, rect(0, 0, 50, 50));
    let b_id = b.common.id;
    let _ = b.dispatch_mount(&mut sys, &mut win.shared, widgem::widget::MountPoint {
        address: WidgetAddress::window_root(7),
        window_id: 7,
        parent_id: None,
        index_in_parent: 0,
    });
    b.common.pending_accessible_update = true;
    b.update_accessible(&mut win.shared);
    assert!(!b.common.pending_accessible_update);
    let node = win.shared.accessible_nodes.nodes.get(&b_id.0).expect("node contributed");
    assert_eq!(node.role, AccessibleRole::Button);
    assert_eq!(node.label, "ok");
    assert_eq!(node.bounds, Some(rect(0, 0, 50, 50)));
}

/// Scope monotonicity: disabling a parent leaves no descendant
/// effectively enabled, and re-enabling restores the child's explicit
/// state.
#[test]
fn scope_monotonicity() {
    let mut sys = make_system();
    let mut win = Window::new(7, 1);
    let mut root = make_widget(&mut sys, WidgetKind::Column);
    let mut child = button(&mut sys, rect(0, 0, 10, 10));
    let mut grandchild = button(&mut sys, rect(0, 0, 5, 5));
    grandchild.common.is_explicitly_enabled = false;
    child.children.push(grandchild);
    root.children.push(child);
    root.dispatch_scope_change(&mut win.shared);
    assert!(root.children[0].is_enabled());
    assert!(!root.children[0].children[0].is_enabled());
    root.set_enabled(&mut win.shared, false);
    assert!(!root.is_enabled());
    assert!(!root.children[0].is_enabled());
    assert!(!root.children[0].children[0].is_enabled());
    root.set_enabled(&mut win.shared, true);
    assert!(root.children[0].is_enabled());
    assert!(!root.children[0].children[0].is_enabled());
}

/// A disabled subtree swallows pointer input.
#[test]
fn disabled_widget_rejects_input() {
    let mut sys = make_system();
    let mut win = Window::new(7, 1);
    let mut b = button(&mut sys, rect(0, 0, 50, 50));
    b.common.is_explicitly_enabled = false;
    win.shared.begin_mouse_event();
    let accepted = b.dispatch_mouse_input(&mut sys, &mut win.shared, &press_at(10, 10));
    assert!(!accepted);
    assert_eq!(win.shared.end_mouse_event(), None);
}

/// Size-hint cache coherence: a hint is memoized, `size_hint_changed`
/// clears it and queues the address, and the next layout pass's
/// invalidation clears the caches of everything above.
#[test]
fn size_hint_cache_coherence() {
    let mut sys = make_system();
    let mut win = Window::new(7, 1);
    let mut root = make_widget(&mut sys, WidgetKind::Column);
    let label = make_widget(&mut sys, WidgetKind::Label(LabelState { text: String::from("hi") }));
    root.children.push(label);
    let address = WidgetAddress::window_root(7);
    let _ = root.dispatch_mount(&mut sys, &mut win.shared, widgem::widget::MountPoint {
        address,
        window_id: 7,
        parent_id: None,
        index_in_parent: 0,
    });
    let first = root.size_hint_x();
    assert_eq!(root.common.size_hint_x_cache, Some(first));
    // Grow the label's text: its hint must change after invalidation.
    match &mut root.children[0].kind {
        WidgetKind::Label(st) => st.text = String::from("a much longer label text"),
        _ => panic!("child must be the label"),
    }
    root.children[0].size_hint_changed(&mut win.shared);
    assert_eq!(root.children[0].common.size_hint_x_cache, None);
    assert_eq!(win.shared.pending_size_hint_invalidations.len(), 1);
    // The stale cached value is still served until the layout pass runs.
    assert_eq!(root.size_hint_x(), first);
    let pending = std::mem::take(&mut win.shared.pending_size_hint_invalidations);
    root.invalidate_size_hint_cache(&pending);
    assert_eq!(root.common.size_hint_x_cache, None);
    let second = root.size_hint_x();
    assert!(second.preferred > first.preferred);
}

/// The size-hint formula on concrete values: 14px font at 100% scale,
/// padding 10, "ok" is two characters.
#[test]
fn size_hint_formula() {
    let mut sys = make_system();
    let mut b = button(&mut sys, rect(0, 0, 10, 10));
    let hints = b.size_hint_x();
    assert_eq!(hints.min, 14 + 2 * 10);
    assert_eq!(hints.preferred, 2 * 14 + 2 * 10);
    assert!(!hints.is_fixed);
}

/// Accessibility parent-hoisting: a transparent widget's accessible child
/// appears under the nearest real ancestor, and the transparent id never
/// shows up.
#[test]
fn accessibility_parent_hoisting() {
    let mut acc = AccessibleNodes::new(1);
    // 2 is transparent (contributes no node); 3 is its accessible child.
    acc.mount(None, 2);
    acc.mount(Some(2), 3);
    acc.update(3, Some(AccessibleNode {
        role: AccessibleRole::Button,
        label: String::from("ok"),
        bounds: None,
    }));
    let update = acc.take_update();
    let root_entry = update
        .nodes
        .iter()
        .find(|(id, _)| *id == 1)
        .expect("the root must be in the batch");
    assert!(root_entry.1.children.contains(&3));
    assert!(!root_entry.1.children.contains(&2));
    assert_eq!(update.focus, 1);
}

/// Idempotent unmount: unmounting twice panics nothing and removes no
/// address-book entry twice.
#[test]
fn idempotent_unmount() {
    let mut sys = make_system();
    let mut win = Window::new(7, 1);
    let mut root = make_widget(&mut sys, WidgetKind::Stack);
    let child = button(&mut sys, rect(0, 0, 10, 10));
    let child_id = child.common.id;
    root.children.push(child);
    let root_id = root.common.id;
    let _ = root.dispatch_mount(&mut sys, &mut win.shared, widgem::widget::MountPoint {
        address: WidgetAddress::window_root(7),
        window_id: 7,
        parent_id: None,
        index_in_parent: 0,
    });
    assert!(sys.address_book.lookup(root_id).is_some());
    assert!(sys.address_book.lookup(child_id).is_some());
    root.dispatch_unmount(&mut sys, &mut win.shared);
    assert!(sys.address_book.lookup(root_id).is_none());
    assert!(sys.address_book.lookup(child_id).is_none());
    let book_before = sys.address_book.lookup(root_id).is_none();
    root.dispatch_unmount(&mut sys, &mut win.shared);
    assert!(book_before);
    assert!(sys.address_book.lookup(root_id).is_none());
    assert!(sys.address_book.lookup(child_id).is_none());
}

/// Address prefix matching drives subtree-scoped operations.
#[test]
fn address_starts_with() {
    let base = WidgetAddress::window_root(7).join(0, RawWidgetId(10));
    let deeper = base.duplicate().join(2, RawWidgetId(11));
    assert!(deeper.starts_with(&base));
    assert!(base.starts_with(&base));
    assert!(!base.starts_with(&deeper));
    let other_window = WidgetAddress::window_root(8).join(0, RawWidgetId(10));
    assert!(!other_window.starts_with(&base));
}

/// The address book: register, overwrite, look up, unregister.
#[test]
fn address_book_lifecycle() {
    let mut book = AddressBook::new();
    let id = RawWidgetId(42);
    assert!(book.register(id, WidgetAddress::window_root(1)).is_none());
    let old = book.register(id, WidgetAddress::window_root(2));
    assert_eq!(old.unwrap().window_id, 1);
    assert_eq!(book.lookup(id).unwrap().window_id, 2);
    assert_eq!(book.unregister(id).unwrap().window_id, 2);
    assert!(book.lookup(id).is_none());
    assert!(book.unregister(id).is_none());
}

/// Selector matching on elements, classes and pseudo-classes.
#[test]
fn element_matching() {
    let element = Element::new(String::from("button"))
        .with_class(String::from("primary"))
        .with_pseudo_class(MyPseudoClass::Hover);
    let selector = Selector {
        components: vec![
            SelectorComponent::LocalName(String::from("button")),
            SelectorComponent::Class(String::from("primary")),
            SelectorComponent::PseudoClass(MyPseudoClass::Hover),
        ],
    };
    assert!(element.matches(&selector));
    let wrong_tag = Selector {
        components: vec![SelectorComponent::LocalName(String::from("label"))],
    };
    assert!(!element.matches(&wrong_tag));
    let unsupported = Selector { components: vec![SelectorComponent::Unsupported] };
    assert!(!element.matches(&unsupported));
}

/// Style scaling rounds down and keeps the base values.
#[test]
fn computed_style_scaling() {
    let style = ComputedStyle::new(default_style(), 150);
    assert_eq!(style.font_size, 14 * 150 / 100);
    assert_eq!(style.line_height, 17 * 150 / 100);
    assert_eq!(style.padding, 10 * 150 / 100);
}

/// Timers stay sorted by deadline; cancellation is idempotent.
#[test]
fn timers() {
    let mut sys = make_system();
    let w = RawWidgetId(5);
    let t1 = add_timer(&mut sys, 1000, 500, w);
    let t2 = add_interval(&mut sys, 1000, 100, w);
    assert_ne!(t1, t2);
    let first = sys.timers.pop_ready(2000).expect("a timer is due");
    assert_eq!(first.0, t2);
    assert_eq!(first.1.deadline, 1100);
    assert_eq!(first.1.interval, Some(100));
    sys.timers.cancel(t1);
    sys.timers.cancel(t1);
    assert!(sys.timers.pop_ready(5000).is_none());
}

/// Errors are reported and accumulated, never escalated.
#[test]
fn error_reporting() {
    let mut sink = ErrorSink::new();
    report_error(&mut sink, CoreError::WidgetNotFound);
    let r: Result<u32, CoreError> = Err(CoreError::NoGeometry);
    assert_eq!(r.or_report_err(&mut sink), None);
    let ok: Result<u32, CoreError> = Ok(3);
    assert_eq!(ok.or_report_err(&mut sink), Some(3));
    assert_eq!(sink.reported.len(), 2);
    assert_eq!(CoreError::NoGeometry.message(), "no rect_in_window");
}

/// Fresh ids are never repeated.
#[test]
fn id_allocation() {
    let mut source = WidgetIdSource::new();
    let a = RawWidgetId::new(&mut source);
    let b = RawWidgetId::new(&mut source);
    assert_ne!(a, b);
    assert!(b.0 > a.0);
}

/// A window-focus change reaches every widget of the tree.
#[test]
fn window_focus_broadcast() {
    let mut sys = make_system();
    let mut win = Window::new(7, 1);
    let mut root = make_widget(&mut sys, WidgetKind::Column);
    let mut child = button(&mut sys, rect(0, 0, 10, 10));
    child.children.push(button(&mut sys, rect(0, 0, 5, 5)));
    root.children.push(child);
    root.dispatch_window_focus_change(&mut win.shared, true);
    assert!(root.common.is_window_focused);
    assert!(root.children[0].common.is_window_focused);
    assert!(root.children[0].children[0].common.is_window_focused);
    root.dispatch_window_focus_change(&mut win.shared, false);
    assert!(!root.children[0].children[0].common.is_window_focused);
}

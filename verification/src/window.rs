//! Per-window state shared by every dispatch: the accessibility mirror,
//! mouse bookkeeping, pending size-hint invalidations and the redraw flag.
//! The `Window` type that owns the root widget and routes platform events
//! also lives here.

use vstd::prelude::*;

use crate::accessible::AccessibleNodes;
use crate::address::WidgetAddress;
use crate::events::CursorIcon;
use crate::geometry::{Point, Rect};
use crate::ids::RawWidgetId;
use crate::system::CoreError;

verus! {

broadcast use vstd::seq_lib::group_seq_properties;

/// State of one window that widgets reach during dispatch.
pub struct SharedWindowState {
    pub accessible_nodes: AccessibleNodes,
    /// Set when the widget tree was restructured; the window refreshes
    /// focusable widgets and relayouts on the next tick.
    pub widget_tree_changed: bool,
    /// Which widgets the pointer is currently inside, with their rects in
    /// window coordinates, innermost last.
    pub mouse_entered: Vec<(Rect, RawWidgetId)>,
    /// Whether a mouse event is currently being dispatched.
    pub mouse_event_active: bool,
    /// Who accepted the mouse event currently being dispatched.
    pub mouse_event_accepted_by: Option<RawWidgetId>,
    pub cursor_icon: CursorIcon,
    /// Addresses whose size hints changed since the last layout pass;
    /// consumed by the next pass to invalidate ancestor caches.
    pub pending_size_hint_invalidations: Vec<WidgetAddress>,
    pub redraw_requested: bool,
}

impl SharedWindowState {
    pub open spec fn wf(self) -> bool {
        self.accessible_nodes.wf()
    }

    pub open spec fn spec_is_mouse_entered(self, id: RawWidgetId) -> bool {
        exists|i: int|
            0 <= i < self.mouse_entered@.len() && (#[trigger] self.mouse_entered@[i]).1 == id
    }

    /// Everything except the mouse-acceptance bookkeeping, the cursor,
    /// the entered list and the redraw flag is as in `other`.
    pub open spec fn eq_except_mouse(self, other: SharedWindowState) -> bool {
        &&& self.accessible_nodes == other.accessible_nodes
        &&& self.widget_tree_changed == other.widget_tree_changed
        &&& self.pending_size_hint_invalidations == other.pending_size_hint_invalidations
    }

    /// As `eq_except_mouse`, but the accessibility mirror may differ too.
    pub open spec fn eq_except_mouse_accessibility(self, other: SharedWindowState) -> bool {
        &&& self.widget_tree_changed == other.widget_tree_changed
        &&& self.pending_size_hint_invalidations == other.pending_size_hint_invalidations
        &&& self.mouse_entered == other.mouse_entered
        &&& self.mouse_event_active == other.mouse_event_active
        &&& self.mouse_event_accepted_by == other.mouse_event_accepted_by
        &&& self.cursor_icon == other.cursor_icon
        &&& self.redraw_requested == other.redraw_requested
    }

    pub fn new(root_accessible_id: u64) -> (r: SharedWindowState)
        ensures
            r.wf(),
            !r.widget_tree_changed,
            r.mouse_entered@ =~= Seq::<(Rect, RawWidgetId)>::empty(),
            !r.mouse_event_active,
            r.mouse_event_accepted_by.is_none(),
            r.pending_size_hint_invalidations@ =~= Seq::<WidgetAddress>::empty(),
            !r.redraw_requested,
            r.accessible_nodes.root == root_accessible_id,
    {
        SharedWindowState {
            accessible_nodes: AccessibleNodes::new(root_accessible_id),
            widget_tree_changed: false,
            mouse_entered: Vec::new(),
            mouse_event_active: false,
            mouse_event_accepted_by: None,
            cursor_icon: CursorIcon::Default,
            pending_size_hint_invalidations: Vec::new(),
            redraw_requested: false,
        }
    }

    /// Ask for a repaint; coalesced, never queued twice.
    pub fn request_redraw(&mut self)
        ensures
            *final(self) == (SharedWindowState { redraw_requested: true, ..*old(self) }),
    {
        self.redraw_requested = true;
    }

    /// Whether the pointer is currently known to be inside widget `id`.
    pub fn is_mouse_entered(&self, id: RawWidgetId) -> (r: bool)
        ensures
            r == self.spec_is_mouse_entered(id),
    {
        let mut i: usize = 0;
        while i < self.mouse_entered.len()
            invariant
                0 <= i <= self.mouse_entered@.len(),
                forall|j: int| 0 <= j < i ==> (#[trigger] self.mouse_entered@[j]).1 != id,
            decreases self.mouse_entered@.len() - i,
        {
            if self.mouse_entered[i].1.0 == id.0 {
                assert((self.mouse_entered@[i as int]).1 == id);
                return true;
            }
            i = i + 1;
        }
        false
    }

    /// Record that the pointer entered widget `id`, whose rect in window
    /// coordinates is `rect`.
    pub fn add_mouse_entered(&mut self, rect: Rect, id: RawWidgetId)
        ensures
            *final(self) == (SharedWindowState {
                mouse_entered: final(self).mouse_entered,
                ..*old(self)
            }),
            final(self).mouse_entered@ =~= old(self).mouse_entered@.push((rect, id)),
    {
        self.mouse_entered.push((rect, id));
    }

    /// Start dispatching one mouse event: nobody has accepted it yet.
    pub fn begin_mouse_event(&mut self)
        ensures
            *final(self) == (SharedWindowState {
                mouse_event_active: true,
                mouse_event_accepted_by: None,
                ..*old(self)
            }),
    {
        self.mouse_event_active = true;
        self.mouse_event_accepted_by = None;
    }

    /// Finish dispatching the current mouse event, returning who accepted
    /// it.
    pub fn end_mouse_event(&mut self) -> (r: Option<RawWidgetId>)
        ensures
            *final(self) == (SharedWindowState {
                mouse_event_active: false,
                mouse_event_accepted_by: None,
                ..*old(self)
            }),
            r == old(self).mouse_event_accepted_by,
    {
        self.mouse_event_active = false;
        let r = self.mouse_event_accepted_by;
        self.mouse_event_accepted_by = None;
        r
    }

    /// Whether the mouse event being dispatched was accepted; an error
    /// when none is being dispatched.
    pub fn current_mouse_event_accepted(&self) -> (r: Result<bool, CoreError>)
        ensures
            self.mouse_event_active ==> r == Ok::<bool, CoreError>(
                self.mouse_event_accepted_by.is_some(),
            ),
            !self.mouse_event_active ==> r == Err::<bool, CoreError>(CoreError::NoMouseEvent),
    {
        if self.mouse_event_active {
            Ok(self.mouse_event_accepted_by.is_some())
        } else {
            Err(CoreError::NoMouseEvent)
        }
    }

    /// Record `id` as the acceptor of the mouse event being dispatched.
    pub fn accept_current_mouse_event(&mut self, id: RawWidgetId) -> (r: Result<(), CoreError>)
        ensures
            old(self).mouse_event_active ==> *final(self) == (SharedWindowState {
                mouse_event_accepted_by: Some(id),
                ..*old(self)
            }) && r.is_ok(),
            !old(self).mouse_event_active ==> *final(self) == *old(self) && r == Err::<
                (),
                CoreError,
            >(CoreError::NoMouseEvent),
    {
        if self.mouse_event_active {
            self.mouse_event_accepted_by = Some(id);
            Ok(())
        } else {
            Err(CoreError::NoMouseEvent)
        }
    }

    pub fn set_cursor(&mut self, icon: CursorIcon)
        ensures
            *final(self) == (SharedWindowState { cursor_icon: icon, ..*old(self) }),
    {
        self.cursor_icon = icon;
    }

    /// Queue `address` for ancestor cache invalidation at the next layout
    /// pass.
    pub fn push_size_hint_invalidation(&mut self, address: WidgetAddress)
        ensures
            *final(self) == (SharedWindowState {
                pending_size_hint_invalidations: final(self).pending_size_hint_invalidations,
                ..*old(self)
            }),
            final(self).pending_size_hint_invalidations@ =~= old(
                self,
            ).pending_size_hint_invalidations@.push(address),
    {
        self.pending_size_hint_invalidations.push(address);
    }
}

} // verus!

use crate::events::{ElementState, MouseButton, MouseInputEvent};
use crate::system::System;
use crate::events::MouseMoveEvent;
use crate::widget::{pointer_acceptor, rects_wf, PointerEventKind, Widget};

verus! {

/// One window of the application: the exclusive owner of its widget tree,
/// with the focus, capture and click bookkeeping the dispatch engine
/// needs.
pub struct Window {
    pub id: u64,
    pub root_widget: Option<Widget>,
    pub shared: SharedWindowState,
    pub focusable_widgets: Vec<RawWidgetId>,
    pub focused_widget: Option<RawWidgetId>,
    /// Once a press is accepted, all pointer events of the gesture go to
    /// this widget directly, bypassing hit-testing, until every button is
    /// released.
    pub mouse_grabber_widget: Option<RawWidgetId>,
    pub pressed_mouse_buttons: Vec<MouseButton>,
    pub cursor_position: Option<Point>,
    pub num_clicks: u32,
    pub last_click_button: Option<MouseButton>,
    /// When the last press happened, for the double-click window.
    pub last_click_time: Option<u64>,
}

/// Presses of one button further apart than this never count as one
/// multi-click gesture.
pub const DOUBLE_CLICK_TIMEOUT_MS: u64 = 300;

/// Mouse capture: where a button event goes. With a grabber in place it
/// goes to the grabber, wherever the pointer is; otherwise it is
/// hit-tested from the root and lands at the accepting widget.
pub open spec fn mouse_input_route(
    grabber: Option<RawWidgetId>,
    root: Widget,
    pos: Point,
    state: ElementState,
    button: MouseButton,
) -> Option<RawWidgetId> {
    match grabber {
        Some(w) => Some(w),
        None => pointer_acceptor(root, pos, PointerEventKind::Input(state, button)),
    }
}

/// Mouse capture: while a grabber is recorded, every button event routes
/// to it directly, regardless of the pointer position.
pub proof fn lemma_mouse_capture_routes_to_grabber(
    w: RawWidgetId,
    root: Widget,
    pos: Point,
    state: ElementState,
    button: MouseButton,
)
    ensures
        mouse_input_route(Some(w), root, pos, state, button) == Some(w),
{
}

/// The two trees carry the same data everywhere (ownership cells aside):
/// equal shared state and behavior at every node, children pairwise alike.
pub open spec fn tree_eq_view(a: Widget, b: Widget) -> bool
    decreases a,
{
    &&& b.common == a.common
    &&& b.kind == a.kind
    &&& b.children@.len() == a.children@.len()
    &&& forall|k: int|
        0 <= k < a.children@.len() ==> tree_eq_view(#[trigger] a.children@[k], b.children@[k])
}

pub proof fn lemma_tree_eq_view_reflexive(w: Widget)
    ensures
        tree_eq_view(w, w),
    decreases w,
{
    assert forall|k: int| 0 <= k < w.children@.len() implies tree_eq_view(
        #[trigger] w.children@[k],
        w.children@[k],
    ) by {
        lemma_tree_eq_view_reflexive(w.children@[k]);
    }
}

/// Alike trees have the same rectangles, so well-formedness carries over.
pub proof fn lemma_tree_eq_view_rects(a: Widget, b: Widget)
    requires
        tree_eq_view(a, b),
        rects_wf(a),
    ensures
        rects_wf(b),
    decreases a,
{
    assert forall|k: int| 0 <= k < b.children@.len() implies rects_wf(
        #[trigger] b.children@[k],
    ) by {
        assert(rects_wf(a.children@[k]));
        lemma_tree_eq_view_rects(a.children@[k], b.children@[k]);
    }
}

/// Locate the widget `target` in a subtree the way targeted delivery
/// does — this widget first, then the children in order — and give the
/// event position remapped into its window rectangle. `None` when the id
/// is absent, the widget has no rectangle yet, or the remapped position
/// is not representable.
pub open spec fn targeted_mouse_find(w: Widget, target: u64, pos_in_window: Point) -> Option<
    (Widget, Point),
>
    decreases w, 1nat, 0int,
{
    if w.common.id.0 == target {
        match w.common.geometry {
            Some(g) => if pos_in_window.sub_fits(g.rect_in_window.top_left) {
                Some((w, pos_in_window.spec_minus(g.rect_in_window.top_left)))
            } else {
                None
            },
            None => None,
        }
    } else {
        targeted_mouse_scan(w.children@, target, pos_in_window, 0)
    }
}

pub open spec fn targeted_mouse_scan(
    children: Seq<Widget>,
    target: u64,
    pos_in_window: Point,
    i: int,
) -> Option<(Widget, Point)>
    decreases children, 0nat, (if children.len() - i >= 0 { children.len() - i } else { 0 }),
{
    if i < 0 || i >= children.len() {
        None
    } else {
        match targeted_mouse_find(children[i], target, pos_in_window) {
            Some(p) => Some(p),
            None => targeted_mouse_scan(children, target, pos_in_window, i + 1),
        }
    }
}

impl Window {
    pub open spec fn wf(self) -> bool {
        &&& self.shared.wf()
        &&& (match self.root_widget {
            Some(root) => rects_wf(root),
            None => true,
        })
    }

    pub fn new(id: u64, root_accessible_id: u64) -> (r: Window)
        ensures
            r.wf(),
            r.id == id,
            r.root_widget is None,
            r.mouse_grabber_widget is None,
            r.pressed_mouse_buttons@ =~= Seq::<MouseButton>::empty(),
    {
        Window {
            id,
            root_widget: None,
            shared: SharedWindowState::new(root_accessible_id),
            focusable_widgets: Vec::new(),
            focused_widget: None,
            mouse_grabber_widget: None,
            pressed_mouse_buttons: Vec::new(),
            cursor_position: None,
            num_clicks: 0,
            last_click_button: None,
            last_click_time: None,
        }
    }

    fn pressed_contains(&self, button: MouseButton) -> (r: bool)
        ensures
            r == self.pressed_mouse_buttons@.contains(button),
    {
        let mut i: usize = 0;
        while i < self.pressed_mouse_buttons.len()
            invariant
                0 <= i <= self.pressed_mouse_buttons@.len(),
                forall|j: int| 0 <= j < i ==> self.pressed_mouse_buttons@[j] != button,
            decreases self.pressed_mouse_buttons@.len() - i,
        {
            if self.pressed_mouse_buttons[i] == button {
                assert(self.pressed_mouse_buttons@.contains(button));
                return true;
            }
            i = i + 1;
        }
        false
    }

    /// Every pressed button except `button`, without duplicates.
    fn remove_pressed(&mut self, button: MouseButton)
        ensures
            forall|b: MouseButton| #[trigger]
                final(self).pressed_mouse_buttons@.contains(b) <==> (old(
                self,
            ).pressed_mouse_buttons@.contains(b) && b != button),
            *final(self) == (Window {
                pressed_mouse_buttons: final(self).pressed_mouse_buttons,
                ..*old(self)
            }),
    {
        let mut remaining: Vec<MouseButton> = Vec::new();
        let mut i: usize = 0;
        while i < self.pressed_mouse_buttons.len()
            invariant
                0 <= i <= self.pressed_mouse_buttons@.len(),
                forall|b: MouseButton| #[trigger]
                    remaining@.contains(b) <==> (self.pressed_mouse_buttons@.subrange(
                    0,
                    i as int,
                ).contains(b) && b != button),
            decreases self.pressed_mouse_buttons@.len() - i,
        {
            let ghost prefix = self.pressed_mouse_buttons@.subrange(0, i as int);
            let b = self.pressed_mouse_buttons[i];
            if b != button {
                let ghost rem0 = remaining@;
                remaining.push(b);
                proof {
                    assert(remaining@ =~= rem0.push(b));
                }
            }
            proof {
                assert(self.pressed_mouse_buttons@.subrange(0, i + 1 as int) =~= prefix.push(
                    self.pressed_mouse_buttons@[i as int],
                ));
            }
            i = i + 1;
        }
        proof {
            assert(self.pressed_mouse_buttons@.subrange(
                0,
                self.pressed_mouse_buttons@.len() as int,
            ) =~= self.pressed_mouse_buttons@);
        }
        self.pressed_mouse_buttons = remaining;
    }

    /// Route one button press or release: to the grabber while a gesture
    /// is in progress, else hit-tested from the root; an accepted press
    /// makes its acceptor the grabber, and releasing the last button ends
    /// the capture. `now` drives the multi-click window. Returns the id
    /// of the widget the event was routed to, when any, and whether the
    /// event was accepted there.
    #[verifier::rlimit(100)]
    #[verifier::loop_isolation(false)]
    #[verifier::spinoff_prover]
    pub fn handle_mouse_input(
        &mut self,
        sys: &mut System,
        now: u64,
        device_id: u64,
        state: ElementState,
        button: MouseButton,
    ) -> (r: (Option<RawWidgetId>, bool))
        requires
            old(self).wf(),
        ensures
            final(self).wf(),
            // Pressed-button bookkeeping: a press adds the button, a
            // release removes it, nothing else changes.
            forall|b: MouseButton| #[trigger]
                final(self).pressed_mouse_buttons@.contains(b) <==> ((old(
                self,
            ).pressed_mouse_buttons@.contains(b) || (state == ElementState::Pressed && b
                == button)) && !(state == ElementState::Released && b == button)),
            // The multi-click counter grows only for a repeat of the same
            // button within the double-click window.
            state == ElementState::Pressed ==> (final(self).num_clicks == (if old(
                self,
            ).last_click_button == Some(button) && (old(self).last_click_time matches Some(t) && now
                >= t && now - t < DOUBLE_CLICK_TIMEOUT_MS) && old(self).num_clicks < u32::MAX {
                (old(self).num_clicks + 1) as u32
            } else {
                1u32
            }) && final(self).last_click_button == Some(button) && final(self).last_click_time
                == Some(now)),
            state == ElementState::Released ==> (final(self).num_clicks == old(self).num_clicks
                && final(self).last_click_button == old(self).last_click_button && final(self).last_click_time == old(self).last_click_time),
            // Capture is respected: with a grabber and a known cursor,
            // the event goes to the grabber, remapped by the grabber's
            // own window rectangle, and its subtree decides acceptance.
            (old(self).mouse_grabber_widget is Some && old(self).cursor_position is Some)
                ==> r.0 == old(self).mouse_grabber_widget,
            (old(self).mouse_grabber_widget is Some && old(self).cursor_position is Some && old(self).root_widget is Some)
                ==> r.1 == (match targeted_mouse_find(
                old(self).root_widget.unwrap(),
                old(self).mouse_grabber_widget.unwrap().0,
                old(self).cursor_position.unwrap(),
            ) {
                Some(p) => pointer_acceptor(
                    p.0,
                    p.1,
                    PointerEventKind::Input(state, button),
                ).is_some(),
                None => false,
            }),
            // Routing follows the capture rule.
            (old(self).cursor_position is Some && old(self).root_widget is Some) ==> (r.0
                == mouse_input_route(
                old(self).mouse_grabber_widget,
                old(self).root_widget.unwrap(),
                old(self).cursor_position.unwrap(),
                state,
                button,
            ) || (old(self).mouse_grabber_widget is None && r.0 is None)),
            // Hit-tested acceptance is the dispatch engine's.
            (old(self).mouse_grabber_widget is None && old(self).cursor_position is Some && old(self).root_widget is Some)
                ==> r.1 == pointer_acceptor(
                old(self).root_widget.unwrap(),
                old(self).cursor_position.unwrap(),
                PointerEventKind::Input(state, button),
            ).is_some(),
            // An accepted press with no grabber in place starts a capture
            // at the acceptor.
            (old(self).mouse_grabber_widget is None && state == ElementState::Pressed && old(self).cursor_position is Some && old(self).root_widget is Some)
                ==> final(self).mouse_grabber_widget == pointer_acceptor(
                old(self).root_widget.unwrap(),
                old(self).cursor_position.unwrap(),
                PointerEventKind::Input(state, button),
            ),
            // An uncaptured release never records a grabber.
            (old(self).mouse_grabber_widget is None && state == ElementState::Released) ==> final(self).mouse_grabber_widget is None,
            // Capture persists while buttons stay pressed and ends when
            // the last one is released.
            (old(self).mouse_grabber_widget is Some && final(self).pressed_mouse_buttons@.len() > 0) ==> final(self).mouse_grabber_widget == old(self).mouse_grabber_widget,
            (old(self).mouse_grabber_widget is Some && final(self).pressed_mouse_buttons@.len() == 0) ==> final(self).mouse_grabber_widget is None,
    {
        match state {
            ElementState::Pressed => {
                if !self.pressed_contains(button) {
                    let ghost before = self.pressed_mouse_buttons@;
                    self.pressed_mouse_buttons.push(button);
                    proof {
                        assert(self.pressed_mouse_buttons@ =~= before.push(button));
                    }
                }
                let within_window = match self.last_click_time {
                    Some(t) => now >= t && now - t < DOUBLE_CLICK_TIMEOUT_MS,
                    None => false,
                };
                self.num_clicks = if self.last_click_button == Some(button) && within_window {
                    if self.num_clicks < u32::MAX {
                        self.num_clicks + 1
                    } else {
                        1
                    }
                } else {
                    1
                };
                self.last_click_button = Some(button);
                self.last_click_time = Some(now);
            },
            ElementState::Released => {
                self.remove_pressed(button);
            },
        }
        let pos_in_window = match self.cursor_position {
            Some(pos) => pos,
            None => {
                // No cursor position is a platform-contract violation;
                // report and skip, keeping capture bookkeeping sound.
                crate::system::report_error(&mut sys.errors, CoreError::NoGeometry);
                if self.pressed_mouse_buttons.len() == 0 {
                    self.mouse_grabber_widget = None;
                }
                return (None, false);
            },
        };
        let routed: Option<RawWidgetId>;
        let mut accepted: bool = false;
        match self.mouse_grabber_widget {
            Some(grabber_id) => {
                routed = Some(grabber_id);
                match &mut self.root_widget {
                    Some(root) => {
                        self.shared.begin_mouse_event();
                        let event = MouseInputEvent {
                            device_id,
                            state,
                            button,
                            num_clicks: self.num_clicks,
                            pos: pos_in_window,
                            pos_in_window,
                        };
                        match dispatch_mouse_input_to(
                            root,
                            sys,
                            &mut self.shared,
                            grabber_id,
                            &event,
                        ) {
                            Ok(a) => {
                                accepted = a;
                            },
                            Err(e) => {
                                // The grabber vanished or has no
                                // rectangle: report and drop the event.
                                crate::system::report_error(&mut sys.errors, e);
                            },
                        }
                        let _ = self.shared.end_mouse_event();
                    },
                    None => {},
                }
            },
            None => {
                match &mut self.root_widget {
                    Some(root) => {
                        self.shared.begin_mouse_event();
                        let event = MouseInputEvent {
                            device_id,
                            state,
                            button,
                            num_clicks: self.num_clicks,
                            pos: pos_in_window,
                            pos_in_window,
                        };
                        accepted = root.dispatch_mouse_input(sys, &mut self.shared, &event);
                        let accepted_by = self.shared.end_mouse_event();
                        routed = accepted_by;
                        if state == ElementState::Pressed {
                            if accepted_by.is_some() {
                                self.mouse_grabber_widget = accepted_by;
                            }
                        }
                    },
                    None => {
                        routed = None;
                    },
                }
            },
        }
        if self.pressed_mouse_buttons.len() == 0 {
            self.mouse_grabber_widget = None;
        }
        self.shared.request_redraw();
        (routed, accepted)
    }
}

/// Deliver a button event straight to the widget `target` — the grabber
/// of an in-progress gesture — with the position remapped by the
/// target's own window rectangle, bypassing hit-testing entirely.
#[verifier::loop_isolation(false)]
#[verifier::rlimit(100)]
#[verifier::spinoff_prover]
fn dispatch_mouse_input_to(
    root: &mut Widget,
    sys: &mut System,
    win: &mut SharedWindowState,
    target: RawWidgetId,
    event: &MouseInputEvent,
) -> (r: Result<bool, CoreError>)
    requires
        rects_wf(*old(root)),
    ensures
        rects_wf(*final(root)),
        final(win).wf() == old(win).wf(),
        // Delivery is pinned: when the target is found, the event runs
        // through its subtree at the remapped position and acceptance is
        // the dispatch engine's; when it is not, nothing happens.
        (match targeted_mouse_find(*old(root), target.0, event.pos_in_window) {
            Some(p) => r == Ok::<bool, CoreError>(pointer_acceptor(
                p.0,
                p.1,
                PointerEventKind::Input(event.state, event.button),
            ).is_some()),
            None => r is Err && tree_eq_view(*old(root), *final(root)) && *final(win)
                == *old(win) && *final(sys) == *old(sys),
        }),
    decreases *old(root),
{
    if root.common.id.0 == target.0 {
        let rect = match &root.common.geometry {
            Some(g) => g.rect_in_window,
            None => {
                proof {
                    lemma_tree_eq_view_reflexive(*root);
                }
                return Err(CoreError::NoGeometry);
            },
        };
        let pos = match event.pos_in_window.checked_sub(rect.top_left) {
            Some(p) => p,
            None => {
                proof {
                    lemma_tree_eq_view_reflexive(*root);
                }
                return Err(CoreError::NoGeometry);
            },
        };
        let mapped = MouseInputEvent { pos, ..*event };
        let accepted = root.dispatch_mouse_input(sys, win, &mapped);
        return Ok(accepted);
    }
    let mut i: usize = 0;
    let n = root.children.len();
    proof {
        assert forall|k: int| 0 <= k < root.children@.len() implies tree_eq_view(
            #[trigger] old(root).children@[k],
            root.children@[k],
        ) by {
            lemma_tree_eq_view_reflexive(root.children@[k]);
        }
    }
    while i < n
        invariant
            0 <= i <= n,
            n == root.children@.len(),
            root.common == old(root).common,
            root.kind == old(root).kind,
            root.children@.len() == old(root).children@.len(),
            forall|k: int|
                i <= k < root.children@.len() ==> #[trigger] root.children@[k] == old(root).children@[k],
            forall|k: int|
                0 <= k < root.children@.len() ==> tree_eq_view(
                    #[trigger] old(root).children@[k],
                    root.children@[k],
                ),
            forall|k: int| 0 <= k < root.children@.len() ==> rects_wf(#[trigger] root.children@[k]),
            *win == *old(win),
            *sys == *old(sys),
            targeted_mouse_scan(old(root).children@, target.0, event.pos_in_window, 0)
                == targeted_mouse_scan(old(root).children@, target.0, event.pos_in_window, i as int),
        decreases n - i,
    {
        let ghost before = root.children@;
        let mut child = root.children.remove(i);
        let ghost child0 = child;
        proof {
            assert(child0 == old(root).children@[i as int]);
            assert(tree_eq_view(old(root).children@[i as int], child0)) by {
                lemma_tree_eq_view_reflexive(child0);
            }
            assert(decreases_to!(*old(root) => old(root).children));
            assert(decreases_to!(old(root).children => old(root).children@));
            assert(decreases_to!(old(root).children@ => old(root).children@[i as int]));
        }
        let r = dispatch_mouse_input_to(&mut child, sys, win, target, event);
        self_insert(root, i, child);
        proof {
            assert(root.children@ =~= before.update(i as int, child));
        }
        match r {
            Ok(accepted) => {
                proof {
                    assert(targeted_mouse_find(old(root).children@[i as int], target.0, event.pos_in_window) is Some);
                    assert(targeted_mouse_scan(old(root).children@, target.0, event.pos_in_window, i as int)
                        == targeted_mouse_find(old(root).children@[i as int], target.0, event.pos_in_window));
                    assert forall|k: int| 0 <= k < root.children@.len() implies rects_wf(
                        #[trigger] root.children@[k],
                    ) by {
                        if k != i {
                            assert(root.children@[k] == before[k]);
                        }
                    }
                    assert(rects_wf(*root));
                }
                return Ok(accepted);
            },
            Err(_) => {
                proof {
                    assert(tree_eq_view(child0, child));
                    assert forall|k: int| 0 <= k < root.children@.len() implies tree_eq_view(
                        #[trigger] old(root).children@[k],
                        root.children@[k],
                    ) by {
                        if k != i {
                            assert(root.children@[k] == before[k]);
                        }
                    }
                    assert forall|k: int| 0 <= k < root.children@.len() implies rects_wf(
                        #[trigger] root.children@[k],
                    ) by {
                        if k != i {
                            assert(root.children@[k] == before[k]);
                        }
                    }
                    assert(targeted_mouse_scan(old(root).children@, target.0, event.pos_in_window, i as int)
                        == targeted_mouse_scan(old(root).children@, target.0, event.pos_in_window, i + 1));
                }
            },
        }
        i = i + 1;
    }
    proof {
        assert(rects_wf(*root));
        assert(tree_eq_view(*old(root), *root));
    }
    Err(CoreError::WidgetNotFound)
}

impl Window {
    /// Route a pointer move: to the grabber while a gesture is in
    /// progress — remapped by the grabber's window rectangle, wherever
    /// the pointer is — else hit-tested from the root with enter
    /// synthesis on the way. Unchanged positions are dropped. Returns the
    /// routing target and whether a handler accepted.
    #[verifier::rlimit(100)]
    #[verifier::spinoff_prover]
    pub fn handle_mouse_move(&mut self, sys: &mut System, device_id: u64, pos_in_window: Point) -> (r: (
        Option<RawWidgetId>,
        bool,
    ))
        requires
            old(self).wf(),
        ensures
            final(self).wf(),
            final(self).cursor_position == Some(pos_in_window),
            // A repeated position is coalesced away.
            old(self).cursor_position == Some(pos_in_window) ==> (*final(self) == *old(self) && r
                == (None::<RawWidgetId>, false)),
            // Capture is respected, as for button events.
            (old(self).cursor_position != Some(pos_in_window) && old(self).mouse_grabber_widget is Some)
                ==> r.0 == old(self).mouse_grabber_widget,
            (old(self).cursor_position != Some(pos_in_window) && old(self).mouse_grabber_widget is Some && old(self).root_widget is Some)
                ==> r.1 == (match targeted_mouse_find(
                old(self).root_widget.unwrap(),
                old(self).mouse_grabber_widget.unwrap().0,
                pos_in_window,
            ) {
                Some(p) => pointer_acceptor(p.0, p.1, PointerEventKind::Move).is_some(),
                None => false,
            }),
            // Without capture the move is hit-tested from the root.
            (old(self).cursor_position != Some(pos_in_window) && old(self).mouse_grabber_widget is None && old(self).root_widget is Some)
                ==> r.1 == pointer_acceptor(
                old(self).root_widget.unwrap(),
                pos_in_window,
                PointerEventKind::Move,
            ).is_some(),
            final(self).mouse_grabber_widget == old(self).mouse_grabber_widget,
    {
        if self.cursor_position == Some(pos_in_window) {
            return (None, false);
        }
        self.cursor_position = Some(pos_in_window);
        let routed: Option<RawWidgetId>;
        let mut accepted: bool = false;
        match self.mouse_grabber_widget {
            Some(grabber_id) => {
                routed = Some(grabber_id);
                match &mut self.root_widget {
                    Some(root) => {
                        self.shared.begin_mouse_event();
                        let event = MouseMoveEvent { device_id, pos: pos_in_window, pos_in_window };
                        match dispatch_mouse_move_to(root, sys, &mut self.shared, grabber_id, &event) {
                            Ok(a) => {
                                accepted = a;
                            },
                            Err(e) => {
                                crate::system::report_error(&mut sys.errors, e);
                            },
                        }
                        let _ = self.shared.end_mouse_event();
                    },
                    None => {},
                }
            },
            None => {
                match &mut self.root_widget {
                    Some(root) => {
                        self.shared.begin_mouse_event();
                        let event = MouseMoveEvent { device_id, pos: pos_in_window, pos_in_window };
                        accepted = root.dispatch_mouse_move(sys, &mut self.shared, &event);
                        let accepted_by = self.shared.end_mouse_event();
                        routed = accepted_by;
                        if accepted_by.is_none() {
                            // Nobody under the pointer: back to the
                            // default cursor.
                            self.shared.set_cursor(CursorIcon::Default);
                        }
                    },
                    None => {
                        routed = None;
                    },
                }
            },
        }
        self.shared.request_redraw();
        (routed, accepted)
    }
}

/// Deliver a pointer move straight to the widget `target` — the grabber
/// of an in-progress gesture — with the position remapped by the
/// target's own window rectangle, bypassing hit-testing entirely.
#[verifier::loop_isolation(false)]
#[verifier::rlimit(100)]
#[verifier::spinoff_prover]
fn dispatch_mouse_move_to(
    root: &mut Widget,
    sys: &mut System,
    win: &mut SharedWindowState,
    target: RawWidgetId,
    event: &MouseMoveEvent,
) -> (r: Result<bool, CoreError>)
    requires
        rects_wf(*old(root)),
    ensures
        rects_wf(*final(root)),
        final(win).wf() == old(win).wf(),
        (match targeted_mouse_find(*old(root), target.0, event.pos_in_window) {
            Some(p) => r == Ok::<bool, CoreError>(pointer_acceptor(
                p.0,
                p.1,
                PointerEventKind::Move,
            ).is_some()),
            None => r is Err && tree_eq_view(*old(root), *final(root)) && *final(win)
                == *old(win) && *final(sys) == *old(sys),
        }),
    decreases *old(root),
{
    if root.common.id.0 == target.0 {
        let rect = match &root.common.geometry {
            Some(g) => g.rect_in_window,
            None => {
                proof {
                    lemma_tree_eq_view_reflexive(*root);
                }
                return Err(CoreError::NoGeometry);
            },
        };
        let pos = match event.pos_in_window.checked_sub(rect.top_left) {
            Some(p) => p,
            None => {
                proof {
                    lemma_tree_eq_view_reflexive(*root);
                }
                return Err(CoreError::NoGeometry);
            },
        };
        let mapped = MouseMoveEvent { pos, ..*event };
        let accepted = root.dispatch_mouse_move(sys, win, &mapped);
        return Ok(accepted);
    }
    let mut i: usize = 0;
    let n = root.children.len();
    proof {
        assert forall|k: int| 0 <= k < root.children@.len() implies tree_eq_view(
            #[trigger] old(root).children@[k],
            root.children@[k],
        ) by {
            lemma_tree_eq_view_reflexive(root.children@[k]);
        }
    }
    while i < n
        invariant
            0 <= i <= n,
            n == root.children@.len(),
            root.common == old(root).common,
            root.kind == old(root).kind,
            root.children@.len() == old(root).children@.len(),
            forall|k: int|
                i <= k < root.children@.len() ==> #[trigger] root.children@[k] == old(root).children@[k],
            forall|k: int|
                0 <= k < root.children@.len() ==> tree_eq_view(
                    #[trigger] old(root).children@[k],
                    root.children@[k],
                ),
            forall|k: int| 0 <= k < root.children@.len() ==> rects_wf(#[trigger] root.children@[k]),
            *win == *old(win),
            *sys == *old(sys),
            targeted_mouse_scan(old(root).children@, target.0, event.pos_in_window, 0)
                == targeted_mouse_scan(old(root).children@, target.0, event.pos_in_window, i as int),
        decreases n - i,
    {
        let ghost before = root.children@;
        let mut child = root.children.remove(i);
        let ghost child0 = child;
        proof {
            assert(child0 == old(root).children@[i as int]);
            assert(tree_eq_view(old(root).children@[i as int], child0)) by {
                lemma_tree_eq_view_reflexive(child0);
            }
            assert(decreases_to!(*old(root) => old(root).children));
            assert(decreases_to!(old(root).children => old(root).children@));
            assert(decreases_to!(old(root).children@ => old(root).children@[i as int]));
        }
        let r = dispatch_mouse_move_to(&mut child, sys, win, target, event);
        self_insert(root, i, child);
        proof {
            assert(root.children@ =~= before.update(i as int, child));
        }
        match r {
            Ok(accepted) => {
                proof {
                    assert(targeted_mouse_find(old(root).children@[i as int], target.0, event.pos_in_window) is Some);
                    assert(targeted_mouse_scan(old(root).children@, target.0, event.pos_in_window, i as int)
                        == targeted_mouse_find(old(root).children@[i as int], target.0, event.pos_in_window));
                    assert forall|k: int| 0 <= k < root.children@.len() implies rects_wf(
                        #[trigger] root.children@[k],
                    ) by {
                        if k != i {
                            assert(root.children@[k] == before[k]);
                        }
                    }
                    assert(rects_wf(*root));
                }
                return Ok(accepted);
            },
            Err(_) => {
                proof {
                    assert(tree_eq_view(child0, child));
                    assert forall|k: int| 0 <= k < root.children@.len() implies tree_eq_view(
                        #[trigger] old(root).children@[k],
                        root.children@[k],
                    ) by {
                        if k != i {
                            assert(root.children@[k] == before[k]);
                        }
                    }
                    assert forall|k: int| 0 <= k < root.children@.len() implies rects_wf(
                        #[trigger] root.children@[k],
                    ) by {
                        if k != i {
                            assert(root.children@[k] == before[k]);
                        }
                    }
                    assert(targeted_mouse_scan(old(root).children@, target.0, event.pos_in_window, i as int)
                        == targeted_mouse_scan(old(root).children@, target.0, event.pos_in_window, i + 1));
                }
            },
        }
        i = i + 1;
    }
    proof {
        assert(rects_wf(*root));
        assert(tree_eq_view(*old(root), *root));
    }
    Err(CoreError::WidgetNotFound)
}

/// Put `child` back at position `i`.
fn self_insert(root: &mut Widget, i: usize, child: Widget)
    requires
        i <= old(root).children@.len(),
    ensures
        final(root).children@ =~= old(root).children@.insert(i as int, child),
        final(root).common == old(root).common,
        final(root).kind == old(root).kind,
{
    root.children.insert(i, child);
}

} // verus!

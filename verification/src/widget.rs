//! The widget tree itself: per-node state shared by every widget, the
//! closed set of concrete widget behaviors, and the recursive operations
//! that dispatch events, propagate scopes, negotiate sizes and keep the
//! accessibility mirror in step.

use vstd::prelude::*;

use crate::address::WidgetAddress;
use crate::events::CursorIcon;
use crate::geometry::Rect;
use crate::ids::RawWidgetId;
use crate::style::{ComputedStyle, Element, WidgetScope};
use crate::window::SharedWindowState;

verus! {

/// A widget's reported extent along one axis.
#[derive(Debug, Clone, Copy, PartialEq, Eq, Structural)]
pub struct SizeHints {
    pub min: i64,
    pub preferred: i64,
    /// Whether the widget refuses to grow past `preferred`.
    pub is_fixed: bool,
}

/// Where a mounted widget currently sits: its address, the window, its
/// parent and its key among the siblings.
#[derive(Debug)]
pub struct MountPoint {
    pub address: WidgetAddress,
    pub window_id: u64,
    pub parent_id: Option<RawWidgetId>,
    pub index_in_parent: usize,
}

/// A laid-out widget's rectangle, in its parent's and in the window's
/// coordinates.
#[derive(Debug, Clone, Copy, PartialEq, Eq, Structural)]
pub struct WidgetGeometry {
    pub rect_in_parent: Rect,
    pub rect_in_window: Rect,
}

/// The observable decisions of an installed event filter: which event
/// classes it consumes before the widget's own handler runs.
#[derive(Debug, Clone, Copy, PartialEq, Eq, Structural)]
pub struct EventFilterHook {
    pub accept_mouse_input: bool,
    pub accept_mouse_scroll: bool,
    pub accept_mouse_move: bool,
    pub accept_mouse_enter: bool,
    pub accept_keyboard: bool,
}

#[derive(Debug)]
pub struct ButtonState {
    pub text: String,
    pub is_pressed: bool,
}

#[derive(Debug)]
pub struct LabelState {
    pub text: String,
}

/// The concrete widget behaviors the engine ships as core contract
/// examples; containers differ in their layout discipline.
#[derive(Debug)]
pub enum WidgetKind {
    /// Accepts pointer input; tracks pressed state.
    Button(ButtonState),
    /// Pure output; never accepts anything.
    Label(LabelState),
    /// Children placed at explicit rectangles given at insertion time.
    Stack,
    /// A single child inset by the style's padding.
    PaddingBox,
    /// Children stacked top to bottom at their preferred heights.
    Column,
}

/// Per-node state shared by every widget.
pub struct WidgetCommon {
    pub id: RawWidgetId,
    pub is_focusable: bool,
    pub enable_ime: bool,
    pub cursor_icon: CursorIcon,
    /// Receive mapped pointer events even outside the widget's bounds
    /// (drag/grab continuation).
    pub receives_all_mouse_events: bool,
    /// Whether this widget contributes an accessible node; a transparent
    /// widget's accessible children attach to the nearest real ancestor.
    pub is_accessible: bool,
    pub is_focused: bool,
    pub is_window_focused: bool,
    pub is_mouse_over: bool,
    /// The scope inherited from the parent; effective state derives from
    /// it and the explicit flags below.
    pub parent_scope: WidgetScope,
    pub is_explicitly_enabled: bool,
    pub is_explicitly_visible: bool,
    pub explicit_style: Option<std::rc::Rc<ComputedStyle>>,
    pub mount_point: Option<MountPoint>,
    /// Present only once the widget is mounted and laid out.
    pub geometry: Option<WidgetGeometry>,
    /// Placement chosen at insertion time, used by `Stack` parents.
    pub explicit_rect_in_parent: Option<Rect>,
    pub size_hint_x_cache: Option<SizeHints>,
    pub size_hint_y_cache: std::collections::HashMap<i64, SizeHints>,
    pub pending_accessible_update: bool,
    pub event_filter: Option<EventFilterHook>,
    /// What selector matching sees of this widget.
    pub style_element: Element,
}

/// One node of the tree: shared state, concrete behavior, and exclusively
/// owned children in insertion order (the child key is the index).
pub struct Widget {
    pub common: WidgetCommon,
    pub kind: WidgetKind,
    pub children: Vec<Widget>,
}

impl WidgetCommon {
    /// Effective enabledness: the parent scope's conjoined with this
    /// widget's explicit flag.
    pub open spec fn is_enabled_spec(self) -> bool {
        self.parent_scope.is_enabled && self.is_explicitly_enabled
    }

    pub open spec fn is_visible_spec(self) -> bool {
        self.parent_scope.is_visible && self.is_explicitly_visible
    }

    pub open spec fn is_focused_spec(self) -> bool {
        self.is_focused && self.is_window_focused
    }

    /// The style in force: the explicit override if any, else the
    /// inherited one.
    pub open spec fn style_spec(self) -> std::rc::Rc<ComputedStyle> {
        match self.explicit_style {
            Some(style) => style,
            None => self.parent_scope.style,
        }
    }

    /// The scope this widget passes down to its children.
    pub open spec fn effective_scope_spec(self) -> WidgetScope {
        WidgetScope {
            is_visible: self.is_visible_spec(),
            is_enabled: self.is_enabled_spec(),
            style: self.style_spec(),
        }
    }
}

impl Widget {
    pub open spec fn is_enabled_spec(self) -> bool {
        self.common.is_enabled_spec()
    }

    pub open spec fn is_visible_spec(self) -> bool {
        self.common.is_visible_spec()
    }

    /// The inherited scope stored at every node equals what its parent
    /// hands down, all the way through this subtree. This is the
    /// cascading-scope invariant that scope propagation maintains.
    pub open spec fn scopes_consistent(self) -> bool
        decreases self,
    {
        forall|k: int|
            0 <= k < self.children@.len() ==> ((#[trigger] self.children@[k]).common.parent_scope
                == self.common.effective_scope_spec() && self.children@[k].scopes_consistent())
    }

    /// Every widget in this subtree, the root included, is effectively
    /// disabled.
    pub open spec fn all_disabled(self) -> bool
        decreases self,
    {
        !self.is_enabled_spec() && forall|k: int|
            0 <= k < self.children@.len() ==> (#[trigger] self.children@[k]).all_disabled()
    }

    /// Whether this widget is both implicitly and explicitly enabled.
    pub fn is_enabled(&self) -> (r: bool)
        ensures
            r == self.is_enabled_spec(),
    {
        self.common.parent_scope.is_enabled && self.common.is_explicitly_enabled
    }

    pub fn is_visible(&self) -> (r: bool)
        ensures
            r == self.is_visible_spec(),
    {
        self.common.parent_scope.is_visible && self.common.is_explicitly_visible
    }

    /// Focused within a focused window.
    pub fn is_focused(&self) -> (r: bool)
        ensures
            r == self.common.is_focused_spec(),
    {
        self.common.is_focused && self.common.is_window_focused
    }

    /// The style this widget renders with.
    pub fn style(&self) -> (r: &std::rc::Rc<ComputedStyle>)
        ensures
            *r == self.common.style_spec(),
    {
        match &self.common.explicit_style {
            Some(style) => style,
            None => &self.common.parent_scope.style,
        }
    }

    /// The scope this widget hands down to children.
    pub fn effective_scope(&self) -> (r: WidgetScope)
        ensures
            r == self.common.effective_scope_spec(),
    {
        let style = std::rc::Rc::clone(self.style());
        WidgetScope { is_visible: self.is_visible(), is_enabled: self.is_enabled(), style }
    }

    /// Ask for redraw and an accessibility refresh; a no-op on unmounted
    /// widgets.
    pub fn update(&mut self, win: &mut SharedWindowState)
        ensures
            final(self).common == (WidgetCommon {
                pending_accessible_update: final(self).common.pending_accessible_update,
                ..old(self).common
            }),
            final(self).kind == old(self).kind,
            final(self).children == old(self).children,
            old(self).common.mount_point.is_some() ==> (final(self).common.pending_accessible_update && *final(win) == (SharedWindowState {
                redraw_requested: true,
                ..*old(win)
            })),
            old(self).common.mount_point.is_none() ==> (final(self).common
                == old(self).common && *final(win) == *old(win)),
    {
        if self.common.mount_point.is_some() {
            win.request_redraw();
            self.common.pending_accessible_update = true;
        }
    }
}

/// Two scopes carry the same values (visibility, enabledness and the
/// style contents).
pub fn scopes_equal(a: &WidgetScope, b: &WidgetScope) -> (r: bool)
    ensures
        r == (*a == *b),
{
    let style_eq = *a.style == *b.style;
    proof {
        if a.is_visible == b.is_visible && a.is_enabled == b.is_enabled && style_eq {
            assert(*a == (WidgetScope {
                is_visible: a.is_visible,
                is_enabled: a.is_enabled,
                style: a.style,
            }));
            assert(*b == (WidgetScope {
                is_visible: a.is_visible,
                is_enabled: a.is_enabled,
                style: a.style,
            }));
        }
    }
    a.is_visible == b.is_visible && a.is_enabled == b.is_enabled && style_eq
}

impl Widget {
    /// What scope propagation may change below a node: inherited scopes
    /// and the accessible-update flag; identity, explicit flags, caches,
    /// geometry and behavior stay.
    #[verifier::opaque]
    pub open spec fn scope_frame(a: Widget, b: Widget) -> bool
        decreases a,
    {
        &&& b.kind == a.kind
        &&& b.common == (WidgetCommon {
            parent_scope: b.common.parent_scope,
            pending_accessible_update: b.common.pending_accessible_update,
            ..a.common
        })
        &&& b.children@.len() == a.children@.len()
        &&& forall|k: int|
            0 <= k < a.children@.len() ==> Self::scope_frame(
                #[trigger] a.children@[k],
                b.children@[k],
            )
    }

    /// Install the scope handed down by the parent and re-derive this
    /// subtree: every child whose effective scope would change gets the
    /// new scope and recurses; a child whose derived values are
    /// unaffected keeps its consistent subtree and is pruned, so flipping
    /// a parent does no work below children that were already explicitly
    /// disabled.
    #[verifier::loop_isolation(false)]
    #[verifier::rlimit(100)]
    #[verifier::spinoff_prover]
    pub fn set_parent_scope(&mut self, win: &mut SharedWindowState, scope: WidgetScope)
        requires
            forall|k: int|
                0 <= k < old(self).children@.len() ==> (#[trigger] old(self).children@[k]).scopes_consistent(),
        ensures
            final(self).scopes_consistent(),
            Self::scope_frame(*old(self), *final(self)),
            final(self).common == (WidgetCommon {
                parent_scope: scope,
                pending_accessible_update: final(self).common.pending_accessible_update,
                ..old(self).common
            }),
            final(self).kind == old(self).kind,
            final(self).children@.len() == old(self).children@.len(),
            final(win).eq_except_mouse(*old(win)),
            final(win).mouse_entered == old(win).mouse_entered,
            final(win).mouse_event_active == old(win).mouse_event_active,
            final(win).mouse_event_accepted_by == old(win).mouse_event_accepted_by,
            final(win).cursor_icon == old(win).cursor_icon,
            old(win).redraw_requested ==> final(win).redraw_requested,
        decreases *old(self), 0nat,
    {
        self.common.parent_scope = scope;
        let eff = self.effective_scope();
        let ghost scope_spec = self.common.effective_scope_spec();
        let mut i: usize = 0;
        while i < self.children.len()
            invariant
                i <= self.children@.len(),
                eff == scope_spec,
                self.common == (WidgetCommon { parent_scope: scope, ..old(self).common }),
                self.kind == old(self).kind,
                scope_spec == self.common.effective_scope_spec(),
                self.children@.len() == old(self).children@.len(),
                forall|k: int|
                    i <= k < self.children@.len() ==> #[trigger] self.children@[k] == old(self).children@[k],
                forall|k: int|
                    0 <= k < i ==> Self::scope_frame(
                        #[trigger] old(self).children@[k],
                        self.children@[k],
                    ),
                forall|k: int|
                    0 <= k < i ==> ((#[trigger] self.children@[k]).common.parent_scope
                        == scope_spec && self.children@[k].scopes_consistent()),
                win.eq_except_mouse(*old(win)),
                win.mouse_entered == old(win).mouse_entered,
                win.mouse_event_active == old(win).mouse_event_active,
                win.mouse_event_accepted_by == old(win).mouse_event_accepted_by,
                win.cursor_icon == old(win).cursor_icon,
                old(win).redraw_requested ==> win.redraw_requested,
            decreases self.children@.len() - i,
        {
            let mut child = self.children.remove(i);
            let ghost child0 = child;
            proof {
                assert(child0 == old(self).children@[i as int]);
                assert(child0.scopes_consistent());
                assert(decreases_to!(*old(self) => old(self).children));
                assert(decreases_to!(old(self).children => old(self).children@));
                assert(decreases_to!(old(self).children@ => old(self).children@[i as int]));
                assert(decreases_to!(*old(self) => old(self).children@[i as int]));
            }
            set_child_scope(&mut child, win, eff.duplicate());
            proof {
                assert(child.common.parent_scope == scope_spec);
                assert(child.scopes_consistent());
            }
            self.children.insert(i, child);
            i = i + 1;
        }
        self.update(win);
        proof {
            assert(self.common.effective_scope_spec() == scope_spec);
            assert forall|k: int| 0 <= k < self.children@.len() implies ((
            #[trigger] self.children@[k]).common.parent_scope
                == self.common.effective_scope_spec()
                && self.children@[k].scopes_consistent()) by {}
            reveal(Widget::scope_frame);
            assert(Self::scope_frame(*old(self), *self));
        }
    }

    /// Re-derive the scopes of this subtree from the inherited scope
    /// already stored here, after an explicit flag or style of this
    /// widget changed.
    pub fn dispatch_scope_change(&mut self, win: &mut SharedWindowState)
        requires
            forall|k: int|
                0 <= k < old(self).children@.len() ==> (#[trigger] old(self).children@[k]).scopes_consistent(),
        ensures
            final(self).scopes_consistent(),
            Self::scope_frame(*old(self), *final(self)),
            final(self).common == (WidgetCommon {
                pending_accessible_update: final(self).common.pending_accessible_update,
                ..old(self).common
            }),
            final(self).kind == old(self).kind,
            final(self).children@.len() == old(self).children@.len(),
            final(win).eq_except_mouse(*old(win)),
            final(win).mouse_entered == old(win).mouse_entered,
            final(win).mouse_event_active == old(win).mouse_event_active,
            final(win).mouse_event_accepted_by == old(win).mouse_event_accepted_by,
            final(win).cursor_icon == old(win).cursor_icon,
            old(win).redraw_requested ==> final(win).redraw_requested,
    {
        let scope = self.common.parent_scope.duplicate();
        self.set_parent_scope(win, scope);
    }

    /// Set the explicit enabled flag; the effective state of every
    /// descendant is re-derived, and subtrees whose effective state is
    /// unchanged are pruned.
    pub fn set_enabled(&mut self, win: &mut SharedWindowState, enabled: bool)
        requires
            old(self).scopes_consistent(),
        ensures
            final(self).scopes_consistent(),
            final(self).common == (WidgetCommon {
                is_explicitly_enabled: enabled,
                pending_accessible_update: final(self).common.pending_accessible_update,
                ..old(self).common
            }),
            final(self).kind == old(self).kind,
            final(self).is_enabled_spec() == (old(self).common.parent_scope.is_enabled && enabled),
            final(win).eq_except_mouse(*old(win)),
            old(win).redraw_requested ==> final(win).redraw_requested,
    {
        self.common.is_explicitly_enabled = enabled;
        self.dispatch_scope_change(win);
        proof {
            assert(self.common == (WidgetCommon {
                is_explicitly_enabled: enabled,
                pending_accessible_update: self.common.pending_accessible_update,
                ..old(self).common
            }));
        }
    }

    /// Set the explicit visible flag. An unchanged value is a no-op; a
    /// change re-derives the subtree's scopes and invalidates this
    /// widget's size hints (visibility affects what the parent lays out),
    /// queueing the address so the next layout pass invalidates the
    /// ancestors too.
    pub fn set_visible(&mut self, win: &mut SharedWindowState, visible: bool)
        requires
            old(self).scopes_consistent(),
        ensures
            old(self).common.is_explicitly_visible == visible ==> (*final(self) == *old(self)
                && *final(win) == *old(win)),
            final(self).scopes_consistent(),
            final(self).kind == old(self).kind,
            final(self).is_visible_spec() == (old(self).common.parent_scope.is_visible && visible),
            old(self).common.is_explicitly_visible != visible ==> (final(self).common == (WidgetCommon {
                is_explicitly_visible: visible,
                pending_accessible_update: final(self).common.pending_accessible_update,
                size_hint_x_cache: None,
                size_hint_y_cache: final(self).common.size_hint_y_cache,
                ..old(self).common
            }) && final(self).common.size_hint_y_cache@ =~= Map::<i64, SizeHints>::empty()),
            final(win).accessible_nodes == old(win).accessible_nodes,
            final(win).widget_tree_changed == old(win).widget_tree_changed,
            old(win).redraw_requested ==> final(win).redraw_requested,
            (old(self).common.is_explicitly_visible != visible && old(self).common.mount_point is Some) ==> (final(win).pending_size_hint_invalidations@.len() == old(win).pending_size_hint_invalidations@.len() + 1 && final(win).pending_size_hint_invalidations@.last().path@ =~= old(self).common.mount_point.unwrap().address.path@ && final(win).pending_size_hint_invalidations@.take(old(win).pending_size_hint_invalidations@.len() as int) =~= old(win).pending_size_hint_invalidations@),
            (old(self).common.is_explicitly_visible == visible || old(self).common.mount_point is None) ==> final(win).pending_size_hint_invalidations == old(win).pending_size_hint_invalidations,
    {
        if self.common.is_explicitly_visible == visible {
            return ;
        }
        self.common.is_explicitly_visible = visible;
        self.dispatch_scope_change(win);
        proof {
            assert(self.common == (WidgetCommon {
                is_explicitly_visible: visible,
                pending_accessible_update: self.common.pending_accessible_update,
                ..old(self).common
            }));
        }
        self.size_hint_changed(win);
    }

    /// Install or clear an explicit style override and re-derive the
    /// subtree: descendants without an override of their own see the new
    /// style.
    pub fn set_style(&mut self, win: &mut SharedWindowState, style: Option<std::rc::Rc<ComputedStyle>>)
        requires
            old(self).scopes_consistent(),
        ensures
            final(self).scopes_consistent(),
            final(self).common == (WidgetCommon {
                explicit_style: style,
                pending_accessible_update: final(self).common.pending_accessible_update,
                ..old(self).common
            }),
            final(self).kind == old(self).kind,
            final(win).eq_except_mouse(*old(win)),
            old(win).redraw_requested ==> final(win).redraw_requested,
    {
        self.common.explicit_style = style;
        self.dispatch_scope_change(win);
        proof {
            assert(self.common == (WidgetCommon {
                explicit_style: style,
                pending_accessible_update: self.common.pending_accessible_update,
                ..old(self).common
            }));
        }
    }
}

/// Hand `scope` down to one child: when every value the child would
/// derive from it is what the child already derives, only the stored
/// scope is refreshed and the subtree is pruned; otherwise the child
/// re-derives its whole subtree.
#[verifier::rlimit(50)]
fn set_child_scope(child: &mut Widget, win: &mut SharedWindowState, scope: WidgetScope)
    requires
        old(child).scopes_consistent(),
    ensures
        final(child).scopes_consistent(),
        Widget::scope_frame(*old(child), *final(child)),
        final(child).common.parent_scope == scope,
        final(win).eq_except_mouse(*old(win)),
        final(win).mouse_entered == old(win).mouse_entered,
        final(win).mouse_event_active == old(win).mouse_event_active,
        final(win).mouse_event_accepted_by == old(win).mouse_event_accepted_by,
        final(win).cursor_icon == old(win).cursor_icon,
        old(win).redraw_requested ==> final(win).redraw_requested,
    decreases *old(child), 1nat,
{
    // The scope the child would derive under the new inherited scope,
    // computed without touching the child yet.
    let would_style = match &child.common.explicit_style {
        Some(s) => std::rc::Rc::clone(s),
        None => std::rc::Rc::clone(&scope.style),
    };
    let would_be = WidgetScope {
        is_visible: scope.is_visible && child.common.is_explicitly_visible,
        is_enabled: scope.is_enabled && child.common.is_explicitly_enabled,
        style: would_style,
    };
    let current_eff = child.effective_scope();
    if scopes_equal(&current_eff, &would_be) {
        // The stored scope may be stale, but every value the child
        // derives is the same (e.g. an explicitly disabled child when
        // the parent flips): refresh the stored scope and prune the
        // subtree.
        let ghost child0 = *old(child);
        child.common.parent_scope = scope;
        proof {
            reveal(Widget::scope_frame);
            assert(child.children@ =~= child0.children@);
            assert(child.common.effective_scope_spec() == would_be);
            assert(child.common.effective_scope_spec() == child0.common.effective_scope_spec());
            assert forall|k: int| 0 <= k < child.children@.len() implies ((
            #[trigger] child.children@[k]).common.parent_scope
                == child.common.effective_scope_spec()
                && child.children@[k].scopes_consistent()) by {
                assert(child0.children@[k].common.parent_scope
                    == child0.common.effective_scope_spec());
                assert(child0.children@[k].scopes_consistent());
            }
            assert forall|k: int| 0 <= k < child.children@.len() implies Widget::scope_frame(
                #[trigger] child0.children@[k],
                child.children@[k],
            ) by {
                lemma_scope_frame_reflexive(child0.children@[k]);
            }
            assert(Widget::scope_frame(child0, *child));
        }
    } else {
        proof {
            assert forall|k: int| 0 <= k < child.children@.len() implies (
            #[trigger] child.children@[k]).scopes_consistent() by {}
        }
        child.set_parent_scope(win, scope);
    }
}

/// The scope frame is reflexive: a subtree relates to itself.
pub proof fn lemma_scope_frame_reflexive(w: Widget)
    ensures
        Widget::scope_frame(w, w),
    decreases w,
{
    reveal(Widget::scope_frame);
    assert forall|k: int| 0 <= k < w.children@.len() implies Widget::scope_frame(
        #[trigger] w.children@[k],
        w.children@[k],
    ) by {
        lemma_scope_frame_reflexive(w.children@[k]);
    }
}

/// Scope monotonicity, first half: under the cascading-scope invariant,
/// a child's effective enabledness is exactly its parent's effective
/// enabledness conjoined with the child's explicit flag.
pub proof fn lemma_effective_enabled_cascades(parent: Widget, k: int)
    requires
        parent.scopes_consistent(),
        0 <= k < parent.children@.len(),
    ensures
        parent.children@[k].is_enabled_spec() == (parent.is_enabled_spec()
            && parent.children@[k].common.is_explicitly_enabled),
{
    assert(parent.children@[k].common.parent_scope == parent.common.effective_scope_spec());
}

/// Scope monotonicity, second half: an effectively disabled widget with a
/// consistent subtree leaves no descendant effectively enabled.
pub proof fn lemma_disabled_root_disables_subtree(w: Widget)
    requires
        w.scopes_consistent(),
        !w.is_enabled_spec(),
    ensures
        w.all_disabled(),
    decreases w,
{
    assert forall|k: int| 0 <= k < w.children@.len() implies (
    #[trigger] w.children@[k]).all_disabled() by {
        assert(w.children@[k].common.parent_scope == w.common.effective_scope_spec());
        assert(!w.children@[k].is_enabled_spec());
        lemma_disabled_root_disables_subtree(w.children@[k]);
    }
}

} // verus!

use crate::events::{ElementState, MouseButton, MouseInputEvent, MouseScrollEvent, MouseMoveEvent, MouseEnterEvent};
use crate::geometry::Point;
use crate::system::{report_error, CoreError, System};

verus! {

/// The pointer event classes that hit-test children geometrically.
#[derive(Debug, Clone, Copy, PartialEq, Eq, Structural)]
pub enum PointerEventKind {
    Input(ElementState, MouseButton),
    Scroll,
    Move,
}

/// Whether a child is offered a pointer event at `pos` (in the parent's
/// coordinates): it has a rectangle and either contains the position or
/// receives all events and the remapped position is representable.
pub open spec fn pointer_offered(c: Widget, pos: Point) -> bool {
    match c.common.geometry {
        Some(g) => g.rect_in_parent.spec_contains(pos) || (c.common.receives_all_mouse_events
            && pos.sub_fits(g.rect_in_parent.top_left)),
        None => false,
    }
}

/// The event position remapped into the child's coordinates.
pub open spec fn pointer_mapped_pos(c: Widget, pos: Point) -> Point {
    match c.common.geometry {
        Some(g) => pos.spec_minus(g.rect_in_parent.top_left),
        None => pos,
    }
}

/// Whether the installed event filter consumes this pointer event.
pub open spec fn filter_accepts_pointer(w: Widget, kind: PointerEventKind) -> bool {
    match w.common.event_filter {
        Some(f) => match kind {
            PointerEventKind::Input(_, _) => f.accept_mouse_input,
            PointerEventKind::Scroll => f.accept_mouse_scroll,
            PointerEventKind::Move => f.accept_mouse_move,
        },
        None => false,
    }
}

/// Whether the widget's own handler accepts this pointer event: buttons
/// take clicks and moves, everything else declines.
pub open spec fn kind_accepts_pointer(w: Widget, kind: PointerEventKind) -> bool {
    match w.kind {
        WidgetKind::Button(_) => match kind {
            PointerEventKind::Input(_, _) => true,
            PointerEventKind::Move => true,
            PointerEventKind::Scroll => false,
        },
        _ => false,
    }
}

pub open spec fn self_accepts_pointer(w: Widget, kind: PointerEventKind) -> bool {
    filter_accepts_pointer(w, kind) || kind_accepts_pointer(w, kind)
}

/// Scan `children[i-1], ..., children[0]` — that is, from the topmost,
/// last-added sibling down — for the first offered child whose subtree
/// accepts the event; the result names that child's index and the id of
/// the widget that accepted.
pub open spec fn pointer_scan(
    children: Seq<Widget>,
    pos: Point,
    kind: PointerEventKind,
    i: int,
) -> Option<(int, RawWidgetId)>
    decreases children, 0nat, (if i >= 0 { i } else { 0 }),
{
    if i <= 0 || i > children.len() {
        None
    } else {
        let c = children[i - 1];
        if pointer_offered(c, pos) && pointer_acceptor(c, pointer_mapped_pos(c, pos), kind).is_some() {
            Some((i - 1, pointer_acceptor(c, pointer_mapped_pos(c, pos), kind).unwrap()))
        } else {
            pointer_scan(children, pos, kind, i - 1)
        }
    }
}

/// Who in this subtree accepts a pointer event at `pos` (in the widget's
/// own coordinates): nobody when the widget is effectively disabled;
/// otherwise the deepest acceptor found by offering the event to the
/// children in reverse order, and failing that the widget itself if its
/// filter or handler takes the event.
pub open spec fn pointer_acceptor(w: Widget, pos: Point, kind: PointerEventKind) -> Option<
    RawWidgetId,
>
    decreases w, 1nat, 0int,
{
    if !w.is_enabled_spec() {
        None
    } else {
        match pointer_scan(w.children@, pos, kind, w.children@.len() as int) {
            Some((_, id)) => Some(id),
            None => if self_accepts_pointer(w, kind) {
                Some(w.common.id)
            } else {
                None
            },
        }
    }
}

/// The cursor icon of the widget that would accept the event: the
/// acceptor's own `cursor_icon`, found along the same scan.
pub open spec fn pointer_scan_icon(
    children: Seq<Widget>,
    pos: Point,
    kind: PointerEventKind,
    i: int,
) -> Option<CursorIcon>
    decreases children, 0nat, (if i >= 0 { i } else { 0 }),
{
    if i <= 0 || i > children.len() {
        None
    } else {
        let c = children[i - 1];
        if pointer_offered(c, pos) && pointer_acceptor(c, pointer_mapped_pos(c, pos), kind).is_some() {
            pointer_acceptor_icon(c, pointer_mapped_pos(c, pos), kind)
        } else {
            pointer_scan_icon(children, pos, kind, i - 1)
        }
    }
}

/// See [`pointer_scan_icon`]: the icon of the deepest acceptor in this
/// subtree, to which the window's cursor changes on acceptance.
pub open spec fn pointer_acceptor_icon(w: Widget, pos: Point, kind: PointerEventKind) -> Option<
    CursorIcon,
>
    decreases w, 1nat, 0int,
{
    if !w.is_enabled_spec() {
        None
    } else {
        match pointer_scan(w.children@, pos, kind, w.children@.len() as int) {
            Some(_) => pointer_scan_icon(w.children@, pos, kind, w.children@.len() as int),
            None => if self_accepts_pointer(w, kind) {
                Some(w.common.cursor_icon)
            } else {
                None
            },
        }
    }
}

/// An acceptor exists exactly when an acceptor icon does.
pub proof fn lemma_pointer_icon_matches(w: Widget, pos: Point, kind: PointerEventKind)
    ensures
        pointer_acceptor_icon(w, pos, kind).is_some() == pointer_acceptor(w, pos, kind).is_some(),
    decreases w, 1nat, 0int,
{
    lemma_pointer_scan_icon_matches(w.children@, pos, kind, w.children@.len() as int);
}

pub proof fn lemma_pointer_scan_icon_matches(
    children: Seq<Widget>,
    pos: Point,
    kind: PointerEventKind,
    i: int,
)
    ensures
        pointer_scan_icon(children, pos, kind, i).is_some() == pointer_scan(
            children,
            pos,
            kind,
            i,
        ).is_some(),
    decreases children, 0nat, (if i >= 0 { i } else { 0 }),
{
    if i <= 0 || i > children.len() {
    } else {
        let c = children[i - 1];
        if pointer_offered(c, pos) && pointer_acceptor(c, pointer_mapped_pos(c, pos), kind).is_some() {
            lemma_pointer_icon_matches(c, pointer_mapped_pos(c, pos), kind);
        } else {
            lemma_pointer_scan_icon_matches(children, pos, kind, i - 1);
        }
    }
}

/// Every rectangle stored in this subtree is well formed.
pub open spec fn rects_wf(w: Widget) -> bool
    decreases w,
{
    &&& (match w.common.geometry {
        Some(g) => g.rect_in_parent.wf(),
        None => true,
    })
    &&& forall|k: int| 0 <= k < w.children@.len() ==> rects_wf(#[trigger] w.children@[k])
}

/// Hit-test containment: a widget with a well-formed rectangle is offered
/// a pointer event at a representable position exactly when the position
/// is inside its rectangle or the widget is flagged to receive all
/// events, and the event it is offered carries the position remapped by
/// the rectangle's origin.
pub proof fn lemma_hit_test_containment(c: Widget, pos: Point)
    requires
        c.common.geometry.is_some(),
        c.common.geometry.unwrap().rect_in_parent.wf(),
        pos.in_pos_range(),
    ensures
        pointer_offered(c, pos) <==> (c.common.geometry.unwrap().rect_in_parent.spec_contains(pos)
            || c.common.receives_all_mouse_events),
        pointer_mapped_pos(c, pos) == pos.spec_minus(
            c.common.geometry.unwrap().rect_in_parent.top_left,
        ),
{
}

/// Reverse z-order: when two siblings both could take an event at `pos`
/// and the later-added one (higher index) accepts it, the scan stops at
/// or above that sibling, so every earlier sibling is left untouched.
pub proof fn lemma_reverse_z_order(
    children: Seq<Widget>,
    pos: Point,
    kind: PointerEventKind,
    ib: int,
    i: int,
)
    requires
        0 <= ib < i <= children.len(),
        pointer_offered(children[ib], pos),
        pointer_acceptor(children[ib], pointer_mapped_pos(children[ib], pos), kind).is_some(),
    ensures
        pointer_scan(children, pos, kind, i).is_some(),
        pointer_scan(children, pos, kind, i).unwrap().0 >= ib,
    decreases i,
{
    if i - 1 == ib {
    } else {
        let c = children[i - 1];
        if pointer_offered(c, pos) && pointer_acceptor(c, pointer_mapped_pos(c, pos), kind).is_some() {
        } else {
            lemma_reverse_z_order(children, pos, kind, ib, i - 1);
        }
    }
}

} // verus!

verus! {

impl Widget {
    /// The widget's own last-chance interception and handler for a
    /// pointer event; run only after every child declined. A button's
    /// handler flips its pressed state on clicks.
    fn handle_pointer_event(&mut self, kind: PointerEventKind) -> (accepted: bool)
        ensures
            accepted == self_accepts_pointer(*old(self), kind),
            final(self).common == old(self).common,
            final(self).children == old(self).children,
            kind_same_variant(old(self).kind, final(self).kind),
            filter_accepts_pointer(*old(self), kind) ==> final(self).kind == old(self).kind,
    {
        let filter_accepted: bool = match &self.common.event_filter {
            Some(f) => match kind {
                PointerEventKind::Input(_, _) => f.accept_mouse_input,
                PointerEventKind::Scroll => f.accept_mouse_scroll,
                PointerEventKind::Move => f.accept_mouse_move,
            },
            None => false,
        };
        if filter_accepted {
            return true;
        }
        match &mut self.kind {
            WidgetKind::Button(state) => match kind {
                PointerEventKind::Input(element_state, _) => {
                    state.is_pressed = match element_state {
                        ElementState::Pressed => true,
                        ElementState::Released => false,
                    };
                    true
                },
                PointerEventKind::Move => true,
                PointerEventKind::Scroll => false,
            },
            _ => false,
        }
    }

    /// Dispatch a mouse press or release through this subtree: children
    /// are offered the remapped event from the last-added one down, the
    /// first accepting child wins, and only then may this widget's filter
    /// and handler take it. The deepest acceptor is recorded as the
    /// acceptor of the window's current mouse event.
    #[verifier::loop_isolation(false)]
    #[verifier::rlimit(100)]
    #[verifier::spinoff_prover]
    pub fn dispatch_mouse_input(
        &mut self,
        sys: &mut System,
        win: &mut SharedWindowState,
        event: &MouseInputEvent,
    ) -> (accepted: bool)
        requires
            rects_wf(*old(self)),
        ensures
            accepted == pointer_acceptor(
                *old(self),
                event.pos,
                PointerEventKind::Input(event.state, event.button),
            ).is_some(),
            rects_wf(*final(self)),
            final(self).common == old(self).common,
            kind_same_variant(old(self).kind, final(self).kind),
            final(self).children@.len() == old(self).children@.len(),
            pointer_untouched_below(
                *old(self),
                *final(self),
                event.pos,
                PointerEventKind::Input(event.state, event.button),
            ),
            final(sys).eq_except_errors(*old(sys)),
            old(sys).errors_extended(*final(sys)),
            final(win).eq_except_mouse(*old(win)),
            final(win).mouse_entered == old(win).mouse_entered,
            final(win).redraw_requested == old(win).redraw_requested,
            final(win).mouse_event_active == old(win).mouse_event_active,
            old(win).mouse_event_accepted_by.is_some() ==> final(win).mouse_event_accepted_by == old(win).mouse_event_accepted_by,
            (old(win).mouse_event_active && old(win).mouse_event_accepted_by.is_none()) ==> final(win).mouse_event_accepted_by == pointer_acceptor(
                *old(self),
                event.pos,
                PointerEventKind::Input(event.state, event.button),
            ),
            (!old(win).mouse_event_active) ==> final(win).mouse_event_accepted_by == old(win).mouse_event_accepted_by,
            // On acceptance the window's cursor becomes the acceptor's.
            (old(win).mouse_event_active && old(win).mouse_event_accepted_by.is_none()) ==> final(win).cursor_icon == (match pointer_acceptor_icon(
                *old(self),
                event.pos,
                PointerEventKind::Input(event.state, event.button),
            ) {
                Some(c) => c,
                None => old(win).cursor_icon,
            }),
            (!(old(win).mouse_event_active && old(win).mouse_event_accepted_by.is_none())) ==> final(win).cursor_icon == old(win).cursor_icon,
            // A disabled widget suppresses the event outright: nothing
            // anywhere is touched.
            !old(self).is_enabled_spec() ==> (*final(self) == *old(self) && *final(win) == *old(win) && *final(sys) == *old(sys)),
            // A consuming event filter pre-empts the widget's own
            // handler, whose state then stays as it was.
            (pointer_scan(old(self).children@, event.pos, PointerEventKind::Input(event.state, event.button), old(self).children@.len() as int) is None && filter_accepts_pointer(*old(self), PointerEventKind::Input(event.state, event.button))) ==> final(self).kind == old(self).kind,
        decreases *old(self),
    {
        let ghost kind = PointerEventKind::Input(event.state, event.button);
        let ghost pos = event.pos;
        let mut accepted = false;
        let enabled = self.is_enabled();
        if enabled {
            let mut i: usize = self.children.len();
            while i > 0 && !accepted
                invariant
                    0 <= i <= self.children@.len(),
                    self.common == old(self).common,
                    self.kind == old(self).kind,
                    self.children@.len() == old(self).children@.len(),
                    forall|k: int|
                        0 <= k < (if accepted { i - 1 } else { i as int }) ==> #[trigger] self.children@[k] == old(self).children@[k],
                    accepted ==> (i >= 1 && rects_wf(self.children@[i - 1]) && pointer_offered(old(self).children@[i - 1], pos)),
                    forall|k: int|
                        i <= k < self.children@.len() ==> (rects_wf(#[trigger] self.children@[k])
                            && (!pointer_offered(old(self).children@[k], pos)
                            ==> self.children@[k] == old(self).children@[k])),
                    !accepted ==> pointer_scan(old(self).children@, pos, kind, old(self).children@.len() as int)
                        == pointer_scan(old(self).children@, pos, kind, i as int),
                    accepted ==> (pointer_scan(old(self).children@, pos, kind, old(self).children@.len() as int)
                        matches Some(p) && p.0 == i - 1),
                    !accepted ==> pointer_scan_icon(old(self).children@, pos, kind, old(self).children@.len() as int)
                        == pointer_scan_icon(old(self).children@, pos, kind, i as int),
                    sys.eq_except_errors(*old(sys)),
                    old(sys).errors_extended(*sys),
                    win.eq_except_mouse(*old(win)),
                    win.mouse_entered == old(win).mouse_entered,
                    (!(old(win).mouse_event_active && old(win).mouse_event_accepted_by.is_none())) ==> win.cursor_icon == old(win).cursor_icon,
                    (old(win).mouse_event_active && old(win).mouse_event_accepted_by.is_none()) ==> win.cursor_icon == (
                        if accepted { match pointer_scan_icon(old(self).children@, pos, kind, old(self).children@.len() as int) {
                            Some(c) => c,
                            None => old(win).cursor_icon,
                        } } else { old(win).cursor_icon }
                    ),
                    win.redraw_requested == old(win).redraw_requested,
                    win.mouse_event_active == old(win).mouse_event_active,
                    old(win).mouse_event_accepted_by.is_some() ==> win.mouse_event_accepted_by == old(win).mouse_event_accepted_by,
                    (old(win).mouse_event_active && old(win).mouse_event_accepted_by.is_none()) ==> win.mouse_event_accepted_by == (
                        if accepted { match pointer_scan(old(self).children@, pos, kind, old(self).children@.len() as int) {
                            Some(p) => Some(p.1),
                            None => None,
                        } } else { None::<RawWidgetId> }
                    ),
                    (!old(win).mouse_event_active) ==> win.mouse_event_accepted_by == old(win).mouse_event_accepted_by,
                decreases i + (if accepted { 0int } else { 1int }),
            {
                let j = i - 1;
                let mut child = self.children.remove(j);
                let ghost child0 = child;
                proof {
                    assert(child0 == old(self).children@[j as int]);
                    assert(rects_wf(child0));
                    assert(decreases_to!(*old(self) => old(self).children));
                    assert(decreases_to!(old(self).children => old(self).children@));
                    assert(decreases_to!(old(self).children@ => old(self).children@[j as int]));
                }
                match event.map_to_child(
                    match &child.common.geometry {
                        Some(g) => g.rect_in_parent,
                        None => {
                            proof {
                                assert(!pointer_offered(child0, pos));
                                assert(pointer_scan(old(self).children@, pos, kind, i as int)
                                    == pointer_scan(old(self).children@, pos, kind, j as int));
                                assert(pointer_scan_icon(old(self).children@, pos, kind, i as int)
                                    == pointer_scan_icon(old(self).children@, pos, kind, j as int));
                            }
                            self.children.insert(j, child);
                            i = j;
                            continue ;
                        },
                    },
                    child.common.receives_all_mouse_events,
                ) {
                    Some(child_event) => {
                        proof {
                            assert(pointer_offered(child0, pos));
                            assert(child_event.pos == pointer_mapped_pos(child0, pos));
                        }
                        let r = child.dispatch_mouse_input(sys, win, &child_event);
                        if r {
                            accepted = true;
                            proof {
                                assert(pointer_scan(old(self).children@, pos, kind, i as int)
                                    matches Some(p) && p.0 == j && Some(p.1) == pointer_acceptor(
                                    child0,
                                    pointer_mapped_pos(child0, pos),
                                    kind,
                                ));
                                lemma_pointer_icon_matches(
                                    child0,
                                    pointer_mapped_pos(child0, pos),
                                    kind,
                                );
                                assert(pointer_scan_icon(old(self).children@, pos, kind, i as int)
                                    == pointer_acceptor_icon(
                                    child0,
                                    pointer_mapped_pos(child0, pos),
                                    kind,
                                ));
                            }
                            self.children.insert(j, child);
                        } else {
                            proof {
                                assert(pointer_scan(old(self).children@, pos, kind, i as int)
                                    == pointer_scan(old(self).children@, pos, kind, j as int));
                                assert(pointer_scan_icon(old(self).children@, pos, kind, i as int)
                                    == pointer_scan_icon(old(self).children@, pos, kind, j as int));
                            }
                            self.children.insert(j, child);
                            i = j;
                        }
                    },
                    None => {
                        proof {
                            assert(!pointer_offered(child0, pos));
                            assert(pointer_scan(old(self).children@, pos, kind, i as int)
                                == pointer_scan(old(self).children@, pos, kind, j as int));
                            assert(pointer_scan_icon(old(self).children@, pos, kind, i as int)
                                == pointer_scan_icon(old(self).children@, pos, kind, j as int));
                        }
                        self.children.insert(j, child);
                        i = j;
                    },
                }
            }
            if !accepted {
                accepted = self.handle_pointer_event(PointerEventKind::Input(
                    event.state,
                    event.button,
                ));
                if accepted {
                    match win.current_mouse_event_accepted() {
                        Ok(false) => {
                            let _ = win.accept_current_mouse_event(self.common.id);
                            win.set_cursor(self.common.cursor_icon);
                        },
                        Ok(true) => {},
                        Err(e) => {
                            report_error(&mut sys.errors, e);
                            proof {
                                assert(old(sys).errors_extended(*sys));
                            }
                        },
                    }
                }
            }
        }
        proof {
            if !enabled {
                assert(pointer_acceptor(*old(self), pos, kind).is_none());
            }
            assert forall|k: int| 0 <= k < self.children@.len() implies rects_wf(
                #[trigger] self.children@[k],
            ) by {
                if self.children@[k] == old(self).children@[k] {
                    assert(rects_wf(old(self).children@[k]));
                }
            }
        }
        accepted
    }
}

/// Both values are built by the same `WidgetKind` constructor (a handler
/// may change a widget's own state but never what the widget is).
pub open spec fn kind_same_variant(a: WidgetKind, b: WidgetKind) -> bool {
    match a {
        WidgetKind::Button(_) => b is Button,
        WidgetKind::Label(_) => b is Label,
        WidgetKind::Stack => b is Stack,
        WidgetKind::PaddingBox => b is PaddingBox,
        WidgetKind::Column => b is Column,
    }
}

/// For pointer events, siblings below the accepting child are never
/// offered the event and stay exactly as they were; children the event
/// position misses (unless flagged to receive everything) stay untouched
/// wherever they sit.
pub open spec fn pointer_untouched_below(
    a: Widget,
    b: Widget,
    pos: Point,
    kind: PointerEventKind,
) -> bool {
    &&& (match pointer_scan(a.children@, pos, kind, a.children@.len() as int) {
        Some(p) => forall|k: int| 0 <= k < p.0 ==> #[trigger] b.children@[k] == a.children@[k],
        None => true,
    })
    &&& forall|k: int|
        0 <= k < a.children@.len() && !pointer_offered(#[trigger] a.children@[k], pos)
            ==> b.children@[k] == a.children@[k]
}

} // verus!

verus! {

/// Whether any widget of this subtree carries the id `x`.
pub open spec fn subtree_has_id(w: Widget, x: u64) -> bool
    decreases w,
{
    w.common.id.0 == x || exists|k: int|
        0 <= k < w.children@.len() && subtree_has_id(#[trigger] w.children@[k], x)
}

/// Nothing in this subtree is mounted.
pub open spec fn subtree_unmounted(w: Widget) -> bool
    decreases w,
{
    &&& w.common.mount_point is None
    &&& forall|k: int| 0 <= k < w.children@.len() ==> subtree_unmounted(#[trigger] w.children@[k])
}

/// Every widget of this subtree is mounted into `window_id`, each child's
/// address extending its parent's by its key and id, and each child
/// naming its parent.
pub open spec fn subtree_mounted(w: Widget, window_id: u64) -> bool
    decreases w,
{
    match w.common.mount_point {
        Some(mp) => {
            &&& mp.window_id == window_id
            &&& mp.address.window_id == window_id
            &&& forall|k: int|
                0 <= k < w.children@.len() ==> ((#[trigger] w.children@[k]).common.mount_point
                    matches Some(cmp) && cmp.address.path@ =~= mp.address.path@.push(
                    (k as u64, w.children@[k].common.id),
                ) && cmp.parent_id == Some(w.common.id) && cmp.index_in_parent == k
                    && subtree_mounted(w.children@[k], window_id))
        },
        None => false,
    }
}

impl Widget {
    /// Attach this subtree to a window at `mount_point`: every widget is
    /// registered in the address book under its address, contributes its
    /// place to the accessibility adjacency, and each child is mounted
    /// under its parent's address extended by its key and id. Mounting an
    /// already-mounted widget is a caller bug: it is reported and the
    /// entry overwritten.
    #[verifier::loop_isolation(false)]
    #[verifier::rlimit(100)]
    #[verifier::spinoff_prover]
    pub fn dispatch_mount(
        &mut self,
        sys: &mut System,
        win: &mut SharedWindowState,
        mount_point: MountPoint,
    ) -> (mounted: bool)
        requires
            old(win).wf(),
            mount_point.address.window_id == mount_point.window_id,
        ensures
            final(win).wf(),
            mounted,
            subtree_mounted(*final(self), mount_point.window_id),
            final(self).common.mount_point matches Some(mp) && mp.address.path@
                =~= mount_point.address.path@ && mp.address.window_id
                == mount_point.address.window_id && mp.parent_id == mount_point.parent_id
                && mp.window_id == mount_point.window_id && mp.index_in_parent
                == mount_point.index_in_parent,
            final(self).common == (WidgetCommon {
                mount_point: final(self).common.mount_point,
                pending_accessible_update: final(self).common.pending_accessible_update,
                ..old(self).common
            }),
            final(self).kind == old(self).kind,
            final(self).children@.len() == old(self).children@.len(),
            final(sys).address_book@.contains_key(old(self).common.id.0),
            forall|x: u64|
                old(sys).address_book@.contains_key(x) ==> final(sys).address_book@.contains_key(x),
            // Entries outside the mounted subtree keep their values.
            forall|x: u64|
                (old(sys).address_book@.contains_key(x) && !subtree_has_id(*old(self), x)) ==> (
                #[trigger] final(sys).address_book@[x] == old(sys).address_book@[x]),
            // This widget's entry holds its new address; a duplicate id
            // among descendants (a caller bug) could overwrite it.
            (forall|k: int|
                0 <= k < old(self).children@.len() ==> !subtree_has_id(
                    #[trigger] old(self).children@[k],
                    old(self).common.id.0,
                )) ==> (final(sys).address_book@[old(self).common.id.0].path@
                =~= mount_point.address.path@ && final(sys).address_book@[old(self).common.id.0].window_id == mount_point.address.window_id),
            final(win).widget_tree_changed,
            final(win).accessible_nodes.direct_parents@.contains_key(old(self).common.id.0),
            forall|x: u64|
                old(win).accessible_nodes.direct_parents@.contains_key(x) ==> #[trigger] final(win).accessible_nodes.direct_parents@.contains_key(x),
            final(sys).id_source == old(sys).id_source,
            final(sys).timers == old(sys).timers,
            final(sys).default_style == old(sys).default_style,
            old(sys).errors_extended(*final(sys)),
        decreases *old(self),
    {
        if self.common.mount_point.is_some() {
            // Double mount: a structural invariant violation; degrade by
            // overwriting rather than failing.
            report_error(&mut sys.errors, CoreError::StaleAddress);
        }
        let address_copy = mount_point.address.duplicate();
        let parent_accessible = match mount_point.parent_id {
            Some(pid) => Some(pid.0),
            None => None,
        };
        let my_id = self.common.id;
        let old_entry = sys.address_book.register(my_id, address_copy);
        if old_entry.is_some() {
            report_error(&mut sys.errors, CoreError::StaleAddress);
        }
        win.widget_tree_changed = true;
        win.accessible_nodes.mount(parent_accessible, my_id.0);
        let ghost mp_spec = mount_point;
        let window_id = mount_point.window_id;
        let ghost address_path = mount_point.address.path@;
        self.common.mount_point = Some(mount_point);
        let mut i: usize = 0;
        while i < self.children.len()
            invariant
                0 <= i <= self.children@.len(),
                win.wf(),
                self.common.mount_point matches Some(mp) && mp.address.path@ =~= address_path
                    && mp.address.window_id == mp_spec.address.window_id && mp.parent_id
                    == mp_spec.parent_id && mp.window_id == window_id && mp.index_in_parent
                    == mp_spec.index_in_parent,
                self.common == (WidgetCommon {
                    mount_point: self.common.mount_point,
                    ..old(self).common
                }),
                self.kind == old(self).kind,
                self.children@.len() == old(self).children@.len(),
                forall|k: int|
                    i <= k < self.children@.len() ==> #[trigger] self.children@[k] == old(self).children@[k],
                forall|k: int|
                    0 <= k < i ==> ((#[trigger] self.children@[k]).common.mount_point
                        matches Some(cmp) && cmp.address.path@ =~= address_path.push(
                        (k as u64, self.children@[k].common.id),
                    ) && cmp.address.window_id == mp_spec.address.window_id && cmp.parent_id
                        == Some(old(self).common.id) && cmp.index_in_parent == k
                        && subtree_mounted(self.children@[k], window_id)),
                sys.address_book@.contains_key(old(self).common.id.0),
                forall|x: u64|
                    old(sys).address_book@.contains_key(x) ==> sys.address_book@.contains_key(x),
                forall|x: u64|
                    (old(sys).address_book@.contains_key(x) && !subtree_has_id(*old(self), x))
                        ==> (#[trigger] sys.address_book@[x] == old(sys).address_book@[x]),
                (forall|k: int|
                    0 <= k < old(self).children@.len() ==> !subtree_has_id(
                        #[trigger] old(self).children@[k],
                        old(self).common.id.0,
                    )) ==> (sys.address_book@[old(self).common.id.0].path@ =~= address_path
                    && sys.address_book@[old(self).common.id.0].window_id
                    == mp_spec.address.window_id),
                win.widget_tree_changed,
                win.accessible_nodes.direct_parents@.contains_key(old(self).common.id.0),
                forall|x: u64|
                    old(win).accessible_nodes.direct_parents@.contains_key(x) ==> #[trigger] win.accessible_nodes.direct_parents@.contains_key(x),
                sys.id_source == old(sys).id_source,
                sys.timers == old(sys).timers,
                sys.default_style == old(sys).default_style,
                old(sys).errors_extended(*sys),
            decreases self.children@.len() - i,
        {
            let child_address = match &self.common.mount_point {
                Some(mp) => mp.address.duplicate(),
                None => {
                    proof {
                        assert(false);
                    }
                    WidgetAddress::window_root(window_id)
                },
            };
            let mut child = self.children.remove(i);
            let ghost child0 = child;
            proof {
                assert(child0 == old(self).children@[i as int]);
                assert(decreases_to!(*old(self) => old(self).children));
                assert(decreases_to!(old(self).children => old(self).children@));
                assert(decreases_to!(old(self).children@ => old(self).children@[i as int]));
            }
            let child_mp = MountPoint {
                address: child_address.join(i as u64, child.common.id),
                window_id,
                parent_id: Some(my_id),
                index_in_parent: i,
            };
            let ghost book_mid = sys.address_book@;
            let ghost dp_mid = win.accessible_nodes.direct_parents@;
            let _ = child.dispatch_mount(sys, win, child_mp);
            proof {
                assert(subtree_mounted(child, window_id));
                assert(child.common.mount_point matches Some(cmp) && cmp.address.path@
                    =~= address_path.push((i as u64, child0.common.id)));
                assert forall|x: u64|
                    (old(sys).address_book@.contains_key(x) && !subtree_has_id(*old(self), x))
                        implies (#[trigger] sys.address_book@[x] == old(sys).address_book@[x]) by {
                    assert(!subtree_has_id(child0, x));
                    assert(book_mid.contains_key(x));
                    assert(sys.address_book@[x] == book_mid[x]);
                }
                if forall|k: int|
                    0 <= k < old(self).children@.len() ==> !subtree_has_id(
                        #[trigger] old(self).children@[k],
                        old(self).common.id.0,
                    ) {
                    assert(!subtree_has_id(child0, old(self).common.id.0));
                    assert(book_mid.contains_key(old(self).common.id.0));
                    assert(sys.address_book@[old(self).common.id.0] == book_mid[old(
                        self,
                    ).common.id.0]);
                }
                assert(dp_mid.contains_key(old(self).common.id.0));
            }
            self.children.insert(i, child);
            i = i + 1;
        }
        self.update(win);
        true
    }

    /// Detach this subtree from its window: children first, then this
    /// widget drops its address-book entry and its accessible node and
    /// loses focus. Unmounting an already-unmounted subtree is harmless:
    /// it is reported, nothing is removed twice, and the address book is
    /// left exactly as it was.
    #[verifier::loop_isolation(false)]
    #[verifier::rlimit(100)]
    #[verifier::spinoff_prover]
    pub fn dispatch_unmount(&mut self, sys: &mut System, win: &mut SharedWindowState)
        requires
            old(win).wf(),
        ensures
            final(win).wf(),
            subtree_unmounted(*final(self)),
            subtree_unmounted(*old(self)) ==> final(sys).address_book@ =~= old(sys).address_book@,
            subtree_unmounted(*old(self)) ==> final(win).accessible_nodes == old(win).accessible_nodes,
            forall|x: u64| #[trigger]
                final(sys).address_book@.contains_key(x) ==> (old(sys).address_book@.contains_key(x) && final(sys).address_book@[x] == old(sys).address_book@[x]),
            final(self).kind == old(self).kind,
            final(self).children@.len() == old(self).children@.len(),
            final(self).common == (WidgetCommon {
                mount_point: None,
                is_focused: false,
                is_window_focused: false,
                ..old(self).common
            }),
            final(sys).id_source == old(sys).id_source,
            final(sys).timers == old(sys).timers,
            final(sys).default_style == old(sys).default_style,
            old(sys).errors_extended(*final(sys)),
        decreases *old(self),
    {
        let mut i: usize = 0;
        while i < self.children.len()
            invariant
                0 <= i <= self.children@.len(),
                win.wf(),
                self.common == old(self).common,
                self.kind == old(self).kind,
                self.children@.len() == old(self).children@.len(),
                forall|k: int|
                    i <= k < self.children@.len() ==> #[trigger] self.children@[k] == old(self).children@[k],
                forall|k: int|
                    0 <= k < i ==> subtree_unmounted(#[trigger] self.children@[k]),
                subtree_unmounted(*old(self)) ==> sys.address_book@ =~= old(sys).address_book@,
                subtree_unmounted(*old(self)) ==> win.accessible_nodes == old(win).accessible_nodes,
                forall|x: u64| #[trigger]
                    sys.address_book@.contains_key(x) ==> (old(sys).address_book@.contains_key(x)
                        && sys.address_book@[x] == old(sys).address_book@[x]),
                sys.id_source == old(sys).id_source,
                sys.timers == old(sys).timers,
                sys.default_style == old(sys).default_style,
                old(sys).errors_extended(*sys),
            decreases self.children@.len() - i,
        {
            let mut child = self.children.remove(i);
            let ghost child0 = child;
            proof {
                assert(child0 == old(self).children@[i as int]);
                if subtree_unmounted(*old(self)) {
                    assert(subtree_unmounted(child0));
                }
                assert(decreases_to!(*old(self) => old(self).children));
                assert(decreases_to!(old(self).children => old(self).children@));
                assert(decreases_to!(old(self).children@ => old(self).children@[i as int]));
            }
            let ghost book_mid = sys.address_book@;
            child.dispatch_unmount(sys, win);
            proof {
                assert forall|x: u64| #[trigger] sys.address_book@.contains_key(x) implies (old(sys).address_book@.contains_key(x) && sys.address_book@[x] == old(sys).address_book@[x]) by {
                    assert(book_mid.contains_key(x));
                    assert(sys.address_book@[x] == book_mid[x]);
                }
                if subtree_unmounted(*old(self)) {
                    assert(sys.address_book@ =~= book_mid);
                    assert(book_mid =~= old(sys).address_book@);
                    assert(sys.address_book@ =~= old(sys).address_book@);
                }
            }
            self.children.insert(i, child);
            i = i + 1;
        }
        let my_id = self.common.id;
        match self.common.mount_point.take() {
            Some(mp) => {
                let _ = sys.address_book.unregister(my_id);
                win.widget_tree_changed = true;
                win.accessible_nodes.update(my_id.0, None);
                let parent_accessible = match mp.parent_id {
                    Some(pid) => Some(pid.0),
                    None => None,
                };
                win.accessible_nodes.unmount(parent_accessible, my_id.0);
            },
            None => {
                // Already unmounted: harmless, reported, nothing removed.
                report_error(&mut sys.errors, CoreError::NoMountPoint);
            },
        }
        proof {
            assert forall|x: u64| #[trigger] sys.address_book@.contains_key(x) implies (old(sys).address_book@.contains_key(x) && sys.address_book@[x] == old(sys).address_book@[x]) by {}
        }
        self.common.is_focused = false;
        self.common.is_window_focused = false;
    }
}

} // verus!

verus! {

/// Clamp a mathematical size to the representable hint range.
pub open spec fn clamp_hint(v: int) -> i64 {
    if v < 0 {
        0i64
    } else if v > crate::geometry::COORD_LIMIT {
        crate::geometry::COORD_LIMIT
    } else {
        v as i64
    }
}

/// Clamp an `i64` size to the hint range.
pub fn clamp_hint_value(v: i64) -> (r: i64)
    ensures
        r == clamp_hint(v as int),
{
    if v < 0 {
        0
    } else if v > crate::geometry::COORD_LIMIT {
        crate::geometry::COORD_LIMIT
    } else {
        v
    }
}

/// The x-extent a run of text asks for under `style`: a character-count
/// estimate scaled by the font size, padded on both sides. Only the first
/// characters count, so the hint stays bounded for any text.
pub open spec fn text_hint_x(len: nat, style: ComputedStyle) -> SizeHints {
    let chars = if len > 64 { 64int } else { len as int };
    let fs = clamp_hint(style.font_size as int) as int;
    let pad = clamp_hint(style.padding as int) as int;
    SizeHints {
        min: clamp_hint(fs + 2 * pad),
        preferred: clamp_hint(chars * fs + 2 * pad),
        is_fixed: false,
    }
}

/// The x-extent of a stack: far enough right to cover every child's
/// explicit rectangle.
pub open spec fn stack_extent_x(children: Seq<Widget>, i: int) -> i64
    decreases i,
{
    if i <= 0 {
        0i64
    } else {
        let rest = stack_extent_x(children, i - 1);
        match children[i - 1].common.explicit_rect_in_parent {
            Some(r) => {
                let edge = clamp_hint(r.top_left.x + r.size.x);
                if edge > rest {
                    edge
                } else {
                    rest
                }
            },
            None => rest,
        }
    }
}

/// What recomputing this widget's x hint yields: leaves derive it from
/// their text and style, a padding box pads its content's hint, a stack
/// covers its children's explicit rectangles, and a column is as wide as
/// its widest child asks to be. Children are consulted through their own
/// caches.
pub open spec fn recalc_hint_x(w: Widget) -> SizeHints
    decreases w, 1nat, 0int,
{
    match w.kind {
        WidgetKind::Button(st) => text_hint_x(st.text@.len(), *w.common.style_spec()),
        WidgetKind::Label(st) => text_hint_x(st.text@.len(), *w.common.style_spec()),
        WidgetKind::Stack => SizeHints {
            min: stack_extent_x(w.children@, w.children@.len() as int),
            preferred: stack_extent_x(w.children@, w.children@.len() as int),
            is_fixed: true,
        },
        WidgetKind::PaddingBox => {
            let pad = clamp_hint(w.common.style_spec().padding as int) as int;
            if w.children@.len() > 0 {
                let inner = cached_hint_x(w.children@[0]);
                SizeHints {
                    min: clamp_hint(clamp_hint(inner.min as int) + 2 * pad),
                    preferred: clamp_hint(clamp_hint(inner.preferred as int) + 2 * pad),
                    is_fixed: inner.is_fixed,
                }
            } else {
                SizeHints { min: clamp_hint(2 * pad), preferred: clamp_hint(2 * pad), is_fixed: true }
            }
        },
        WidgetKind::Column => column_hint_x(w.children@, w.children@.len() as int),
    }
}

/// A column's x hint over its first `i` children: the componentwise
/// maximum of their cached hints; fixed only when every child is fixed.
pub open spec fn column_hint_x(children: Seq<Widget>, i: int) -> SizeHints
    decreases children, 0nat, (if i >= 0 { i } else { 0 }),
{
    if i <= 0 || i > children.len() {
        SizeHints { min: 0, preferred: 0, is_fixed: true }
    } else {
        let rest = column_hint_x(children, i - 1);
        let h = cached_hint_x(children[i - 1]);
        let hmin = clamp_hint(h.min as int);
        let hpref = clamp_hint(h.preferred as int);
        SizeHints {
            min: if hmin > rest.min {
                hmin
            } else {
                rest.min
            },
            preferred: if hpref > rest.preferred {
                hpref
            } else {
                rest.preferred
            },
            is_fixed: rest.is_fixed && h.is_fixed,
        }
    }
}

/// The x hint a widget reports: the memoized value when one is cached,
/// else what recomputation yields.
pub open spec fn cached_hint_x(w: Widget) -> SizeHints
    decreases w, 2nat, 0int,
{
    match w.common.size_hint_x_cache {
        Some(h) => h,
        None => recalc_hint_x(w),
    }
}

impl Widget {
    /// This widget's x-axis size hint, memoized: a cached value is
    /// returned as is; on a cache miss the hint is recomputed from the
    /// widget's own content or its children's hints and stored.
    #[verifier::loop_isolation(false)]
    #[verifier::rlimit(100)]
    #[verifier::spinoff_prover]
    pub fn size_hint_x(&mut self) -> (r: SizeHints)
        ensures
            r == cached_hint_x(*old(self)),
            old(self).common.size_hint_x_cache is None ==> r == recalc_hint_x(*old(self)),
            final(self).common == (WidgetCommon {
                size_hint_x_cache: Some(r),
                ..old(self).common
            }),
            final(self).kind == old(self).kind,
            final(self).children@.len() == old(self).children@.len(),
        decreases *old(self), 1nat,
    {
        match &self.common.size_hint_x_cache {
            Some(h) => {
                return *h;
            },
            None => {},
        }
        let r = self.recalculate_size_hint_x();
        self.common.size_hint_x_cache = Some(r);
        r
    }

    /// Recompute the x hint from scratch, consulting children through
    /// their own memoized hints.
    #[verifier::loop_isolation(false)]
    #[verifier::rlimit(100)]
    #[verifier::spinoff_prover]
    pub fn recalculate_size_hint_x(&mut self) -> (r: SizeHints)
        ensures
            r == recalc_hint_x(*old(self)),
            final(self).common == old(self).common,
            final(self).kind == old(self).kind,
            final(self).children@.len() == old(self).children@.len(),
        decreases *old(self), 0nat,
    {
        let style_padding = clamp_hint_value(self.style().padding);
        let style_font = clamp_hint_value(self.style().font_size);
        match &self.kind {
            WidgetKind::Button(st) => {
                let r = text_hint_x_exec(&st.text, style_font, style_padding);
                proof {
                    assert(r == text_hint_x(st.text@.len(), *self.common.style_spec()));
                }
                r
            },
            WidgetKind::Label(st) => {
                let r = text_hint_x_exec(&st.text, style_font, style_padding);
                r
            },
            WidgetKind::Stack => {
                let mut extent: i64 = 0;
                let mut i: usize = 0;
                while i < self.children.len()
                    invariant
                        0 <= i <= self.children@.len(),
                        extent == stack_extent_x(self.children@, i as int),
                    decreases self.children@.len() - i,
                {
                    match &self.children[i].common.explicit_rect_in_parent {
                        Some(rect) => {
                            let sum = rect.top_left.x.checked_add(rect.size.x);
                            let edge = match sum {
                                Some(v) => clamp_hint_value(v),
                                None => {
                                    if rect.top_left.x > 0 {
                                        crate::geometry::COORD_LIMIT
                                    } else {
                                        0
                                    }
                                },
                            };
                            proof {
                                assert(edge == clamp_hint(
                                    rect.top_left.x + rect.size.x,
                                ));
                            }
                            if edge > extent {
                                extent = edge;
                            }
                        },
                        None => {},
                    }
                    i = i + 1;
                }
                SizeHints { min: extent, preferred: extent, is_fixed: true }
            },
            WidgetKind::PaddingBox => {
                if self.children.len() > 0 {
                    let mut child = self.children.remove(0);
                    proof {
                        assert(child == old(self).children@[0]);
                        assert(decreases_to!(*old(self) => old(self).children));
                        assert(decreases_to!(old(self).children => old(self).children@));
                        assert(decreases_to!(old(self).children@ => old(self).children@[0]));
                    }
                    let inner = child.size_hint_x();
                    self.children.insert(0, child);
                    let min = clamp_hint_value(match clamp_hint_value(inner.min).checked_add(
                        2 * style_padding,
                    ) {
                        Some(v) => v,
                        None => crate::geometry::COORD_LIMIT,
                    });
                    let preferred = clamp_hint_value(match clamp_hint_value(
                        inner.preferred,
                    ).checked_add(2 * style_padding) {
                        Some(v) => v,
                        None => crate::geometry::COORD_LIMIT,
                    });
                    SizeHints { min, preferred, is_fixed: inner.is_fixed }
                } else {
                    let v = clamp_hint_value(2 * style_padding);
                    SizeHints { min: v, preferred: v, is_fixed: true }
                }
            },
            WidgetKind::Column => {
                let mut acc = SizeHints { min: 0, preferred: 0, is_fixed: true };
                let mut i: usize = 0;
                while i < self.children.len()
                    invariant
                        0 <= i <= self.children@.len(),
                        self.common == old(self).common,
                        self.kind == old(self).kind,
                        self.kind is Column,
                        self.children@.len() == old(self).children@.len(),
                        forall|k: int|
                            i <= k < self.children@.len() ==> #[trigger] self.children@[k] == old(self).children@[k],
                        forall|k: int|
                            0 <= k < i ==> cached_hint_x(#[trigger] self.children@[k])
                                == cached_hint_x(old(self).children@[k]),
                        acc == column_hint_x(old(self).children@, i as int),
                    decreases self.children@.len() - i,
                {
                    let mut child = self.children.remove(i);
                    let ghost child0 = child;
                    proof {
                        assert(child0 == old(self).children@[i as int]);
                        assert(decreases_to!(*old(self) => old(self).children));
                        assert(decreases_to!(old(self).children => old(self).children@));
                        assert(decreases_to!(old(self).children@ => old(self).children@[i as int]));
                    }
                    let h = child.size_hint_x();
                    proof {
                        assert(h == cached_hint_x(child0));
                        assert(cached_hint_x(child) == h);
                    }
                    self.children.insert(i, child);
                    let hmin = clamp_hint_value(h.min);
                    let hpref = clamp_hint_value(h.preferred);
                    acc = SizeHints {
                        min: if hmin > acc.min {
                            hmin
                        } else {
                            acc.min
                        },
                        preferred: if hpref > acc.preferred {
                            hpref
                        } else {
                            acc.preferred
                        },
                        is_fixed: acc.is_fixed && h.is_fixed,
                    };
                    i = i + 1;
                }
                acc
            },
        }
    }

    /// Drop this widget's memoized hints and queue its address so that
    /// the next layout pass invalidates every ancestor whose aggregate
    /// hint may depend on this widget's; a hint change on an unmounted
    /// widget only clears the local caches.
    pub fn size_hint_changed(&mut self, win: &mut SharedWindowState)
        ensures
            final(self).common.size_hint_x_cache is None,
            final(self).common.size_hint_y_cache@ =~= Map::<i64, SizeHints>::empty(),
            final(self).common == (WidgetCommon {
                size_hint_x_cache: None,
                size_hint_y_cache: final(self).common.size_hint_y_cache,
                ..old(self).common
            }),
            final(self).kind == old(self).kind,
            final(self).children == old(self).children,
            old(self).common.mount_point matches Some(mp) ==> *final(win) == (SharedWindowState {
                pending_size_hint_invalidations: final(win).pending_size_hint_invalidations,
                ..*old(win)
            }) && final(win).pending_size_hint_invalidations@.len() == old(win).pending_size_hint_invalidations@.len() + 1 && final(win).pending_size_hint_invalidations@.last().window_id == mp.address.window_id && final(win).pending_size_hint_invalidations@.last().path@ =~= mp.address.path@ && final(win).pending_size_hint_invalidations@.take(old(win).pending_size_hint_invalidations@.len() as int) =~= old(win).pending_size_hint_invalidations@,
            old(self).common.mount_point is None ==> *final(win) == *old(win),
    {
        self.clear_size_hint_cache();
        match &self.common.mount_point {
            Some(mp) => {
                let address = mp.address.duplicate();
                win.push_size_hint_invalidation(address);
                proof {
                    assert(final(win).pending_size_hint_invalidations@.last()
                        == win.pending_size_hint_invalidations@.last());
                }
            },
            None => {},
        }
    }

    /// Forget both memoized hints.
    pub fn clear_size_hint_cache(&mut self)
        ensures
            final(self).common == (WidgetCommon {
                size_hint_x_cache: None,
                size_hint_y_cache: final(self).common.size_hint_y_cache,
                ..old(self).common
            }),
            final(self).common.size_hint_y_cache@ =~= Map::<i64, SizeHints>::empty(),
            final(self).kind == old(self).kind,
            final(self).children == old(self).children,
    {
        self.common.size_hint_x_cache = None;
        self.common.size_hint_y_cache = std::collections::HashMap::new();
    }
}

/// What a layout pass's cache invalidation does: wherever some queued
/// address lies inside a mounted widget's subtree — in particular at
/// every ancestor of the widget whose hint changed — the memoized hints
/// are dropped and the walk continues into the children; everywhere else
/// the subtree is left untouched.
pub open spec fn hint_caches_invalidated(a: Widget, b: Widget, pending: Seq<WidgetAddress>) -> bool
    decreases a,
{
    if a.common.mount_point matches Some(mp) && (exists|j: int|
        0 <= j < pending.len() && (#[trigger] pending[j]).spec_starts_with(mp.address)) {
        &&& b.common == (WidgetCommon {
            size_hint_x_cache: None,
            size_hint_y_cache: b.common.size_hint_y_cache,
            ..a.common
        })
        &&& b.common.size_hint_y_cache@ =~= Map::<i64, SizeHints>::empty()
        &&& b.kind == a.kind
        &&& b.children@.len() == a.children@.len()
        &&& forall|k: int|
            0 <= k < a.children@.len() ==> hint_caches_invalidated(
                #[trigger] a.children@[k],
                b.children@[k],
                pending,
            )
    } else {
        b == a
    }
}

/// Size-hint cache coherence, invalidation half: after the pass, a
/// mounted widget whose subtree holds a queued address — every strict
/// ancestor of a widget that called `size_hint_changed` is such a widget
/// — has no memoized hints left, so its next `size_hint_x` recomputes.
pub proof fn lemma_invalidation_clears_node(
    a: Widget,
    b: Widget,
    pending: Seq<WidgetAddress>,
    j: int,
)
    requires
        hint_caches_invalidated(a, b, pending),
        a.common.mount_point is Some,
        0 <= j < pending.len(),
        pending[j].spec_starts_with(a.common.mount_point.unwrap().address),
    ensures
        b.common.size_hint_x_cache is None,
        b.common.size_hint_y_cache@ =~= Map::<i64, SizeHints>::empty(),
        cached_hint_x(b) == recalc_hint_x(b),
{
}

impl Widget {
    /// The layout pass's targeted invalidation: drop the memoized hints
    /// of every mounted widget whose subtree holds one of the queued
    /// addresses, and of everything on the way down to it.
    #[verifier::loop_isolation(false)]
    #[verifier::rlimit(100)]
    #[verifier::spinoff_prover]
    pub fn invalidate_size_hint_cache(&mut self, pending: &Vec<WidgetAddress>)
        ensures
            hint_caches_invalidated(*old(self), *final(self), pending@),
        decreases *old(self),
    {
        let hit: bool = match &self.common.mount_point {
            Some(mp) => {
                let mut found = false;
                let mut j: usize = 0;
                while j < pending.len()
                    invariant
                        0 <= j <= pending@.len(),
                        self == old(self),
                        self.common.mount_point matches Some(mpx) && mpx == mp,
                        found <==> exists|l: int|
                            0 <= l < j && (#[trigger] pending@[l]).spec_starts_with(mp.address),
                    decreases pending@.len() - j + (if found { 0int } else { 1int }),
                {
                    if pending[j].starts_with(&mp.address) {
                        found = true;
                        proof {
                            assert(pending@[j as int].spec_starts_with(mp.address));
                        }
                        break ;
                    }
                    j = j + 1;
                }
                found
            },
            None => false,
        };
        if hit {
            self.clear_size_hint_cache();
            let mut i: usize = 0;
            while i < self.children.len()
                invariant
                    0 <= i <= self.children@.len(),
                    self.common == (WidgetCommon {
                        size_hint_x_cache: None,
                        size_hint_y_cache: self.common.size_hint_y_cache,
                        ..old(self).common
                    }),
                    self.common.size_hint_y_cache@ =~= Map::<i64, SizeHints>::empty(),
                    self.kind == old(self).kind,
                    self.children@.len() == old(self).children@.len(),
                    forall|k: int|
                        i <= k < self.children@.len() ==> #[trigger] self.children@[k] == old(self).children@[k],
                    forall|k: int|
                        0 <= k < i ==> hint_caches_invalidated(
                            #[trigger] old(self).children@[k],
                            self.children@[k],
                            pending@,
                        ),
                decreases self.children@.len() - i,
            {
                let mut child = self.children.remove(i);
                proof {
                    assert(child == old(self).children@[i as int]);
                    assert(decreases_to!(*old(self) => old(self).children));
                    assert(decreases_to!(old(self).children => old(self).children@));
                    assert(decreases_to!(old(self).children@ => old(self).children@[i as int]));
                }
                child.invalidate_size_hint_cache(pending);
                self.children.insert(i, child);
                i = i + 1;
            }
        }
    }
}

/// Text hint computation shared by buttons and labels; `font` and `pad`
/// are the style's values already clamped to the hint range.
fn text_hint_x_exec(text: &String, font: i64, pad: i64) -> (r: SizeHints)
    requires
        0 <= font <= crate::geometry::COORD_LIMIT,
        0 <= pad <= crate::geometry::COORD_LIMIT,
    ensures
        forall|style: ComputedStyle|
            (clamp_hint(style.font_size as int) == font && clamp_hint(style.padding as int) == pad)
                ==> r == #[trigger] text_hint_x(text@.len(), style),
{
    let len = text.as_str().unicode_len();
    let chars: i64 = if len > 64 {
        64
    } else {
        len as i64
    };
    assert(chars * font <= 64 * 0x4000_0000) by (nonlinear_arith)
        requires
            0 <= chars <= 64,
            0 <= font <= 0x4000_0000,
    ;
    assert(chars * font >= 0) by (nonlinear_arith)
        requires
            0 <= chars && 0 <= font,
    ;
    let min = clamp_hint_value(font + 2 * pad);
    let preferred = clamp_hint_value(chars * font + 2 * pad);
    SizeHints { min, preferred, is_fixed: false }
}

} // verus!

verus! {

/// Prefix preservation composes: what extends `b` beyond `a` and `c`
/// beyond `b` leaves `a` a prefix of `c`.
pub proof fn lemma_prefix_chain<T>(a: Seq<T>, b: Seq<T>, c: Seq<T>)
    requires
        a.len() <= b.len(),
        b.len() <= c.len(),
        a =~= b.take(a.len() as int),
        b =~= c.take(b.len() as int),
    ensures
        a =~= c.take(a.len() as int),
{
    assert forall|i: int| 0 <= i < a.len() implies c.take(a.len() as int)[i] == a[i] by {
        assert(b[i] == c.take(b.len() as int)[i]);
        assert(a[i] == b.take(a.len() as int)[i]);
    }
}

impl Widget {
    /// The window-level implicit acceptance for move and enter events
    /// (spec: the unclaimed mouse event falls to the node under the
    /// pointer): when the current mouse event is still unclaimed, a
    /// mounted widget with a rectangle claims it and the cursor becomes
    /// its icon; an enter additionally records the widget under the
    /// pointer and marks it hovered. Missing geometry or mount point is
    /// reported and skipped.
    fn accept_mouse_move_or_enter(
        &mut self,
        sys: &mut System,
        win: &mut SharedWindowState,
        is_enter: bool,
    )
        ensures
            final(self).kind == old(self).kind,
            final(self).children == old(self).children,
            final(sys).eq_except_errors(*old(sys)),
            old(sys).errors_extended(*final(sys)),
            final(win).eq_except_mouse(*old(win)),
            final(win).mouse_event_active == old(win).mouse_event_active,
            (!(old(win).mouse_event_active && old(win).mouse_event_accepted_by.is_none())) ==> (
            *final(self) == *old(self) && *final(win) == *old(win) && *final(sys) == *old(sys)),
            old(win).mouse_event_accepted_by.is_some() ==> final(win).mouse_event_accepted_by == old(win).mouse_event_accepted_by,
            old(win).mouse_entered@.len() <= final(win).mouse_entered@.len(),
            old(win).mouse_entered@ =~= final(win).mouse_entered@.take(old(win).mouse_entered@.len() as int),
            old(win).redraw_requested ==> final(win).redraw_requested,
            ((old(win).mouse_event_active && old(win).mouse_event_accepted_by.is_none()) && old(self).common.geometry is Some && old(self).common.mount_point is Some) ==> (
                final(win).mouse_event_accepted_by == Some(old(self).common.id)
                && final(win).cursor_icon == old(self).common.cursor_icon
                && (is_enter ==> (final(self).common.is_mouse_over && final(win).spec_is_mouse_entered(old(self).common.id)))
                && (!is_enter ==> *final(self) == *old(self))
            ),
            ((old(win).mouse_event_active && old(win).mouse_event_accepted_by.is_none()) && (old(self).common.geometry is None || old(self).common.mount_point is None)) ==> (
                *final(self) == *old(self) && *final(win) == *old(win)
            ),
            final(self).common == (WidgetCommon {
                is_mouse_over: final(self).common.is_mouse_over,
                pending_accessible_update: final(self).common.pending_accessible_update,
                ..old(self).common
            }),
    {
        let active_unclaimed = match win.current_mouse_event_accepted() {
            Ok(a) => !a,
            Err(_) => false,
        };
        if !active_unclaimed {
            return ;
        }
        let rect_in_window = match &self.common.geometry {
            Some(g) => g.rect_in_window,
            None => {
                report_error(&mut sys.errors, CoreError::NoGeometry);
                return ;
            },
        };
        if self.common.mount_point.is_none() {
            report_error(&mut sys.errors, CoreError::NoMountPoint);
            return ;
        }
        let id = self.common.id;
        let _ = win.accept_current_mouse_event(id);
        win.set_cursor(self.common.cursor_icon);
        if is_enter {
            win.add_mouse_entered(rect_in_window, id);
            proof {
                assert(win.mouse_entered@.last() == (rect_in_window, id));
            }
            self.common.is_mouse_over = true;
            self.update(win);
        }
        proof {
            assert(old(win).mouse_entered@ =~= win.mouse_entered@.take(old(win).mouse_entered@.len() as int));
        }
    }

    /// Deliver a pointer-enter to this widget: the filter gets first
    /// refusal, then the widget's own handler, and the still-unclaimed
    /// window mouse event falls to this widget, which is recorded under
    /// the pointer.
    fn deliver_mouse_enter(
        &mut self,
        sys: &mut System,
        win: &mut SharedWindowState,
        event: &MouseEnterEvent,
    ) -> (accepted: bool)
        ensures
            final(self).kind == old(self).kind || old(self).is_enabled_spec(),
            final(self).children == old(self).children,
            kind_same_variant(old(self).kind, final(self).kind),
            final(sys).eq_except_errors(*old(sys)),
            old(sys).errors_extended(*final(sys)),
            final(win).eq_except_mouse(*old(win)),
            final(win).mouse_event_active == old(win).mouse_event_active,
            old(win).mouse_event_accepted_by.is_some() ==> final(win).mouse_event_accepted_by == old(win).mouse_event_accepted_by,
            old(win).mouse_entered@.len() <= final(win).mouse_entered@.len(),
            old(win).mouse_entered@ =~= final(win).mouse_entered@.take(old(win).mouse_entered@.len() as int),
            old(win).redraw_requested ==> final(win).redraw_requested,
            ((old(win).mouse_event_active && old(win).mouse_event_accepted_by.is_none()) && old(self).common.geometry is Some && old(self).common.mount_point is Some) ==> (
                final(win).mouse_event_accepted_by == Some(old(self).common.id)
                && final(self).common.is_mouse_over
                && final(win).spec_is_mouse_entered(old(self).common.id)
                && final(win).cursor_icon == old(self).common.cursor_icon
            ),
            final(self).common == (WidgetCommon {
                is_mouse_over: final(self).common.is_mouse_over,
                pending_accessible_update: final(self).common.pending_accessible_update,
                ..old(self).common
            }),
    {
        let mut accepted = false;
        if self.is_enabled() {
            let filter_accepted: bool = match &self.common.event_filter {
                Some(f) => f.accept_mouse_enter,
                None => false,
            };
            accepted = filter_accepted || match &self.kind {
                WidgetKind::Button(_) => true,
                _ => false,
            };
        }
        self.accept_mouse_move_or_enter(sys, win, true);
        accepted
    }

    /// Dispatch a pointer move through this subtree: children are offered
    /// the remapped event from the last-added one down; when none accepts
    /// and this widget is not yet recorded under the pointer, an enter is
    /// synthesized for it first; then the widget's own filter and handler
    /// run. Whatever was decided, a still-unclaimed window mouse event
    /// falls to this widget.
    #[verifier::rlimit(100)]
    #[verifier::spinoff_prover]
    pub fn dispatch_mouse_move(
        &mut self,
        sys: &mut System,
        win: &mut SharedWindowState,
        event: &MouseMoveEvent,
    ) -> (accepted: bool)
        requires
            rects_wf(*old(self)),
        ensures
            accepted == pointer_acceptor(*old(self), event.pos, PointerEventKind::Move).is_some(),
            rects_wf(*final(self)),
            final(self).common == (WidgetCommon {
                is_mouse_over: final(self).common.is_mouse_over,
                pending_accessible_update: final(self).common.pending_accessible_update,
                ..old(self).common
            }),
            kind_same_variant(old(self).kind, final(self).kind),
            final(self).children@.len() == old(self).children@.len(),
            final(sys).eq_except_errors(*old(sys)),
            old(sys).errors_extended(*final(sys)),
            final(win).eq_except_mouse(*old(win)),
            final(win).mouse_event_active == old(win).mouse_event_active,
            old(win).mouse_event_accepted_by.is_some() ==> final(win).mouse_event_accepted_by == old(win).mouse_event_accepted_by,
            old(win).mouse_entered@.len() <= final(win).mouse_entered@.len(),
            old(win).mouse_entered@ =~= final(win).mouse_entered@.take(old(win).mouse_entered@.len() as int),
            old(win).redraw_requested ==> final(win).redraw_requested,
            // Enter synthesis: when no child stands under the pointer,
            // this widget was not yet recorded there, and the window's
            // mouse event is unclaimed, this laid-out, mounted widget
            // becomes hovered, is recorded under the pointer, claims the
            // event, and the cursor becomes its icon.
            ((forall|k: int| 0 <= k < old(self).children@.len() ==> !pointer_offered(#[trigger] old(self).children@[k], event.pos))
                && old(self).is_enabled_spec()
                && !old(win).spec_is_mouse_entered(old(self).common.id)
                && old(win).mouse_event_active && old(win).mouse_event_accepted_by.is_none()
                && old(self).common.geometry is Some && old(self).common.mount_point is Some) ==> (
                final(self).common.is_mouse_over
                && final(win).spec_is_mouse_entered(old(self).common.id)
                && final(win).mouse_event_accepted_by == Some(old(self).common.id)
                && final(win).cursor_icon == old(self).common.cursor_icon
            ),
        decreases *old(self), 1nat,
    {
        let ghost kind = PointerEventKind::Move;
        let ghost pos = event.pos;
        let mut accepted = false;
        let enabled = self.is_enabled();
        if enabled {
            proof {
                assert(decreases_to!(*old(self) => old(self).children));
            }
            accepted = scan_mouse_move_children(&mut self.children, sys, win, event);
            if !accepted {
                if !win.is_mouse_entered(self.common.id) {
                    let enter = event.create_enter_event();
                    let ghost entered_before_enter = win.mouse_entered@;
                    let _ = self.deliver_mouse_enter(sys, win, &enter);
                    proof {
                        lemma_prefix_chain(
                            old(win).mouse_entered@,
                            entered_before_enter,
                            win.mouse_entered@,
                        );
                    }
                }
                accepted = self.handle_pointer_event(PointerEventKind::Move);
            }
        }
        let ghost entered_before_final = win.mouse_entered@;
        self.accept_mouse_move_or_enter(sys, win, false);
        proof {
            lemma_prefix_chain(old(win).mouse_entered@, entered_before_final, win.mouse_entered@);
            if !enabled {
                assert(pointer_acceptor(*old(self), pos, kind).is_none());
            }
            assert forall|k: int| 0 <= k < self.children@.len() implies rects_wf(
                #[trigger] self.children@[k],
            ) by {
                if self.children@[k] == old(self).children@[k] {
                    assert(rects_wf(old(self).children@[k]));
                }
            }
        }
        accepted
    }
}

/// The reverse-order hit-testing scan of a pointer move over one widget's
/// children; acceptance is as the scan half of [`pointer_acceptor`] says.
#[verifier::loop_isolation(false)]
#[verifier::rlimit(100)]
#[verifier::spinoff_prover]
fn scan_mouse_move_children(
    children: &mut Vec<Widget>,
    sys: &mut System,
    win: &mut SharedWindowState,
    event: &MouseMoveEvent,
) -> (accepted: bool)
    requires
        forall|k: int| 0 <= k < old(children)@.len() ==> rects_wf(#[trigger] old(children)@[k]),
    ensures
        accepted == pointer_scan(
            old(children)@,
            event.pos,
            PointerEventKind::Move,
            old(children)@.len() as int,
        ).is_some(),
        final(children)@.len() == old(children)@.len(),
        forall|k: int| 0 <= k < final(children)@.len() ==> rects_wf(#[trigger] final(children)@[k]),
        forall|k: int|
            0 <= k < final(children)@.len() ==> (final(children)@[k] == old(children)@[k] || pointer_offered(old(children)@[k], event.pos)),
        final(sys).eq_except_errors(*old(sys)),
        old(sys).errors_extended(*final(sys)),
        final(win).eq_except_mouse(*old(win)),
        final(win).mouse_event_active == old(win).mouse_event_active,
        old(win).mouse_event_accepted_by.is_some() ==> final(win).mouse_event_accepted_by == old(win).mouse_event_accepted_by,
        old(win).mouse_entered@.len() <= final(win).mouse_entered@.len(),
        old(win).mouse_entered@ =~= final(win).mouse_entered@.take(old(win).mouse_entered@.len() as int),
        old(win).redraw_requested ==> final(win).redraw_requested,
        (forall|k: int| 0 <= k < old(children)@.len() ==> !pointer_offered(#[trigger] old(children)@[k], event.pos)) ==> (*final(win) == *old(win) && !accepted),
    decreases *old(children),
{
    let ghost kind = PointerEventKind::Move;
    let ghost pos = event.pos;
    let mut accepted = false;
    let mut i: usize = children.len();
    while i > 0 && !accepted
        invariant
            0 <= i <= children@.len(),
            children@.len() == old(children)@.len(),
            forall|k: int|
                0 <= k < (if accepted { i - 1 } else { i as int }) ==> #[trigger] children@[k] == old(children)@[k],
            accepted ==> (i >= 1 && rects_wf(children@[i - 1]) && pointer_offered(old(children)@[i - 1], pos)),
            forall|k: int|
                i <= k < children@.len() ==> (rects_wf(#[trigger] children@[k]) && (children@[k]
                    == old(children)@[k] || pointer_offered(old(children)@[k], pos))),
            !accepted ==> pointer_scan(old(children)@, pos, kind, old(children)@.len() as int)
                == pointer_scan(old(children)@, pos, kind, i as int),
            accepted ==> pointer_scan(old(children)@, pos, kind, old(children)@.len() as int) is Some,
            sys.eq_except_errors(*old(sys)),
            old(sys).errors_extended(*sys),
            win.eq_except_mouse(*old(win)),
            win.mouse_event_active == old(win).mouse_event_active,
            old(win).mouse_event_accepted_by.is_some() ==> win.mouse_event_accepted_by == old(win).mouse_event_accepted_by,
            old(win).mouse_entered@.len() <= win.mouse_entered@.len(),
            old(win).mouse_entered@ =~= win.mouse_entered@.take(old(win).mouse_entered@.len() as int),
            old(win).redraw_requested ==> win.redraw_requested,
            (!accepted && (forall|k: int| i <= k < old(children)@.len() ==> !pointer_offered(#[trigger] old(children)@[k], pos))) ==> *win == *old(win),
        decreases i + (if accepted { 0int } else { 1int }),
    {
        let j = i - 1;
        let mut child = children.remove(j);
        let ghost child0 = child;
        let ghost entered_mid = win.mouse_entered@;
        proof {
            assert(child0 == old(children)@[j as int]);
            assert(rects_wf(child0));
            assert(decreases_to!(*old(children) => old(children)@));
            assert(decreases_to!(old(children)@ => old(children)@[j as int]));
        }
        match event.map_to_child(
            match &child.common.geometry {
                Some(g) => g.rect_in_parent,
                None => {
                    proof {
                        assert(!pointer_offered(child0, pos));
                        assert(pointer_scan(old(children)@, pos, kind, i as int) == pointer_scan(
                            old(children)@,
                            pos,
                            kind,
                            j as int,
                        ));
                    }
                    children.insert(j, child);
                    i = j;
                    continue ;
                },
            },
            child.common.receives_all_mouse_events,
        ) {
            Some(child_event) => {
                proof {
                    assert(pointer_offered(child0, pos));
                    assert(child_event.pos == pointer_mapped_pos(child0, pos));
                }
                let r = child.dispatch_mouse_move(sys, win, &child_event);
                proof {
                    lemma_prefix_chain(old(win).mouse_entered@, entered_mid, win.mouse_entered@);
                }
                if r {
                    accepted = true;
                    proof {
                        assert(pointer_scan(old(children)@, pos, kind, i as int) matches Some(p)
                            && p.0 == j);
                    }
                    children.insert(j, child);
                } else {
                    proof {
                        assert(pointer_scan(old(children)@, pos, kind, i as int) == pointer_scan(
                            old(children)@,
                            pos,
                            kind,
                            j as int,
                        ));
                    }
                    children.insert(j, child);
                    i = j;
                }
            },
            None => {
                proof {
                    assert(!pointer_offered(child0, pos));
                    assert(pointer_scan(old(children)@, pos, kind, i as int) == pointer_scan(
                        old(children)@,
                        pos,
                        kind,
                        j as int,
                    ));
                }
                children.insert(j, child);
                i = j;
            },
        }
    }
    accepted
}

impl Widget {
    /// Dispatch a scroll through this subtree, exactly as a press: the
    /// children in reverse order, then the filter and the handler; the
    /// deepest acceptor claims the window's mouse event and sets the
    /// cursor.
    #[verifier::loop_isolation(false)]
    #[verifier::rlimit(100)]
    #[verifier::spinoff_prover]
    pub fn dispatch_mouse_scroll(
        &mut self,
        sys: &mut System,
        win: &mut SharedWindowState,
        event: &MouseScrollEvent,
    ) -> (accepted: bool)
        requires
            rects_wf(*old(self)),
        ensures
            accepted == pointer_acceptor(*old(self), event.pos, PointerEventKind::Scroll).is_some(),
            rects_wf(*final(self)),
            final(self).common == old(self).common,
            kind_same_variant(old(self).kind, final(self).kind),
            final(self).children@.len() == old(self).children@.len(),
            pointer_untouched_below(*old(self), *final(self), event.pos, PointerEventKind::Scroll),
            final(sys).eq_except_errors(*old(sys)),
            old(sys).errors_extended(*final(sys)),
            final(win).eq_except_mouse(*old(win)),
            final(win).mouse_entered == old(win).mouse_entered,
            final(win).redraw_requested == old(win).redraw_requested,
            final(win).mouse_event_active == old(win).mouse_event_active,
            old(win).mouse_event_accepted_by.is_some() ==> final(win).mouse_event_accepted_by == old(win).mouse_event_accepted_by,
            (old(win).mouse_event_active && old(win).mouse_event_accepted_by.is_none()) ==> final(win).mouse_event_accepted_by == pointer_acceptor(
                *old(self),
                event.pos,
                PointerEventKind::Scroll,
            ),
            (!old(win).mouse_event_active) ==> final(win).mouse_event_accepted_by == old(win).mouse_event_accepted_by,
            (old(win).mouse_event_active && old(win).mouse_event_accepted_by.is_none()) ==> final(win).cursor_icon == (match pointer_acceptor_icon(
                *old(self),
                event.pos,
                PointerEventKind::Scroll,
            ) {
                Some(c) => c,
                None => old(win).cursor_icon,
            }),
            (!(old(win).mouse_event_active && old(win).mouse_event_accepted_by.is_none())) ==> final(win).cursor_icon == old(win).cursor_icon,
            !old(self).is_enabled_spec() ==> (*final(self) == *old(self) && *final(win) == *old(win) && *final(sys) == *old(sys)),
            (pointer_scan(old(self).children@, event.pos, PointerEventKind::Scroll, old(self).children@.len() as int) is None && filter_accepts_pointer(*old(self), PointerEventKind::Scroll)) ==> final(self).kind == old(self).kind,
        decreases *old(self),
    {
        let ghost kind = PointerEventKind::Scroll;
        let ghost pos = event.pos;
        let mut accepted = false;
        let enabled = self.is_enabled();
        if enabled {
            let mut i: usize = self.children.len();
            while i > 0 && !accepted
                invariant
                    0 <= i <= self.children@.len(),
                    self.common == old(self).common,
                    self.kind == old(self).kind,
                    self.children@.len() == old(self).children@.len(),
                    forall|k: int|
                        0 <= k < (if accepted { i - 1 } else { i as int }) ==> #[trigger] self.children@[k] == old(self).children@[k],
                    accepted ==> (i >= 1 && rects_wf(self.children@[i - 1]) && pointer_offered(old(self).children@[i - 1], pos)),
                    forall|k: int|
                        i <= k < self.children@.len() ==> (rects_wf(#[trigger] self.children@[k])
                            && (!pointer_offered(old(self).children@[k], pos)
                            ==> self.children@[k] == old(self).children@[k])),
                    !accepted ==> pointer_scan(old(self).children@, pos, kind, old(self).children@.len() as int)
                        == pointer_scan(old(self).children@, pos, kind, i as int),
                    accepted ==> (pointer_scan(old(self).children@, pos, kind, old(self).children@.len() as int)
                        matches Some(p) && p.0 == i - 1),
                    !accepted ==> pointer_scan_icon(old(self).children@, pos, kind, old(self).children@.len() as int)
                        == pointer_scan_icon(old(self).children@, pos, kind, i as int),
                    sys.eq_except_errors(*old(sys)),
                    old(sys).errors_extended(*sys),
                    win.eq_except_mouse(*old(win)),
                    win.mouse_entered == old(win).mouse_entered,
                    (!(old(win).mouse_event_active && old(win).mouse_event_accepted_by.is_none())) ==> win.cursor_icon == old(win).cursor_icon,
                    (old(win).mouse_event_active && old(win).mouse_event_accepted_by.is_none()) ==> win.cursor_icon == (
                        if accepted { match pointer_scan_icon(old(self).children@, pos, kind, old(self).children@.len() as int) {
                            Some(c) => c,
                            None => old(win).cursor_icon,
                        } } else { old(win).cursor_icon }
                    ),
                    win.redraw_requested == old(win).redraw_requested,
                    win.mouse_event_active == old(win).mouse_event_active,
                    old(win).mouse_event_accepted_by.is_some() ==> win.mouse_event_accepted_by == old(win).mouse_event_accepted_by,
                    (old(win).mouse_event_active && old(win).mouse_event_accepted_by.is_none()) ==> win.mouse_event_accepted_by == (
                        if accepted { match pointer_scan(old(self).children@, pos, kind, old(self).children@.len() as int) {
                            Some(p) => Some(p.1),
                            None => None,
                        } } else { None::<RawWidgetId> }
                    ),
                    (!old(win).mouse_event_active) ==> win.mouse_event_accepted_by == old(win).mouse_event_accepted_by,
                decreases i + (if accepted { 0int } else { 1int }),
            {
                let j = i - 1;
                let mut child = self.children.remove(j);
                let ghost child0 = child;
                proof {
                    assert(child0 == old(self).children@[j as int]);
                    assert(rects_wf(child0));
                    assert(decreases_to!(*old(self) => old(self).children));
                    assert(decreases_to!(old(self).children => old(self).children@));
                    assert(decreases_to!(old(self).children@ => old(self).children@[j as int]));
                }
                match event.map_to_child(
                    match &child.common.geometry {
                        Some(g) => g.rect_in_parent,
                        None => {
                            proof {
                                assert(!pointer_offered(child0, pos));
                                assert(pointer_scan(old(self).children@, pos, kind, i as int)
                                    == pointer_scan(old(self).children@, pos, kind, j as int));
                                assert(pointer_scan_icon(old(self).children@, pos, kind, i as int)
                                    == pointer_scan_icon(old(self).children@, pos, kind, j as int));
                            }
                            self.children.insert(j, child);
                            i = j;
                            continue ;
                        },
                    },
                    child.common.receives_all_mouse_events,
                ) {
                    Some(child_event) => {
                        proof {
                            assert(pointer_offered(child0, pos));
                            assert(child_event.pos == pointer_mapped_pos(child0, pos));
                        }
                        let r = child.dispatch_mouse_scroll(sys, win, &child_event);
                        if r {
                            accepted = true;
                            proof {
                                assert(pointer_scan(old(self).children@, pos, kind, i as int)
                                    matches Some(p) && p.0 == j && Some(p.1) == pointer_acceptor(
                                    child0,
                                    pointer_mapped_pos(child0, pos),
                                    kind,
                                ));
                                lemma_pointer_icon_matches(
                                    child0,
                                    pointer_mapped_pos(child0, pos),
                                    kind,
                                );
                                assert(pointer_scan_icon(old(self).children@, pos, kind, i as int)
                                    == pointer_acceptor_icon(
                                    child0,
                                    pointer_mapped_pos(child0, pos),
                                    kind,
                                ));
                            }
                            self.children.insert(j, child);
                        } else {
                            proof {
                                assert(pointer_scan(old(self).children@, pos, kind, i as int)
                                    == pointer_scan(old(self).children@, pos, kind, j as int));
                                assert(pointer_scan_icon(old(self).children@, pos, kind, i as int)
                                    == pointer_scan_icon(old(self).children@, pos, kind, j as int));
                            }
                            self.children.insert(j, child);
                            i = j;
                        }
                    },
                    None => {
                        proof {
                            assert(!pointer_offered(child0, pos));
                            assert(pointer_scan(old(self).children@, pos, kind, i as int)
                                == pointer_scan(old(self).children@, pos, kind, j as int));
                            assert(pointer_scan_icon(old(self).children@, pos, kind, i as int)
                                == pointer_scan_icon(old(self).children@, pos, kind, j as int));
                        }
                        self.children.insert(j, child);
                        i = j;
                    },
                }
            }
            if !accepted {
                accepted = self.handle_pointer_event(PointerEventKind::Scroll);
                if accepted {
                    match win.current_mouse_event_accepted() {
                        Ok(false) => {
                            let _ = win.accept_current_mouse_event(self.common.id);
                            win.set_cursor(self.common.cursor_icon);
                        },
                        Ok(true) => {},
                        Err(e) => {
                            report_error(&mut sys.errors, e);
                            proof {
                                assert(old(sys).errors_extended(*sys));
                            }
                        },
                    }
                }
            }
        }
        proof {
            if !enabled {
                assert(pointer_acceptor(*old(self), pos, kind).is_none());
            }
            assert forall|k: int| 0 <= k < self.children@.len() implies rects_wf(
                #[trigger] self.children@[k],
            ) by {
                if self.children@[k] == old(self).children@[k] {
                    assert(rects_wf(old(self).children@[k]));
                }
            }
        }
        accepted
    }
}

} // verus!

use crate::accessible::{AccessibleNode, AccessibleRole};

verus! {

/// The role a widget contributes to the accessibility mirror; containers
/// are transparent and contribute nothing.
pub open spec fn accessible_role_for(w: Widget) -> Option<AccessibleRole> {
    if !w.common.is_accessible {
        None
    } else {
        match w.kind {
            WidgetKind::Button(_) => Some(AccessibleRole::Button),
            WidgetKind::Label(_) => Some(AccessibleRole::Label),
            WidgetKind::Stack => None,
            WidgetKind::PaddingBox => None,
            WidgetKind::Column => None,
        }
    }
}

/// What the node contributed for `w` must carry: the kind's role, the
/// kind's text as the label, and the widget's rectangle in window
/// coordinates as the bounds.
pub open spec fn accessible_node_matches(n: AccessibleNode, w: Widget) -> bool {
    &&& Some(n.role) == accessible_role_for(w)
    &&& n.label@ == (match w.kind {
        WidgetKind::Button(st) => st.text@,
        WidgetKind::Label(st) => st.text@,
        _ => Seq::<char>::empty(),
    })
    &&& n.bounds == (match w.common.geometry {
        Some(g) => Some(g.rect_in_window),
        None => None,
    })
}

impl Widget {
    /// Push this widget's accessible node into the window's mirror when
    /// an update is pending: an accessible widget contributes its role,
    /// label and bounds under its own id, a transparent one removes any
    /// stale entry; either way the pending flag clears. Nothing happens
    /// for an unmounted widget or without a pending update.
    pub fn update_accessible(&mut self, win: &mut SharedWindowState)
        requires
            old(win).wf(),
        ensures
            final(win).wf(),
            final(self).kind == old(self).kind,
            final(self).children == old(self).children,
            final(self).common == (WidgetCommon {
                pending_accessible_update: final(self).common.pending_accessible_update,
                ..old(self).common
            }),
            (!old(self).common.pending_accessible_update || old(self).common.mount_point is None)
                ==> (*final(self) == *old(self) && *final(win) == *old(win)),
            (old(self).common.pending_accessible_update && old(self).common.mount_point is Some)
                ==> ({
                &&& !final(self).common.pending_accessible_update
                &&& final(win).eq_except_mouse_accessibility(*old(win))
                &&& (match accessible_role_for(*old(self)) {
                    Some(_) => final(win).accessible_nodes.nodes@.dom() =~= old(win).accessible_nodes.nodes@.dom().insert(old(self).common.id.0)
                        && accessible_node_matches(final(win).accessible_nodes.nodes@[old(self).common.id.0], *old(self)),
                    None => final(win).accessible_nodes.nodes@ =~= old(win).accessible_nodes.nodes@.remove(old(self).common.id.0),
                })
                &&& forall|x: u64|
                    x != old(self).common.id.0 && old(win).accessible_nodes.nodes@.contains_key(x)
                        ==> (#[trigger] final(win).accessible_nodes.nodes@.contains_key(x) && final(win).accessible_nodes.nodes@[x] == old(win).accessible_nodes.nodes@[x])
                &&& final(win).accessible_nodes.pending_updates@.contains(old(self).common.id.0)
            }),
    {
        if !self.common.pending_accessible_update {
            return ;
        }
        if self.common.mount_point.is_none() {
            return ;
        }
        let id = self.common.id;
        let bounds = match &self.common.geometry {
            Some(g) => Some(g.rect_in_window),
            None => None,
        };
        let node: Option<AccessibleNode> = if self.common.is_accessible {
            match &self.kind {
                WidgetKind::Button(st) => Some(AccessibleNode {
                    role: AccessibleRole::Button,
                    label: st.text.clone(),
                    bounds,
                }),
                WidgetKind::Label(st) => Some(AccessibleNode {
                    role: AccessibleRole::Label,
                    label: st.text.clone(),
                    bounds,
                }),
                _ => None,
            }
        } else {
            None
        };
        win.accessible_nodes.update(id.0, node);
        self.common.pending_accessible_update = false;
    }
}

} // verus!

verus! {

/// Every widget of this subtree knows whether its window has focus.
pub open spec fn window_focus_set(w: Widget, is_focused: bool) -> bool
    decreases w,
{
    &&& w.common.is_window_focused == is_focused
    &&& forall|k: int|
        0 <= k < w.children@.len() ==> window_focus_set(#[trigger] w.children@[k], is_focused)
}

impl Widget {
    /// Broadcast a window-focus change: this widget records the new state
    /// and every child receives the event unconditionally, whatever its
    /// own state — focus styling anywhere in the tree may depend on it.
    #[verifier::loop_isolation(false)]
    #[verifier::rlimit(100)]
    #[verifier::spinoff_prover]
    pub fn dispatch_window_focus_change(
        &mut self,
        win: &mut SharedWindowState,
        is_focused: bool,
    )
        ensures
            window_focus_set(*final(self), is_focused),
            final(self).kind == old(self).kind,
            final(self).children@.len() == old(self).children@.len(),
            final(self).common == (WidgetCommon {
                is_window_focused: is_focused,
                pending_accessible_update: final(self).common.pending_accessible_update,
                ..old(self).common
            }),
            final(win).eq_except_mouse(*old(win)),
            final(win).mouse_entered == old(win).mouse_entered,
            final(win).mouse_event_active == old(win).mouse_event_active,
            final(win).mouse_event_accepted_by == old(win).mouse_event_accepted_by,
            final(win).cursor_icon == old(win).cursor_icon,
            old(win).redraw_requested ==> final(win).redraw_requested,
        decreases *old(self),
    {
        self.common.is_window_focused = is_focused;
        let mut i: usize = 0;
        while i < self.children.len()
            invariant
                0 <= i <= self.children@.len(),
                self.common == (WidgetCommon {
                    is_window_focused: is_focused,
                    ..old(self).common
                }),
                self.kind == old(self).kind,
                self.children@.len() == old(self).children@.len(),
                forall|k: int|
                    i <= k < self.children@.len() ==> #[trigger] self.children@[k] == old(self).children@[k],
                forall|k: int|
                    0 <= k < i ==> window_focus_set(#[trigger] self.children@[k], is_focused),
                win.eq_except_mouse(*old(win)),
                win.mouse_entered == old(win).mouse_entered,
                win.mouse_event_active == old(win).mouse_event_active,
                win.mouse_event_accepted_by == old(win).mouse_event_accepted_by,
                win.cursor_icon == old(win).cursor_icon,
                old(win).redraw_requested ==> win.redraw_requested,
            decreases self.children@.len() - i,
        {
            let mut child = self.children.remove(i);
            proof {
                assert(child == old(self).children@[i as int]);
                assert(decreases_to!(*old(self) => old(self).children));
                assert(decreases_to!(old(self).children => old(self).children@));
                assert(decreases_to!(old(self).children@ => old(self).children@[i as int]));
            }
            child.dispatch_window_focus_change(win, is_focused);
            self.children.insert(i, child);
            i = i + 1;
        }
        self.update(win);
    }
}

} // verus!

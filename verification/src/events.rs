//! The closed set of events the engine dispatches, with their payloads as
//! plain values. The platform collaborator translates raw input into these
//! before they reach the tree.

use vstd::prelude::*;

use crate::address::WidgetAddress;
use crate::geometry::{Point, Rect};
use crate::ids::RawWidgetId;
use crate::style::WidgetScope;

verus! {

#[derive(Debug, Clone, Copy, PartialEq, Eq, Structural)]
pub enum MouseButton {
    Left,
    Right,
    Middle,
    Back,
    Forward,
    Other(u16),
}

#[derive(Debug, Clone, Copy, PartialEq, Eq, Structural)]
pub enum ElementState {
    Pressed,
    Released,
}

#[derive(Debug, Clone, Copy, PartialEq, Eq, Structural)]
pub struct Modifiers {
    pub shift: bool,
    pub ctrl: bool,
    pub alt: bool,
    pub logo: bool,
}

#[derive(Debug, Clone, Copy, PartialEq, Eq, Structural)]
pub enum CursorIcon {
    Default,
    Pointer,
    Text,
    NotAllowed,
}

/// Why a widget gained keyboard focus.
#[derive(Debug, Clone, Copy, PartialEq, Eq, Structural)]
pub enum FocusReason {
    Mouse,
    Tab,
    /// A widget was automatically focused because there was no focused
    /// widget previously.
    Auto,
}

#[derive(Debug, Clone, Copy, PartialEq, Eq, Structural)]
pub struct MouseInputEvent {
    pub device_id: u64,
    pub state: ElementState,
    pub button: MouseButton,
    pub num_clicks: u32,
    /// Position in the receiving widget's coordinates.
    pub pos: Point,
    pub pos_in_window: Point,
}

#[derive(Debug, Clone, Copy, PartialEq, Eq, Structural)]
pub struct MouseScrollEvent {
    pub device_id: u64,
    /// Scroll delta already unified to pixels.
    pub pixel_delta: Point,
    /// Position in the receiving widget's coordinates.
    pub pos: Point,
    pub pos_in_window: Point,
}

#[derive(Debug, Clone, Copy, PartialEq, Eq, Structural)]
pub struct MouseMoveEvent {
    pub device_id: u64,
    /// Position in the receiving widget's coordinates.
    pub pos: Point,
    pub pos_in_window: Point,
}

#[derive(Debug, Clone, Copy, PartialEq, Eq, Structural)]
pub struct MouseEnterEvent {
    pub device_id: u64,
    pub pos: Point,
}

#[derive(Debug, Clone, Copy, PartialEq, Eq, Structural)]
pub struct MouseLeaveEvent {}

#[derive(Debug, Clone, Copy, PartialEq, Eq, Structural)]
pub struct KeyboardInputEvent {
    pub device_id: u64,
    /// Platform key code, already translated.
    pub key: u32,
    pub state: ElementState,
    pub is_synthetic: bool,
    pub modifiers: Modifiers,
}

/// Input-method composition state, already translated to plain text.
#[derive(Debug, Clone)]
pub enum ImePhase {
    Enabled,
    Preedit(String),
    Commit(String),
    Disabled,
}

#[derive(Debug, Clone)]
pub struct ImeEvent {
    pub phase: ImePhase,
}

/// A request to paint: the clip rectangle in the receiving widget's
/// coordinates and a handle to the output surface owned by the renderer.
#[derive(Debug, Clone, Copy, PartialEq, Eq, Structural)]
pub struct DrawEvent {
    pub rect: Rect,
    pub surface_id: u64,
}

#[derive(Debug, Clone, Copy, PartialEq, Eq, Structural)]
pub struct FocusInEvent {
    pub reason: FocusReason,
}

#[derive(Debug, Clone, Copy, PartialEq, Eq, Structural)]
pub struct FocusOutEvent {}

#[derive(Debug, Clone, Copy, PartialEq, Eq, Structural)]
pub struct WindowFocusChangeEvent {
    pub is_focused: bool,
}

/// An action requested through the accessibility tree, targeted at one
/// widget by id lookup.
#[derive(Debug, Clone)]
pub enum AccessibleAction {
    Click,
    Focus,
    Blur,
    SetValue(String),
}

#[derive(Debug, Clone)]
pub struct AccessibleActionEvent {
    pub action: AccessibleAction,
}

/// Sent to a widget after its parent scope was replaced wholesale, e.g.
/// on mount or remount; carries the scope that was in force before.
#[derive(Debug, Clone)]
pub struct WidgetScopeChangeEvent {
    pub previous_scope: WidgetScope,
}

/// Broadcast after a style in scope changed; every widget re-derives its
/// effective style and drops style-dependent caches.
#[derive(Debug, Clone, Copy, PartialEq, Eq, Structural)]
pub struct StyleChangeEvent {}

/// Sent down the tree when a widget's effective enabledness changed;
/// subtrees whose effective value is unchanged are pruned.
#[derive(Debug, Clone, Copy, PartialEq, Eq, Structural)]
pub struct EnabledChangeEvent {
    pub is_enabled: bool,
}

/// Ask the widget at `address` to scroll `rect` into view; forwarded hop
/// by hop with a key and id consistency check at each step.
#[derive(Debug)]
pub struct ScrollToRectEvent {
    pub address: WidgetAddress,
    pub rect: Rect,
}

#[derive(Debug, Clone, Copy, PartialEq, Eq, Structural)]
pub struct UnmountEvent {}

impl MouseInputEvent {
    /// The same event in a child's coordinates, when the child should see
    /// it: inside the child's rectangle, or whenever the child receives
    /// all events and the remapped position is representable.
    pub fn map_to_child(&self, rect_in_parent: Rect, force: bool) -> (r: Option<MouseInputEvent>)
        requires
            rect_in_parent.wf(),
        ensures
            r.is_some() <==> (rect_in_parent.spec_contains(self.pos) || (force
                && self.pos.sub_fits(rect_in_parent.top_left))),
            r.is_some() ==> r.unwrap() == (MouseInputEvent {
                pos: self.pos.spec_minus(rect_in_parent.top_left),
                ..*self
            }),
    {
        if rect_in_parent.contains(self.pos) || force {
            match self.pos.checked_sub(rect_in_parent.top_left) {
                Some(pos) => Some(MouseInputEvent { pos, ..*self }),
                None => None,
            }
        } else {
            None
        }
    }
}

impl MouseScrollEvent {
    /// See [`MouseInputEvent::map_to_child`].
    pub fn map_to_child(&self, rect_in_parent: Rect, force: bool) -> (r: Option<MouseScrollEvent>)
        requires
            rect_in_parent.wf(),
        ensures
            r.is_some() <==> (rect_in_parent.spec_contains(self.pos) || (force
                && self.pos.sub_fits(rect_in_parent.top_left))),
            r.is_some() ==> r.unwrap() == (MouseScrollEvent {
                pos: self.pos.spec_minus(rect_in_parent.top_left),
                ..*self
            }),
    {
        if rect_in_parent.contains(self.pos) || force {
            match self.pos.checked_sub(rect_in_parent.top_left) {
                Some(pos) => Some(MouseScrollEvent { pos, ..*self }),
                None => None,
            }
        } else {
            None
        }
    }
}

impl MouseMoveEvent {
    /// See [`MouseInputEvent::map_to_child`].
    pub fn map_to_child(&self, rect_in_parent: Rect, force: bool) -> (r: Option<MouseMoveEvent>)
        requires
            rect_in_parent.wf(),
        ensures
            r.is_some() <==> (rect_in_parent.spec_contains(self.pos) || (force
                && self.pos.sub_fits(rect_in_parent.top_left))),
            r.is_some() ==> r.unwrap() == (MouseMoveEvent {
                pos: self.pos.spec_minus(rect_in_parent.top_left),
                ..*self
            }),
    {
        if rect_in_parent.contains(self.pos) || force {
            match self.pos.checked_sub(rect_in_parent.top_left) {
                Some(pos) => Some(MouseMoveEvent { pos, ..*self }),
                None => None,
            }
        } else {
            None
        }
    }

    /// The enter event a widget receives the first time the pointer is
    /// seen over it.
    pub fn create_enter_event(&self) -> (r: MouseEnterEvent)
        ensures
            r.device_id == self.device_id,
            r.pos == self.pos,
    {
        MouseEnterEvent { device_id: self.device_id, pos: self.pos }
    }
}

/// Every event the engine can dispatch. Variants are partitioned by
/// propagation rule: geometric pointer events hit-test children in
/// reverse order, broadcast events reach every child, targeted events are
/// delivered by address lookup, and structural events drive side effects.
#[derive(Debug)]
pub enum Event {
    MouseInput(MouseInputEvent),
    MouseScroll(MouseScrollEvent),
    MouseEnter(MouseEnterEvent),
    MouseMove(MouseMoveEvent),
    MouseLeave(MouseLeaveEvent),
    KeyboardInput(KeyboardInputEvent),
    Ime(ImeEvent),
    Draw(DrawEvent),
    FocusIn(FocusInEvent),
    FocusOut(FocusOutEvent),
    WindowFocusChange(WindowFocusChangeEvent),
    Accessible(AccessibleActionEvent),
    WidgetScopeChange(WidgetScopeChangeEvent),
    StyleChange(StyleChangeEvent),
    EnabledChange(EnabledChangeEvent),
    ScrollToRect(ScrollToRectEvent),
    Unmount(UnmountEvent),
}

} // verus!

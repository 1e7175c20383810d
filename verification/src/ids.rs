//! Stable widget identity: process-unique ids that are allocated
//! monotonically and never reused.

use vstd::prelude::*;

verus! {

/// Identity of one widget. Identity only: holding a `RawWidgetId` confers
/// no ownership of the widget, which always belongs to its parent.
#[derive(Debug, Clone, Copy, PartialEq, Eq, Hash, Structural)]
pub struct RawWidgetId(pub u64);

/// Allocator for fresh widget ids. The toolkit runs on a single UI thread,
/// so one source owned by the system context suffices; every id it hands
/// out is strictly larger than every id handed out before.
#[derive(Debug, Clone, Copy, PartialEq, Eq, Structural)]
pub struct WidgetIdSource {
    pub next: u64,
}

impl WidgetIdSource {
    pub fn new() -> (r: WidgetIdSource)
        ensures
            r.next == 1u64,
    {
        WidgetIdSource { next: 1 }
    }
}

impl RawWidgetId {
    /// Allocate a fresh id, never handed out before by this source.
    pub fn new(source: &mut WidgetIdSource) -> (r: RawWidgetId)
        requires
            old(source).next < u64::MAX,
        ensures
            r.0 == old(source).next,
            final(source).next == old(source).next + 1,
    {
        let id = RawWidgetId(source.next);
        source.next = source.next + 1;
        id
    }
}

/// Typed handle to a widget of a concrete kind, as returned at insertion
/// time; it lets callers reach a specific child without runtime type
/// inspection.
pub struct WidgetId<T>(pub RawWidgetId, pub core::marker::PhantomData<T>);

impl<T> WidgetId<T> {
    pub fn raw(&self) -> (r: RawWidgetId)
        ensures
            r == self.0,
    {
        self.0
    }
}

impl<T> Clone for WidgetId<T> {
    fn clone(&self) -> (r: Self)
        ensures
            r.0 == self.0,
    {
        WidgetId(self.0, core::marker::PhantomData)
    }
}

} // verus!

//! The explicitly passed system context: the address book, the widget id
//! source, the timer queue, the default style and the error sink that
//! every core operation receives instead of reaching for ambient global
//! state.

use vstd::prelude::*;

use crate::address::AddressBook;
use crate::ids::{RawWidgetId, WidgetIdSource};
use crate::style::ComputedStyle;

verus! {

/// The failures the engine reports instead of panicking: a widget's bug
/// must not bring the event loop down.
#[derive(Debug, Clone, Copy, PartialEq, Eq, Structural)]
pub enum CoreError {
    /// A geometry-dependent operation ran on a widget that has no rect
    /// yet (unmounted or not laid out).
    NoGeometry,
    /// An operation needed a mount point on an unmounted widget.
    NoMountPoint,
    /// An id could not be resolved to a live widget.
    WidgetNotFound,
    /// A stored address disagreed with the tree it was resolved against.
    StaleAddress,
    /// There was no current mouse event to accept.
    NoMouseEvent,
}

impl CoreError {
    /// A short description for logs and tests.
    pub fn message(&self) -> (r: &'static str)
        ensures
            r@ =~= self.spec_message(),
    {
        match self {
            CoreError::NoGeometry => "no rect_in_window",
            CoreError::NoMountPoint => "no mount point",
            CoreError::WidgetNotFound => "widget not found",
            CoreError::StaleAddress => "stale widget address",
            CoreError::NoMouseEvent => "no current mouse event",
        }
    }

    pub open spec fn spec_message(self) -> Seq<char> {
        match self {
            CoreError::NoGeometry => "no rect_in_window"@,
            CoreError::NoMountPoint => "no mount point"@,
            CoreError::WidgetNotFound => "widget not found"@,
            CoreError::StaleAddress => "stale widget address"@,
            CoreError::NoMouseEvent => "no current mouse event"@,
        }
    }
}

/// The process-wide error sink: reported errors accumulate here and the
/// embedding application decides how to surface them.
pub struct ErrorSink {
    pub reported: Vec<CoreError>,
}

impl ErrorSink {
    pub fn new() -> (r: ErrorSink)
        ensures
            r.reported@ =~= Seq::<CoreError>::empty(),
    {
        ErrorSink { reported: Vec::new() }
    }
}

/// Report a non-fatal error: it is recorded and the operation that hit it
/// is skipped, never escalated into a panic.
pub fn report_error(sink: &mut ErrorSink, error: CoreError)
    ensures
        final(sink).reported@ =~= old(sink).reported@.push(error),
{
    sink.reported.push(error);
}

/// Report-and-continue: turn a fallible outcome into an `Option`,
/// recording the error on the way.
pub trait ReportError: Sized {
    type Output;

    fn or_report_err(self, sink: &mut ErrorSink) -> (r: Option<Self::Output>);
}

impl<T> ReportError for Result<T, CoreError> {
    type Output = T;

    fn or_report_err(self, sink: &mut ErrorSink) -> (r: Option<T>) {
        match self {
            Ok(value) => Some(value),
            Err(error) => {
                report_error(sink, error);
                None
            },
        }
    }
}

/// Identity of a timer, for idempotent cancellation.
#[derive(Debug, Clone, Copy, PartialEq, Eq, Structural)]
pub struct TimerId(pub u64);

/// One scheduled timer: it fires at `deadline` (milliseconds of some
/// monotonic clock), optionally repeats, and on firing a message is
/// dispatched to the widget it names — the timer holds an id, never a
/// reference into the tree.
#[derive(Debug, Clone, Copy, PartialEq, Eq, Structural)]
pub struct WidgetTimer {
    pub deadline: u64,
    pub interval: Option<u64>,
    pub widget_id: RawWidgetId,
}

/// The pending timers, kept sorted by deadline so the event loop can poll
/// the earliest one.
pub struct Timers {
    pub next_id: u64,
    pub entries: Vec<(TimerId, WidgetTimer)>,
}

impl Timers {
    /// Sorted by deadline, ids unique and below `next_id`.
    pub open spec fn wf(self) -> bool {
        &&& forall|i: int, j: int|
            0 <= i < j < self.entries@.len() ==> (#[trigger] self.entries@[i]).1.deadline <= (
            #[trigger] self.entries@[j]).1.deadline
        &&& forall|i: int|
            0 <= i < self.entries@.len() ==> (#[trigger] self.entries@[i]).0.0 < self.next_id
        &&& forall|i: int, j: int|
            0 <= i < j < self.entries@.len() ==> (#[trigger] self.entries@[i]).0 != (
            #[trigger] self.entries@[j]).0
    }

    pub open spec fn spec_has_timer(self, id: TimerId) -> bool {
        exists|i: int| 0 <= i < self.entries@.len() && (#[trigger] self.entries@[i]).0 == id
    }

    pub fn new() -> (r: Timers)
        ensures
            r.wf(),
            r.next_id == 0u64,
            r.entries@ =~= Seq::<(TimerId, WidgetTimer)>::empty(),
    {
        Timers { next_id: 0, entries: Vec::new() }
    }

    /// Schedule `timer`, keeping the queue sorted; the new id is fresh.
    pub fn add(&mut self, timer: WidgetTimer) -> (r: TimerId)
        requires
            old(self).wf(),
            old(self).next_id < u64::MAX,
        ensures
            final(self).wf(),
            final(self).next_id == old(self).next_id + 1,
            final(self).spec_has_timer(r),
            !old(self).spec_has_timer(r),
            final(self).entries@.len() == old(self).entries@.len() + 1,
            forall|i: int|
                0 <= i < final(self).entries@.len() ==> ((#[trigger] final(self).entries@[i]).0
                    == r || old(self).entries@.contains(final(self).entries@[i])),
            exists|i: int|
                0 <= i < final(self).entries@.len() && (#[trigger] final(self).entries@[i]) == (
                r,
                timer,
                ),
    {
        let id = TimerId(self.next_id);
        self.next_id = self.next_id + 1;
        let ghost entries0 = self.entries@;
        let mut pos: usize = 0;
        while pos < self.entries.len() && self.entries[pos].1.deadline <= timer.deadline
            invariant
                0 <= pos <= self.entries@.len(),
                self.entries@ == entries0,
                forall|i: int| 0 <= i < pos ==> (#[trigger] self.entries@[i]).1.deadline
                    <= timer.deadline,
            decreases self.entries@.len() - pos,
        {
            pos = pos + 1;
        }
        self.entries.insert(pos, (id, timer));
        proof {
            assert(self.entries@ =~= entries0.insert(pos as int, (id, timer)));
            assert(self.entries@[pos as int] == (id, timer));
            assert forall|i: int| 0 <= i < self.entries@.len() implies ((
            #[trigger] self.entries@[i]).0 == id || entries0.contains(self.entries@[i])) by {
                if i < pos {
                    assert(self.entries@[i] == entries0[i]);
                    assert(entries0.contains(entries0[i]));
                } else if i > pos {
                    assert(self.entries@[i] == entries0[i - 1]);
                    assert(entries0.contains(entries0[i - 1]));
                }
            }
            assert forall|i: int, j: int| 0 <= i < j < self.entries@.len() implies (
            #[trigger] self.entries@[i]).1.deadline <= (
            #[trigger] self.entries@[j]).1.deadline by {
                if j < pos {
                } else if i >= pos + 1 {
                    assert(self.entries@[i] == entries0[i - 1]);
                    assert(self.entries@[j] == entries0[j - 1]);
                } else if i == pos {
                    assert(self.entries@[j] == entries0[j - 1]);
                    assert(entries0[j - 1].1.deadline > timer.deadline || entries0[j
                        - 1].1.deadline >= entries0[pos as int].1.deadline);
                } else if j == pos {
                    assert(self.entries@[i] == entries0[i]);
                } else {
                    assert(self.entries@[i] == entries0[i]);
                    assert(self.entries@[j] == entries0[j - 1]);
                    assert(entries0[j - 1].1.deadline > timer.deadline);
                }
            }
        }
        id
    }

    /// Cancel the timer with this id. Cancelling one that never existed
    /// or already fired does nothing: cancellation is idempotent.
    pub fn cancel(&mut self, id: TimerId)
        requires
            old(self).wf(),
        ensures
            final(self).wf(),
            final(self).next_id == old(self).next_id,
            !final(self).spec_has_timer(id),
            forall|i: int|
                0 <= i < final(self).entries@.len() ==> old(self).entries@.contains(
                    #[trigger] final(self).entries@[i],
                ),
            forall|i: int|
                0 <= i < old(self).entries@.len() && (#[trigger] old(self).entries@[i]).0 != id
                    ==> final(self).entries@.contains(old(self).entries@[i]),
    {
        let mut out: Vec<(TimerId, WidgetTimer)> = Vec::new();
        let mut i: usize = 0;
        let ghost entries0 = self.entries@;
        while i < self.entries.len()
            invariant
                0 <= i <= entries0.len(),
                self.entries@ == entries0,
                old(self).wf(),
                entries0 == old(self).entries@,
                forall|k: int|
                    0 <= k < out@.len() ==> (#[trigger] out@[k]).0 != id && exists|w: int|
                        0 <= w < i && entries0[w] == out@[k],
                forall|k: int|
                    0 <= k < i && (#[trigger] entries0[k]).0 != id ==> out@.contains(entries0[k]),
                forall|k: int, l: int|
                    0 <= k < l < out@.len() ==> (#[trigger] out@[k]).1.deadline <= (
                    #[trigger] out@[l]).1.deadline,
                forall|k: int, l: int|
                    0 <= k < l < out@.len() ==> (#[trigger] out@[k]).0 != (#[trigger] out@[l]).0,
                forall|k: int|
                    0 <= k < out@.len() ==> (#[trigger] out@[k]).0.0 < old(self).next_id,
                forall|k: int, l: int|
                    0 <= k < out@.len() && i <= l < entries0.len() ==> (
                    #[trigger] out@[k]).1.deadline <= (#[trigger] entries0[l]).1.deadline,
            decreases entries0.len() - i,
        {
            let entry = self.entries[i];
            if entry.0.0 != id.0 {
                let ghost out0 = out@;
                out.push(entry);
                proof {
                    assert(out@ =~= out0.push(entry));
                    assert(entries0.contains(entries0[i as int]));
                    assert forall|k: int, l: int| 0 <= k < l < out@.len() implies (
                    #[trigger] out@[k]).0 != (#[trigger] out@[l]).0 by {
                        if l == out0.len() {
                            assert(out@[l] == entry);
                            let w = choose|w: int| 0 <= w < i && entries0[w] == out0[k];
                            assert(entries0[w].0 != entries0[i as int].0);
                        }
                    }
                    assert forall|k: int| 0 <= k < out@.len() implies (#[trigger] out@[k]).0 != id
                        && exists|w: int| 0 <= w < i + 1 && entries0[w] == out@[k] by {
                        if k < out0.len() {
                            let w = choose|w: int| 0 <= w < i && entries0[w] == out0[k];
                            assert(entries0[w] == out@[k]);
                        } else {
                            assert(entries0[i as int] == out@[k]);
                        }
                    }
                    assert forall|k: int| 0 <= k < i + 1 && (#[trigger] entries0[k]).0
                        != id implies out@.contains(entries0[k]) by {
                        if k < i {
                            assert(out0.contains(entries0[k]));
                            let w = choose|w: int| 0 <= w < out0.len() && out0[w] == entries0[k];
                            assert(out@[w] == entries0[k]);
                        } else {
                            assert(out@[out0.len() as int] == entries0[k]);
                        }
                    }
                }
            }
            i = i + 1;
        }
        proof {
            assert forall|k: int| 0 <= k < out@.len() implies entries0.contains(
                #[trigger] out@[k],
            ) by {
                let w = choose|w: int| 0 <= w < i && entries0[w] == out@[k];
            }
        }
        self.entries = out;
    }

    /// The earliest timer whose deadline has passed, removed from the
    /// queue; `None` when nothing is due at `now`.
    pub fn pop_ready(&mut self, now: u64) -> (r: Option<(TimerId, WidgetTimer)>)
        requires
            old(self).wf(),
        ensures
            final(self).wf(),
            final(self).next_id == old(self).next_id,
            r.is_some() <==> (old(self).entries@.len() > 0 && old(
                self,
            ).entries@[0].1.deadline <= now),
            r.is_some() ==> r.unwrap() == old(self).entries@[0] && final(self).entries@ =~= old(
                self,
            ).entries@.skip(1),
            r.is_none() ==> final(self).entries@ == old(self).entries@,
    {
        if self.entries.len() > 0 {
            let first_deadline = self.entries[0].1.deadline;
            if first_deadline <= now {
                let entry = self.entries.remove(0);
                proof {
                    assert(self.entries@ =~= old(self).entries@.skip(1));
                }
                return Some(entry);
            }
        }
        None
    }
}

/// Everything ambient that the original design kept in thread-local
/// state, as one explicitly constructed and explicitly passed context.
pub struct System {
    pub address_book: AddressBook,
    pub id_source: WidgetIdSource,
    pub timers: Timers,
    pub default_style: std::rc::Rc<ComputedStyle>,
    pub errors: ErrorSink,
}

impl System {
    /// Only the error sink may differ from `other`.
    pub open spec fn eq_except_errors(self, other: System) -> bool {
        &&& self.address_book == other.address_book
        &&& self.id_source == other.id_source
        &&& self.timers == other.timers
        &&& self.default_style == other.default_style
    }

    /// Errors are only ever appended, never dropped.
    pub open spec fn errors_extended(self, other: System) -> bool {
        &&& other.errors.reported@.len() >= self.errors.reported@.len()
        &&& other.errors.reported@.take(self.errors.reported@.len() as int)
            =~= self.errors.reported@
    }

    pub open spec fn wf(self) -> bool {
        &&& self.timers.wf()
        &&& self.id_source.next < u64::MAX
        &&& self.timers.next_id < u64::MAX
    }

    pub fn new(default_style: std::rc::Rc<ComputedStyle>) -> (r: System)
        ensures
            r.wf(),
            r.address_book@ =~= Map::<u64, crate::address::WidgetAddress>::empty(),
            r.default_style == default_style,
            r.errors.reported@ =~= Seq::<CoreError>::empty(),
    {
        System {
            address_book: AddressBook::new(),
            id_source: WidgetIdSource::new(),
            timers: Timers::new(),
            default_style,
            errors: ErrorSink::new(),
        }
    }
}

/// Schedule a one-shot timer for `widget_id`, `duration` after `now`.
pub fn add_timer(system: &mut System, now: u64, duration: u64, widget_id: RawWidgetId) -> (r:
    TimerId)
    requires
        old(system).wf(),
        now + duration <= u64::MAX,
        old(system).timers.next_id + 1 < u64::MAX,
    ensures
        final(system).wf(),
        final(system).timers.spec_has_timer(r),
        timer_scheduled(final(system).timers, r, (now + duration) as u64, None, widget_id),
        final(system).address_book == old(system).address_book,
        final(system).errors == old(system).errors,
{
    add_timer_or_interval(system, now, duration, None, widget_id)
}

/// Schedule a repeating timer: it first fires `interval` after `now` and
/// then rearms itself each time it fires.
pub fn add_interval(system: &mut System, now: u64, interval: u64, widget_id: RawWidgetId) -> (r:
    TimerId)
    requires
        old(system).wf(),
        now + interval <= u64::MAX,
        old(system).timers.next_id + 1 < u64::MAX,
    ensures
        final(system).wf(),
        final(system).timers.spec_has_timer(r),
        timer_scheduled(
            final(system).timers,
            r,
            (now + interval) as u64,
            Some(interval),
            widget_id,
        ),
        final(system).address_book == old(system).address_book,
        final(system).errors == old(system).errors,
{
    add_timer_or_interval(system, now, interval, Some(interval), widget_id)
}

/// Whether `timers` holds a timer `id` that fires at `deadline` for
/// `widget_id`, rearming every `interval`.
pub open spec fn timer_scheduled(
    timers: Timers,
    id: TimerId,
    deadline: u64,
    interval: Option<u64>,
    widget_id: RawWidgetId,
) -> bool {
    exists|i: int|
        0 <= i < timers.entries@.len() && (#[trigger] timers.entries@[i]) == (
        id,
        WidgetTimer { deadline, interval, widget_id },
        )
}

/// Schedule a timer that first fires `duration` after `now` and rearms
/// every `interval` if one is given.
pub fn add_timer_or_interval(
    system: &mut System,
    now: u64,
    duration: u64,
    interval: Option<u64>,
    widget_id: RawWidgetId,
) -> (r: TimerId)
    requires
        old(system).wf(),
        now + duration <= u64::MAX,
        old(system).timers.next_id + 1 < u64::MAX,
    ensures
        final(system).wf(),
        final(system).timers.spec_has_timer(r),
        timer_scheduled(final(system).timers, r, (now + duration) as u64, interval, widget_id),
        final(system).address_book == old(system).address_book,
        final(system).errors == old(system).errors,
{
    let timer = WidgetTimer { deadline: now + duration, interval, widget_id };
    system.timers.add(timer)
}

} // verus!

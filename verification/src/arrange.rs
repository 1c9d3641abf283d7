//! Arrangement orchestrator: sequences "fetch inventory, compute layout,
//! apply geometry per window". The platform collaborator performs the
//! fetches and the geometry calls; a session here decides which window gets
//! which rectangle and aggregates per-window failures. A single failed
//! window never aborts the batch: every window is attempted and the last
//! error encountered is surfaced at the end.

use vstd::prelude::*;
use crate::layout::{Rect, compute_layout, is_slot, left_half};

verus! {

/// A failed platform call: which operation, and the platform's own words.
#[derive(Debug)]
pub struct PlatformError {
    pub operation: String,
    pub detail: String,
}

/// Why an arrangement request returned nothing.
#[derive(Debug)]
pub enum ArrangeError {
    /// Arrangement was requested with an empty window inventory.
    NoWindows,
    /// No window currently has focus.
    NoFocusedWindow,
    /// A platform call failed; for a batch, the last failure encountered.
    Platform(PlatformError),
}

/// One arrangement pass over a fixed inventory: the plan, the index of the
/// next window to attempt, and the last geometry failure seen so far.
pub struct ArrangeSession {
    pub plan: Vec<Rect>,
    pub next: usize,
    pub last_error: Option<PlatformError>,
}

/// The outcome of one geometry-apply call, as the session stores it.
pub open spec fn outcome_of(r: Result<(), PlatformError>) -> Option<PlatformError> {
    match r {
        Result::Ok(_) => Option::None,
        Result::Err(e) => Option::Some(e),
    }
}

/// The session after one outcome is recorded: the plan is untouched, the
/// position advances by exactly one, and only the stored error can change.
pub open spec fn after_record(s: ArrangeSession, outcome: Option<PlatformError>) -> ArrangeSession
    recommends
        s.next < s.plan@.len(),
{
    ArrangeSession {
        plan: s.plan,
        next: (s.next + 1) as usize,
        last_error: if outcome is Some { outcome } else { s.last_error },
    }
}

impl ArrangeSession {
    /// The position never runs past the plan, and the plan is a real
    /// vector, so its length is representable.
    pub open spec fn wf(self) -> bool {
        self.next <= self.plan@.len() <= usize::MAX
    }

    /// Start an arrangement pass for `window_count` windows on `screen`.
    /// An empty inventory is refused with `NoWindows` before any geometry
    /// command is issued; otherwise the plan holds exactly one rectangle
    /// per window, each the policy's slot and each inside the screen.
    pub fn begin(window_count: usize, screen: Rect) -> (r: Result<ArrangeSession, ArrangeError>)
        requires
            screen.wf(),
            window_count <= 0xFFFF_FFFFusize,
        ensures
            window_count == 0 <==> r is Err,
            r matches Err(e) ==> e is NoWindows,
            r matches Ok(s) ==> {
                &&& s.wf()
                &&& s.next == 0
                &&& s.last_error is None
                &&& s.plan@.len() == window_count
                &&& forall|i: int| 0 <= i < window_count
                    ==> is_slot(#[trigger] s.plan@[i], window_count as int, screen, i)
                &&& forall|i: int| 0 <= i < window_count
                    ==> (#[trigger] s.plan@[i]).wf() && s.plan@[i].contained_in(screen)
            },
    {
        if window_count == 0 {
            Err(ArrangeError::NoWindows)
        } else {
            Ok(ArrangeSession {
                plan: compute_layout(window_count, screen),
                next: 0,
                last_error: None,
            })
        }
    }

    /// The next geometry command to issue: the window index and its
    /// rectangle, or nothing once every window has been attempted. What is
    /// returned does not depend on any failure recorded so far.
    pub fn next_command(&self) -> (c: Option<(usize, Rect)>)
        requires
            self.wf(),
        ensures
            self.next < self.plan@.len() <==> c is Some,
            c matches Some(p) ==> p.0 == self.next && p.1 == self.plan@[self.next as int],
    {
        if self.next < self.plan.len() {
            Some((self.next, self.plan[self.next]))
        } else {
            None
        }
    }

    /// Record the collaborator's outcome for the current window and move to
    /// the next one. A failure is kept as the last error; it never changes
    /// the plan or skips a window.
    pub fn record_outcome(&mut self, outcome: Result<(), PlatformError>)
        requires
            old(self).wf(),
            old(self).next < old(self).plan@.len(),
        ensures
            final(self).wf(),
            *final(self) == after_record(*old(self), outcome_of(outcome)),
    {
        let n = self.plan.len();
        assert(self.next < n);
        self.next = self.next + 1;
        match outcome {
            Ok(_) => {},
            Err(e) => {
                self.last_error = Some(e);
            },
        }
    }

    /// Close the pass once every window was attempted: the count of
    /// windows arranged, or the last geometry failure encountered.
    pub fn finish(self) -> (r: Result<usize, ArrangeError>)
        requires
            self.wf(),
            self.next == self.plan@.len(),
        ensures
            match self.last_error {
                Option::Some(e) => r matches Err(err)
                    && err matches ArrangeError::Platform(p) && p == e,
                Option::None => r matches Ok(c) && c == self.plan@.len(),
            },
    {
        match self.last_error {
            Some(e) => Err(ArrangeError::Platform(e)),
            None => Ok(self.plan.len()),
        }
    }
}

/// A geometry-apply failure is reported but does not abort the batch:
/// recording a failure leaves the plan and the position exactly as
/// recording a success would, so the same windows remain to be attempted
/// either way. Only the stored error differs.
pub proof fn lemma_failure_does_not_abort(s: ArrangeSession, e: PlatformError)
    requires
        s.wf(),
        s.next < s.plan@.len(),
    ensures
        after_record(s, Option::Some(e)).plan == after_record(s, Option::None).plan,
        after_record(s, Option::Some(e)).next == after_record(s, Option::None).next,
        after_record(s, Option::Some(e)).next == s.next + 1,
        after_record(s, Option::Some(e)).wf(),
        after_record(s, Option::None).wf(),
{
}

/// The fixed single-window rule behind the tile-left hotkey: the focused
/// window, when there is one, goes to the left half of the screen; without
/// one the request fails with `NoFocusedWindow`. The layout engine is
/// bypassed.
pub fn tile_focused_plan(have_focused: bool, screen: Rect) -> (r: Result<Rect, ArrangeError>)
    requires
        screen.wf(),
    ensures
        have_focused <==> r is Ok,
        r matches Ok(rect) ==> {
            &&& rect.x == screen.x
            &&& rect.y == screen.y
            &&& rect.w == screen.w / 2
            &&& rect.h == screen.h
            &&& rect.wf()
            &&& rect.contained_in(screen)
        },
        r matches Err(e) ==> e is NoFocusedWindow,
{
    if have_focused {
        Ok(left_half(screen))
    } else {
        Err(ArrangeError::NoFocusedWindow)
    }
}

/// The periodic monitor's state: whether the trigger is enabled (off by
/// default and left off unless a caller flips it) and the window count
/// seen at the last poll.
pub struct MonitorState {
    pub enabled: bool,
    pub last_count: usize,
}

impl MonitorState {
    /// A fresh monitor: disabled, no windows seen yet.
    pub fn new() -> (m: MonitorState)
        ensures
            !m.enabled,
            m.last_count == 0,
    {
        MonitorState { enabled: false, last_count: 0 }
    }

    /// Turn the periodic trigger on or off.
    pub fn set_enabled(&mut self, on: bool)
        ensures
            final(self).enabled == on,
            final(self).last_count == old(self).last_count,
    {
        self.enabled = on;
    }

    /// One poll: remember the count and decide whether to arrange. The
    /// trigger fires only when enabled, when the count changed since the
    /// last poll, and when more than one window is present.
    pub fn observe(&mut self, count: usize) -> (arrange: bool)
        ensures
            final(self).enabled == old(self).enabled,
            final(self).last_count == count,
            arrange == (old(self).enabled && count != old(self).last_count && count > 1),
    {
        let fire = self.enabled && count != self.last_count && count > 1;
        self.last_count = count;
        fire
    }
}

} // verus!

//! One cycle of the watch loop: from the outcome of a fetch to what the
//! loop does next.

use crate::diff::{as_map, change_set, changed_fields, missing_fields, table_after};
use crate::observation::Observation;
use crate::requester::Requester;
use vstd::prelude::*;

verus! {

/// Why a fetch gave no observation.
#[derive(Debug, PartialEq, Eq)]
pub enum WatchError {
    /// The request failed in transport, or the status was not a success.
    Fetch(String),
    /// The body was not a JSON object of string values.
    Parse(String),
}

/// Nanoseconds in a second.
pub const NANOS_PER_SEC: u32 = 1_000_000_000;

/// The pause between two cycles: whole seconds and a fraction of a second
/// in nanoseconds. It is never zero long.
#[derive(Debug, Clone, Copy, PartialEq, Eq)]
pub struct Interval {
    secs: u64,
    nanos: u32,
}

impl Interval {
    /// The whole seconds.
    pub closed spec fn secs_view(&self) -> u64 {
        self.secs
    }

    /// The nanoseconds beyond the whole seconds.
    pub closed spec fn nanos_view(&self) -> u32 {
        self.nanos
    }

    /// The fraction is less than a second, and the whole is not zero.
    pub open spec fn wf(&self) -> bool {
        &&& self.nanos_view() < NANOS_PER_SEC
        &&& self.secs_view() > 0 || self.nanos_view() > 0
    }

    /// An interval of `secs` seconds and `nanos` nanoseconds, unless
    /// `nanos` is a second or more, or both are zero.
    pub fn new(secs: u64, nanos: u32) -> (interval: Option<Interval>)
        ensures
            interval is Some <==> nanos < NANOS_PER_SEC && (secs > 0 || nanos > 0),
            interval matches Some(i) ==> i.wf() && i.secs_view() == secs && i.nanos_view() == nanos,
    {
        if nanos < NANOS_PER_SEC && (secs > 0 || nanos > 0) {
            Some(Interval { secs, nanos })
        } else {
            None
        }
    }

    /// The whole seconds.
    pub fn secs(&self) -> (secs: u64)
        ensures
            secs == self.secs_view(),
    {
        self.secs
    }

    /// The nanoseconds beyond the whole seconds.
    pub fn subsec_nanos(&self) -> (nanos: u32)
        ensures
            nanos == self.nanos_view(),
    {
        self.nanos
    }
}

/// What the loop does after a fetch.
#[derive(Debug, PartialEq, Eq)]
pub enum Step {
    /// Hand `changes` to the callback, then pause and fetch again.
    Notify { changes: Vec<(String, String)>, missing: Vec<String>, pause: Interval },
    /// Nothing changed: pause and fetch again.
    Idle { missing: Vec<String>, pause: Interval },
    /// The fetch failed: stop.
    Halt { error: WatchError },
}

/// Decides one cycle. A failed fetch stops the loop and leaves `req` as it
/// is. An observation is compared with what `req` remembers: changes are
/// to be notified, and in either case the loop pauses for `check_every`.
pub fn on_change(
    req: &mut Requester<'_>,
    check_every: Interval,
    fetched: Result<Observation, WatchError>,
) -> (step: Step)
    requires
        old(req).wf(),
        check_every.wf(),
    ensures
        final(req).wf(),
        match fetched {
            Err(error) => *final(req) == *old(req) && step == (Step::Halt { error }),
            Ok(json) => {
                let found = changed_fields(old(req).table(), json@, old(req).keys());
                let lacking = missing_fields(json@, old(req).keys());
                &&& final(req).same_request(old(req))
                &&& final(req).history() == old(req).history().push(json@)
                &&& final(req).table() == table_after(old(req).table(), json@, old(req).keys())
                &&& found.len() > 0 ==> {
                    &&& step matches Step::Notify { changes, missing, pause }
                    &&& changes.deep_view() == found
                    &&& as_map(changes.deep_view()) == change_set(
                        old(req).table(),
                        json@,
                        old(req).keys(),
                    )
                    &&& missing.deep_view() == lacking
                    &&& pause == check_every
                }
                &&& found.len() == 0 ==> {
                    &&& step matches Step::Idle { missing, pause }
                    &&& missing.deep_view() == lacking
                    &&& pause == check_every
                }
            },
        },
{
    match fetched {
        Err(error) => Step::Halt { error },
        Ok(json) => {
            let report = req.get_changes(&json);
            if report.changes.len() > 0 {
                Step::Notify { changes: report.changes, missing: report.missing, pause: check_every }
            } else {
                Step::Idle { missing: report.missing, pause: check_every }
            }
        },
    }
}

} // verus!

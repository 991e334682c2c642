//! The monotonic clock of std, as the session tables read it.
//!
//! What the clock shows depends on the moment of the call, so the wrappers
//! below promise nothing of their results.

use std::time::{Duration, Instant};
use vstd::prelude::*;

verus! {

#[verifier::external_type_specification]
#[verifier::external_body]
pub struct ExInstant(Instant);

/// `Instant::now`: the current moment.
#[verifier::external_body]
pub(crate) fn instant_now() -> (t: Instant) {
    Instant::now()
}

/// `Instant::elapsed`: the time passed since `t`.
#[verifier::external_body]
pub(crate) fn instant_elapsed(t: &Instant) -> (d: Duration) {
    t.elapsed()
}

/// `Instant::duration_since`: the time from `earlier` to `later`, zero when
/// `earlier` is the later one.
#[verifier::external_body]
pub(crate) fn instant_duration_since(later: &Instant, earlier: &Instant) -> (d: Duration) {
    later.duration_since(*earlier)
}

/// `Duration::as_secs`: the whole seconds of `d`.
#[verifier::external_body]
pub(crate) fn duration_as_secs(d: &Duration) -> (s: u64) {
    d.as_secs()
}

/// `Duration::from_secs`: a duration of `secs` seconds.
#[verifier::external_body]
pub(crate) fn duration_from_secs(secs: u64) -> (d: Duration) {
    Duration::from_secs(secs)
}

/// The whole seconds that pass between taking the time and reading how much
/// of it has elapsed: the timestamp the session tables record.
pub fn elapsed_secs_stamp() -> (s: u64) {
    let now = instant_now();
    let elapsed = instant_elapsed(&now);
    duration_as_secs(&elapsed)
}

} // verus!

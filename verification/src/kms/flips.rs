//! Completion of display updates, and waiting for it.

use std::collections::HashSet;
use std::time::{Duration, Instant};
use vstd::prelude::*;

verus! {

/// What the completion of one controller's update means for the whole update.
#[derive(Debug, Clone, Copy, PartialEq, Eq, Structural)]
pub enum FlipProgress {
    /// The controller was not part of the update.
    Unrelated,
    /// Other controllers are still to complete.
    Pending,
    /// That was the last one.
    Complete,
}

/// Note that a controller has completed its part of the update in flight.
pub fn retire_page_flip(pending_flips: &mut HashSet<u32>, crtc: u32) -> (progress: FlipProgress)
    ensures
        final(pending_flips)@ == old(pending_flips)@.remove(crtc),
        progress == if !old(pending_flips)@.contains(crtc) {
            FlipProgress::Unrelated
        } else if old(pending_flips)@.remove(crtc).is_empty() {
            FlipProgress::Complete
        } else {
            FlipProgress::Pending
        },
{
    broadcast use vstd::std_specs::hash::group_hash_axioms;

    let ghost before = pending_flips@;
    if !pending_flips.remove(&crtc) {
        assert(pending_flips@ =~= before.remove(crtc));
        FlipProgress::Unrelated
    } else if pending_flips.is_empty() {
        FlipProgress::Complete
    } else {
        FlipProgress::Pending
    }
}

/// A flip of a controller outside the update changes nothing.
pub proof fn unrelated_flips_change_nothing(pending: Set<u32>, crtc: u32)
    requires
        !pending.contains(crtc),
    ensures
        pending.remove(crtc) == pending,
{
    assert(pending.remove(crtc) =~= pending);
}

/// An update of several controllers is complete only with its last flip.
pub proof fn update_completes_with_its_last_flip(pending: Set<u32>, first: u32, second: u32)
    requires
        pending.contains(first),
        pending.contains(second),
        first != second,
    ensures
        !pending.remove(first).is_empty(),
{
    assert(pending.remove(first).contains(second));
}

/// The nanoseconds from a clock reading to a deadline; none once it has passed.
pub open spec fn time_left(deadline: u128, now: u128) -> int {
    if deadline > now {
        deadline - now
    } else {
        0
    }
}

/// The timeout of a `poll(2)` call: -1 without a deadline, which blocks, and else
/// the whole milliseconds left, as far as the call takes them.
pub open spec fn timeout_at(deadline: Option<u128>, now: u128) -> int {
    match deadline {
        None => -1,
        Some(deadline) => {
            let left = time_left(deadline, now) / 1_000_000;
            if left <= i32::MAX {
                left
            } else {
                i32::MAX as int
            }
        },
    }
}

/// Whether a deadline has been reached. No deadline never is.
pub open spec fn passed_at(deadline: Option<u128>, now: u128) -> bool {
    deadline matches Some(deadline) && now >= deadline
}

/// The milliseconds until `deadline`, as the timeout of a `poll(2)` call, when the
/// clock reads `now`. Both are in nanoseconds.
pub fn poll_ms_remaining_at(deadline: Option<u128>, now: u128) -> (timeout: i32)
    ensures
        timeout == timeout_at(deadline, now),
{
    match deadline {
        None => -1,
        Some(deadline) => {
            if deadline <= now {
                return 0;
            }
            let left: u128 = (deadline - now) / 1_000_000;
            if left <= i32::MAX as u128 {
                left as i32
            } else {
                i32::MAX
            }
        },
    }
}

/// Whether a deadline has been reached when the clock reads `now`. Both are in
/// nanoseconds.
pub fn deadline_passed_at(deadline: Option<u128>, now: u128) -> (passed: bool)
    ensures
        passed == passed_at(deadline, now),
{
    match deadline {
        None => false,
        Some(deadline) => now >= deadline,
    }
}

/// A deadline that has passed stays passed, and leaves nothing to wait for.
pub proof fn passed_deadlines_stay_passed(deadline: u128, now: u128, later: u128)
    requires
        now <= later,
        passed_at(Some(deadline), now),
    ensures
        passed_at(Some(deadline), later),
        timeout_at(Some(deadline), later) == 0,
{
}

/// A deadline bounds all waits together: none lasts beyond it, and one that
/// begins later is no longer than one that began earlier.
pub proof fn waits_end_by_the_deadline(deadline: u128, now: u128, later: u128)
    requires
        now <= later,
    ensures
        !passed_at(Some(deadline), now) ==> now + timeout_at(Some(deadline), now) * 1_000_000
            <= deadline,
        timeout_at(Some(deadline), later) <= timeout_at(Some(deadline), now),
{
}

/// Only the time left counts, whatever the clock reads.
pub proof fn only_the_time_left_counts(deadline: u128, now: u128)
    ensures
        timeout_at(Some(time_left(deadline, now) as u128), 0) == timeout_at(Some(deadline), now),
        passed_at(Some(time_left(deadline, now) as u128), 0) == passed_at(Some(deadline), now),
{
}

/// A moment of the system's monotonic clock (`std::time::Instant`).
#[verifier::external_type_specification]
#[verifier::external_body]
pub struct ExInstant(Instant);

/// What `Instant::saturating_duration_since` gives: how far `deadline` is ahead of
/// `present`, and no time at all where it is not.
pub uninterp spec fn span_until(deadline: Instant, present: Instant) -> Duration;

/// What `Duration::as_nanos` gives: a duration in nanoseconds.
pub uninterp spec fn span_nanos(span: Duration) -> u128;

/// `Instant::now`: the present moment. Nothing is stated of it, because it
/// depends on when it is asked.
#[verifier::external_body]
fn now() -> Instant {
    Instant::now()
}

/// `Instant::saturating_duration_since`: how far `deadline` is ahead of
/// `present`. It depends on the two moments alone.
#[verifier::external_body]
fn time_until(deadline: Instant, present: Instant) -> (span: Duration)
    ensures
        span == span_until(deadline, present),
{
    deadline.saturating_duration_since(present)
}

/// `Duration::as_nanos`: a duration in nanoseconds. It depends on the duration
/// alone.
#[verifier::external_body]
fn nanos_of(span: Duration) -> (nanos: u128)
    ensures
        nanos == span_nanos(span),
{
    span.as_nanos()
}

/// The milliseconds until `deadline`, as the timeout of a `poll(2)` call. No
/// deadline blocks; a deadline that has passed does not wait at all.
///
/// The clock is read once, and the time left at that moment decides.
pub fn poll_ms_remaining(deadline: Option<Instant>) -> (timeout: i32)
    ensures
        deadline is None <==> timeout == -1,
        deadline matches Some(moment) ==> exists|present: Instant|
            timeout == timeout_at(Some(span_nanos(#[trigger] span_until(moment, present))), 0),
{
    match deadline {
        None => poll_ms_remaining_at(None, 0),
        Some(deadline) => poll_ms_remaining_at(Some(nanos_of(time_until(deadline, now()))), 0),
    }
}

/// Whether a deadline has been reached. No deadline never is; another one is once
/// no time is left until it.
///
/// The clock is read once, and the time left at that moment decides.
pub fn deadline_passed(deadline: Option<Instant>) -> (passed: bool)
    ensures
        deadline is None ==> !passed,
        deadline matches Some(moment) ==> exists|present: Instant|
            passed == passed_at(Some(span_nanos(#[trigger] span_until(moment, present))), 0),
{
    match deadline {
        None => deadline_passed_at(None, 0),
        Some(deadline) => deadline_passed_at(Some(nanos_of(time_until(deadline, now()))), 0),
    }
}

/// A wait is as many whole milliseconds as are left: it ends by the deadline, and less than
/// a millisecond before it. It blocks only without a deadline, and returns at once when the
/// deadline has passed.
pub proof fn waits_are_what_is_left(deadline: u128, now: u128, timeout: i32, blocking: i32)
    requires
        call_ensures(poll_ms_remaining_at, (Some(deadline), now), timeout),
        call_ensures(poll_ms_remaining_at, (None, now), blocking),
    ensures
        blocking == -1,
        timeout >= 0,
        deadline <= now ==> timeout == 0,
        deadline > now ==> now + timeout * 1_000_000 <= deadline,
        deadline > now && timeout < i32::MAX ==> deadline < now + (timeout + 1) * 1_000_000,
{
}

/// A deadline has passed from its own moment on; without one none ever has.
pub proof fn deadlines_pass_at_their_moment(
    deadline: Option<u128>,
    now: u128,
    passed: bool,
)
    requires
        call_ensures(deadline_passed_at, (deadline, now), passed),
    ensures
        passed <==> deadline is Some && deadline->0 <= now,
{
}

/// The flip of a controller takes just that controller out of the update, which is complete
/// when none is left.
pub proof fn flips_are_counted_by_controller(
    pending: &mut HashSet<u32>,
    crtc: u32,
    progress: FlipProgress,
    other: u32,
)
    requires
        call_ensures(retire_page_flip, (pending, crtc), progress),
    ensures
        !final(pending)@.contains(crtc),
        other != crtc ==> (final(pending)@.contains(other) <==> old(pending)@.contains(other)),
        progress == FlipProgress::Unrelated <==> !old(pending)@.contains(crtc),
        progress == FlipProgress::Complete ==> !final(pending)@.contains(other),
        old(pending)@.contains(crtc) && other != crtc && old(pending)@.contains(other) ==> progress
            == FlipProgress::Pending,
{
    if pending@.contains(other) && other != crtc {
        assert(pending@.remove(crtc).contains(other));
    }
    if progress == FlipProgress::Complete {
        assert(final(pending)@.is_empty());
    }
}

} // verus!

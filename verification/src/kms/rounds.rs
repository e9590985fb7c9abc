//! One round of waiting for events, and how long to go on.

use vstd::prelude::*;
use crate::kms::backend::DrmBackend;
use crate::kms::error::DrmError;
use crate::kms::session::Readiness;

verus! {

/// What the card needs in a round.
#[derive(Debug, Clone, Copy, PartialEq, Eq, Structural)]
pub enum CardStep {
    /// The card is gone, and the session with it.
    Stop,
    /// The card's events are to be read.
    Read,
    Skip,
}

/// What a finished round leads to.
#[derive(Debug, Clone, Copy, PartialEq, Eq, Structural)]
pub enum RoundEnd {
    /// The session cannot go on.
    Dead,
    /// Another round is needed.
    Again,
    Done,
}

impl DrmBackend {
    /// The poll itself failed. Being interrupted is no failure; anything else
    /// ends the session. Returns whether to go on.
    pub fn poll_failed(&mut self, interrupted: bool) -> (go_on: bool)
        ensures
            go_on == interrupted,
            *final(self) == (DrmBackend { failed: old(self).failed || !interrupted, ..*old(self) }),
    {
        if !interrupted {
            self.failed = true;
        }
        interrupted
    }

    /// Decide what the card needs, once the seat's news have been taken up.
    pub fn card_step(&mut self, ready: Readiness) -> (step: CardStep)
        ensures
            step == if ready.card_lost {
                CardStep::Stop
            } else if old(self).active && ready.card {
                CardStep::Read
            } else {
                CardStep::Skip
            },
            *final(self) == (DrmBackend {
                failed: old(self).failed || ready.card_lost,
                ..*old(self)
            }),
    {
        if ready.card_lost {
            self.failed = true;
            CardStep::Stop
        } else if self.active && ready.card {
            CardStep::Read
        } else {
            CardStep::Skip
        }
    }

    /// Whether input is to be read.
    pub fn reads_input(&self, ready: Readiness) -> (reads: bool)
        ensures
            reads == (self.active && ready.input),
    {
        self.active && ready.input
    }

    /// Decide whether to wait for another round. That is so only while an update
    /// is in flight whose completion is waited for and the time is not up.
    pub fn round_end(&self, require_flip: bool, time_is_up: bool) -> (end: RoundEnd)
        ensures
            end == if self.failed {
                RoundEnd::Dead
            } else if require_flip && !self.pending_flips@.is_empty() && !time_is_up {
                RoundEnd::Again
            } else {
                RoundEnd::Done
            },
    {
        if self.failed {
            return RoundEnd::Dead;
        }
        if require_flip && self.presentation_pending() && !time_is_up {
            RoundEnd::Again
        } else {
            RoundEnd::Done
        }
    }

    /// The outcome of waiting for an update to be shown, given whether the
    /// session is still alive.
    pub fn flip_waited(&self, alive: bool) -> (result: Result<(), DrmError>)
        ensures
            result == if alive && self.pending_flips@.is_empty() {
                Ok::<(), DrmError>(())
            } else {
                Err::<(), DrmError>(DrmError::FlipTimeout)
            },
    {
        if alive && !self.presentation_pending() {
            Ok(())
        } else {
            Err(DrmError::FlipTimeout)
        }
    }
}

/// A round is followed by another only while the session lives, an update that is waited
/// for is in flight, and there is time left.
pub proof fn rounds_end_in_time(
    backend: DrmBackend,
    require_flip: bool,
    time_is_up: bool,
    end: RoundEnd,
    alive: bool,
    result: Result<(), DrmError>,
)
    requires
        call_ensures(DrmBackend::round_end, (&backend, require_flip, time_is_up), end),
        call_ensures(DrmBackend::flip_waited, (&backend, alive), result),
    ensures
        end == RoundEnd::Dead <==> backend.failed,
        end == RoundEnd::Again ==> require_flip && !time_is_up
            && !backend.pending_flips@.is_empty(),
        !backend.failed && require_flip && !time_is_up && !backend.pending_flips@.is_empty() ==> end
            == RoundEnd::Again,
        result is Ok ==> alive && backend.pending_flips@.is_empty(),
        alive && backend.pending_flips@.is_empty() ==> result is Ok,
        result is Err ==> result->Err_0 is FlipTimeout,
{
}

/// A lost card ends the session; events are read only by the session that owns the display.
pub proof fn lost_cards_end_the_session(
    backend: &mut DrmBackend,
    ready: Readiness,
    step: CardStep,
    reader: DrmBackend,
    reads: bool,
    polled: &mut DrmBackend,
    interrupted: bool,
    go_on: bool,
)
    requires
        call_ensures(DrmBackend::card_step, (backend, ready), step),
        call_ensures(DrmBackend::reads_input, (&reader, ready), reads),
        call_ensures(DrmBackend::poll_failed, (polled, interrupted), go_on),
    ensures
        step == CardStep::Stop <==> ready.card_lost,
        ready.card_lost ==> final(backend).failed,
        !ready.card_lost ==> final(backend).failed == old(backend).failed,
        step == CardStep::Read <==> old(backend).active && ready.card && !ready.card_lost,
        reads <==> reader.active && ready.input,
        go_on == interrupted,
        !interrupted ==> final(polled).failed,
        interrupted ==> final(polled).failed == old(polled).failed,
{
}

} // verus!

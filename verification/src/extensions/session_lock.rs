//! The session lock: how normal content is hidden, and when it may show again.

use vstd::prelude::*;
use crate::geometry::{Point, Size};
use crate::seqs::{first_where, lemma_first_where, lemma_none_where};
use crate::text::text_equal;

verus! {

/// How far the session is locked. Once it is locked, only an unlock by the
/// client that holds it ends that; whatever else happens leaves it locked.
#[derive(Debug, Clone, Copy, PartialEq, Eq, Structural)]
pub enum SessionLockPhase {
    Unlocked,
    /// Normal content is hidden, but the outputs may still show it. `since` is
    /// the time of the request.
    Securing { since: u64, frame_requested: bool },
    /// Every output has shown a frame without normal content.
    Locked { frame_requested: bool },
}

impl SessionLockPhase {
    /// Whether normal content is hidden.
    pub open spec fn hides(self) -> bool {
        self != SessionLockPhase::Unlocked
    }

    /// Whether every output has shown a frame without normal content.
    pub open spec fn confirmed(self) -> bool {
        self is Locked
    }

    /// Whether a frame without normal content is to be shown.
    pub open spec fn wants_frame(self) -> bool {
        match self {
            SessionLockPhase::Unlocked => false,
            SessionLockPhase::Securing { since, frame_requested } => frame_requested,
            SessionLockPhase::Locked { frame_requested } => frame_requested,
        }
    }

    /// The phase once such a frame has been asked for.
    pub open spec fn requested(self) -> SessionLockPhase {
        match self {
            SessionLockPhase::Unlocked => self,
            SessionLockPhase::Securing { since, frame_requested } => SessionLockPhase::Securing {
                since,
                frame_requested: true,
            },
            SessionLockPhase::Locked { frame_requested } => SessionLockPhase::Locked {
                frame_requested: true,
            },
        }
    }

    /// Whether normal content is hidden.
    pub fn is_active(&self) -> (active: bool)
        ensures
            active == self.hides(),
    {
        match self {
            SessionLockPhase::Unlocked => false,
            _ => true,
        }
    }

    /// Whether every output has shown a frame without normal content.
    pub fn is_confirmed(&self) -> (confirmed: bool)
        ensures
            confirmed == self.confirmed(),
    {
        match self {
            SessionLockPhase::Locked { frame_requested: _ } => true,
            _ => false,
        }
    }

    /// Whether a frame without normal content is to be shown.
    pub fn frame_pending(&self) -> (pending: bool)
        ensures
            pending == self.wants_frame(),
    {
        match self {
            SessionLockPhase::Unlocked => false,
            SessionLockPhase::Securing { since: _, frame_requested } => *frame_requested,
            SessionLockPhase::Locked { frame_requested } => *frame_requested,
        }
    }

    /// Ask for a frame without normal content.
    pub fn request_secure_frame(&mut self)
        ensures
            *final(self) == old(self).requested(),
    {
        match *self {
            SessionLockPhase::Unlocked => {},
            SessionLockPhase::Securing { since, frame_requested: _ } => {
                *self = SessionLockPhase::Securing { since, frame_requested: true };
            },
            SessionLockPhase::Locked { frame_requested: _ } => {
                *self = SessionLockPhase::Locked { frame_requested: true };
            },
        }
    }

    /// A frame without normal content has been shown on every output. The
    /// answer says whether it is the first one.
    pub fn secure_frame_presented(&mut self) -> (first: bool)
        ensures
            first == (*old(self) is Securing),
            *final(self) == if old(self).hides() {
                SessionLockPhase::Locked { frame_requested: false }
            } else {
                SessionLockPhase::Unlocked
            },
    {
        match *self {
            SessionLockPhase::Unlocked => false,
            SessionLockPhase::Securing { since: _, frame_requested: _ } => {
                *self = SessionLockPhase::Locked { frame_requested: false };
                true
            },
            SessionLockPhase::Locked { frame_requested: _ } => {
                *self = SessionLockPhase::Locked { frame_requested: false };
                false
            },
        }
    }
}

/// A surface of a lock client, which covers one output.
#[derive(Debug)]
pub struct LockSurface {
    pub resource: u64,
    /// The surface, until it is destroyed.
    pub surface: Option<u64>,
    pub mapped: bool,
    pub connector: String,
    /// Sizes that the client was told and has not confirmed, with their
    /// numbers.
    pub pending_configures: Vec<(u32, Size)>,
    /// The size that the client confirmed last.
    pub acked_configure: Option<(u32, Size)>,
}

/// A client's lock.
#[derive(Debug)]
pub struct SessionLock {
    pub resource: u64,
    pub client: u64,
    pub surfaces: Vec<LockSurface>,
    /// Whether the client was told that the session is locked.
    pub locked_sent: bool,
    /// Whether the client was told that it cannot lock the session.
    pub finished_sent: bool,
}

/// The session lock and the keyboard focus that goes with it.
#[derive(Debug)]
pub struct SessionLockState {
    pub phase: SessionLockPhase,
    /// The lock of the client that holds the session.
    pub lock: Option<SessionLock>,
    /// The surface that had the keyboard focus before.
    pub pre_lock_focus: Option<u64>,
    /// The surface that is to get the keyboard focus.
    pub pending_lock_focus: Option<u64>,
    pub lock_focus_dirty: bool,
}

/// What a request to lock the session leads to.
#[derive(Debug, Clone, Copy, PartialEq, Eq, Structural)]
pub enum LockAnswer {
    /// The session is locked by another client.
    Finished,
    /// The session was locked already, without a client; this one takes over.
    TakenOver,
    /// Normal content is hidden; the client is told once the outputs show that.
    Securing,
    /// There is no output that could show anything, so the session is locked.
    LockedAtOnce,
}

impl LockAnswer {
    /// Whether the request begins a lock. Then what the user was doing ends:
    /// moving or resizing a window, holding the pointer, and dragging.
    pub fn begins_lock(self) -> (begins: bool)
        ensures
            begins == (self == LockAnswer::Securing || self == LockAnswer::LockedAtOnce),
    {
        match self {
            LockAnswer::Securing | LockAnswer::LockedAtOnce => true,
            LockAnswer::Finished | LockAnswer::TakenOver => false,
        }
    }
}

/// The lock that a surface was made for.
#[derive(Debug, Clone, Copy)]
pub enum SurfaceLock<'a> {
    /// It is gone.
    Gone,
    /// The one that holds the session.
    Holding,
    /// One that was refused the session.
    Refused(&'a SessionLock),
}

/// Why a lock may not be destroyed.
#[derive(Debug, Clone, Copy, PartialEq, Eq, Structural)]
pub enum LockError {
    /// The session is locked and must be unlocked first.
    StillLocked,
    /// The client was never told that the session is locked.
    NeverLocked,
}

/// Why a surface cannot cover an output.
#[derive(Debug, Clone, Copy, PartialEq, Eq, Structural)]
pub enum LockSurfaceError {
    /// The surface is used for something else.
    RoleTaken,
    /// The surface shows something already.
    AlreadyConstructed,
    UnknownOutput,
    /// The output is covered by another surface of the lock.
    DuplicateOutput,
}

/// Why a commit of a lock surface is refused.
#[derive(Debug, Clone, Copy, PartialEq, Eq, Structural)]
pub enum LockCommitError {
    /// The client has confirmed no size yet.
    BeforeFirstAck,
    /// The surface shows nothing.
    NullBuffer,
    /// The surface does not have the size that the client confirmed.
    DimensionsMismatch,
}

/// An output by its name, its size and its place.
#[derive(Debug)]
pub struct LockOutput {
    pub connector: String,
    pub size: Size,
    pub origin: Point,
}

/// Whether a surface covers an output.
pub open spec fn covers(surface: LockSurface, output: LockOutput) -> bool {
    &&& surface.connector@ == output.connector@
    &&& surface.acked_configure is Some
    &&& surface.surface is Some
    &&& surface.mapped
}

/// Whether any of the surfaces covers an output.
pub open spec fn covered_by(surfaces: Seq<LockSurface>, output: LockOutput) -> bool {
    exists|s: int| 0 <= s < surfaces.len() && covers(#[trigger] surfaces[s], output)
}

/// Whether every output is covered.
pub open spec fn all_covered(surfaces: Seq<LockSurface>, outputs: Seq<LockOutput>) -> bool {
    forall|o: int| 0 <= o < outputs.len() ==> covered_by(surfaces, #[trigger] outputs[o])
}

/// Whether a lock has a surface for an output.
pub open spec fn has_connector(surfaces: Seq<LockSurface>, connector: Seq<char>) -> bool {
    exists|s: int| 0 <= s < surfaces.len() && (#[trigger] surfaces[s]).connector@ == connector
}

/// The first size with the given number.
pub open spec fn first_serial(list: Seq<(u32, Size)>, serial: u32) -> Option<int>
    decreases list.len(),
{
    if list.len() == 0 {
        None
    } else if list[0].0 == serial {
        Some(0)
    } else {
        match first_serial(list.drop_first(), serial) {
            Some(index) => Some(index + 1),
            None => None,
        }
    }
}

/// Where the record of a resource is in a list.
pub open spec fn first_resource(list: Seq<LockSurface>, resource: u64) -> Option<int> {
    first_where(list, |s: LockSurface| s.resource == resource)
}

impl LockSurface {
    /// The surface is gone, though its role is not.
    pub fn surface_gone(&mut self)
        ensures
            *final(self) == (LockSurface { surface: None, ..*old(self) }),
    {
        self.surface = None;
    }

    /// The client confirms a size. Sizes that it was told earlier no longer
    /// count. The answer says whether there is such a size.
    pub fn ack(&mut self, serial: u32) -> (known: bool)
        ensures
            match first_serial(old(self).pending_configures@, serial) {
                Some(index) => {
                    &&& known
                    &&& 0 <= index < old(self).pending_configures@.len()
                    &&& final(self).pending_configures@ == old(self).pending_configures@.skip(
                        index + 1,
                    )
                    &&& final(self).acked_configure == Some(
                        (serial, old(self).pending_configures@[index].1),
                    )
                    &&& *final(self) == (LockSurface {
                        pending_configures: final(self).pending_configures,
                        acked_configure: final(self).acked_configure,
                        ..*old(self)
                    })
                },
                None => !known && *final(self) == *old(self),
            },
    {
        let mut index: usize = 0;
        let ghost list = self.pending_configures@;
        assert(list.skip(0) =~= list);
        while index < self.pending_configures.len()
            invariant
                index <= self.pending_configures.len(),
                *self == *old(self),
                list == self.pending_configures@,
                first_serial(list, serial) == match first_serial(list.skip(index as int), serial) {
                    Some(i) => Some(i + index),
                    None => None,
                },
            decreases self.pending_configures.len() - index,
        {
            assert(list.skip(index as int).drop_first() =~= list.skip(index as int + 1));
            if self.pending_configures[index].0 == serial {
                let size = self.pending_configures[index].1;
                let mut rest: Vec<(u32, Size)> = Vec::new();
                let mut next: usize = index + 1;
                assert(rest@ =~= list.subrange(index as int + 1, index as int + 1));
                while next < self.pending_configures.len()
                    invariant
                        index < next <= self.pending_configures.len(),
                        list == self.pending_configures@,
                        rest@ == list.subrange(index as int + 1, next as int),
                    decreases self.pending_configures.len() - next,
                {
                    rest.push(self.pending_configures[next]);
                    assert(rest@ =~= list.subrange(index as int + 1, next as int + 1));
                    next += 1;
                }
                assert(rest@ =~= list.skip(index as int + 1));
                self.pending_configures = rest;
                self.acked_configure = Some((serial, size));
                return true;
            }
            index += 1;
        }
        false
    }

    /// The client is told a size.
    pub fn configure(&mut self, serial: u32, size: Size)
        ensures
            final(self).pending_configures@ == old(self).pending_configures@.push((serial, size)),
            *final(self) == (LockSurface {
                pending_configures: final(self).pending_configures,
                ..*old(self)
            }),
    {
        self.pending_configures.push((serial, size));
    }

    /// Whether the client knows a size, or has confirmed it.
    pub open spec fn knows_size(self, size: Size) -> bool {
        ||| self.pending_configures@.len() > 0 && self.pending_configures@.last().1 == size
        ||| self.acked_configure matches Some((_, acked)) && acked == size
    }

    fn configured_for(&self, size: Size) -> (known: bool)
        ensures
            known == self.knows_size(size),
    {
        let count: usize = self.pending_configures.len();
        if count > 0 && self.pending_configures[count - 1].1 == size {
            return true;
        }
        match self.acked_configure {
            Some((_, acked)) => acked == size,
            None => false,
        }
    }

    /// Check a commit: the client must have confirmed a size, and the surface
    /// must show something of that size.
    pub fn check_commit(&self, mapped: bool, size: Size) -> (result: Result<(), LockCommitError>)
        ensures
            result == match self.acked_configure {
                None => Err::<(), LockCommitError>(LockCommitError::BeforeFirstAck),
                Some((_, configured)) => if !mapped {
                    Err::<(), LockCommitError>(LockCommitError::NullBuffer)
                } else if size != configured {
                    Err::<(), LockCommitError>(LockCommitError::DimensionsMismatch)
                } else {
                    Ok::<(), LockCommitError>(())
                },
            },
    {
        match self.acked_configure {
            None => Err(LockCommitError::BeforeFirstAck),
            Some((_, configured)) => {
                if !mapped {
                    return Err(LockCommitError::NullBuffer);
                }
                if size != configured {
                    return Err(LockCommitError::DimensionsMismatch);
                }
                Ok(())
            },
        }
    }
}

impl SessionLock {
    /// A client wants a surface to cover an output. It is told the output's
    /// size.
    pub fn add_surface(
        &mut self,
        resource: u64,
        surface: u64,
        has_role: bool,
        constructed: bool,
        output: Option<&LockOutput>,
        serial: u32,
    ) -> (result: Result<Size, LockSurfaceError>)
        ensures
            result == if has_role {
                Err::<Size, LockSurfaceError>(LockSurfaceError::RoleTaken)
            } else if constructed {
                Err::<Size, LockSurfaceError>(LockSurfaceError::AlreadyConstructed)
            } else {
                match output {
                    None => Err::<Size, LockSurfaceError>(LockSurfaceError::UnknownOutput),
                    Some(output) => if has_connector(
                        old(self).surfaces@,
                        output.connector@,
                    ) {
                        Err::<Size, LockSurfaceError>(LockSurfaceError::DuplicateOutput)
                    } else {
                        Ok::<Size, LockSurfaceError>(output.size)
                    },
                }
            },
            result is Err ==> *final(self) == *old(self),
            result is Ok ==> {
                let made = final(self).surfaces@.last();
                &&& *final(self) == (SessionLock { surfaces: final(self).surfaces, ..*old(self) })
                &&& final(self).surfaces@ == old(self).surfaces@.push(made)
                &&& made.resource == resource
                &&& made.surface == Some(surface)
                &&& !made.mapped
                &&& made.connector@ == output->0.connector@
                &&& made.pending_configures@ == seq![(serial, output->0.size)]
                &&& made.acked_configure is None
            },
    {
        if has_role {
            return Err(LockSurfaceError::RoleTaken);
        }
        if constructed {
            return Err(LockSurfaceError::AlreadyConstructed);
        }
        match output {
            None => Err(LockSurfaceError::UnknownOutput),
            Some(output) => {
                if self.has_surface_for(output.connector.as_str()) {
                    return Err(LockSurfaceError::DuplicateOutput);
                }
                let mut pending_configures: Vec<(u32, Size)> = Vec::new();
                pending_configures.push((serial, output.size));
                let made = LockSurface {
                    resource,
                    surface: Some(surface),
                    mapped: false,
                    connector: output.connector.clone(),
                    pending_configures,
                    acked_configure: None,
                };
                self.surfaces.push(made);
                Ok(output.size)
            },
        }
    }

    /// A role was given up. Its output is covered no longer.
    pub fn remove_surface(&mut self, resource: u64)
        ensures
            *final(self) == (SessionLock { surfaces: final(self).surfaces, ..*old(self) }),
            final(self).surfaces@ == match first_resource(old(self).surfaces@, resource) {
                Some(i) => old(self).surfaces@.remove(i),
                None => old(self).surfaces@,
            },
    {
        let mut index: usize = 0;
        while index < self.surfaces.len()
            invariant
                index <= self.surfaces.len(),
                *self == *old(self),
                forall|i: int|
                    0 <= i < index ==> (#[trigger] self.surfaces@[i]).resource != resource,
            decreases self.surfaces.len() - index,
        {
            if self.surfaces[index].resource == resource {
                proof {
                    lemma_first_where(
                        self.surfaces@,
                        |s: LockSurface| s.resource == resource,
                        index as int,
                    );
                }
                self.surfaces.remove(index);
                return;
            }
            index += 1;
        }
        proof {
            lemma_none_where(self.surfaces@, |s: LockSurface| s.resource == resource);
        }
    }

    fn has_surface_for(&self, connector: &str) -> (found: bool)
        ensures
            found == has_connector(self.surfaces@, connector@),
    {
        let mut index: usize = 0;
        while index < self.surfaces.len()
            invariant
                index <= self.surfaces.len(),
                forall|i: int|
                    0 <= i < index ==> (#[trigger] self.surfaces@[i]).connector@ != connector@,
            decreases self.surfaces.len() - index,
        {
            if text_equal(self.surfaces[index].connector.as_str(), connector) {
                assert(self.surfaces@[index as int].connector@ == connector@);
                return true;
            }
            index += 1;
        }
        false
    }

    fn covers_all(&self, outputs: &[LockOutput]) -> (covered: bool)
        ensures
            covered == all_covered(self.surfaces@, outputs@),
    {
        let mut place: usize = 0;
        while place < outputs.len()
            invariant
                place <= outputs.len(),
                forall|o: int|
                    0 <= o < place ==> covered_by(self.surfaces@, #[trigger] outputs@[o]),
            decreases outputs.len() - place,
        {
            let mut found = false;
            let mut index: usize = 0;
            while index < self.surfaces.len() && !found
                invariant
                    index <= self.surfaces.len(),
                    place < outputs.len(),
                    found ==> covered_by(self.surfaces@, outputs@[place as int]),
                    !found ==> forall|s: int|
                        0 <= s < index ==> !covers(
                            #[trigger] self.surfaces@[s],
                            outputs@[place as int],
                        ),
                decreases self.surfaces.len() - index,
            {
                let surface = &self.surfaces[index];
                if text_equal(surface.connector.as_str(), outputs[place].connector.as_str())
                    && surface.acked_configure.is_some() && surface.surface.is_some()
                    && surface.mapped {
                    assert(covers(self.surfaces@[index as int], outputs@[place as int]));
                    found = true;
                }
                index += 1;
            }
            if !found {
                assert(!covered_by(self.surfaces@, outputs@[place as int]));
                return false;
            }
            place += 1;
        }
        true
    }
}

impl SessionLockState {
    /// A session that is not locked.
    pub fn new() -> (state: SessionLockState)
        ensures
            state.phase == SessionLockPhase::Unlocked,
            state.lock is None,
            state.pre_lock_focus is None && state.pending_lock_focus is None,
            !state.lock_focus_dirty,
            state.wf(),
    {
        SessionLockState {
            phase: SessionLockPhase::Unlocked,
            lock: None,
            pre_lock_focus: None,
            pending_lock_focus: None,
            lock_focus_dirty: false,
        }
    }

    /// A lock is held only while normal content is hidden, and its client has
    /// been told so only if the outputs show that.
    pub open spec fn wf(self) -> bool {
        self.lock matches Some(lock) ==> {
            &&& self.phase.hides()
            &&& !lock.finished_sent
            &&& (lock.locked_sent <==> self.phase.confirmed())
        }
    }

    /// What a request to lock the session leads to.
    pub open spec fn lock_answer(self, has_outputs: bool) -> LockAnswer {
        if self.lock is Some {
            LockAnswer::Finished
        } else if self.phase.confirmed() {
            LockAnswer::TakenOver
        } else if self.phase.hides() {
            LockAnswer::Finished
        } else if has_outputs {
            LockAnswer::Securing
        } else {
            LockAnswer::LockedAtOnce
        }
    }

    /// A client asks to lock the session.
    pub fn request_lock(
        &mut self,
        resource: u64,
        client: u64,
        keyboard_focus: Option<u64>,
        has_outputs: bool,
        now: u64,
    ) -> (answer: LockAnswer)
        requires
            old(self).wf(),
        ensures
            final(self).wf(),
            old(self).phase.confirmed() ==> final(self).phase.confirmed(),
            answer == old(self).lock_answer(has_outputs),
            answer == LockAnswer::Finished ==> *final(self) == *old(self),
            answer != LockAnswer::Finished ==> {
                &&& final(self).lock matches Some(lock)
                &&& lock.resource == resource && lock.client == client
                &&& lock.surfaces@.len() == 0
                &&& lock.locked_sent == (answer != LockAnswer::Securing)
                &&& !lock.finished_sent
            },
            answer == LockAnswer::TakenOver ==> *final(self) == (SessionLockState {
                lock: final(self).lock,
                ..*old(self)
            }),
            answer == LockAnswer::Securing || answer == LockAnswer::LockedAtOnce ==> *final(self)
                == (SessionLockState {
                phase: if has_outputs {
                    SessionLockPhase::Securing { since: now, frame_requested: false }
                } else {
                    SessionLockPhase::Locked { frame_requested: false }
                },
                lock: final(self).lock,
                pre_lock_focus: keyboard_focus,
                pending_lock_focus: None,
                lock_focus_dirty: true,
            }),
    {
        if self.lock.is_some() {
            return LockAnswer::Finished;
        }
        if self.phase.is_confirmed() {
            self.lock = Some(
                SessionLock {
                    resource,
                    client,
                    surfaces: Vec::new(),
                    locked_sent: true,
                    finished_sent: false,
                },
            );
            return LockAnswer::TakenOver;
        }
        if self.phase.is_active() {
            return LockAnswer::Finished;
        }
        self.lock = Some(
            SessionLock {
                resource,
                client,
                surfaces: Vec::new(),
                locked_sent: false,
                finished_sent: false,
            },
        );
        self.phase = SessionLockPhase::Securing { since: now, frame_requested: false };
        self.pre_lock_focus = keyboard_focus;
        self.pending_lock_focus = None;
        self.lock_focus_dirty = true;
        if !has_outputs {
            self.phase.request_secure_frame();
            let _ = self.presented();
            return LockAnswer::LockedAtOnce;
        }
        LockAnswer::Securing
    }

    /// The lock with the client told that the session is locked.
    pub open spec fn told(lock: SessionLock) -> SessionLock {
        SessionLock { locked_sent: true, ..lock }
    }

    /// A frame without normal content has been shown on every output. The
    /// answer is the lock whose client is to be told that the session is locked.
    pub fn presented(&mut self) -> (told: Option<u64>)
        requires
            old(self).wf(),
        ensures
            final(self).wf(),
            old(self).phase.confirmed() ==> final(self).phase.confirmed(),
            !old(self).phase.wants_frame() ==> told is None && *final(self) == *old(self),
            old(self).phase.wants_frame() ==> {
                &&& told == match old(self).lock {
                    Some(lock) if old(self).phase is Securing => Some(lock.resource),
                    _ => None,
                }
                &&& *final(self) == (SessionLockState {
                    phase: SessionLockPhase::Locked { frame_requested: false },
                    lock: match old(self).lock {
                        Some(lock) => Some(SessionLockState::told(lock)),
                        None => None,
                    },
                    ..*old(self)
                })
            },
    {
        if !self.phase.frame_pending() {
            return None;
        }
        let first = self.phase.secure_frame_presented();
        if !first {
            return None;
        }
        match &mut self.lock {
            None => None,
            Some(lock) => {
                if lock.locked_sent || lock.finished_sent {
                    return None;
                }
                lock.locked_sent = true;
                Some(lock.resource)
            },
        }
    }

    /// The state with the session unlocked and the keyboard focus given back.
    pub open spec fn unlocked(self) -> SessionLockState {
        SessionLockState {
            phase: SessionLockPhase::Unlocked,
            lock: None,
            pre_lock_focus: None,
            pending_lock_focus: self.pre_lock_focus,
            lock_focus_dirty: true,
        }
    }

    /// Whether a lock holds the session and its client was told so.
    pub open spec fn locked_by(self, resource: u64) -> bool {
        &&& self.lock matches Some(lock)
        &&& lock.resource == resource
        &&& lock.locked_sent
    }

    /// A client wants to destroy its lock without unlocking. A lock that holds
    /// the session may not be destroyed.
    pub fn check_destroy(&self, resource: u64) -> (result: Result<(), LockError>)
        ensures
            result == if self.locked_by(resource) {
                Err::<(), LockError>(LockError::StillLocked)
            } else {
                Ok::<(), LockError>(())
            },
    {
        match &self.lock {
            Some(lock) => if lock.resource == resource && lock.locked_sent {
                Err(LockError::StillLocked)
            } else {
                Ok(())
            },
            None => Ok(()),
        }
    }

    /// A client unlocks the session. Only the client that holds the locked
    /// session can. The answer holds the surfaces that are shown no more.
    pub fn unlock(&mut self, resource: u64) -> (result: Result<Vec<u64>, LockError>)
        requires
            old(self).wf(),
        ensures
            final(self).wf(),
            result is Ok <==> old(self).locked_by(resource),
            result is Err ==> result == Err::<Vec<u64>, LockError>(LockError::NeverLocked)
                && *final(self) == *old(self),
            result matches Ok(surfaces) ==> *final(self) == old(self).unlocked() && surfaces@
                == lock_surfaces(old(self).lock->0.surfaces@),
    {
        let owner = match &self.lock {
            Some(lock) => lock.resource == resource && lock.locked_sent,
            None => false,
        };
        if !owner {
            return Err(LockError::NeverLocked);
        }
        let mut surfaces: Vec<u64> = Vec::new();
        if let Some(lock) = &self.lock {
            let mut index: usize = 0;
            assert(lock.surfaces@.take(0) =~= Seq::<LockSurface>::empty());
            while index < lock.surfaces.len()
                invariant
                    index <= lock.surfaces.len(),
                    surfaces@ == lock_surfaces(lock.surfaces@.take(index as int)),
                decreases lock.surfaces.len() - index,
            {
                assert(lock.surfaces@.take(index as int + 1).drop_last() =~= lock.surfaces@.take(
                    index as int,
                ));
                if let Some(surface) = lock.surfaces[index].surface {
                    surfaces.push(surface);
                }
                index += 1;
            }
            assert(lock.surfaces@.take(lock.surfaces.len() as int) =~= lock.surfaces@);
        }
        self.lock = None;
        self.restore_unlocked();
        Ok(surfaces)
    }

    fn restore_unlocked(&mut self)
        requires
            old(self).lock is None,
        ensures
            *final(self) == old(self).unlocked(),
    {
        self.phase = SessionLockPhase::Unlocked;
        self.pending_lock_focus = self.pre_lock_focus;
        self.pre_lock_focus = None;
        self.lock_focus_dirty = true;
    }

    /// A lock is gone, because its client is. A session that was not locked yet
    /// is unlocked; a locked one stays locked, for another client to take over.
    pub fn lock_destroyed(&mut self, resource: u64)
        requires
            old(self).wf(),
        ensures
            final(self).wf(),
            old(self).phase.confirmed() ==> final(self).phase.confirmed(),
            *final(self) == match old(self).lock {
                Some(lock) if lock.resource == resource => if lock.locked_sent {
                    SessionLockState {
                        phase: old(self).phase.requested(),
                        lock: None,
                        pending_lock_focus: None,
                        lock_focus_dirty: true,
                        ..*old(self)
                    }
                } else {
                    old(self).unlocked()
                },
                _ => *old(self),
            },
    {
        let (owner, told) = match &self.lock {
            Some(lock) => (lock.resource == resource, lock.locked_sent),
            None => (false, false),
        };
        if !owner {
            return;
        }
        self.lock = None;
        if told {
            self.phase.request_secure_frame();
            self.pending_lock_focus = None;
            self.lock_focus_dirty = true;
        } else {
            self.restore_unlocked();
        }
    }

    /// A lock surface, or the surface under it, was destroyed. The output that
    /// it covered shows the compositor's own frame, which is to be confirmed.
    pub fn surface_lost(&mut self)
        requires
            old(self).wf(),
        ensures
            final(self).wf(),
            old(self).phase.confirmed() ==> final(self).phase.confirmed(),
            *final(self) == (SessionLockState { phase: old(self).phase.requested(), ..*old(self) }),
    {
        if self.phase.is_active() {
            self.phase.request_secure_frame();
        }
    }

    /// Whether the surfaces of a lock cover every output.
    pub open spec fn covered(self, own: SurfaceLock<'_>, outputs: Seq<LockOutput>) -> bool {
        match own {
            SurfaceLock::Gone => false,
            SurfaceLock::Holding => self.lock matches Some(lock) && all_covered(
                lock.surfaces@,
                outputs,
            ),
            SurfaceLock::Refused(lock) => all_covered(lock.surfaces@, outputs),
        }
    }

    /// A lock surface was committed and is sound. Once the surfaces of its own
    /// lock cover every output, a frame is asked for and the surface gets the
    /// keyboard focus. The answer says whether that is so.
    pub fn surface_committed(
        &mut self,
        own: SurfaceLock<'_>,
        surface: u64,
        outputs: &[LockOutput],
    ) -> (covered: bool)
        requires
            old(self).wf(),
        ensures
            final(self).wf(),
            old(self).phase.confirmed() ==> final(self).phase.confirmed(),
            covered == old(self).covered(own, outputs@),
            *final(self) == if covered {
                SessionLockState {
                    phase: old(self).phase.requested(),
                    pending_lock_focus: Some(surface),
                    lock_focus_dirty: true,
                    ..*old(self)
                }
            } else {
                *old(self)
            },
    {
        let covered = match own {
            SurfaceLock::Gone => false,
            SurfaceLock::Holding => match &self.lock {
                Some(lock) => lock.covers_all(outputs),
                None => false,
            },
            SurfaceLock::Refused(lock) => lock.covers_all(outputs),
        };
        if covered {
            self.phase.request_secure_frame();
            self.pending_lock_focus = Some(surface);
            self.lock_focus_dirty = true;
        }
        covered
    }

    /// Whether a surface of the given lock is shown on an output.
    pub fn shows_lock_surface(
        &self,
        lock_resource: u64,
        connector: &str,
        outputs: &[LockOutput],
    ) -> (shown: bool)
        ensures
            shown == (self.phase.hides() && (self.lock matches Some(lock) && lock.resource
                == lock_resource) && exists|o: int|
                0 <= o < outputs.len() && (#[trigger] outputs@[o]).connector@ == connector@),
    {
        if !self.phase.is_active() {
            return false;
        }
        match &self.lock {
            None => false,
            Some(lock) => {
                if lock.resource != lock_resource {
                    return false;
                }
                let mut index: usize = 0;
                while index < outputs.len()
                    invariant
                        index <= outputs.len(),
                        self.phase.hides(),
                        self.lock matches Some(held) && held.resource == lock_resource,
                        forall|o: int|
                            0 <= o < index ==> (#[trigger] outputs@[o]).connector@ != connector@,
                    decreases outputs.len() - index,
                {
                    if text_equal(outputs[index].connector.as_str(), connector) {
                        assert(outputs@[index as int].connector@ == connector@);
                        return true;
                    }
                    index += 1;
                }
                false
            },
        }
    }

    /// Whether an object belongs to the client that holds the session.
    pub fn is_lock_client(&self, client: u64) -> (own: bool)
        ensures
            own == (self.lock matches Some(lock) && lock.client == client),
    {
        match &self.lock {
            Some(lock) => lock.client == client,
            None => false,
        }
    }

    /// The outputs changed. A frame is asked for; without outputs the session
    /// counts as locked. The answer is the lock whose client is to be told that.
    pub fn outputs_changed(&mut self, has_outputs: bool) -> (told: Option<u64>)
        requires
            old(self).wf(),
        ensures
            final(self).wf(),
            old(self).phase.confirmed() ==> final(self).phase.confirmed(),
            !old(self).phase.hides() ==> told is None && *final(self) == *old(self),
            old(self).phase.hides() && has_outputs ==> told is None && *final(self) == (
            SessionLockState { phase: old(self).phase.requested(), ..*old(self) }),
            old(self).phase.hides() && !has_outputs ==> {
                &&& told == match old(self).lock {
                    Some(lock) if old(self).phase is Securing => Some(lock.resource),
                    _ => None,
                }
                &&& *final(self) == (SessionLockState {
                    phase: SessionLockPhase::Locked { frame_requested: false },
                    lock: match old(self).lock {
                        Some(lock) => Some(SessionLockState::told(lock)),
                        None => None,
                    },
                    ..*old(self)
                })
            },
    {
        if !self.phase.is_active() {
            return None;
        }
        self.phase.request_secure_frame();
        if has_outputs {
            None
        } else {
            self.presented()
        }
    }
}

/// The surfaces of a lock, in order.
pub open spec fn lock_surfaces(list: Seq<LockSurface>) -> Seq<u64>
    decreases list.len(),
{
    if list.len() == 0 {
        Seq::empty()
    } else {
        let earlier = lock_surfaces(list.drop_last());
        match list.last().surface {
            Some(surface) => earlier.push(surface),
            None => earlier,
        }
    }
}

/// The place and size that a lock surface gets when the outputs changed: those of
/// its output. The size is told only where the client does not know it.
pub fn reconfigure(surface: &LockSurface, outputs: &[LockOutput]) -> (answer: Option<
    (Point, Option<Size>),
>)
    ensures
        surface.surface is None ==> answer is None,
        surface.surface is Some ==> match first_output(outputs@, surface.connector@) {
            None => answer is None,
            Some(index) => answer == Some(
                (
                    outputs@[index].origin,
                    if surface.knows_size(outputs@[index].size) {
                        None
                    } else {
                        Some(outputs@[index].size)
                    },
                ),
            ),
        },
{
    if surface.surface.is_none() {
        return None;
    }
    match output_named(surface.connector.as_str(), outputs) {
        None => None,
        Some(index) => {
            let size = outputs[index].size;
            let told = if surface.configured_for(size) {
                None
            } else {
                Some(size)
            };
            Some((outputs[index].origin, told))
        },
    }
}

/// Find the output with the given name.
pub fn output_named(connector: &str, outputs: &[LockOutput]) -> (found: Option<usize>)
    ensures
        match found {
            Some(index) => index < outputs.len() && first_output(outputs@, connector@) == Some(
                index as int,
            ),
            None => first_output(outputs@, connector@) is None,
        },
{
    let mut index: usize = 0;
    assert(outputs@.skip(0) =~= outputs@);
    while index < outputs.len()
        invariant
            index <= outputs.len(),
            first_output(outputs@, connector@) == match first_output(
                outputs@.skip(index as int),
                connector@,
            ) {
                Some(i) => Some(i + index),
                None => None,
            },
        decreases outputs.len() - index,
    {
        assert(outputs@.skip(index as int).drop_first() =~= outputs@.skip(index as int + 1));
        if text_equal(outputs[index].connector.as_str(), connector) {
            return Some(index);
        }
        index += 1;
    }
    None
}

/// The first output with the given name.
pub open spec fn first_output(outputs: Seq<LockOutput>, connector: Seq<char>) -> Option<int>
    decreases outputs.len(),
{
    if outputs.len() == 0 {
        None
    } else if outputs[0].connector@ == connector {
        Some(0)
    } else {
        match first_output(outputs.drop_first(), connector) {
            Some(index) => Some(index + 1),
            None => None,
        }
    }
}

/// The lock that a surface was made for, if it is still there.
pub open spec fn lock_behind(state: SessionLockState, own: SurfaceLock<'_>) -> Option<SessionLock> {
    match own {
        SurfaceLock::Gone => None,
        SurfaceLock::Holding => state.lock,
        SurfaceLock::Refused(lock) => Some(*lock),
    }
}

/// A commit asks for a frame and the keyboard only once every output has a surface
/// of the lock that names it, shows something, is alive and has a confirmed size.
pub proof fn outputs_are_covered_one_by_one(
    state: &mut SessionLockState,
    own: SurfaceLock<'_>,
    surface: u64,
    outputs: &[LockOutput],
    output: int,
)
    requires
        call_ensures(SessionLockState::surface_committed, (state, own, surface, outputs), true),
        0 <= output < outputs@.len(),
    ensures
        lock_behind(*old(state), own) is Some,
        exists|s: int|
            #![trigger lock_behind(*old(state), own)->0.surfaces@[s]]
            0 <= s < lock_behind(*old(state), own)->0.surfaces@.len() && {
                let cover = lock_behind(*old(state), own)->0.surfaces@[s];
                &&& cover.connector@ == outputs@[output].connector@
                &&& cover.mapped
                &&& cover.surface is Some
                &&& cover.acked_configure is Some
            },
        final(state).pending_lock_focus == Some(surface),
        final(state).lock_focus_dirty,
        old(state).phase.hides() ==> final(state).phase.wants_frame(),
        final(state).lock == old(state).lock,
        final(state).pre_lock_focus == old(state).pre_lock_focus,
        final(state).phase.hides() == old(state).phase.hides(),
        final(state).phase.confirmed() == old(state).phase.confirmed(),
{
    assert(state.covered(own, outputs@));
    let surfaces = lock_behind(*state, own)->0.surfaces@;
    assert(covered_by(surfaces, outputs@[output]));
    let s = choose|s: int| 0 <= s < surfaces.len()
        && covers(#[trigger] surfaces[s], outputs@[output]);
    assert(lock_behind(*state, own)->0.surfaces@[s] == surfaces[s]);
}

/// With an output that no surface of the lock names, or none that shows something
/// of a confirmed size, a commit changes nothing.
pub proof fn uncovered_outputs_hold_the_lock_back(
    state: &mut SessionLockState,
    own: SurfaceLock<'_>,
    surface: u64,
    outputs: &[LockOutput],
    covered: bool,
    output: int,
)
    requires
        call_ensures(SessionLockState::surface_committed, (state, own, surface, outputs), covered),
        0 <= output < outputs@.len(),
        lock_behind(*state, own) matches Some(lock) ==> forall|s: int|
            #![trigger lock.surfaces@[s]]
            0 <= s < lock.surfaces@.len() ==> {
                ||| lock.surfaces@[s].connector@ != outputs@[output].connector@
                ||| !lock.surfaces@[s].mapped
                ||| lock.surfaces@[s].surface is None
                ||| lock.surfaces@[s].acked_configure is None
            },
    ensures
        !covered,
        *final(state) == *old(state),
{
    if covered {
        assert(state.covered(own, outputs@));
        let surfaces = lock_behind(*state, own)->0.surfaces@;
        assert(covered_by(surfaces, outputs@[output]));
        let s = choose|s: int|
            0 <= s < surfaces.len() && covers(#[trigger] surfaces[s], outputs@[output]);
        assert(lock_behind(*state, own)->0.surfaces@[s] == surfaces[s]);
    }
}

/// Where every output has such a surface, the commit asks for the frame.
pub proof fn covered_outputs_are_enough(
    state: &mut SessionLockState,
    own: SurfaceLock<'_>,
    surface: u64,
    outputs: &[LockOutput],
    covered: bool,
    places: Seq<int>,
)
    requires
        call_ensures(SessionLockState::surface_committed, (state, own, surface, outputs), covered),
        lock_behind(*state, own) is Some,
        places.len() == outputs@.len(),
        forall|o: int|
            #![trigger places[o]]
            0 <= o < outputs@.len() ==> 0 <= places[o] < lock_behind(
                *state,
                own,
            )->0.surfaces@.len() && {
                let cover = lock_behind(*state, own)->0.surfaces@[places[o]];
                &&& cover.connector@ == outputs@[o].connector@
                &&& cover.mapped
                &&& cover.surface is Some
                &&& cover.acked_configure is Some
            },
    ensures
        covered,
{
    let surfaces = lock_behind(*state, own)->0.surfaces@;
    assert forall|o: int| 0 <= o < outputs@.len() implies covered_by(
        surfaces,
        #[trigger] outputs@[o],
    ) by {
        assert(covers(surfaces[places[o]], outputs@[o]));
    }
    assert(all_covered(surfaces, outputs@));
}

/// A session that no client has locked is locked by the first that asks. Normal
/// content is hidden from then on, and what had the keyboard focus is remembered.
/// The client is told only once the outputs show that, at once without outputs.
pub proof fn first_request_locks_the_session(
    state: &mut SessionLockState,
    resource: u64,
    client: u64,
    keyboard_focus: Option<u64>,
    has_outputs: bool,
    now: u64,
    answer: LockAnswer,
)
    requires
        state.wf(),
        state.phase == SessionLockPhase::Unlocked,
        call_ensures(
            SessionLockState::request_lock,
            (state, resource, client, keyboard_focus, has_outputs, now),
            answer,
        ),
    ensures
        answer == LockAnswer::Securing || answer == LockAnswer::LockedAtOnce,
        answer == LockAnswer::LockedAtOnce <==> !has_outputs,
        final(state).phase.hides(),
        final(state).phase.confirmed() <==> !has_outputs,
        final(state).pre_lock_focus == keyboard_focus,
        final(state).pending_lock_focus is None && final(state).lock_focus_dirty,
        final(state).lock is Some,
        final(state).lock->0.resource == resource,
        final(state).lock->0.client == client,
        final(state).lock->0.locked_sent <==> !has_outputs,
        has_outputs ==> final(state).phase == (SessionLockPhase::Securing {
            since: now,
            frame_requested: false,
        }),
{
}

/// While a client holds the session, or one is being locked, others are turned
/// away; a locked session whose client is gone is taken over.
pub proof fn one_client_locks_at_a_time(
    state: &mut SessionLockState,
    resource: u64,
    client: u64,
    keyboard_focus: Option<u64>,
    has_outputs: bool,
    now: u64,
    answer: LockAnswer,
)
    requires
        state.wf(),
        state.phase != SessionLockPhase::Unlocked,
        call_ensures(
            SessionLockState::request_lock,
            (state, resource, client, keyboard_focus, has_outputs, now),
            answer,
        ),
    ensures
        answer == LockAnswer::Finished || answer == LockAnswer::TakenOver,
        answer == LockAnswer::Finished <==> old(state).lock is Some || old(state).phase is Securing,
        answer == LockAnswer::Finished ==> *final(state) == *old(state),
        answer == LockAnswer::TakenOver ==> {
            &&& final(state).lock is Some
            &&& final(state).lock->0.client == client
            &&& final(state).lock->0.resource == resource
            &&& final(state).lock->0.locked_sent
            &&& final(state).phase == old(state).phase
            &&& final(state).pre_lock_focus == old(state).pre_lock_focus
        },
{
}

/// The client is told that the session is locked once, when the first frame without
/// normal content has been shown on every output, and not before.
pub proof fn clients_are_told_when_the_frame_is_shown(
    state: &mut SessionLockState,
    told: Option<u64>,
)
    requires
        state.wf(),
        call_ensures(SessionLockState::presented, (state,), told),
    ensures
        told is Some <==> (old(state).phase is Securing
            && old(state).phase->Securing_frame_requested
            && old(state).lock is Some),
        told matches Some(resource) ==> old(state).lock->0.resource == resource
            && final(state).lock->0.locked_sent && final(state).phase is Locked,
        old(state).phase.hides() == final(state).phase.hides(),
        old(state).phase is Securing && !old(state).phase->Securing_frame_requested
            ==> *final(state)
            == *old(state),
        old(state).phase.wants_frame() ==> final(state).phase is Locked
            && !final(state).phase.wants_frame(),
        final(state).pre_lock_focus == old(state).pre_lock_focus,
        final(state).pending_lock_focus == old(state).pending_lock_focus,
{
}

/// Only the client that holds the session, and was told that it is locked, can
/// unlock it. Then what had the keyboard focus before gets it back.
pub proof fn only_the_holder_unlocks(
    state: &mut SessionLockState,
    resource: u64,
    result: Result<Vec<u64>, LockError>,
)
    requires
        state.wf(),
        call_ensures(SessionLockState::unlock, (state, resource), result),
    ensures
        result is Ok <==> old(state).lock is Some && old(state).lock->0.resource == resource
            && old(state).lock->0.locked_sent,
        result is Err ==> *final(state) == *old(state),
        result is Ok ==> {
            &&& old(state).phase is Locked
            &&& final(state).phase == SessionLockPhase::Unlocked
            &&& final(state).lock is None
            &&& final(state).pending_lock_focus == old(state).pre_lock_focus
            &&& final(state).lock_focus_dirty
            &&& final(state).pre_lock_focus is None
        },
{
}

/// A lock and its unlock give the keyboard focus back to what had it.
pub proof fn unlocking_gives_the_focus_back(
    before: &mut SessionLockState,
    resource: u64,
    client: u64,
    keyboard_focus: Option<u64>,
    now: u64,
    answer: LockAnswer,
    locked: &mut SessionLockState,
    result: Result<Vec<u64>, LockError>,
)
    requires
        before.wf(),
        before.phase == SessionLockPhase::Unlocked,
        call_ensures(
            SessionLockState::request_lock,
            (before, resource, client, keyboard_focus, false, now),
            answer,
        ),
        *locked == *final(before),
        call_ensures(SessionLockState::unlock, (locked, resource), result),
    ensures
        result is Ok,
        final(locked).phase == SessionLockPhase::Unlocked,
        final(locked).pending_lock_focus == keyboard_focus,
{
}

/// A client that goes away leaves a locked session locked; one that was still being
/// locked is unlocked, and the focus goes back.
pub proof fn dead_clients_leave_the_session_locked(state: &mut SessionLockState, resource: u64)
    requires
        state.wf(),
        call_ensures(SessionLockState::lock_destroyed, (state, resource), ()),
    ensures
        old(state).phase is Locked ==> final(state).phase is Locked,
        old(state).lock is Some && old(state).lock->0.resource == resource
            ==> final(state).lock is None,
        old(state).lock is Some && old(state).lock->0.resource == resource
            && old(state).phase is Locked
            ==> final(state).phase.wants_frame() && final(state).pending_lock_focus is None
            && final(state).pre_lock_focus == old(state).pre_lock_focus,
        old(state).lock is Some && old(state).lock->0.resource == resource
            && old(state).phase is Securing
            ==> final(state).phase == SessionLockPhase::Unlocked
                && final(state).pending_lock_focus == old(state).pre_lock_focus,
        old(state).lock is None || old(state).lock->0.resource != resource
            ==> *final(state) == *old(state),
{
}

/// Whatever happens to surfaces and outputs, hidden content stays hidden and a
/// locked session stays locked; a new frame is asked for while there is an output
/// to show it.
pub proof fn lost_surfaces_and_outputs_keep_content_hidden(
    state: &mut SessionLockState,
    changed: &mut SessionLockState,
    has_outputs: bool,
    told: Option<u64>,
)
    requires
        state.wf() && changed.wf(),
        call_ensures(SessionLockState::surface_lost, (state,), ()),
        call_ensures(SessionLockState::outputs_changed, (changed, has_outputs), told),
    ensures
        final(state).phase.hides() == old(state).phase.hides(),
        final(state).phase.confirmed() == old(state).phase.confirmed(),
        old(state).phase.hides() ==> final(state).phase.wants_frame(),
        final(state).lock == old(state).lock,
        final(changed).phase.hides() == old(changed).phase.hides(),
        old(changed).phase.confirmed() ==> final(changed).phase.confirmed(),
        old(changed).phase.hides() && has_outputs
            ==> final(changed).phase.wants_frame()
                && final(changed).phase.confirmed() == old(changed).phase.confirmed()
                    && told is None,
        old(changed).phase.hides() && !has_outputs ==> final(changed).phase.confirmed(),
        told is Some <==> old(changed).phase is Securing && !has_outputs
            && old(changed).lock is Some,
        told matches Some(resource) ==> resource == old(changed).lock->0.resource,
{
}

/// A commit of a lock surface passes if and only if the client has confirmed a
/// size and the surface shows something of exactly that size.
pub proof fn sound_commits_have_the_confirmed_size(
    surface: LockSurface,
    mapped: bool,
    size: Size,
    result: Result<(), LockCommitError>,
)
    requires
        call_ensures(LockSurface::check_commit, (&surface, mapped, size), result),
    ensures
        result is Ok <==> surface.acked_configure is Some && mapped && size.w
            == (surface.acked_configure->0).1.w && size.h == (surface.acked_configure->0).1.h,
        result == Err::<(), LockCommitError>(LockCommitError::BeforeFirstAck)
            <==> surface.acked_configure is None,
        result == Err::<(), LockCommitError>(LockCommitError::NullBuffer)
            <==> surface.acked_configure is Some && !mapped,
{
}

proof fn lemma_first_serial(list: Seq<(u32, Size)>, serial: u32)
    ensures
        match first_serial(list, serial) {
            Some(index) => 0 <= index < list.len() && list[index].0 == serial && forall|i: int|
                0 <= i < index ==> (#[trigger] list[i]).0 != serial,
            None => forall|i: int| 0 <= i < list.len() ==> (#[trigger] list[i]).0 != serial,
        },
    decreases list.len(),
{
    if list.len() > 0 && list[0].0 != serial {
        lemma_first_serial(list.drop_first(), serial);
        match first_serial(list, serial) {
            Some(index) => {
                assert(list[index] == list.drop_first()[index - 1]);
                assert forall|i: int| 0 <= i < index implies (#[trigger] list[i]).0 != serial by {
                    if i > 0 {
                        assert(list[i] == list.drop_first()[i - 1]);
                    }
                }
            },
            None => {
                assert forall|i: int| 0 <= i < list.len() implies (#[trigger] list[i]).0
                    != serial by {
                    if i > 0 {
                        assert(list[i] == list.drop_first()[i - 1]);
                    }
                }
            },
        }
    }
}

/// A confirmed size is one that the client was told under that number. What it was
/// told earlier counts no longer, and what it was told later still does.
pub proof fn confirmed_sizes_were_told(surface: &mut LockSurface, serial: u32, known: bool, at: int)
    requires
        call_ensures(LockSurface::ack, (surface, serial), known),
        0 <= at < surface.pending_configures@.len(),
        forall|i: int| 0 <= i < at ==> (#[trigger] surface.pending_configures@[i]).0 != serial,
    ensures
        old(surface).pending_configures@[at].0 == serial ==> {
            &&& known
            &&& final(surface).acked_configure == Some(
                (serial, old(surface).pending_configures@[at].1),
            )
            &&& final(surface).pending_configures@.len()
                == old(surface).pending_configures@.len() - at
                - 1
            &&& forall|i: int|
                0 <= i < final(surface).pending_configures@.len()
                    ==> #[trigger] final(surface).pending_configures@[i]
                        == old(surface).pending_configures@[at + 1 + i]
        },
        !known ==> *final(surface) == *old(surface)
            && old(surface).pending_configures@[at].0 != serial,
{
    lemma_first_serial(surface.pending_configures@, serial);
}

proof fn lemma_first_output(outputs: Seq<LockOutput>, connector: Seq<char>)
    ensures
        match first_output(outputs, connector) {
            Some(index) => 0 <= index < outputs.len() && outputs[index].connector@ == connector
                && forall|i: int|
                0 <= i < index ==> (#[trigger] outputs[i]).connector@ != connector,
            None => forall|i: int|
                0 <= i < outputs.len() ==> (#[trigger] outputs[i]).connector@ != connector,
        },
    decreases outputs.len(),
{
    if outputs.len() > 0 && outputs[0].connector@ != connector {
        lemma_first_output(outputs.drop_first(), connector);
        match first_output(outputs, connector) {
            Some(index) => {
                assert(outputs[index] == outputs.drop_first()[index - 1]);
                assert forall|i: int| 0 <= i < index implies (#[trigger] outputs[i]).connector@
                    != connector by {
                    if i > 0 {
                        assert(outputs[i] == outputs.drop_first()[i - 1]);
                    }
                }
            },
            None => {
                assert forall|i: int| 0 <= i < outputs.len() implies (
                #[trigger] outputs[i]).connector@ != connector by {
                    if i > 0 {
                        assert(outputs[i] == outputs.drop_first()[i - 1]);
                    }
                }
            },
        }
    }
}

/// When the outputs changed, a lock surface that is alive goes where its output is,
/// the one that bears its name, and is told that output's size unless the client
/// was told it last or has confirmed it.
pub proof fn lock_surfaces_follow_their_output(
    surface: LockSurface,
    outputs: &[LockOutput],
    answer: Option<(Point, Option<Size>)>,
    output: int,
)
    requires
        call_ensures(reconfigure, (&surface, outputs), answer),
        0 <= output < outputs@.len(),
        outputs@[output].connector@ == surface.connector@,
        forall|o: int|
            0 <= o < outputs@.len() && o != output ==> (#[trigger] outputs@[o]).connector@
                != surface.connector@,
    ensures
        answer is Some <==> surface.surface is Some,
        answer matches Some((place, told)) ==> {
            let size = outputs@[output].size;
            &&& place.x == outputs@[output].origin.x && place.y == outputs@[output].origin.y
            &&& told matches Some(told) ==> told.w == size.w && told.h == size.h
            &&& told is None <==> {
                ||| surface.pending_configures@.len() > 0
                    && surface.pending_configures@.last().1 == size
                ||| surface.acked_configure is Some && (surface.acked_configure->0).1 == size
            }
        },
{
    lemma_first_output(outputs@, surface.connector@);
}

/// A surface is made for an output that no other surface of the lock covers, is
/// told that output's size, and shows nothing yet.
pub proof fn lock_surfaces_take_one_output_each(
    lock: &mut SessionLock,
    resource: u64,
    surface: u64,
    output: LockOutput,
    serial: u32,
    result: Result<Size, LockSurfaceError>,
)
    requires
        call_ensures(
            SessionLock::add_surface,
            (lock, resource, surface, false, false, Some(&output), serial),
            result,
        ),
    ensures
        result is Err <==> exists|s: int|
            0 <= s < old(lock).surfaces@.len() && (#[trigger] old(lock).surfaces@[s]).connector@
                == output.connector@,
        result is Err ==> *final(lock) == *old(lock),
        result matches Ok(size) ==> {
            let made = final(lock).surfaces@.last();
            &&& size.w == output.size.w && size.h == output.size.h
            &&& final(lock).surfaces@.len() == old(lock).surfaces@.len() + 1
            &&& made.connector@ == output.connector@
            &&& made.resource == resource && made.surface == Some(surface)
            &&& made.pending_configures@.len() == 1
            &&& made.pending_configures@[0] == (serial, output.size)
            &&& !made.mapped && made.acked_configure is None
        },
{
}

/// An output is found under its own name, the first of that name.
pub proof fn outputs_are_found_by_name(
    connector: &str,
    outputs: &[LockOutput],
    found: Option<usize>,
)
    requires
        call_ensures(output_named, (connector, outputs), found),
    ensures
        found is Some <==> exists|i: int|
            0 <= i < outputs@.len() && (#[trigger] outputs@[i]).connector@ == connector@,
        found matches Some(index) ==> index < outputs@.len() && outputs@[index as int].connector@
            == connector@,
{
    lemma_first_output(outputs@, connector@);
}

/// Lock surfaces are shown only for the lock that holds the session, on outputs that exist.
pub proof fn lock_surfaces_are_shown_for_the_holder(
    session: SessionLockState,
    resource: u64,
    connector: &str,
    outputs: &[LockOutput],
    shown: bool,
    client: u64,
    own: bool,
)
    requires
        call_ensures(
            SessionLockState::shows_lock_surface,
            (&session, resource, connector, outputs),
            shown,
        ),
        call_ensures(SessionLockState::is_lock_client, (&session, client), own),
    ensures
        shown ==> session.lock is Some && session.lock->0.resource == resource,
        shown ==> exists|o: int|
            0 <= o < outputs@.len() && (#[trigger] outputs@[o]).connector@ == connector@,
        own <==> session.lock is Some && session.lock->0.client == client,
{
}

} // verus!

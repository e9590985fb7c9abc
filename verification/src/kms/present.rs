//! The steps of putting frames and sprites on the screen.

use std::collections::HashSet;
use vstd::prelude::*;
use vstd::arithmetic::power2::{lemma2_to64, pow2};
use drm::control::atomic::AtomicModeReq;
use crate::host::HardwareCursor;
use crate::kms::backend::{
    refers_to, CursorPlaneState, DrmBackend, HARDWARE_CURSOR_RETRY_BASE_MS,
    HARDWARE_CURSOR_RETRY_MAX_MS,
};
use crate::kms::commit::{cursor_request, frame_entries, frame_request, sprite_entries};
use crate::kms::cursor::{
    check_sprite, first_holding, in_front, promoted, sprite_fault, CursorBuffer, CursorState,
    MAX_CURSOR_BUFFERS,
};
use crate::kms::error::{
    commit_error, commit_error_is_transient, transient_errno, DrmError, EACCES, EBUSY, EPERM,
};
use crate::kms::flips::{retire_page_flip, FlipProgress};
use crate::kms::output::{
    all_crtcs_report_completion, all_have_cursor, all_outputs_have_cursor, all_planes_take_fences,
    all_report_completion, all_take_fences, Output,
};
use crate::kms::request::{request_entries, settings};
use crate::kms::scanout::{
    conflicts_retired, distinct_keys, dropped, has_entry, kept, lemma_kept, lemma_no_users,
    lemma_retired, lemma_users_at, reaped,
    referred, scanout_acquire_fence_supported, users_of, CacheLookup, CachedCompositeFb,
    CompositeFbKey, DmabufIdentity, PrimaryPlaneFrame, Resource, Scanout, ScanoutOwnership,
};

verus! {

/// A rendered frame that has been exported for display.
#[derive(Debug, Clone, Copy, PartialEq, Eq, Structural)]
pub struct RenderedFrame {
    pub slot: u32,
    pub width: u32,
    pub height: u32,
    pub stride: u32,
    pub modifier: u64,
    pub acquire_fence: Option<i32>,
}

/// What to do with a rendered frame.
#[derive(Debug, Clone, Copy, PartialEq, Eq, Structural)]
pub enum ImportStep {
    /// Its framebuffer is known; show it.
    Ready(Scanout),
    /// Its framebuffer must be imported, and is kept under the key if there is
    /// one.
    Import(Option<CompositeFbKey>),
}

/// The key of a rendered frame whose memory object is known.
pub open spec fn frame_key(
    epoch: u64,
    frame: RenderedFrame,
    identity: DmabufIdentity,
    format: u32,
) -> CompositeFbKey {
    CompositeFbKey {
        epoch,
        slot: frame.slot,
        identity,
        width: frame.width,
        height: frame.height,
        stride: frame.stride,
        fourcc: format,
        modifier: frame.modifier,
    }
}

/// The delay before a cursor that has been rejected is tried again, after
/// `failures` earlier rejections in a row.
pub open spec fn retry_delay(failures: u32) -> int {
    let times = if failures <= 10 {
        failures as nat
    } else {
        10nat
    };
    let delay = HARDWARE_CURSOR_RETRY_BASE_MS * pow2(times);
    if delay <= HARDWARE_CURSOR_RETRY_MAX_MS {
        delay
    } else {
        HARDWARE_CURSOR_RETRY_MAX_MS as int
    }
}

/// The delay before a cursor that has been rejected is tried again.
pub fn cursor_retry_delay(failures: u32) -> (delay: u64)
    ensures
        delay == retry_delay(failures),
{
    proof {
        lemma2_to64();
    }
    if failures == 0 {
        5_000
    } else if failures == 1 {
        10_000
    } else if failures == 2 {
        20_000
    } else if failures == 3 {
        40_000
    } else if failures == 4 {
        80_000
    } else if failures == 5 {
        160_000
    } else {
        300_000
    }
}

/// The delay grows with every rejection until it has reached its bound.
pub proof fn retry_delay_grows(fewer: u32, more: u32)
    requires
        fewer <= more,
    ensures
        HARDWARE_CURSOR_RETRY_BASE_MS <= retry_delay(fewer) <= retry_delay(more)
            <= HARDWARE_CURSOR_RETRY_MAX_MS,
{
    lemma2_to64();
}

/// The controllers of outputs.
pub open spec fn crtc_set(outputs: Seq<Output>) -> Set<u32> {
    Set::new(|c: u32| exists|i: int| 0 <= i < outputs.len() && (#[trigger] outputs[i]).crtc == c)
}

/// The controllers of outputs.
fn crtcs_of(outputs: &[Output]) -> (crtcs: HashSet<u32>)
    ensures
        crtcs@ == crtc_set(outputs@),
{
    broadcast use vstd::std_specs::hash::group_hash_axioms;

    let mut crtcs: HashSet<u32> = HashSet::new();
    let mut index: usize = 0;
    assert(crtcs@ =~= crtc_set(outputs@.take(0)));
    while index < outputs.len()
        invariant
            index <= outputs.len(),
            crtcs@ == crtc_set(outputs@.take(index as int)),
        decreases outputs.len() - index,
    {
        let crtc: u32 = outputs[index].crtc;
        crtcs.insert(crtc);
        proof {
            let now = outputs@.take(index + 1);
            let earlier = outputs@.take(index as int);
            assert forall|c: u32| crtc_set(now).contains(c) <==> crtc_set(earlier).contains(c) || c
                == crtc by {
                if crtc_set(now).contains(c) {
                    let i = choose|i: int| 0 <= i < now.len() && (#[trigger] now[i]).crtc == c;
                    if i < index {
                        assert(earlier[i].crtc == c);
                    }
                }
                if crtc_set(earlier).contains(c) {
                    let i = choose|i: int|
                        0 <= i < earlier.len() && (#[trigger] earlier[i]).crtc == c;
                    assert(now[i].crtc == c);
                }
                if c == crtc {
                    assert(now[index as int].crtc == c);
                }
            }
            assert(crtcs@ =~= crtc_set(now));
        }
        index += 1;
    }
    assert(outputs@.take(outputs.len() as int) =~= outputs@);
    crtcs
}

/// How an update is handed to the kernel.
#[derive(Debug, Clone, Copy, PartialEq, Eq, Structural)]
pub struct CommitFlags {
    pub nonblock: bool,
    pub page_flip_event: bool,
    pub allow_modeset: bool,
    pub test_only: bool,
}

/// What comes after a sprite has been chosen.
#[derive(Debug, Clone, Copy, PartialEq, Eq, Structural)]
pub enum CursorStep {
    /// Nothing more.
    Done,
    /// The sprite must be uploaded first.
    Upload,
}

impl DrmBackend {
    /// Take up a rendered frame: find its framebuffer, or ask for an import.
    ///
    /// A slot is expected to keep its memory for the life of a surface. Where
    /// it does not, the former framebuffer is retired, and goes once nothing
    /// refers to it. A frame whose memory cannot be identified is shown once
    /// and not kept.
    pub fn begin_import(&mut self, frame: RenderedFrame, identity: Option<DmabufIdentity>) -> (answer:
        (ImportStep, Vec<Resource>))
        requires
            old(self).wf(),
            identity matches Some(object) ==> users_of(
                old(self).cache.entries@,
                frame_key(old(self).cache.epoch, frame, object, old(self).displays.format),
            ) < u32::MAX,
        ensures
            *final(self) == (DrmBackend { cache: final(self).cache, ..*old(self) }),
            final(self).cache.epoch == old(self).cache.epoch,
            match identity {
                None => {
                    &&& answer.0 == ImportStep::Import(None)
                    &&& answer.1@.len() == 0
                    &&& final(self).cache.entries@ == old(self).cache.entries@
                },
                Some(object) => {
                    let key = frame_key(
                        old(self).cache.epoch,
                        frame,
                        object,
                        old(self).displays.format,
                    );
                    let live = kept(conflicts_retired(old(self).cache.entries@, key));
                    &&& answer.1@ == reaped(conflicts_retired(old(self).cache.entries@, key))
                    &&& if has_entry(live, key) {
                        &&& final(self).cache.entries@ == referred(live, key)
                        &&& exists|i: int|
                            0 <= i < live.len() && (#[trigger] live[i]).key == key && answer.0
                                == ImportStep::Ready(
                                Scanout {
                                    framebuffer: live[i].framebuffer,
                                    gem: live[i].gem,
                                    slot: frame.slot,
                                    acquire_fence: frame.acquire_fence,
                                    ownership: ScanoutOwnership::Cached(key),
                                },
                            )
                    } else {
                        &&& final(self).cache.entries@ == live
                        &&& answer.0 == ImportStep::Import(Some(key))
                    }
                },
            },
            match answer.0 {
                ImportStep::Ready(scanout) => final(self).counts(Some(scanout)),
                ImportStep::Import(_) => final(self).counts(None),
            },
    {
        let object = match identity {
            None => {
                return (ImportStep::Import(None), Vec::new());
            },
            Some(object) => object,
        };
        let key = CompositeFbKey {
            epoch: self.cache.epoch,
            slot: frame.slot,
            identity: object,
            width: frame.width,
            height: frame.height,
            stride: frame.stride,
            fourcc: self.displays.format,
            modifier: frame.modifier,
        };
        let ghost before = self.cache.entries@;
        let (lookup, released) = self.cache.begin_import(key);
        proof {
            let retired = conflicts_retired(before, key);
            let live = kept(retired);
            assert forall|k: CompositeFbKey| users_of(live, k) == users_of(before, k) by {
                lemma_retired(before, key, k);
                lemma_kept(retired, k);
            }
            lemma_retired(before, key, key);
            lemma_kept(retired, key);
            if has_entry(live, key) {
                assert forall|k: CompositeFbKey| users_of(referred(live, key), k) == users_of(
                    live,
                    k,
                ) + if k == key {
                    1int
                } else {
                    0
                } by {
                    lemma_referred(live, key, k);
                }
                lemma_referred(live, key, key);
            }
        }
        let step = match lookup {
            CacheLookup::Hit(found) => ImportStep::Ready(
                Scanout {
                    framebuffer: found.framebuffer,
                    gem: found.gem,
                    slot: frame.slot,
                    acquire_fence: frame.acquire_fence,
                    ownership: ScanoutOwnership::Cached(key),
                },
            ),
            CacheLookup::Miss => ImportStep::Import(Some(key)),
        };
        (step, released)
    }

    /// Take up the framebuffer that was imported for a rendered frame.
    pub fn finish_import(
        &mut self,
        key: Option<CompositeFbKey>,
        frame: RenderedFrame,
        resource: Resource,
    ) -> (scanout: Scanout)
        requires
            old(self).counts(None),
            key matches Some(k) ==> !has_entry(old(self).cache.entries@, k),
        ensures
            final(self).counts(Some(scanout)),
            *final(self) == (DrmBackend { cache: final(self).cache, ..*old(self) }),
            final(self).cache.epoch == old(self).cache.epoch,
            scanout == (Scanout {
                framebuffer: resource.framebuffer,
                gem: resource.gem,
                slot: frame.slot,
                acquire_fence: frame.acquire_fence,
                ownership: match key {
                    Some(k) => ScanoutOwnership::Cached(k),
                    None => ScanoutOwnership::TransientCompositor,
                },
            }),
            final(self).cache.entries@ == match key {
                Some(k) => old(self).cache.entries@.push(
                    CachedCompositeFb {
                        key: k,
                        framebuffer: resource.framebuffer,
                        gem: resource.gem,
                        users: 1,
                        reusable: true,
                    },
                ),
                None => old(self).cache.entries@,
            },
    {
        let ghost before = self.cache.entries@;
        let ownership = match key {
            Some(k) => {
                self.cache.complete_import(k, resource);
                proof {
                    assert forall|other: CompositeFbKey| users_of(self.cache.entries@, other)
                        == if other == k {
                        1
                    } else {
                        users_of(before, other)
                    } by {
                        assert(self.cache.entries@.drop_last() =~= before);
                    }
                    assert(users_of(before, k) >= refers_to(self.current, k) + refers_to(
                        self.retiring,
                        k,
                    ));
                    lemma_no_users(before, k);
                }
                ScanoutOwnership::Cached(k)
            },
            None => ScanoutOwnership::TransientCompositor,
        };
        Scanout {
            framebuffer: resource.framebuffer,
            gem: resource.gem,
            slot: frame.slot,
            acquire_fence: frame.acquire_fence,
            ownership,
        }
    }

    /// Whether a scanout may be shown as the given source.
    pub open spec fn may_show(self, scanout: Scanout, frame: PrimaryPlaneFrame) -> bool {
        scanout.ownership.fits(frame) && (scanout.acquire_fence is Some ==> all_take_fences(
            self.displays.outputs@,
        ))
    }

    /// Check a scanout before it is shown. Source and lifetime belong together,
    /// and a fence must be waited for by every plane; otherwise the scanout is
    /// dropped.
    pub fn check_commit(&mut self, scanout: Scanout, frame: PrimaryPlaneFrame) -> (result: Result<
        (),
        Vec<Resource>,
    >)
        requires
            old(self).counts(Some(scanout)),
        ensures
            result is Ok <==> old(self).may_show(scanout, frame),
            result is Ok ==> *final(self) == *old(self),
            result is Err ==> {
                &&& final(self).counts(None)
                &&& *final(self) == (DrmBackend { cache: final(self).cache, ..*old(self) })
                &&& final(self).cache.epoch == old(self).cache.epoch
                &&& dropped_scanout(
                    old(self).cache.entries@,
                    final(self).cache.entries@,
                    scanout,
                    result->Err_0@,
                )
            },
    {
        let fences = all_planes_take_fences(self.displays.outputs.as_slice());
        if !scanout.ownership.matches_frame(frame) || !scanout_acquire_fence_supported(
            scanout.acquire_fence.is_some(),
            fences,
        ) {
            return Err(self.release_scanout(scanout));
        }
        Ok(())
    }

    /// Build the update that shows a scanout. The damage hint of each output is
    /// given by its blob.
    pub fn frame_update(&self, scanout: &Scanout, damage_blobs: &[u64]) -> (request: AtomicModeReq)
        requires
            self.wf(),
            damage_blobs.len() == self.displays.outputs.len(),
        ensures
            request_entries(request) == settings(
                frame_entries(
                    self.displays.outputs@,
                    self.displays.outputs.len() as int,
                    self.displays.color_mode,
                    self.hdr_metadata_blob,
                    self.cursor.state,
                    self.cursor.buffers.buffers@,
                    scanout.framebuffer,
                    match scanout.acquire_fence {
                        Some(fd) => fd,
                        None => -1i32,
                    },
                    damage_blobs@,
                ),
            ),
    {
        let acquire_fd: i32 = match scanout.acquire_fence {
            Some(fd) => fd,
            None => -1,
        };
        frame_request(
            self.displays.outputs.as_slice(),
            self.displays.color_mode,
            self.hdr_metadata_blob,
            self.cursor.state,
            self.cursor.buffers.buffers.as_slice(),
            scanout.framebuffer,
            acquire_fd,
            damage_blobs,
        )
    }

    /// Whether the display is asked to report when it is done with the frame.
    pub fn uses_completion_fences(&self, frame: PrimaryPlaneFrame) -> (used: bool)
        ensures
            used == (frame == PrimaryPlaneFrame::DirectClient && all_report_completion(
                self.displays.outputs@,
            )),
    {
        frame.needs_kms_completion_fence() && all_crtcs_report_completion(
            self.displays.outputs.as_slice(),
        )
    }

    /// How a frame update is tested before it is made: only where outputs have
    /// to be set up.
    pub fn test_flags(&self) -> (flags: Option<CommitFlags>)
        ensures
            flags == if self.modeset_done {
                None
            } else {
                Some(
                    CommitFlags {
                        nonblock: false,
                        page_flip_event: false,
                        allow_modeset: true,
                        test_only: true,
                    },
                )
            },
    {
        if self.modeset_done {
            None
        } else {
            Some(
                CommitFlags {
                    nonblock: false,
                    page_flip_event: false,
                    allow_modeset: true,
                    test_only: true,
                },
            )
        }
    }

    /// How a frame update is made: without waiting, with a report of its
    /// completion, and setting outputs up where that has not been done.
    pub fn commit_flags(&self) -> (flags: CommitFlags)
        ensures
            flags == (CommitFlags {
                nonblock: true,
                page_flip_event: true,
                allow_modeset: !self.modeset_done,
                test_only: false,
            }),
    {
        CommitFlags {
            nonblock: true,
            page_flip_event: true,
            allow_modeset: !self.modeset_done,
            test_only: false,
        }
    }

    /// The hardware cursor's state after the display rejected it.
    pub open spec fn cursor_disabled(
        before: CursorPlaneState,
        after: CursorPlaneState,
        now_ms: u64,
    ) -> bool {
        &&& after.buffers == before.buffers
        &&& after.state is None
        &&& after.plane_active == before.plane_active
        &&& after.extent == before.extent
        &&& after.failed
        &&& after.retry_at == Some((now_ms + retry_delay(before.failures)) as u64)
        &&& after.failures == if before.failures == u32::MAX {
            u32::MAX
        } else {
            (before.failures + 1) as u32
        }
    }

    /// Stop using the hardware cursor and set the time of the next attempt.
    pub fn disable_hardware_cursor(&mut self, now_ms: u64)
        requires
            now_ms + HARDWARE_CURSOR_RETRY_MAX_MS <= u64::MAX,
        ensures
            *final(self) == (DrmBackend { cursor: final(self).cursor, ..*old(self) }),
            Self::cursor_disabled(old(self).cursor, final(self).cursor, now_ms),
    {
        let delay: u64 = cursor_retry_delay(self.cursor.failures);
        proof {
            retry_delay_grows(self.cursor.failures, self.cursor.failures);
        }
        self.cursor.state = None;
        self.cursor.failed = true;
        if self.cursor.failures < u32::MAX {
            self.cursor.failures = self.cursor.failures + 1;
        }
        self.cursor.retry_at = Some(now_ms + delay);
    }

    /// Try the hardware cursor again if its time has come. The answer says
    /// whether it did.
    pub fn poll_hardware_cursor_retry(&mut self, now_ms: u64) -> (rearmed: bool)
        ensures
            rearmed == (old(self).cursor.failed && (old(self).cursor.retry_at matches Some(at) && at
                <= now_ms)),
            *final(self) == (DrmBackend { cursor: final(self).cursor, ..*old(self) }),
            final(self).cursor == if rearmed {
                CursorPlaneState { failed: false, retry_at: None, ..old(self).cursor }
            } else {
                old(self).cursor
            },
    {
        if !self.cursor.failed {
            return false;
        }
        let due = match self.cursor.retry_at {
            Some(at) => now_ms >= at,
            None => false,
        };
        if !due {
            return false;
        }
        self.cursor.failed = false;
        self.cursor.retry_at = None;
        true
    }

    /// Whether the hardware cursor can be used: it has not been rejected, and
    /// every output has a plane for it.
    pub fn hardware_cursor_supported(&self) -> (supported: bool)
        ensures
            supported == (!self.cursor.failed && self.displays.outputs@.len() > 0
                && all_have_cursor(self.displays.outputs@)),
    {
        !self.cursor.failed && self.displays.outputs.len() > 0 && all_outputs_have_cursor(
            self.displays.outputs.as_slice(),
        )
    }

    /// Whether a rejected update is blamed on the cursor: the rejection will
    /// not pass by itself, and a cursor was or is shown.
    pub open spec fn blames_cursor(self, errno: Option<i32>) -> bool {
        !transient_errno(errno) && (self.cursor.state is Some || self.cursor.plane_active)
    }

    /// Take note that the kernel rejected a frame update, or its test. The
    /// scanout is dropped. Where the cursor is to blame, it is disabled, and
    /// the frame is to be tried again without it.
    pub fn commit_rejected(&mut self, scanout: Scanout, errno: Option<i32>, now_ms: u64) -> (answer: (
        DrmError,
        Vec<Resource>,
    ))
        requires
            old(self).counts(Some(scanout)),
            now_ms + HARDWARE_CURSOR_RETRY_MAX_MS <= u64::MAX,
        ensures
            final(self).counts(None),
            *final(self) == (DrmBackend {
                cache: final(self).cache,
                cursor: final(self).cursor,
                ..*old(self)
            }),
            final(self).cache.epoch == old(self).cache.epoch,
            dropped_scanout(
                old(self).cache.entries@,
                final(self).cache.entries@,
                scanout,
                answer.1@,
            ),
            old(self).blames_cursor(errno) ==> answer.0 == DrmError::CursorFallback
                && Self::cursor_disabled(old(self).cursor, final(self).cursor, now_ms),
            !old(self).blames_cursor(errno) ==> final(self).cursor == old(self).cursor && (errno
                == Some(EBUSY) ==> answer.0 == DrmError::Busy) && (errno == Some(EACCES) || errno
                == Some(EPERM) ==> answer.0 == DrmError::Inactive) && (!transient_errno(errno)
                ==> answer.0 == DrmError::Io(errno)),
    {
        let blamed = !commit_error_is_transient(errno) && (self.cursor.state.is_some()
            || self.cursor.plane_active);
        if blamed {
            self.disable_hardware_cursor(now_ms);
            let released = self.release_scanout(scanout);
            return (DrmError::CursorFallback, released);
        }
        let released = self.release_scanout(scanout);
        (commit_error(errno), released)
    }

    /// The hardware cursor's state after the display accepted an update.
    pub open spec fn cursor_accepted(before: CursorPlaneState) -> CursorPlaneState {
        CursorPlaneState {
            plane_active: before.state is Some,
            failures: if before.state is Some {
                0
            } else {
                before.failures
            },
            ..before
        }
    }

    /// Take note that the kernel accepted a frame update: the scanout is on its
    /// way to the screen, the one before it is on its way off, and every
    /// controller has a flip to report.
    ///
    /// A scanout that was still on its way off is handed back and must not be
    /// freed: its completion was lost, so the display may still show it.
    pub fn commit_accepted(&mut self, scanout: Scanout) -> (leaked: Option<Scanout>)
        requires
            old(self).counts(Some(scanout)),
        ensures
            final(self).counts(None),
            leaked == old(self).retiring,
            final(self).pending_flips@ == crtc_set(old(self).displays.outputs@),
            *final(self) == (DrmBackend {
                cursor: Self::cursor_accepted(old(self).cursor),
                retiring: old(self).current,
                current: Some(Scanout { acquire_fence: None, ..scanout }),
                pending_flips: final(self).pending_flips,
                modeset_done: true,
                ..*old(self)
            }),
    {
        self.note_cursor_accepted();
        let shown = Scanout { acquire_fence: None, ..scanout };
        let leaked: Option<Scanout> = self.retiring;
        self.retiring = self.current;
        self.current = Some(shown);
        self.pending_flips = crtcs_of(self.displays.outputs.as_slice());
        self.modeset_done = true;
        proof {
            assert forall|key: CompositeFbKey| #[trigger]
                users_of(self.cache.entries@, key) >= refers_to(self.current, key) + refers_to(
                    self.retiring,
                    key,
                ) + refers_to(None, key) by {
                assert(refers_to(Some(shown), key) == refers_to(Some(scanout), key));
            }
        }
        leaked
    }

    /// Take note that the display accepted the cursor as it stands.
    fn note_cursor_accepted(&mut self)
        ensures
            *final(self) == (DrmBackend {
                cursor: Self::cursor_accepted(old(self).cursor),
                ..*old(self)
            }),
    {
        self.cursor.plane_active = self.cursor.state.is_some();
        if self.cursor.plane_active {
            self.cursor.failures = 0;
        }
    }

    /// Whether the fences that the display returned stand for the whole update:
    /// they were asked for, and every output returned one.
    pub fn completion_known(&self, asked: bool, fences: &[i32]) -> (known: bool)
        requires
            fences.len() == self.displays.outputs.len(),
        ensures
            known == (asked && forall|i: int| 0 <= i < fences.len() ==> #[trigger] fences@[i] >= 0),
    {
        let mut index: usize = 0;
        while index < fences.len()
            invariant
                index <= fences.len(),
                forall|i: int| 0 <= i < index ==> #[trigger] fences@[i] >= 0,
            decreases fences.len() - index,
        {
            if fences[index] < 0 {
                assert(fences@[index as int] < 0);
                return false;
            }
            index += 1;
        }
        asked
    }

    /// Build the update that moves the sprite.
    pub fn cursor_update(&self) -> (request: AtomicModeReq)
        requires
            self.wf(),
        ensures
            request_entries(request) == settings(
                sprite_entries(
                    self.displays.outputs@,
                    self.displays.outputs.len() as int,
                    self.cursor.state,
                    self.cursor.buffers.buffers@,
                ),
            ),
    {
        cursor_request(
            self.displays.outputs.as_slice(),
            self.cursor.state,
            self.cursor.buffers.buffers.as_slice(),
        )
    }

    /// Take note that the kernel rejected a sprite update.
    pub fn cursor_commit_rejected(&mut self, errno: Option<i32>, now_ms: u64) -> (error: DrmError)
        requires
            now_ms + HARDWARE_CURSOR_RETRY_MAX_MS <= u64::MAX,
        ensures
            *final(self) == (DrmBackend { cursor: final(self).cursor, ..*old(self) }),
            old(self).blames_cursor(errno) ==> error == DrmError::CursorFallback
                && Self::cursor_disabled(old(self).cursor, final(self).cursor, now_ms),
            !old(self).blames_cursor(errno) ==> final(self).cursor == old(self).cursor && (errno
                == Some(EBUSY) ==> error == DrmError::Busy) && (errno == Some(EACCES) || errno
                == Some(EPERM) ==> error == DrmError::Inactive) && (!transient_errno(errno)
                ==> error == DrmError::Io(errno)),
    {
        let blamed = !commit_error_is_transient(errno) && (self.cursor.state.is_some()
            || self.cursor.plane_active);
        if blamed {
            self.disable_hardware_cursor(now_ms);
            return DrmError::CursorFallback;
        }
        commit_error(errno)
    }

    /// Take note that the kernel accepted a sprite update.
    pub fn cursor_commit_accepted(&mut self)
        ensures
            *final(self) == (DrmBackend {
                cursor: Self::cursor_accepted(old(self).cursor),
                ..*old(self)
            }),
    {
        self.note_cursor_accepted();
    }

    /// Take note of completed flips. Once the last controller of the update has
    /// completed, the scanout that was replaced is dropped.
    pub fn page_flips(&mut self, crtcs: &[u32]) -> (released: Vec<Resource>)
        requires
            old(self).wf(),
        ensures
            final(self).wf(),
            final(self).pending_flips@ == old(self).pending_flips@.difference(crtcs@.to_set()),
            final(self).cache.epoch == old(self).cache.epoch,
            ({
                let complete = !old(self).pending_flips@.is_empty()
                    && final(self).pending_flips@.is_empty();
                match old(self).retiring {
                    Some(retired) if complete => {
                        &&& *final(self) == (DrmBackend {
                            pending_flips: final(self).pending_flips,
                            retiring: None,
                            cache: final(self).cache,
                            ..*old(self)
                        })
                        &&& dropped_scanout(
                            old(self).cache.entries@,
                            final(self).cache.entries@,
                            retired,
                            released@,
                        )
                    },
                    _ => {
                        &&& *final(self) == (DrmBackend {
                            pending_flips: final(self).pending_flips,
                            ..*old(self)
                        })
                        &&& released@.len() == 0
                    },
                }
            }),
    {
        let ghost before = self.pending_flips@;
        let mut complete = false;
        let mut index: usize = 0;
        assert(before.difference(crtcs@.take(0).to_set()) =~= before);
        while index < crtcs.len()
            invariant
                index <= crtcs.len(),
                *self == (DrmBackend { pending_flips: self.pending_flips, ..*old(self) }),
                before == old(self).pending_flips@,
                self.pending_flips@ == before.difference(crtcs@.take(index as int).to_set()),
                complete == (!before.is_empty() && self.pending_flips@.is_empty()),
            decreases crtcs.len() - index,
        {
            let ghost pending = self.pending_flips@;
            let crtc: u32 = crtcs[index];
            match retire_page_flip(&mut self.pending_flips, crtc) {
                FlipProgress::Complete => {
                    complete = true;
                    assert(before.contains(crtc));
                },
                FlipProgress::Pending => {},
                FlipProgress::Unrelated => {
                    assert(pending.remove(crtc) =~= pending);
                },
            }
            proof {
                let earlier = crtcs@.take(index as int);
                let now = crtcs@.take(index + 1);
                assert(now =~= earlier.push(crtc));
                crate::seqs::lemma_push_contains(earlier, crtc);
                assert(self.pending_flips@ =~= before.difference(now.to_set()));
            }
            index += 1;
        }
        assert(crtcs@.take(crtcs.len() as int) =~= crtcs@);
        let none: Vec<Resource> = Vec::new();
        if !complete {
            return none;
        }
        match self.retiring {
            None => none,
            Some(retired) => {
                self.retiring = None;
                assert(self.counts(Some(retired)));
                self.release_scanout(retired)
            },
        }
    }

    /// Give up waiting for flips that were lost. The scanout that was being
    /// replaced is kept: the display may still show it.
    pub fn recover_lost_presentation(&mut self)
        ensures
            *final(self) == (DrmBackend {
                pending_flips: final(self).pending_flips,
                ..*old(self)
            }),
            final(self).pending_flips@ == Set::<u32>::empty(),
    {
        broadcast use vstd::std_specs::hash::group_hash_axioms;

        if self.pending_flips.is_empty() {
            assert(self.pending_flips@ =~= Set::<u32>::empty());
            return;
        }
        self.pending_flips.clear();
    }

    /// Choose the sprite to show, or none.
    ///
    /// A sprite that was uploaded before is taken from the buffers at once;
    /// another one must be uploaded first, and then finished with
    /// [`DrmBackend::finish_cursor`].
    pub fn begin_cursor(&mut self, cursor: Option<HardwareCursor<'_>>) -> (result: Result<
        CursorStep,
        DrmError,
    >)
        ensures
            *final(self) == (DrmBackend { cursor: final(self).cursor, ..*old(self) }),
            if old(self).cursor.failed || old(self).displays.outputs@.len() == 0
                || !all_have_cursor(old(self).displays.outputs@) {
                &&& result == Err::<CursorStep, DrmError>(
                    DrmError::CursorUnsupported(
                        "not every output has a compatible ARGB8888 cursor plane",
                    ),
                )
                &&& final(self).cursor == old(self).cursor
            } else {
                match cursor {
                    None => {
                        &&& result == Ok::<CursorStep, DrmError>(CursorStep::Done)
                        &&& final(self).cursor == (CursorPlaneState {
                            state: None,
                            ..old(self).cursor
                        })
                    },
                    Some(sprite) => match sprite_fault(sprite, old(self).cursor.extent) {
                        Some(fault) => {
                            &&& result == Err::<CursorStep, DrmError>(
                                DrmError::CursorUnsupported(fault),
                            )
                            &&& final(self).cursor == old(self).cursor
                        },
                        None => {
                            &&& result == Ok::<CursorStep, DrmError>(CursorStep::Done) <==> exists|
                                i: int,
                            |
                                0 <= i < old(self).cursor.buffers.buffers@.len() && (
                                #[trigger] old(self).cursor.buffers.buffers@[i]).holds(
                                    sprite.size,
                                    sprite.pixels@,
                                )
                            &&& result == Ok::<CursorStep, DrmError>(CursorStep::Done) || result
                                == Ok::<CursorStep, DrmError>(CursorStep::Upload)
                            &&& result == Ok::<CursorStep, DrmError>(CursorStep::Upload)
                                ==> final(self).cursor.state == old(self).cursor.state
                                    && final(self).cursor.buffers.buffers@
                                        == old(self).cursor.buffers.buffers@
                            &&& result == Ok::<CursorStep, DrmError>(CursorStep::Done) ==> {
                                &&& final(self).cursor.state == Some(
                                    CursorState {
                                        buffer: 0,
                                        position: sprite.position,
                                        hotspot: sprite.hotspot,
                                    },
                                )
                                &&& in_front(
                                    final(self).cursor.buffers.buffers@,
                                    sprite.size,
                                    sprite.pixels@,
                                )
                                &&& exists|index: int| #[trigger]
                                    first_holding(
                                        old(self).cursor.buffers.buffers@,
                                        sprite.size,
                                        sprite.pixels@,
                                        index,
                                    ) && final(self).cursor.buffers.buffers@ == promoted(
                                        old(self).cursor.buffers.buffers@,
                                        index,
                                    )
                            }
                            &&& final(self).cursor == (CursorPlaneState {
                                state: final(self).cursor.state,
                                buffers: final(self).cursor.buffers,
                                ..old(self).cursor
                            })
                        },
                    },
                }
            },
    {
        if !self.hardware_cursor_supported() {
            return Err(
                DrmError::CursorUnsupported(
                    "not every output has a compatible ARGB8888 cursor plane",
                ),
            );
        }
        let sprite = match cursor {
            None => {
                self.cursor.state = None;
                return Ok(CursorStep::Done);
            },
            Some(sprite) => sprite,
        };
        match check_sprite(&sprite, self.cursor.extent) {
            Ok(()) => {},
            Err(error) => return Err(error),
        }
        if self.cursor.buffers.promote(sprite.size, sprite.pixels) {
            self.cursor.state = Some(
                CursorState { buffer: 0, position: sprite.position, hotspot: sprite.hotspot },
            );
            return Ok(CursorStep::Done);
        }
        Ok(CursorStep::Upload)
    }

    /// Show a sprite that was just uploaded. Buffers that no longer fit are
    /// handed back.
    pub fn finish_cursor(&mut self, framebuffer: u32, sprite: HardwareCursor<'_>) -> (evicted: Vec<
        CursorBuffer,
    >)
        ensures
            *final(self) == (DrmBackend { cursor: final(self).cursor, ..*old(self) }),
            final(self).cursor == (CursorPlaneState {
                state: Some(
                    CursorState {
                        buffer: 0,
                        position: sprite.position,
                        hotspot: sprite.hotspot,
                    },
                ),
                buffers: final(self).cursor.buffers,
                ..old(self).cursor
            }),
            in_front(final(self).cursor.buffers.buffers@, sprite.size, sprite.pixels@),
            final(self).cursor.buffers.buffers@[0].framebuffer == framebuffer,
            final(self).cursor.buffers.buffers@[0].extent == old(self).cursor.extent,
            ({
                let all = seq![final(self).cursor.buffers.buffers@[0]]
                    + old(self).cursor.buffers.buffers@;
                let bound = if all.len() <= MAX_CURSOR_BUFFERS {
                    all.len() as int
                } else {
                    MAX_CURSOR_BUFFERS as int
                };
                &&& final(self).cursor.buffers.buffers@ == all.take(bound)
                &&& evicted@ == all.skip(bound).reverse()
            }),
    {
        let mut pixels: Vec<u8> = Vec::new();
        let mut index: usize = 0;
        while index < sprite.pixels.len()
            invariant
                index <= sprite.pixels.len(),
                pixels@ == sprite.pixels@.take(index as int),
            decreases sprite.pixels.len() - index,
        {
            pixels.push(sprite.pixels[index]);
            index += 1;
        }
        assert(sprite.pixels@.take(sprite.pixels.len() as int) =~= sprite.pixels@);
        let buffer = CursorBuffer {
            framebuffer,
            extent: self.cursor.extent,
            pixels,
            content_size: sprite.size,
            len: sprite.pixels.len(),
        };
        let evicted = self.cursor.buffers.insert(buffer);
        self.cursor.state = Some(
            CursorState { buffer: 0, position: sprite.position, hotspot: sprite.hotspot },
        );
        evicted
    }
}

/// What dropping a scanout does to the cache and hands back.
pub open spec fn dropped_scanout(
    before: Seq<CachedCompositeFb>,
    after: Seq<CachedCompositeFb>,
    scanout: Scanout,
    released: Seq<Resource>,
) -> bool {
    match scanout.ownership {
        ScanoutOwnership::TransientCompositor | ScanoutOwnership::TransientClient => {
            &&& released == seq![Resource { framebuffer: scanout.framebuffer, gem: scanout.gem }]
            &&& after == before
        },
        ScanoutOwnership::Cached(key) => {
            &&& released == reaped(dropped(before, key))
            &&& after == kept(dropped(before, key))
        },
    }
}

/// Referring to an entry once more counts once more, for that entry alone.
proof fn lemma_referred(
    entries: Seq<CachedCompositeFb>,
    key: CompositeFbKey,
    other: CompositeFbKey,
)
    requires
        distinct_keys(entries),
        has_entry(entries, key),
        users_of(entries, key) < u32::MAX,
    ensures
        distinct_keys(referred(entries, key)),
        users_of(referred(entries, key), other) == users_of(entries, other) + if other == key {
            1int
        } else {
            0
        },
    decreases entries.len(),
{
    let after = referred(entries, key);
    assert forall|i: int, j: int|
        #![trigger after[i], after[j]]
        0 <= i < j < after.len() implies after[i].key != after[j].key by {
        let a = entries[i];
        let b = entries[j];
    }
    let at = choose|i: int| 0 <= i < entries.len() && (#[trigger] entries[i]).key == key;
    lemma_users_at(entries, key, at);
    lemma_same_keys(entries, after);
    if has_entry(entries, other) {
        let o = choose|i: int| 0 <= i < entries.len() && (#[trigger] entries[i]).key == other;
        lemma_users_at(entries, other, o);
        assert(after[o].key == other);
        lemma_users_at(after, other, o);
    } else {
        lemma_no_users(entries, other);
        assert forall|i: int| 0 <= i < after.len() implies (#[trigger] after[i]).key != other by {
            let e = entries[i];
        }
        lemma_no_users(after, other);
    }
}

/// Referring to an entry changes no key.
proof fn lemma_same_keys(entries: Seq<CachedCompositeFb>, after: Seq<CachedCompositeFb>)
    requires
        distinct_keys(entries),
        after.len() == entries.len(),
        forall|i: int| 0 <= i < entries.len() ==> (#[trigger] after[i]).key == entries[i].key,
    ensures
        distinct_keys(after),
{
    assert forall|i: int, j: int|
        #![trigger after[i], after[j]]
        0 <= i < j < after.len() implies after[i].key != after[j].key by {
        let a = entries[i];
        let b = entries[j];
    }
}

/// A framebuffer that is shown, or is being replaced, stays in the cache when
/// entries are dropped: it is never given back to the kernel.
pub proof fn visible_framebuffers_are_kept(backend: DrmBackend, key: CompositeFbKey)
    requires
        backend.wf(),
        refers_to(backend.current, key) + refers_to(backend.retiring, key) > 0,
    ensures
        has_entry(backend.cache.entries@, key),
        has_entry(kept(backend.cache.entries@), key),
{
    let entries = backend.cache.entries@;
    assert(users_of(entries, key) > 0);
    if !has_entry(entries, key) {
        lemma_no_users(entries, key);
    }
    lemma_kept(entries, key);
    if !has_entry(kept(entries), key) {
        lemma_no_users(kept(entries), key);
    }
}

/// The first retry comes after five seconds; every further rejection doubles the wait,
/// up to five minutes.
pub proof fn retries_back_off(failures: u32, delay: u64, longer: u64, first: u64)
    requires
        failures < u32::MAX,
        call_ensures(cursor_retry_delay, (failures,), delay),
        call_ensures(cursor_retry_delay, ((failures + 1) as u32,), longer),
        call_ensures(cursor_retry_delay, (0u32,), first),
    ensures
        first == 5_000,
        2 * delay <= 300_000 ==> longer == 2 * delay,
        2 * delay > 300_000 ==> longer == 300_000,
{
    lemma2_to64();
}

/// A rendered frame that must be imported is kept under what identifies it: its slot, its
/// memory object and its layout, in the format of the displays.
pub proof fn imports_are_kept_by_identity(
    backend: &mut DrmBackend,
    frame: RenderedFrame,
    identity: Option<DmabufIdentity>,
    step: ImportStep,
    released: Vec<Resource>,
)
    requires
        call_ensures(DrmBackend::begin_import, (backend, frame, identity), (step, released)),
    ensures
        identity is None ==> step == ImportStep::Import(None) && released@.len() == 0,
        step matches ImportStep::Import(Some(key)) ==> {
            &&& identity == Some(key.identity)
            &&& key.slot == frame.slot
            &&& key.width == frame.width && key.height == frame.height
            &&& key.stride == frame.stride && key.modifier == frame.modifier
            &&& key.fourcc == old(backend).displays.format
            &&& key.epoch == old(backend).cache.epoch
        },
        step matches ImportStep::Ready(scanout) ==> {
            &&& scanout.slot == frame.slot
            &&& scanout.acquire_fence == frame.acquire_fence
            &&& scanout.ownership matches ScanoutOwnership::Cached(key)
            &&& identity == Some(key.identity)
            &&& key.slot == frame.slot && key.width == frame.width && key.height == frame.height
            &&& key.stride == frame.stride && key.modifier == frame.modifier
            &&& key.fourcc == old(backend).displays.format
        },
{
}

/// An imported frame is shown through the framebuffer that was made for it, and is kept
/// only where it can be identified.
pub proof fn imported_frames_are_shown_as_imported(
    backend: &mut DrmBackend,
    key: Option<CompositeFbKey>,
    frame: RenderedFrame,
    resource: Resource,
    scanout: Scanout,
)
    requires
        call_ensures(DrmBackend::finish_import, (backend, key, frame, resource), scanout),
    ensures
        scanout.framebuffer == resource.framebuffer && scanout.gem == resource.gem,
        scanout.slot == frame.slot && scanout.acquire_fence == frame.acquire_fence,
        key is None ==> scanout.ownership is TransientCompositor && final(backend).cache.entries@
            == old(backend).cache.entries@,
        key matches Some(kept_as) ==> {
            let made = final(backend).cache.entries@.last();
            &&& scanout.ownership == ScanoutOwnership::Cached(kept_as)
            &&& final(backend).cache.entries@.len() == old(backend).cache.entries@.len() + 1
            &&& made.key == kept_as && made.framebuffer == resource.framebuffer
            &&& made.gem == resource.gem && made.users == 1 && made.reusable
        },
{
}

/// An accepted frame is the one that is shown; the one that was shown is on its way off,
/// and every controller, and no other, has a flip to report.
pub proof fn accepted_frames_are_shown(
    backend: &mut DrmBackend,
    scanout: Scanout,
    leaked: Option<Scanout>,
    crtc: u32,
)
    requires
        backend.counts(Some(scanout)),
        call_ensures(DrmBackend::commit_accepted, (backend, scanout), leaked),
    ensures
        final(backend).current is Some,
        final(backend).current->0.framebuffer == scanout.framebuffer,
        final(backend).current->0.gem == scanout.gem,
        final(backend).current->0.slot == scanout.slot,
        final(backend).current->0.ownership == scanout.ownership,
        final(backend).current->0.acquire_fence is None,
        final(backend).retiring == old(backend).current,
        leaked == old(backend).retiring,
        final(backend).modeset_done,
        final(backend).pending_flips@.contains(crtc) <==> exists|i: int|
            0 <= i < old(backend).displays.outputs@.len() && (
            #[trigger] old(backend).displays.outputs@[i]).crtc == crtc,
        final(backend).cursor.plane_active <==> old(backend).cursor.state is Some,
{
}

/// The scanout that was replaced goes only with the last flip of the update; until then it
/// stays, and what is shown stays in any case.
pub proof fn replaced_frames_wait_for_the_last_flip(
    backend: &mut DrmBackend,
    crtcs: &[u32],
    released: Vec<Resource>,
    waiting: u32,
)
    requires
        backend.wf(),
        call_ensures(DrmBackend::page_flips, (backend, crtcs), released),
    ensures
        final(backend).pending_flips@.contains(waiting) <==> old(backend).pending_flips@.contains(
            waiting,
        ) && !crtcs@.contains(waiting),
        old(backend).pending_flips@.contains(waiting) && !crtcs@.contains(waiting)
            ==> final(backend).retiring == old(backend).retiring && released@.len() == 0,
        final(backend).current == old(backend).current,
        !old(backend).pending_flips@.is_empty() && (forall|c: u32| #[trigger]
            old(backend).pending_flips@.contains(c) ==> crtcs@.contains(c))
                ==> final(backend).retiring
            is None,
{
    if !backend.pending_flips@.is_empty() && (forall|c: u32| #[trigger]
        backend.pending_flips@.contains(c) ==> crtcs@.contains(c)) {
        assert(final(backend).pending_flips@ =~= Set::empty());
        assert(final(backend).pending_flips@.is_empty());
    }
    if backend.pending_flips@.contains(waiting) && !crtcs@.contains(waiting) {
        assert(final(backend).pending_flips@.contains(waiting));
    }
}

/// A rejected frame is skipped where the rejection passes by itself; it is blamed on the
/// cursor where one is shown, and reported otherwise.
pub proof fn rejections_are_sorted_out(
    backend: &mut DrmBackend,
    scanout: Scanout,
    errno: Option<i32>,
    now_ms: u64,
    error: DrmError,
    released: Vec<Resource>,
)
    requires
        backend.counts(Some(scanout)),
        now_ms + HARDWARE_CURSOR_RETRY_MAX_MS <= u64::MAX,
        call_ensures(DrmBackend::commit_rejected, (backend, scanout, errno, now_ms), (error, released)),
    ensures
        errno == Some(16i32) ==> error is Busy,
        errno == Some(13i32) || errno == Some(1i32) ==> error is Inactive,
        errno != Some(16i32) && errno != Some(13i32) && errno != Some(1i32) ==> {
            let shown = old(backend).cursor.state is Some || old(backend).cursor.plane_active;
            &&& shown ==> error is CursorFallback && final(backend).cursor.failed
                && final(backend).cursor.state is None
                    && final(backend).cursor.retry_at is Some
                        && final(backend).cursor.retry_at->0 >= now_ms + 5_000
                            && final(backend).cursor.retry_at->0 <= now_ms
                + 300_000
            &&& !shown ==> error == DrmError::Io(errno)
                && final(backend).cursor == old(backend).cursor
        },
        final(backend).current == old(backend).current
            && final(backend).retiring == old(backend).retiring,
{
    retry_delay_grows(backend.cursor.failures, backend.cursor.failures);
}

/// The sprite is held where the client holds it, and shown from the buffer that was just
/// made for it.
pub proof fn new_sprites_are_held_where_asked(
    backend: &mut DrmBackend,
    framebuffer: u32,
    sprite: HardwareCursor<'_>,
    evicted: Vec<CursorBuffer>,
)
    requires
        call_ensures(DrmBackend::finish_cursor, (backend, framebuffer, sprite), evicted),
    ensures
        final(backend).cursor.state is Some,
        ({
            let state = final(backend).cursor.state->0;
            let buffers = final(backend).cursor.buffers.buffers@;
            &&& state.position == sprite.position && state.hotspot == sprite.hotspot
            &&& state.buffer < buffers.len()
            &&& buffers[state.buffer as int].framebuffer == framebuffer
            &&& buffers[state.buffer as int].extent == old(backend).cursor.extent
            &&& buffers[state.buffer as int].pixels@ == sprite.pixels@
            &&& buffers[state.buffer as int].content_size == sprite.size
        }),
        final(backend).cursor.buffers.buffers@.len() <= 64,
        final(backend).cursor.buffers.buffers@.len() + evicted@.len()
            == old(backend).cursor.buffers.buffers@.len() + 1,
{
}

/// A known sprite is shown from a buffer that holds its pixels, held where it is asked; an
/// unknown one is uploaded first.
pub proof fn known_sprites_are_shown_at_once(
    backend: &mut DrmBackend,
    sprite: HardwareCursor<'_>,
    step: CursorStep,
)
    requires
        call_ensures(DrmBackend::begin_cursor, (backend, Some(sprite)), Ok(step)),
    ensures
        step == CursorStep::Done ==> {
            let state = final(backend).cursor.state->0;
            let buffers = final(backend).cursor.buffers.buffers@;
            &&& final(backend).cursor.state is Some
            &&& state.position == sprite.position && state.hotspot == sprite.hotspot
            &&& state.buffer < buffers.len()
            &&& buffers[state.buffer as int].pixels@ == sprite.pixels@
            &&& buffers[state.buffer as int].content_size == sprite.size
        },
        step == CursorStep::Upload ==> final(backend).cursor.state == old(backend).cursor.state,
        sprite.size.0 > 0 && sprite.size.1 > 0,
        sprite.size.0 <= old(backend).cursor.extent.0
            && sprite.size.1 <= old(backend).cursor.extent.1,
        sprite.hotspot.0 < sprite.size.0 && sprite.hotspot.1 < sprite.size.1,
        sprite.pixels@.len() == sprite.size.0 * sprite.size.1 * 4,
        !old(backend).cursor.failed,
{
}

/// Without a sprite the cursor is hidden.
pub proof fn no_sprite_hides_the_cursor(
    backend: &mut DrmBackend,
    result: Result<CursorStep, DrmError>,
)
    requires
        call_ensures(DrmBackend::begin_cursor, (backend, None), result),
    ensures
        result matches Ok(step) ==> step == CursorStep::Done && final(backend).cursor.state is None,
        result is Err ==> final(backend).cursor == old(backend).cursor,
        result is Err <==> old(backend).cursor.failed || old(backend).displays.outputs@.len()
            == 0 || exists|
            i: int,
        |
            0 <= i < old(backend).displays.outputs@.len() && (
            #[trigger] old(backend).displays.outputs@[i]).cursor is None,
{
}

/// A rejected cursor is tried again once its time has come, and not before.
pub proof fn rejected_cursors_come_back_in_time(
    backend: &mut DrmBackend,
    now_ms: u64,
    rearmed: bool,
)
    requires
        call_ensures(DrmBackend::poll_hardware_cursor_retry, (backend, now_ms), rearmed),
    ensures
        rearmed ==> old(backend).cursor.failed && old(backend).cursor.retry_at is Some
            && old(backend).cursor.retry_at->0 <= now_ms && !final(backend).cursor.failed,
        old(backend).cursor.failed && old(backend).cursor.retry_at is Some
            && old(backend).cursor.retry_at->0
            <= now_ms ==> rearmed,
        !rearmed ==> *final(backend) == *old(backend),
        final(backend).cursor.failures == old(backend).cursor.failures,
{
}

/// Frame updates never wait and always report their completion; outputs are set up, and
/// that is tested first, exactly until it has been done.
pub proof fn updates_never_wait(backend: DrmBackend, flags: CommitFlags, test: Option<CommitFlags>)
    requires
        call_ensures(DrmBackend::commit_flags, (&backend,), flags),
        call_ensures(DrmBackend::test_flags, (&backend,), test),
    ensures
        flags.nonblock && flags.page_flip_event && !flags.test_only,
        flags.allow_modeset <==> !backend.modeset_done,
        test is Some <==> !backend.modeset_done,
        test matches Some(tried) ==> tried.test_only && tried.allow_modeset
            && !tried.page_flip_event && !tried.nonblock,
{
}

/// A scanout is shown if and only if its lifetime fits its source and every plane can wait
/// for its fence, where it has one.
pub proof fn unfit_scanouts_are_not_shown(
    backend: &mut DrmBackend,
    scanout: Scanout,
    frame: PrimaryPlaneFrame,
    result: Result<(), Vec<Resource>>,
)
    requires
        backend.counts(Some(scanout)),
        call_ensures(DrmBackend::check_commit, (backend, scanout, frame), result),
    ensures
        result is Ok <==> (scanout.ownership is TransientClient <==> frame is DirectClient) && (
        scanout.acquire_fence is Some ==> forall|i: int|
            0 <= i < old(backend).displays.outputs@.len() ==> (
            #[trigger] old(backend).displays.outputs@[i]).primary.props.in_fence_fd is Some),
        result is Ok ==> *final(backend) == *old(backend),
        final(backend).current == old(backend).current,
{
}

/// A hardware cursor that is given up is not shown, and is tried again after a while that
/// grows with each failure.
pub proof fn given_up_cursors_are_tried_again(backend: &mut DrmBackend, now_ms: u64)
    requires
        now_ms + 300_000 <= u64::MAX,
        call_ensures(DrmBackend::disable_hardware_cursor, (backend, now_ms), ()),
    ensures
        final(backend).cursor.failed && final(backend).cursor.state is None,
        final(backend).cursor.plane_active == old(backend).cursor.plane_active,
        final(backend).cursor.retry_at is Some,
        now_ms + 5_000 <= final(backend).cursor.retry_at->0 <= now_ms + 300_000,
        old(backend).cursor.failures < u32::MAX ==> final(backend).cursor.failures
            == old(backend).cursor.failures + 1,
        final(backend).current == old(backend).current,
        final(backend).pending_flips == old(backend).pending_flips,
{
    retry_delay_grows(backend.cursor.failures, backend.cursor.failures);
}

/// An accepted sprite forgets earlier failures; whether a plane is on is noted.
pub proof fn accepted_sprites_start_afresh(backend: &mut DrmBackend)
    requires
        call_ensures(DrmBackend::cursor_commit_accepted, (backend,), ()),
    ensures
        final(backend).cursor.plane_active <==> old(backend).cursor.state is Some,
        old(backend).cursor.state is Some ==> final(backend).cursor.failures == 0,
        old(backend).cursor.state is None ==> final(backend).cursor.failures
            == old(backend).cursor.failures,
        final(backend).cursor.state == old(backend).cursor.state,
        final(backend).pending_flips == old(backend).pending_flips,
{
}

/// A rejected sprite update is skipped where the rejection passes by itself.
pub proof fn rejected_sprites_are_sorted_out(
    backend: &mut DrmBackend,
    errno: Option<i32>,
    now_ms: u64,
    error: DrmError,
)
    requires
        now_ms + 300_000 <= u64::MAX,
        call_ensures(DrmBackend::cursor_commit_rejected, (backend, errno, now_ms), error),
    ensures
        errno == Some(16i32) ==> error is Busy && final(backend).cursor == old(backend).cursor,
        errno == Some(13i32) || errno == Some(1i32) ==> error is Inactive && final(backend).cursor
            == old(backend).cursor,
        errno != Some(16i32) && errno != Some(13i32) && errno != Some(1i32) ==> {
            let shown = old(backend).cursor.state is Some || old(backend).cursor.plane_active;
            &&& shown ==> error is CursorFallback && final(backend).cursor.failed
            &&& !shown ==> error == DrmError::Io(errno)
                && final(backend).cursor == old(backend).cursor
        },
        final(backend).current == old(backend).current,
        final(backend).pending_flips == old(backend).pending_flips,
{
}

/// Giving up a lost update leaves nothing in flight, and nothing else changed; a hardware
/// cursor is used where every output has a plane for it and it has not failed.
pub proof fn lost_updates_are_given_up(
    backend: &mut DrmBackend,
    crtc: u32,
    other: DrmBackend,
    supported: bool,
)
    requires
        call_ensures(DrmBackend::recover_lost_presentation, (backend,), ()),
        call_ensures(DrmBackend::hardware_cursor_supported, (&other,), supported),
    ensures
        !final(backend).pending_flips@.contains(crtc),
        final(backend).current == old(backend).current
            && final(backend).retiring == old(backend).retiring,
        supported <==> !other.cursor.failed && other.displays.outputs@.len() > 0 && forall|i: int|
            0 <= i < other.displays.outputs@.len() ==> (
            #[trigger] other.displays.outputs@[i]).cursor is Some,
{
}

/// Completion is asked for where a client's buffer is shown and every controller can report
/// it.
pub proof fn completion_is_asked_of_every_controller(
    backend: DrmBackend,
    frame: PrimaryPlaneFrame,
    used: bool,
)
    requires
        call_ensures(DrmBackend::uses_completion_fences, (&backend, frame), used),
    ensures
        used <==> frame is DirectClient && forall|i: int|
            0 <= i < backend.displays.outputs@.len() ==> (
            #[trigger] backend.displays.outputs@[i]).props.crtc_out_fence_ptr is Some,
{
}

} // verus!

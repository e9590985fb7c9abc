//! The display across power changes, terminal switches and hotplug.

use vstd::prelude::*;
use drm::control::atomic::AtomicModeReq;
use crate::geometry::Size;
use crate::kms::backend::{refers_to, CursorPlaneState, DrmBackend, SurfaceState};
use crate::kms::color::{ColorPolicy, DisplayColorMode};
use crate::kms::commit::{all_off_entries, disable_request};
use crate::kms::config::{both_agree, ConnectorSettings};
use crate::kms::cursor::CursorBuffer;
use crate::kms::display::{
    equal_looks_agree_throughout, only_candidates, same_displays, same_optional_text,
    same_signature, DisplaySet,
};
use crate::kms::error::{DrmError, EACCES, EPERM};
use crate::kms::modes::ModeSpec;
use crate::kms::output::{all_planes_take_fences, all_take_fences, outputs_wf};
use crate::kms::plan::{optional_text, OutputSettings};
use crate::kms::present::dropped_scanout;
use crate::kms::request::{request_entries, settings};
use crate::kms::scanout::{
    all_retired, distinct_keys, kept, lemma_kept, next_epoch, reaped, resources, users_of,
    CachedCompositeFb, CompositeFbKey, Resource, Scanout,
};
use crate::seqs::{copy_u64s, equal_u64s};

verus! {

/// What changing the power of the outputs takes.
#[derive(Debug, Clone, Copy, PartialEq, Eq, Structural)]
pub enum PowerStep {
    /// Nothing: the outputs are as asked.
    Unchanged,
    /// The outputs are turned off by an update.
    TurnOff,
    /// The outputs are off already; this is only noted.
    NoteOff,
    /// The outputs come back with the next frame.
    Wake,
}

/// What a new look at the displays calls for.
#[derive(Debug, Clone, Copy, PartialEq, Eq, Structural)]
pub enum HotplugStep {
    /// Nothing is attached: stop showing frames.
    Suspend,
    /// The look failed: keep what there is.
    Keep,
    /// Nothing has changed.
    Unchanged,
    /// The displays have changed.
    Replace,
}

/// What the poll of the event sources found.
#[derive(Debug, Clone, Copy, PartialEq, Eq, Structural)]
pub struct Readiness {
    /// The seat has news.
    pub seat: bool,
    /// The card is gone.
    pub card_lost: bool,
    /// The card has events.
    pub card: bool,
    /// Input devices have events.
    pub input: bool,
    /// The device monitor has news.
    pub hotplug: bool,
}

/// Data can be read.
pub const POLLIN: i16 = 1;

/// An error is pending.
pub const POLLERR: i16 = 8;

/// The other side is gone.
pub const POLLHUP: i16 = 16;

/// The descriptor is not open.
pub const POLLNVAL: i16 = 32;

/// Whether `flags` holds any of `wanted`.
pub open spec fn any_of(flags: i16, wanted: i16) -> bool {
    flags & wanted != 0
}

impl Readiness {
    /// Read the answers for the seat, the card, the input devices and the
    /// device monitor, in that order.
    pub fn from_revents(seat: i16, card: i16, input: i16, hotplug: i16) -> (ready: Readiness)
        ensures
            ready == (Readiness {
                seat: any_of(seat, POLLIN | POLLHUP | POLLERR),
                card_lost: any_of(card, POLLHUP | POLLNVAL),
                card: any_of(card, POLLIN | POLLERR),
                input: any_of(input, POLLIN | POLLERR),
                hotplug: any_of(hotplug, POLLIN | POLLERR),
            }),
    {
        Readiness {
            seat: seat & (POLLIN | POLLHUP | POLLERR) != 0,
            card_lost: card & (POLLHUP | POLLNVAL) != 0,
            card: card & (POLLIN | POLLERR) != 0,
            input: input & (POLLIN | POLLERR) != 0,
            hotplug: hotplug & (POLLIN | POLLERR) != 0,
        }
    }
}

/// The flags that a lost card reports are told apart from the ones that mean
/// events.
pub proof fn poll_flags_are_distinct()
    ensures
        any_of(POLLHUP, POLLIN | POLLHUP | POLLERR),
        any_of(POLLHUP, POLLHUP | POLLNVAL),
        !any_of(POLLIN, POLLHUP | POLLNVAL),
        !any_of(POLLNVAL, POLLIN | POLLERR),
{
    assert(16i16 & (1i16 | 16i16 | 8i16) != 0) by (bit_vector);
    assert(16i16 & (16i16 | 32i16) != 0) by (bit_vector);
    assert(1i16 & (16i16 | 32i16) == 0) by (bit_vector);
    assert(32i16 & (1i16 | 8i16) == 0) by (bit_vector);
}

/// A new look in which the number of outputs changed, or some output's name,
/// mode size, refresh rate, scale or place, or whether it has a cursor plane, is
/// taken up.
pub proof fn changed_outputs_are_replaced(backend: DrmBackend, displays: DisplaySet, index: int)
    requires
        displays.outputs@.len() != backend.displays.outputs@.len() || {
            let before = backend.displays.outputs@[index];
            let after = displays.outputs@[index];
            0 <= index < displays.outputs@.len() && {
                ||| after.name@ != before.name@
                ||| after.width != before.width
                ||| after.height != before.height
                ||| after.vrefresh != before.vrefresh
                ||| after.scale.bits != before.scale.bits
                ||| after.x != before.x
                ||| after.y != before.y
                ||| after.cursor is Some && before.cursor is None
                ||| after.cursor is None && before.cursor is Some
            }
        },
    ensures
        backend.hotplug_answer(Ok(displays)) == HotplugStep::Replace,
{
    equal_looks_agree_throughout(displays, backend.displays);
}

/// A new look that is answered by leaving the displays alone shows the outputs
/// as they are: as many of them and, one by one, the same name, mode size, refresh
/// rate, scale and place.
pub proof fn unchanged_looks_show_the_same_outputs(
    backend: DrmBackend,
    selected: Result<DisplaySet, DrmError>,
)
    requires
        backend.hotplug_answer(selected) == HotplugStep::Unchanged,
    ensures
        selected is Ok,
        selected->Ok_0.format == backend.displays.format,
        selected->Ok_0.color_mode == backend.displays.color_mode,
        selected->Ok_0.outputs@.len() == backend.displays.outputs@.len(),
        forall|i: int|
            #![trigger backend.displays.outputs@[i]]
            0 <= i < backend.displays.outputs@.len() ==> {
                let before = backend.displays.outputs@[i];
                let after = selected->Ok_0.outputs@[i];
                &&& after.name@ == before.name@
                &&& after.width == before.width
                &&& after.height == before.height
                &&& after.vrefresh == before.vrefresh
                &&& after.scale.bits == before.scale.bits
                &&& after.x == before.x
                &&& after.y == before.y
            },
{
    equal_looks_agree_throughout(selected->Ok_0, backend.displays);
    assert forall|i: int|
        #![trigger backend.displays.outputs@[i]]
        0 <= i < backend.displays.outputs@.len() implies {
        let before = backend.displays.outputs@[i];
        let after = selected->Ok_0.outputs@[i];
        &&& after.name@ == before.name@
        &&& after.width == before.width
        &&& after.height == before.height
        &&& after.vrefresh == before.vrefresh
        &&& after.scale.bits == before.scale.bits
        &&& after.x == before.x
        &&& after.y == before.y
    } by {
        let after = selected->Ok_0.outputs@[i];
    }
}

/// A look that finds nothing attached stops the frames; one that fails in another
/// way changes nothing.
pub proof fn failed_looks_replace_nothing(backend: DrmBackend, error: DrmError)
    ensures
        backend.hotplug_answer(Err(error)) == HotplugStep::Suspend <==> error is NoConnector,
        backend.hotplug_answer(Err(error)) == HotplugStep::Keep <==> !(error is NoConnector),
{
}

/// What the events that a source is polled for are: a suspended session listens
/// only to the seat and the device monitor.
pub fn poll_events(active: bool) -> (events: [i16; 5])
    ensures
        events@ == if active {
            seq![POLLIN, POLLIN, POLLIN, POLLIN, POLLIN]
        } else {
            seq![POLLIN, 0i16, 0i16, POLLIN, 0i16]
        },
{
    let live: i16 = if active {
        POLLIN
    } else {
        0
    };
    let events = [POLLIN, live, live, POLLIN, live];
    assert(events@ =~= if active {
        seq![POLLIN, POLLIN, POLLIN, POLLIN, POLLIN]
    } else {
        seq![POLLIN, 0i16, 0i16, POLLIN, 0i16]
    });
    events
}

/// The surface that a new frame is drawn on.
#[derive(Debug, Clone, Copy, PartialEq, Eq, Structural)]
pub enum HdrBlobStep {
    /// Make the description of the encoding.
    Create,
    /// Destroy the description of the encoding.
    Destroy(u64),
    /// Leave it as it is.
    Keep,
}

impl DrmBackend {
    /// What turning the outputs on or off takes now.
    pub open spec fn power_answer(self, powered: bool) -> Result<PowerStep, DrmError> {
        if self.outputs_powered == powered {
            Ok(PowerStep::Unchanged)
        } else if !self.active {
            Err(DrmError::Inactive)
        } else if !self.pending_flips@.is_empty() {
            Err(DrmError::Busy)
        } else if powered {
            Ok(PowerStep::Wake)
        } else if self.modeset_done {
            Ok(PowerStep::TurnOff)
        } else {
            Ok(PowerStep::NoteOff)
        }
    }

    /// Begin turning the outputs on or off. The change never waits for an
    /// update in flight; it is refused, to be tried again.
    pub fn begin_power_change(&self, powered: bool) -> (result: Result<PowerStep, DrmError>)
        ensures
            result == self.power_answer(powered),
    {
        if self.outputs_powered == powered {
            return Ok(PowerStep::Unchanged);
        }
        if !self.active {
            return Err(DrmError::Inactive);
        }
        if self.presentation_pending() {
            return Err(DrmError::Busy);
        }
        if powered {
            Ok(PowerStep::Wake)
        } else if self.modeset_done {
            Ok(PowerStep::TurnOff)
        } else {
            Ok(PowerStep::NoteOff)
        }
    }

    /// The state once the outputs have been turned on or off.
    pub open spec fn after_power(self, step: PowerStep) -> DrmBackend {
        match step {
            PowerStep::Unchanged => self,
            PowerStep::TurnOff | PowerStep::NoteOff => DrmBackend {
                modeset_done: false,
                outputs_powered: false,
                cursor: CursorPlaneState { plane_active: false, state: None, ..self.cursor },
                ..self
            },
            PowerStep::Wake => DrmBackend {
                modeset_done: false,
                outputs_powered: true,
                cursor: CursorPlaneState { state: None, ..self.cursor },
                ..self
            },
        }
    }

    /// Finish turning the outputs on or off, once the update that turns them
    /// off, if there is one, has been made.
    ///
    /// Either way the placement of the sprite is forgotten, so that the next
    /// update states it anew, and the next frame sets the outputs up anew.
    pub fn finish_power_change(&mut self, step: PowerStep)
        ensures
            *final(self) == old(self).after_power(step),
    {
        match step {
            PowerStep::Unchanged => {},
            PowerStep::TurnOff | PowerStep::NoteOff => {
                self.modeset_done = false;
                self.cursor.plane_active = false;
                self.cursor.state = None;
                self.outputs_powered = false;
            },
            PowerStep::Wake => {
                self.outputs_powered = true;
                self.modeset_done = false;
                self.cursor.state = None;
            },
        }
    }

    /// Build the update that turns every output off.
    pub fn disable_update(&self) -> (request: AtomicModeReq)
        requires
            self.wf(),
        ensures
            request_entries(request) == settings(
                all_off_entries(self.displays.outputs@, self.displays.outputs.len() as int),
            ),
    {
        disable_request(self.displays.outputs.as_slice())
    }

    /// Take note that every output has been turned off.
    pub fn outputs_disabled(&mut self)
        ensures
            *final(self) == (DrmBackend {
                cursor: CursorPlaneState { plane_active: false, ..old(self).cursor },
                ..*old(self)
            }),
    {
        self.cursor.plane_active = false;
    }

    /// Whether the displays are to be looked at anew: the session owns them,
    /// something was plugged or configured, and no update is in flight.
    pub fn wants_reconfigure(&self) -> (wanted: bool)
        ensures
            wanted == (self.active && self.hotplug_pending && self.pending_flips@.is_empty()),
    {
        self.active && self.hotplug_pending && !self.presentation_pending()
    }

    /// Take note that something was plugged.
    pub fn note_hotplug(&mut self, seen: bool)
        ensures
            *final(self) == (DrmBackend {
                hotplug_pending: old(self).hotplug_pending || seen,
                ..*old(self)
            }),
    {
        self.hotplug_pending = self.hotplug_pending || seen;
    }

    /// What a new look at the displays calls for.
    pub open spec fn hotplug_answer(self, selected: Result<DisplaySet, DrmError>) -> HotplugStep {
        match selected {
            Err(DrmError::NoConnector) => HotplugStep::Suspend,
            Err(_) => HotplugStep::Keep,
            Ok(displays) => if same_signature(displays, self.displays) {
                HotplugStep::Unchanged
            } else {
                HotplugStep::Replace
            },
        }
    }

    /// Begin taking up a new look at the displays.
    pub fn begin_reconfigure(&mut self, selected: &Result<DisplaySet, DrmError>) -> (step:
        HotplugStep)
        requires
            old(self).wf(),
            selected matches Ok(displays) ==> only_candidates(displays.scanout_formats@),
        ensures
            step == old(self).hotplug_answer(*selected),
            *final(self) == (DrmBackend {
                hotplug_pending: false,
                render_ready: old(self).render_ready || step == HotplugStep::Unchanged,
                ..*old(self)
            }),
            final(self).wf(),
    {
        self.hotplug_pending = false;
        match selected {
            Err(DrmError::NoConnector) => HotplugStep::Suspend,
            Err(_) => HotplugStep::Keep,
            Ok(displays) => if same_displays(displays, &self.displays) {
                self.render_ready = true;
                HotplugStep::Unchanged
            } else {
                HotplugStep::Replace
            },
        }
    }

    /// Take every scanout off the screen, after the outputs have been turned
    /// off: the one being replaced, then the one shown.
    fn drop_scanouts(&mut self) -> (released: Vec<Resource>)
        requires
            old(self).counts(None),
        ensures
            final(self).counts(None),
            final(self).pending_flips@ == Set::<u32>::empty(),
            *final(self) == (DrmBackend {
                modeset_done: false,
                pending_flips: final(self).pending_flips,
                retiring: None,
                current: None,
                cache: final(self).cache,
                ..*old(self)
            }),
            final(self).cache.epoch == old(self).cache.epoch,
            scanouts_dropped(
                old(self).cache.entries@,
                final(self).cache.entries@,
                old(self).retiring,
                old(self).current,
                released@,
            ),
    {
        broadcast use vstd::std_specs::hash::group_hash_axioms;

        self.modeset_done = false;
        self.pending_flips.clear();
        let mut released: Vec<Resource> = Vec::new();
        let ghost entries0 = self.cache.entries@;
        if let Some(scanout) = self.retiring {
            self.retiring = None;
            assert(self.counts(Some(scanout)));
            let mut more = self.release_scanout(scanout);
            released.append(&mut more);
        }
        let ghost entries1 = self.cache.entries@;
        let ghost first = released@;
        assert(optional_dropped(entries0, entries1, old(self).retiring, first));
        let ghost mut second: Seq<Resource> = Seq::empty();
        if let Some(scanout) = self.current {
            self.current = None;
            assert(self.counts(Some(scanout)));
            let mut more = self.release_scanout(scanout);
            proof {
                second = more@;
            }
            released.append(&mut more);
        }
        proof {
            assert(optional_dropped(entries1, self.cache.entries@, old(self).current, second));
            assert(released@ =~= first + second);
        }
        released
    }

    /// Stop showing frames because nothing is attached, after the outputs have
    /// been turned off.
    pub fn suspend_rendering(&mut self) -> (released: Vec<Resource>)
        requires
            old(self).wf(),
        ensures
            final(self).wf(),
            final(self).pending_flips@ == Set::<u32>::empty(),
            *final(self) == (DrmBackend {
                modeset_done: false,
                pending_flips: final(self).pending_flips,
                retiring: None,
                current: None,
                cache: final(self).cache,
                render_ready: false,
                ..*old(self)
            }),
            final(self).cache.epoch == old(self).cache.epoch,
            scanouts_dropped(
                old(self).cache.entries@,
                final(self).cache.entries@,
                old(self).retiring,
                old(self).current,
                released@,
            ),
    {
        let released = self.drop_scanouts();
        self.render_ready = false;
        released
    }

    /// Whether the render surface no longer fits the displays.
    pub open spec fn surface_outdated(self, displays: DisplaySet) -> bool {
        displays.modifiers@ != self.surface.modifiers@ || displays.color_mode
            != self.surface.color_mode || optional_text(displays.icc_profile) != optional_text(
            self.surface.icc,
        )
    }

    /// Take up changed displays, after the old outputs have been turned off.
    /// The old display set is handed back so that its blobs can be destroyed.
    pub fn replace_displays(&mut self, displays: DisplaySet) -> (answer: (DisplaySet, Vec<Resource>))
        requires
            old(self).wf(),
            outputs_wf(displays.outputs@),
            only_candidates(displays.scanout_formats@),
        ensures
            final(self).wf(),
            answer.0 == old(self).displays,
            final(self).pending_flips@ == Set::<u32>::empty(),
            *final(self) == (DrmBackend {
                displays,
                modeset_done: false,
                pending_flips: final(self).pending_flips,
                retiring: None,
                current: None,
                cache: final(self).cache,
                surface: SurfaceState {
                    stale: old(self).surface.stale || old(self).surface_outdated(displays),
                    explicit_sync: old(self).surface.sync_capable && all_take_fences(
                        displays.outputs@,
                    ),
                    ..old(self).surface
                },
                pending_resize: Some(
                    Size { w: displays.size.0 as i32, h: displays.size.1 as i32 },
                ),
                render_ready: true,
                ..*old(self)
            }),
            final(self).cache.epoch == old(self).cache.epoch,
            scanouts_dropped(
                old(self).cache.entries@,
                final(self).cache.entries@,
                old(self).retiring,
                old(self).current,
                answer.1@,
            ),
    {
        let released = self.drop_scanouts();
        let outdated = !equal_u64s(
            displays.modifiers.as_slice(),
            self.surface.modifiers.as_slice(),
        ) || displays.color_mode != self.surface.color_mode || !same_optional_text(
            &displays.icc_profile,
            &self.surface.icc,
        );
        let fences = all_planes_take_fences(displays.outputs.as_slice());
        let size = Size { w: displays.size.0 as i32, h: displays.size.1 as i32 };
        let mut swapped = displays;
        std::mem::swap(&mut swapped, &mut self.displays);
        if outdated {
            self.surface.stale = true;
        }
        self.surface.explicit_sync = self.surface.sync_capable && fences;
        self.pending_resize = Some(size);
        self.render_ready = true;
        (swapped, released)
    }

    /// Take note that the seat was taken away. The answer says whether the
    /// session owned it.
    pub fn seat_disabled(&mut self) -> (acted: bool)
        ensures
            acted == old(self).active,
            *final(self) == (DrmBackend { active: false, ..*old(self) }),
    {
        let acted = self.active;
        self.active = false;
        acted
    }

    /// Forget everything about the card that was taken away while the seat was
    /// gone. Nothing is given back: the kernel freed it all.
    pub fn forget_revoked_card(&mut self)
        requires
            old(self).wf(),
        ensures
            final(self).wf(),
            final(self).pending_flips@ == Set::<u32>::empty(),
            final(self).cache.entries@.len() == 0,
            final(self).cache.epoch == next_epoch(old(self).cache.epoch),
            *final(self) == (DrmBackend {
                current: None,
                retiring: None,
                pending_flips: final(self).pending_flips,
                cache: final(self).cache,
                hotplug_pending: false,
                ..*old(self)
            }),
    {
        broadcast use vstd::std_specs::hash::group_hash_axioms;

        self.current = None;
        self.retiring = None;
        self.pending_flips.clear();
        self.cache.forget();
        self.hotplug_pending = false;
    }

    /// Take up the displays that were opened anew when the seat came back. The
    /// next frame is drawn and set up from scratch.
    pub fn seat_resumed(&mut self, displays: DisplaySet) -> (old_displays: DisplaySet)
        requires
            old(self).wf(),
            outputs_wf(displays.outputs@),
            only_candidates(displays.scanout_formats@),
        ensures
            final(self).wf(),
            old_displays == old(self).displays,
            *final(self) == (DrmBackend {
                displays,
                surface: SurfaceState {
                    stale: old(self).surface.stale || displays.modifiers@
                        != old(self).surface.modifiers@,
                    ..old(self).surface
                },
                pending_resize: Some(
                    Size { w: displays.size.0 as i32, h: displays.size.1 as i32 },
                ),
                modeset_done: false,
                outputs_powered: true,
                render_ready: true,
                active: true,
                ..*old(self)
            }),
    {
        if !equal_u64s(displays.modifiers.as_slice(), self.surface.modifiers.as_slice()) {
            self.surface.stale = true;
        }
        self.pending_resize = Some(
            Size { w: displays.size.0 as i32, h: displays.size.1 as i32 },
        );
        let mut swapped = displays;
        std::mem::swap(&mut swapped, &mut self.displays);
        self.modeset_done = false;
        self.outputs_powered = true;
        self.render_ready = true;
        self.active = true;
        swapped
    }

    /// Take note that reading the card's events failed. While another session
    /// owns the card, that is expected; otherwise it ends the session.
    pub fn card_read_failed(&mut self, errno: Option<i32>)
        ensures
            *final(self) == (DrmBackend {
                failed: old(self).failed || !(errno == Some(EACCES) || errno == Some(EPERM)),
                ..*old(self)
            }),
    {
        let expected = match errno {
            Some(code) => code == EACCES || code == EPERM,
            None => false,
        };
        if !expected {
            self.failed = true;
        }
    }

    /// Take note that the session cannot go on.
    pub fn fail(&mut self)
        ensures
            *final(self) == (DrmBackend { failed: true, ..*old(self) }),
    {
        self.failed = true;
    }

    /// Begin creating a render surface. Framebuffers of the surface before it
    /// are not used again, and what may go is handed back.
    pub fn begin_surface(&mut self) -> (released: Vec<Resource>)
        requires
            old(self).wf(),
        ensures
            final(self).wf(),
            *final(self) == (DrmBackend { cache: final(self).cache, ..*old(self) }),
            final(self).cache.epoch == next_epoch(old(self).cache.epoch),
            final(self).cache.entries@ == kept(all_retired(old(self).cache.entries@)),
            released@ == reaped(all_retired(old(self).cache.entries@)),
    {
        let ghost before = self.cache.entries@;
        let released = self.cache.invalidate();
        proof {
            assert forall|key: CompositeFbKey| #[trigger]
                users_of(self.cache.entries@, key) >= refers_to(self.current, key) + refers_to(
                    self.retiring,
                    key,
                ) + refers_to(None, key) by {
                lemma_all_retired(before, key);
                lemma_kept(all_retired(before), key);
                assert(users_of(before, key) >= refers_to(self.current, key) + refers_to(
                    self.retiring,
                    key,
                ));
            }
            lemma_all_retired(before, arbitrary());
            lemma_kept(all_retired(before), arbitrary());
        }
        released
    }

    /// What is to become of the description of the high-dynamic-range encoding
    /// when a surface for the current displays is created.
    pub fn hdr_blob_step(&self) -> (step: HdrBlobStep)
        ensures
            step == match (self.displays.color_mode, self.hdr_metadata_blob) {
                (DisplayColorMode::Hdr, None) => HdrBlobStep::Create,
                (DisplayColorMode::Hdr, Some(_)) => HdrBlobStep::Keep,
                (_, Some(blob)) => HdrBlobStep::Destroy(blob),
                (_, None) => HdrBlobStep::Keep,
            },
    {
        match (self.displays.color_mode, self.hdr_metadata_blob) {
            (DisplayColorMode::Hdr, None) => HdrBlobStep::Create,
            (DisplayColorMode::Hdr, Some(_)) => HdrBlobStep::Keep,
            (_, Some(blob)) => HdrBlobStep::Destroy(blob),
            (_, None) => HdrBlobStep::Keep,
        }
    }

    /// Finish creating a render surface: remember what it was made for.
    /// `made_blob` is the description of the encoding, where one was to be made
    /// and could be.
    pub fn finish_surface(
        &mut self,
        exportable: bool,
        sync_capable: bool,
        made_blob: Option<u64>,
    ) -> (result: Result<(), DrmError>)
        requires
            old(self).wf(),
        ensures
            final(self).wf(),
            !exportable ==> result == Err::<(), DrmError>(DrmError::DmabufUnsupported)
                && *final(self) == *old(self),
            exportable ==> {
                &&& result == Ok::<(), DrmError>(())
                &&& *final(self) == (DrmBackend {
                    surface: final(self).surface,
                    hdr_metadata_blob: match (
                        old(self).displays.color_mode,
                        old(self).hdr_metadata_blob,
                    ) {
                        (DisplayColorMode::Hdr, None) => made_blob,
                        (DisplayColorMode::Hdr, Some(blob)) => Some(blob),
                        (_, _) => None,
                    },
                    ..*old(self)
                })
                &&& final(self).surface.modifiers@ == old(self).displays.modifiers@
                &&& final(self).surface.color_mode == old(self).displays.color_mode
                &&& optional_text(final(self).surface.icc) == optional_text(
                    old(self).displays.icc_profile,
                )
                &&& !final(self).surface.stale
                &&& final(self).surface.sync_capable == sync_capable
                &&& final(self).surface.explicit_sync == (sync_capable && all_take_fences(
                    old(self).displays.outputs@,
                ))
            },
    {
        if !exportable {
            return Err(DrmError::DmabufUnsupported);
        }
        let step = self.hdr_blob_step();
        self.surface.modifiers = copy_u64s(self.displays.modifiers.as_slice());
        self.surface.color_mode = self.displays.color_mode;
        self.surface.icc = match &self.displays.icc_profile {
            Some(path) => Some(path.clone()),
            None => None,
        };
        match step {
            HdrBlobStep::Create => {
                self.hdr_metadata_blob = made_blob;
            },
            HdrBlobStep::Destroy(_) => {
                self.hdr_metadata_blob = None;
            },
            HdrBlobStep::Keep => {},
        }
        self.surface.stale = false;
        self.surface.sync_capable = sync_capable;
        self.surface.explicit_sync = sync_capable && all_planes_take_fences(
            self.displays.outputs.as_slice(),
        );
        Ok(())
    }

    /// Take the new desktop size, if it changed. The caller is about to change
    /// the render surface, so framebuffers of the one before are not used
    /// again.
    pub fn take_resize(&mut self) -> (answer: (Option<Size>, Vec<Resource>))
        requires
            old(self).wf(),
        ensures
            final(self).wf(),
            answer.0 == old(self).pending_resize,
            old(self).pending_resize is None ==> answer.1@.len() == 0 && *final(self) == *old(self),
            old(self).pending_resize is Some ==> {
                &&& *final(self) == (DrmBackend {
                    pending_resize: None,
                    cache: final(self).cache,
                    ..*old(self)
                })
                &&& final(self).cache.epoch == next_epoch(old(self).cache.epoch)
                &&& final(self).cache.entries@ == kept(all_retired(old(self).cache.entries@))
                &&& answer.1@ == reaped(all_retired(old(self).cache.entries@))
            },
    {
        match self.pending_resize {
            None => (None, Vec::new()),
            Some(size) => {
                self.pending_resize = None;
                let released = self.begin_surface();
                (Some(size), released)
            },
        }
    }

    /// Configure display modes. A change is taken up like a hotplug.
    pub fn set_configured_modes(&mut self, modes: ConnectorSettings<ModeSpec>)
        ensures
            old(self).settings.modes.agrees_with(modes) ==> *final(self) == *old(self),
            !old(self).settings.modes.agrees_with(modes) ==> *final(self) == (DrmBackend {
                settings: OutputSettings { modes, ..old(self).settings },
                hotplug_pending: true,
                ..*old(self)
            }),
    {
        if self.settings.modes.same_as(&modes) {
            return;
        }
        self.settings.modes = modes;
        self.hotplug_pending = true;
    }

    /// Configure color settings. A change is taken up like a hotplug.
    pub fn set_configured_color_policies(&mut self, policies: ConnectorSettings<ColorPolicy>)
        ensures
            old(self).settings.color.agrees_with(policies) ==> *final(self) == *old(self),
            !old(self).settings.color.agrees_with(policies) ==> *final(self) == (DrmBackend {
                settings: OutputSettings { color: policies, ..old(self).settings },
                hotplug_pending: true,
                ..*old(self)
            }),
    {
        if self.settings.color.same_as(&policies) {
            return;
        }
        self.settings.color = policies;
        self.hotplug_pending = true;
    }

    /// Configure color profiles. A change is taken up like a hotplug.
    pub fn set_configured_icc_profiles(&mut self, profiles: ConnectorSettings<String>)
        ensures
            old(self).settings.icc.agrees_with(profiles) ==> *final(self) == *old(self),
            !old(self).settings.icc.agrees_with(profiles) ==> *final(self) == (DrmBackend {
                settings: OutputSettings { icc: profiles, ..old(self).settings },
                hotplug_pending: true,
                ..*old(self)
            }),
    {
        if self.settings.icc.same_as(&profiles) {
            return;
        }
        self.settings.icc = profiles;
        self.hotplug_pending = true;
    }

    /// Remember the gamma table that was just made. The one before it is handed
    /// back, to be destroyed.
    pub fn replace_gamma_blob(&mut self, made: Option<u64>) -> (previous: Option<u64>)
        ensures
            previous == old(self).gamma_blob,
            *final(self) == (DrmBackend { gamma_blob: made, ..*old(self) }),
    {
        let previous: Option<u64> = self.gamma_blob;
        self.gamma_blob = made;
        previous
    }

    /// Shut down. While the session owns the display, everything is given back;
    /// afterwards the kernel has freed it already, and nothing is.
    pub fn shut_down(&mut self) -> (answer: (Vec<Resource>, Vec<CursorBuffer>))
        requires
            old(self).wf(),
        ensures
            final(self).wf(),
            final(self).cache.entries@.len() == 0,
            final(self).cursor.buffers.buffers@.len() == 0,
            *final(self) == (DrmBackend {
                current: None,
                retiring: None,
                cache: final(self).cache,
                cursor: CursorPlaneState {
                    buffers: final(self).cursor.buffers,
                    ..old(self).cursor
                },
                pending_flips: final(self).pending_flips,
                modeset_done: !old(self).active && old(self).modeset_done,
                ..*old(self)
            }),
            final(self).pending_flips@ == if old(self).active {
                Set::<u32>::empty()
            } else {
                old(self).pending_flips@
            },
            !old(self).active ==> answer.0@.len() == 0 && answer.1@.len() == 0,
            old(self).active ==> answer.1@ == old(self).cursor.buffers.buffers@ && exists|
                entries: Seq<CachedCompositeFb>,
                first: Seq<Resource>,
            | #[trigger]
                scanouts_dropped(
                    old(self).cache.entries@,
                    entries,
                    old(self).retiring,
                    old(self).current,
                    first,
                ) && answer.0@ == first + resources(entries),
    {
        if self.active {
            let mut released = self.drop_scanouts();
            let ghost entries = self.cache.entries@;
            let ghost first = released@;
            let mut cached = self.cache.drain();
            released.append(&mut cached);
            let buffers = self.cursor.buffers.clear();
            assert(released@ =~= first + resources(entries));
            (released, buffers)
        } else {
            self.retiring = None;
            self.current = None;
            self.cache.forget();
            let _ = self.cursor.buffers.clear();
            (Vec::new(), Vec::new())
        }
    }
}

/// What dropping an optional scanout does to the cache and hands back.
pub open spec fn optional_dropped(
    before: Seq<CachedCompositeFb>,
    after: Seq<CachedCompositeFb>,
    scanout: Option<Scanout>,
    released: Seq<Resource>,
) -> bool {
    match scanout {
        Some(scanout) => dropped_scanout(before, after, scanout, released),
        None => after == before && released.len() == 0,
    }
}

/// What dropping the scanout being replaced and then the one shown does to the
/// cache and hands back.
pub open spec fn scanouts_dropped(
    before: Seq<CachedCompositeFb>,
    after: Seq<CachedCompositeFb>,
    retiring: Option<Scanout>,
    current: Option<Scanout>,
    released: Seq<Resource>,
) -> bool {
    exists|between: Seq<CachedCompositeFb>, first: Seq<Resource>, second: Seq<Resource>|
        #[trigger] optional_dropped(before, between, retiring, first) && #[trigger]
        optional_dropped(between, after, current, second) && released == first + second
}

/// Retiring every entry changes no key and no count.
proof fn lemma_all_retired(entries: Seq<CachedCompositeFb>, key: CompositeFbKey)
    requires
        distinct_keys(entries),
    ensures
        distinct_keys(all_retired(entries)),
        users_of(all_retired(entries), key) == users_of(entries, key),
    decreases entries.len(),
{
    let after = all_retired(entries);
    assert forall|i: int, j: int|
        #![trigger after[i], after[j]]
        0 <= i < j < after.len() implies after[i].key != after[j].key by {
        let a = entries[i];
        let b = entries[j];
    }
    if entries.len() > 0 {
        lemma_all_retired(entries.drop_last(), key);
        assert(after.drop_last() =~= all_retired(entries.drop_last()));
    }
}

/// Outputs that are off show no frames. Once they are on again, the sprite is
/// placed anew, the outputs are set up anew, and frames are shown as before.
pub proof fn power_cycle_starts_afresh(backend: DrmBackend)
    ensures
        !backend.after_power(PowerStep::TurnOff).showing(),
        !backend.after_power(PowerStep::NoteOff).showing(),
        ({
            let again = backend.after_power(PowerStep::TurnOff).after_power(PowerStep::Wake);
            &&& !again.modeset_done
            &&& again.cursor.state is None
            &&& !again.cursor.plane_active
            &&& again.showing() == (backend.active && backend.render_ready)
            &&& again.wf() == backend.wf()
        }),
{
}

/// Turning the outputs off or on is refused while another session owns the display or an
/// update is in flight, and takes nothing where they are as asked.
pub proof fn power_changes_wait_for_their_time(
    backend: DrmBackend,
    powered: bool,
    result: Result<PowerStep, DrmError>,
)
    requires
        call_ensures(DrmBackend::begin_power_change, (&backend, powered), result),
    ensures
        result == Ok::<PowerStep, DrmError>(PowerStep::Unchanged) <==> backend.outputs_powered
            == powered,
        result is Err ==> backend.outputs_powered != powered,
        backend.outputs_powered != powered && !backend.active ==> result->Err_0 is Inactive,
        backend.outputs_powered != powered && backend.active
            && !backend.pending_flips@.is_empty() ==> result is Err && result->Err_0 is Busy,
        backend.outputs_powered != powered && backend.active && backend.pending_flips@.is_empty()
            ==> {
            &&& powered ==> result == Ok::<PowerStep, DrmError>(PowerStep::Wake)
            &&& !powered && backend.modeset_done ==> result == Ok::<PowerStep, DrmError>(
                PowerStep::TurnOff,
            )
            &&& !powered && !backend.modeset_done ==> result == Ok::<PowerStep, DrmError>(
                PowerStep::NoteOff,
            )
        },
{
}

/// After a change of power the outputs are as asked, are set up anew by the next frame,
/// and the sprite is placed anew.
pub proof fn power_changes_take_effect(backend: &mut DrmBackend, step: PowerStep)
    requires
        call_ensures(DrmBackend::finish_power_change, (backend, step), ()),
    ensures
        step == PowerStep::Unchanged ==> *final(backend) == *old(backend),
        step == PowerStep::Wake ==> final(backend).outputs_powered,
        step == PowerStep::TurnOff || step == PowerStep::NoteOff
            ==> !final(backend).outputs_powered && !final(backend).cursor.plane_active,
        step != PowerStep::Unchanged ==> !final(backend).modeset_done
            && final(backend).cursor.state is None,
        final(backend).displays == old(backend).displays
            && final(backend).current == old(backend).current,
        final(backend).active == old(backend).active,
{
}

/// Changed displays are taken up: the new ones are the ones that are driven, the desktop
/// gets their size, nothing of the old frames is on its way any more, and the outputs are
/// set up anew.
pub proof fn replaced_displays_are_driven(
    backend: &mut DrmBackend,
    displays: DisplaySet,
    old_displays: DisplaySet,
    released: Vec<Resource>,
)
    requires
        backend.wf(),
        displays.size.0 <= i32::MAX && displays.size.1 <= i32::MAX,
        call_ensures(DrmBackend::replace_displays, (backend, displays), (old_displays, released)),
    ensures
        final(backend).displays == displays,
        old_displays == old(backend).displays,
        final(backend).pending_resize is Some,
        final(backend).pending_resize->0.w == displays.size.0,
        final(backend).pending_resize->0.h == displays.size.1,
        final(backend).current is None && final(backend).retiring is None,
        final(backend).pending_flips@.is_empty(),
        !final(backend).modeset_done && final(backend).render_ready,
        displays.modifiers@ != old(backend).surface.modifiers@ || displays.color_mode
            != old(backend).surface.color_mode ==> final(backend).surface.stale,
        final(backend).surface.explicit_sync ==> forall|i: int|
            0 <= i < displays.outputs@.len() ==> (
            #[trigger] displays.outputs@[i]).primary.props.in_fence_fd is Some,
{
}

/// When nothing is attached, no frame is shown and none is on its way.
pub proof fn suspended_displays_show_nothing(backend: &mut DrmBackend, released: Vec<Resource>)
    requires
        backend.wf(),
        call_ensures(DrmBackend::suspend_rendering, (backend,), released),
    ensures
        !final(backend).render_ready && !final(backend).modeset_done,
        final(backend).current is None && final(backend).retiring is None,
        final(backend).pending_flips@.is_empty(),
        final(backend).displays == old(backend).displays,
{
}

/// When the seat comes back, the displays that were opened anew are driven, powered and
/// set up from scratch.
pub proof fn resumed_seats_start_from_scratch(
    backend: &mut DrmBackend,
    displays: DisplaySet,
    old_displays: DisplaySet,
)
    requires
        backend.wf(),
        displays.size.0 <= i32::MAX && displays.size.1 <= i32::MAX,
        call_ensures(DrmBackend::seat_resumed, (backend, displays), old_displays),
    ensures
        final(backend).active && final(backend).outputs_powered && final(backend).render_ready,
        !final(backend).modeset_done,
        final(backend).displays == displays && old_displays == old(backend).displays,
        final(backend).pending_resize is Some,
        final(backend).pending_resize->0.w == displays.size.0,
        final(backend).pending_resize->0.h == displays.size.1,
{
}

/// A card that was taken away is forgotten: nothing of it is shown, on its way, or kept.
pub proof fn revoked_cards_are_forgotten(backend: &mut DrmBackend, disabled: &mut DrmBackend, acted: bool)
    requires
        backend.wf(),
        call_ensures(DrmBackend::forget_revoked_card, (backend,), ()),
        call_ensures(DrmBackend::seat_disabled, (disabled,), acted),
    ensures
        final(backend).current is None && final(backend).retiring is None,
        final(backend).pending_flips@.is_empty(),
        final(backend).cache.entries@.len() == 0,
        final(backend).cache.epoch != old(backend).cache.epoch,
        !final(disabled).active,
        acted <==> old(disabled).active,
{
}

/// Configured modes that differ for some connector are taken up like a hotplug; the same
/// ones change nothing.
pub proof fn changed_modes_are_taken_up(
    backend: &mut DrmBackend,
    modes: ConnectorSettings<ModeSpec>,
    name: Seq<char>,
)
    requires
        call_ensures(DrmBackend::set_configured_modes, (backend, modes), ()),
    ensures
        old(backend).settings.modes.setting(name) != modes.setting(name)
            ==> final(backend).hotplug_pending && final(backend).settings.modes == modes,
        (forall|n: Seq<char>| #[trigger]
            old(backend).settings.modes.setting(n) == modes.setting(n))
                ==> *final(backend) == *old(backend),
{
    if backend.settings.modes.setting(name) != modes.setting(name) {
        assert(!both_agree(backend.settings.modes.setting(name), modes.setting(name)));
        assert(!backend.settings.modes.agrees_with(modes));
    }
    if forall|n: Seq<char>| #[trigger] backend.settings.modes.setting(n) == modes.setting(n) {
        assert forall|n: Seq<char>| both_agree(
            #[trigger] backend.settings.modes.setting(n),
            modes.setting(n),
        ) by {}
        assert(backend.settings.modes.agrees_with(modes));
    }
}

/// Displays are looked at anew only by the session that owns them, once something changed
/// and nothing is in flight; looking clears the note.
pub proof fn looks_wait_for_quiet(
    backend: DrmBackend,
    wanted: bool,
    looked: &mut DrmBackend,
    selected: Result<DisplaySet, DrmError>,
    step: HotplugStep,
)
    requires
        looked.wf(),
        call_ensures(DrmBackend::wants_reconfigure, (&backend,), wanted),
        call_ensures(DrmBackend::begin_reconfigure, (looked, &selected), step),
    ensures
        wanted ==> backend.active && backend.hotplug_pending && backend.pending_flips@.is_empty(),
        backend.active && backend.hotplug_pending && backend.pending_flips@.is_empty() ==> wanted,
        !final(looked).hotplug_pending,
        final(looked).displays == old(looked).displays,
        step == HotplugStep::Unchanged ==> final(looked).render_ready,
        step != HotplugStep::Unchanged ==> final(looked).render_ready == old(looked).render_ready,
{
}

/// A new look with some output in another mode, at another place, or in another number is
/// answered by replacing the displays.
pub proof fn new_looks_are_compared_output_by_output(
    backend: &mut DrmBackend,
    displays: DisplaySet,
    step: HotplugStep,
    index: int,
)
    requires
        backend.wf(),
        call_ensures(DrmBackend::begin_reconfigure, (backend, &Ok(displays)), step),
        0 <= index < displays.outputs@.len(),
    ensures
        step == HotplugStep::Unchanged || step == HotplugStep::Replace,
        displays.outputs@.len() != old(backend).displays.outputs@.len() ==> step
            == HotplugStep::Replace,
        displays.outputs@.len() == old(backend).displays.outputs@.len() && step
            == HotplugStep::Unchanged ==> {
            let before = old(backend).displays.outputs@[index];
            let after = displays.outputs@[index];
            &&& after.name@ == before.name@
            &&& after.width == before.width && after.height == before.height
            &&& after.vrefresh == before.vrefresh
            &&& after.scale.bits == before.scale.bits
            &&& after.x == before.x && after.y == before.y
            &&& after.cursor is Some <==> before.cursor is Some
        },
        step == HotplugStep::Unchanged ==> displays.format == old(backend).displays.format
            && displays.modifiers@ == old(backend).displays.modifiers@ && displays.color_mode
            == old(backend).displays.color_mode
                && displays.overlay == old(backend).displays.overlay,
{
    equal_looks_agree_throughout(displays, backend.displays);
    let after = displays.outputs@[index];
}

/// A render surface is remembered by what it was made for, and waits for fences only where
/// it and every plane can.
pub proof fn surfaces_fit_their_displays(
    backend: &mut DrmBackend,
    exportable: bool,
    sync_capable: bool,
    made_blob: Option<u64>,
    result: Result<(), DrmError>,
)
    requires
        backend.wf(),
        call_ensures(DrmBackend::finish_surface, (backend, exportable, sync_capable, made_blob), result),
    ensures
        result is Ok <==> exportable,
        result is Err ==> *final(backend) == *old(backend),
        result is Ok ==> {
            &&& final(backend).surface.modifiers@ == old(backend).displays.modifiers@
            &&& final(backend).surface.color_mode == old(backend).displays.color_mode
            &&& !final(backend).surface.stale
            &&& final(backend).surface.explicit_sync <==> sync_capable && forall|i: int|
                0 <= i < old(backend).displays.outputs@.len() ==> (
                #[trigger] old(backend).displays.outputs@[i]).primary.props.in_fence_fd is Some
            &&& old(backend).displays.color_mode != DisplayColorMode::Hdr
                ==> final(backend).hdr_metadata_blob is None
            &&& old(backend).displays.color_mode == DisplayColorMode::Hdr
                && old(backend).hdr_metadata_blob
                is None ==> final(backend).hdr_metadata_blob == made_blob
        },
{
}

/// A new desktop size is handed out once.
pub proof fn resizes_are_taken_once(
    backend: &mut DrmBackend,
    size: Option<Size>,
    released: Vec<Resource>,
)
    requires
        backend.wf(),
        call_ensures(DrmBackend::take_resize, (backend,), (size, released)),
    ensures
        size == old(backend).pending_resize,
        final(backend).pending_resize is None,
        size is Some ==> final(backend).cache.epoch != old(backend).cache.epoch,
        size is None ==> *final(backend) == *old(backend),
{
}

/// A suspended session listens only to the seat and the device monitor; an active one to
/// everything.
pub proof fn suspended_sessions_listen_to_the_seat(events: [i16; 5], quiet: [i16; 5])
    requires
        call_ensures(poll_events, (true,), events),
        call_ensures(poll_events, (false,), quiet),
    ensures
        forall|i: int| 0 <= i < 5 ==> #[trigger] events@[i] == 1,
        forall|i: int| 0 <= i < 5 ==> (#[trigger] quiet@[i] == 1 <==> i == 0 || i == 3),
        forall|i: int| 0 <= i < 5 ==> (#[trigger] quiet@[i] == 0 <==> i == 1 || i == 2 || i == 4),
{
}

/// Losing the right to read the card is expected and survived; any other failure ends the
/// session.
pub proof fn only_lost_rights_are_survived(backend: &mut DrmBackend, errno: Option<i32>)
    requires
        !backend.failed,
        call_ensures(DrmBackend::card_read_failed, (backend, errno), ()),
    ensures
        !final(backend).failed <==> errno == Some(13i32) || errno == Some(1i32),
{
}

/// The flags of a poll are read source by source: a card is lost when it hangs up or is no
/// longer valid, and a source is ready when it has data or an error.
pub proof fn poll_flags_are_read_by_source(
    seat: i16,
    card: i16,
    input: i16,
    hotplug: i16,
    ready: Readiness,
)
    requires
        call_ensures(Readiness::from_revents, (seat, card, input, hotplug), ready),
    ensures
        ready.seat <==> seat & 1i16 != 0 || seat & 8i16 != 0 || seat & 16i16 != 0,
        ready.card_lost <==> card & 16i16 != 0 || card & 32i16 != 0,
        ready.card <==> card & 1i16 != 0 || card & 8i16 != 0,
        ready.input <==> input & 1i16 != 0 || input & 8i16 != 0,
        ready.hotplug <==> hotplug & 1i16 != 0 || hotplug & 8i16 != 0,
{
    assert(seat & (1i16 | 16i16 | 8i16) != 0 <==> seat & 1i16 != 0 || seat & 8i16 != 0 || seat
        & 16i16 != 0) by (bit_vector);
    assert(card & (16i16 | 32i16) != 0 <==> card & 16i16 != 0 || card & 32i16 != 0)
        by (bit_vector);
    assert(card & (1i16 | 8i16) != 0 <==> card & 1i16 != 0 || card & 8i16 != 0) by (bit_vector);
    assert(input & (1i16 | 8i16) != 0 <==> input & 1i16 != 0 || input & 8i16 != 0)
        by (bit_vector);
    assert(hotplug & (1i16 | 8i16) != 0 <==> hotplug & 1i16 != 0 || hotplug & 8i16 != 0)
        by (bit_vector);
}

/// A change of attached displays is noted until it is looked at; turned-off outputs show no
/// sprite; a replaced table is handed back.
pub proof fn notes_are_kept(
    seen: &mut DrmBackend,
    change: bool,
    off: &mut DrmBackend,
    gamma: &mut DrmBackend,
    made: Option<u64>,
    previous: Option<u64>,
)
    requires
        call_ensures(DrmBackend::note_hotplug, (seen, change), ()),
        call_ensures(DrmBackend::outputs_disabled, (off,), ()),
        call_ensures(DrmBackend::replace_gamma_blob, (gamma, made), previous),
    ensures
        final(seen).hotplug_pending <==> old(seen).hotplug_pending || change,
        !final(off).cursor.plane_active,
        final(gamma).gamma_blob == made && previous == old(gamma).gamma_blob,
{
}

/// The description of the high range is made where it is missing and in use, and destroyed
/// where it is there and not in use.
pub proof fn range_descriptions_follow_the_pipeline(backend: DrmBackend, step: HdrBlobStep)
    requires
        call_ensures(DrmBackend::hdr_blob_step, (&backend,), step),
    ensures
        step is Create <==> backend.displays.color_mode == DisplayColorMode::Hdr
            && backend.hdr_metadata_blob is None,
        step is Destroy <==> backend.displays.color_mode != DisplayColorMode::Hdr
            && backend.hdr_metadata_blob is Some,
        step matches HdrBlobStep::Destroy(blob) ==> Some(blob) == backend.hdr_metadata_blob,
{
}

/// Configured colors that differ for some connector are taken up like a hotplug.
pub proof fn changed_colors_are_taken_up(
    backend: &mut DrmBackend,
    policies: ConnectorSettings<ColorPolicy>,
    name: Seq<char>,
)
    requires
        call_ensures(DrmBackend::set_configured_color_policies, (backend, policies), ()),
        backend.settings.color.setting(name) != policies.setting(name),
    ensures
        final(backend).hotplug_pending && final(backend).settings.color == policies,
{
    assert(!both_agree(backend.settings.color.setting(name), policies.setting(name)));
    assert(!backend.settings.color.agrees_with(policies));
}

/// Configured profiles that differ for some connector are taken up like a hotplug.
pub proof fn changed_profiles_are_taken_up(
    backend: &mut DrmBackend,
    profiles: ConnectorSettings<String>,
    name: Seq<char>,
)
    requires
        call_ensures(DrmBackend::set_configured_icc_profiles, (backend, profiles), ()),
        ({
            let before = backend.settings.icc.setting(name);
            let after = profiles.setting(name);
            (before is Some) != (after is Some) || (before is Some && after is Some && before->0@
                != after->0@)
        }),
    ensures
        final(backend).hotplug_pending && final(backend).settings.icc == profiles,
{
    assert(!both_agree(backend.settings.icc.setting(name), profiles.setting(name)));
    assert(!backend.settings.icc.agrees_with(profiles));
}

/// A session that shuts down shows nothing, keeps no framebuffer and no sprite, and hands
/// all sprites back.
pub proof fn shut_down_sessions_keep_nothing(
    backend: &mut DrmBackend,
    resources: Vec<Resource>,
    sprites: Vec<CursorBuffer>,
)
    requires
        backend.wf(),
        call_ensures(DrmBackend::shut_down, (backend,), (resources, sprites)),
    ensures
        final(backend).current is None && final(backend).retiring is None,
        final(backend).cache.entries@.len() == 0,
        final(backend).cursor.buffers.buffers@.len() == 0,
        old(backend).active ==> sprites@ == old(backend).cursor.buffers.buffers@
            && final(backend).pending_flips@.is_empty() && !final(backend).modeset_done,
{
}

} // verus!

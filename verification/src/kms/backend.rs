//! The state of direct display output and the steps of presenting a frame.

use std::collections::HashSet;
use vstd::prelude::*;
use crate::geometry::Size;
use crate::kms::color::DisplayColorMode;
use crate::kms::cursor::{CursorCache, CursorState};
use crate::kms::display::{only_candidates, DisplaySet};
use crate::kms::error::DrmError;
use crate::kms::output::{all_planes_take_fences, all_take_fences, outputs_wf};
use crate::kms::plan::OutputSettings;
use crate::kms::scanout::{
    distinct_keys, dropped, kept, lemma_kept, reaped, scanout_acquire_fence_supported, users_of,
    CachedCompositeFb, CompositeFbCache, CompositeFbKey, Resource, Scanout, ScanoutOwnership,
};

verus! {

/// The first delay before a rejected hardware cursor is tried again, in
/// milliseconds. Each further rejection doubles it.
pub const HARDWARE_CURSOR_RETRY_BASE_MS: u64 = 5_000;

/// The longest delay before a rejected hardware cursor is tried again, in
/// milliseconds.
pub const HARDWARE_CURSOR_RETRY_MAX_MS: u64 = 300_000;

/// The hardware cursor: what it shows, and whether the display takes it.
#[derive(Debug)]
pub struct CursorPlaneState {
    pub buffers: CursorCache,
    pub state: Option<CursorState>,
    /// Whether the last accepted update left a cursor plane on. This outlives
    /// a decision against the hardware cursor until an update has actually
    /// turned the plane off.
    pub plane_active: bool,
    pub extent: (u32, u32),
    pub failed: bool,
    /// When a rejected cursor may be tried again, on the millisecond clock.
    pub retry_at: Option<u64>,
    pub failures: u32,
}

/// The render surface as it was last created, and whether it still fits.
#[derive(Debug)]
pub struct SurfaceState {
    pub modifiers: Vec<u64>,
    pub color_mode: DisplayColorMode,
    pub icc: Option<String>,
    /// Whether the surface must be created anew.
    pub stale: bool,
    pub sync_capable: bool,
    pub explicit_sync: bool,
}

/// The state of direct display output.
#[derive(Debug)]
pub struct DrmBackend {
    pub displays: DisplaySet,
    /// Whether the session owns the display.
    pub active: bool,
    pub failed: bool,
    /// Whether the outputs have been set up since they were last changed.
    pub modeset_done: bool,
    /// The controllers whose part of the update in flight is not complete.
    pub pending_flips: HashSet<u32>,
    pub current: Option<Scanout>,
    pub retiring: Option<Scanout>,
    pub cache: CompositeFbCache,
    pub cursor: CursorPlaneState,
    pub surface: SurfaceState,
    pub render_ready: bool,
    pub outputs_powered: bool,
    pub hotplug_pending: bool,
    pub pending_resize: Option<Size>,
    pub settings: OutputSettings,
    /// The description of the high-dynamic-range encoding, while it is in use.
    pub hdr_metadata_blob: Option<u64>,
    /// The loaded gamma table.
    pub gamma_blob: Option<u64>,
}

/// Whether a scanout refers to the cached framebuffer under `key`.
pub open spec fn refers_to(scanout: Option<Scanout>, key: CompositeFbKey) -> int {
    if scanout matches Some(s) && s.ownership == ScanoutOwnership::Cached(key) {
        1
    } else {
        0
    }
}

impl DrmBackend {
    /// The cache counts every framebuffer that is shown, is being replaced, or
    /// is the given one on its way to the screen.
    pub open spec fn counts(self, in_flight: Option<Scanout>) -> bool {
        &&& distinct_keys(self.cache.entries@)
        &&& forall|key: CompositeFbKey| #[trigger]
            users_of(self.cache.entries@, key) >= refers_to(self.current, key) + refers_to(
                self.retiring,
                key,
            ) + refers_to(in_flight, key)
    }

    /// The state is consistent: the outputs are sound, and the cache counts
    /// every framebuffer in use.
    pub open spec fn wf(self) -> bool {
        &&& outputs_wf(self.displays.outputs@)
        &&& only_candidates(self.displays.scanout_formats@)
        &&& self.counts(None)
    }

    /// Whether frames can be shown at all.
    pub open spec fn showing(self) -> bool {
        self.active && self.render_ready && self.outputs_powered
    }

    /// The state after the outputs of `displays` have been opened.
    pub fn new(displays: DisplaySet, cursor_extent: (u32, u32), settings: OutputSettings) -> (backend:
        DrmBackend)
        requires
            outputs_wf(displays.outputs@),
            only_candidates(displays.scanout_formats@),
        ensures
            backend.wf(),
            backend.displays == displays,
            backend.settings == settings,
            backend.active && backend.render_ready && backend.outputs_powered,
            !backend.failed && !backend.modeset_done && !backend.hotplug_pending,
            backend.pending_flips@ == Set::<u32>::empty(),
            backend.current is None && backend.retiring is None,
            backend.cache.entries@.len() == 0 && backend.cache.epoch == 0,
            backend.cursor.buffers.buffers@.len() == 0,
            backend.cursor.state is None && !backend.cursor.plane_active,
            backend.cursor.extent == cursor_extent,
            !backend.cursor.failed && backend.cursor.retry_at is None && backend.cursor.failures
                == 0,
            backend.surface.modifiers@.len() == 0 && backend.surface.icc is None,
            backend.surface.color_mode == DisplayColorMode::Sdr,
            !backend.surface.stale && !backend.surface.sync_capable
                && !backend.surface.explicit_sync,
            backend.pending_resize is None,
            backend.hdr_metadata_blob is None && backend.gamma_blob is None,
    {
        broadcast use vstd::std_specs::hash::group_hash_axioms;

        let backend = DrmBackend {
            displays,
            active: true,
            failed: false,
            modeset_done: false,
            pending_flips: HashSet::new(),
            current: None,
            retiring: None,
            cache: CompositeFbCache::new(),
            cursor: CursorPlaneState {
                buffers: CursorCache::new(),
                state: None,
                plane_active: false,
                extent: cursor_extent,
                failed: false,
                retry_at: None,
                failures: 0,
            },
            surface: SurfaceState {
                modifiers: Vec::new(),
                color_mode: DisplayColorMode::Sdr,
                icc: None,
                stale: false,
                sync_capable: false,
                explicit_sync: false,
            },
            render_ready: true,
            outputs_powered: true,
            hotplug_pending: false,
            pending_resize: None,
            settings,
            hdr_metadata_blob: None,
            gamma_blob: None,
        };
        backend
    }

    /// The size of the desktop.
    pub fn size(&self) -> (size: Size)
        ensures
            size == (Size {
                w: self.displays.size.0 as i32,
                h: self.displays.size.1 as i32,
            }),
    {
        Size { w: self.displays.size.0 as i32, h: self.displays.size.1 as i32 }
    }

    /// Whether the session owns the display and has something to show frames on.
    pub fn is_active(&self) -> (active: bool)
        ensures
            active == (self.active && self.render_ready),
    {
        self.active && self.render_ready
    }

    /// Whether an update is still in flight.
    pub fn presentation_pending(&self) -> (pending: bool)
        ensures
            pending == !self.pending_flips@.is_empty(),
    {
        broadcast use vstd::std_specs::hash::group_hash_axioms;

        !self.pending_flips.is_empty()
    }

    /// Whether the render surface must be created anew.
    pub fn surface_needs_recreate(&self) -> (stale: bool)
        ensures
            stale == self.surface.stale,
    {
        self.surface.stale
    }

    /// Whether a frame may be presented now, and why not.
    pub fn check_presentable(&self) -> (result: Result<(), DrmError>)
        ensures
            result == if !self.showing() {
                Err::<(), DrmError>(DrmError::Inactive)
            } else if !self.pending_flips@.is_empty() {
                Err::<(), DrmError>(DrmError::Busy)
            } else if self.pending_resize is Some {
                Err::<(), DrmError>(DrmError::Reconfigured)
            } else {
                Ok::<(), DrmError>(())
            },
    {
        if !self.active || !self.render_ready || !self.outputs_powered {
            return Err(DrmError::Inactive);
        }
        if self.presentation_pending() {
            return Err(DrmError::Busy);
        }
        if self.pending_resize.is_some() {
            return Err(DrmError::Reconfigured);
        }
        Ok(())
    }

    /// Whether the sprite may be moved now, and why not. Unlike a frame, the
    /// sprite does not wait for the update in flight.
    pub fn check_cursor_presentable(&self) -> (result: Result<(), DrmError>)
        ensures
            result == if !self.showing() {
                Err::<(), DrmError>(DrmError::Inactive)
            } else if self.pending_resize is Some {
                Err::<(), DrmError>(DrmError::Reconfigured)
            } else if self.current is None {
                Err::<(), DrmError>(DrmError::ScanoutUnsupported)
            } else {
                Ok::<(), DrmError>(())
            },
    {
        if !self.active || !self.render_ready || !self.outputs_powered {
            return Err(DrmError::Inactive);
        }
        if self.pending_resize.is_some() {
            return Err(DrmError::Reconfigured);
        }
        if self.current.is_none() {
            return Err(DrmError::ScanoutUnsupported);
        }
        Ok(())
    }

    /// Whether a client buffer may be shown as it is, given whether its format
    /// is known and whether it comes with a fence.
    pub fn check_client_buffer(&self, known_format: bool, has_fence: bool) -> (result: Result<
        (),
        DrmError,
    >)
        ensures
            result == if !self.showing() {
                Err::<(), DrmError>(DrmError::Inactive)
            } else if !self.pending_flips@.is_empty() {
                Err::<(), DrmError>(DrmError::Busy)
            } else if self.pending_resize is Some {
                Err::<(), DrmError>(DrmError::Reconfigured)
            } else if !known_format || (has_fence && !all_take_fences(self.displays.outputs@)) {
                Err::<(), DrmError>(DrmError::ScanoutUnsupported)
            } else {
                Ok::<(), DrmError>(())
            },
    {
        match self.check_presentable() {
            Ok(()) => {},
            Err(error) => return Err(error),
        }
        if !known_format {
            return Err(DrmError::ScanoutUnsupported);
        }
        if !scanout_acquire_fence_supported(
            has_fence,
            all_planes_take_fences(self.displays.outputs.as_slice()),
        ) {
            return Err(DrmError::ScanoutUnsupported);
        }
        Ok(())
    }

    /// Whether a client buffer of the given pixel format may be shown as it is.
    pub fn check_client_scanout(&self, format: u32, has_fence: bool) -> (result: Result<
        (),
        DrmError,
    >)
        ensures
            result == if !self.showing() {
                Err::<(), DrmError>(DrmError::Inactive)
            } else if !self.pending_flips@.is_empty() {
                Err::<(), DrmError>(DrmError::Busy)
            } else if self.pending_resize is Some {
                Err::<(), DrmError>(DrmError::Reconfigured)
            } else if !known_fourcc(format) || (has_fence && !all_take_fences(
                self.displays.outputs@,
            )) {
                Err::<(), DrmError>(DrmError::ScanoutUnsupported)
            } else {
                Ok::<(), DrmError>(())
            },
    {
        let known = fourcc_is_known(format);
        self.check_client_buffer(known, has_fence)
    }

    /// Whether client buffers of the given format and layout can be shown as
    /// they are on every output.
    pub fn supports_scanout(&self, fourcc: u32, modifier: u64) -> (supported: bool)
        ensures
            supported == crate::kms::display::supports(
                self.displays.scanout_formats@,
                fourcc,
                modifier,
            ),
    {
        crate::kms::display::scanout_formats_support(
            &self.displays.scanout_formats,
            fourcc,
            modifier,
        )
    }

    /// Drop a scanout that leaves the screen or never got there. What the
    /// kernel is to be given back is handed to the caller.
    pub fn release_scanout(&mut self, scanout: Scanout) -> (released: Vec<Resource>)
        requires
            old(self).counts(Some(scanout)),
        ensures
            final(self).counts(None),
            *final(self) == (DrmBackend { cache: final(self).cache, ..*old(self) }),
            final(self).cache.epoch == old(self).cache.epoch,
            match scanout.ownership {
                ScanoutOwnership::TransientCompositor | ScanoutOwnership::TransientClient => {
                    &&& released@ == seq![
                        Resource { framebuffer: scanout.framebuffer, gem: scanout.gem },
                    ]
                    &&& final(self).cache.entries@ == old(self).cache.entries@
                },
                ScanoutOwnership::Cached(key) => {
                    &&& released@ == reaped(dropped(old(self).cache.entries@, key))
                    &&& final(self).cache.entries@ == kept(dropped(old(self).cache.entries@, key))
                },
            },
    {
        match scanout.ownership {
            ScanoutOwnership::TransientCompositor | ScanoutOwnership::TransientClient => {
                let mut released: Vec<Resource> = Vec::new();
                released.push(Resource { framebuffer: scanout.framebuffer, gem: scanout.gem });
                assert(released@ =~= seq![
                    Resource { framebuffer: scanout.framebuffer, gem: scanout.gem },
                ]);
                assert(forall|key: CompositeFbKey| refers_to(Some(scanout), key) == 0);
                released
            },
            ScanoutOwnership::Cached(key) => {
                let ghost before = self.cache.entries@;
                let released = self.cache.release(key);
                proof {
                    assert forall|k: CompositeFbKey| #[trigger]
                        users_of(self.cache.entries@, k) >= refers_to(self.current, k) + refers_to(
                            self.retiring,
                            k,
                        ) + refers_to(None, k) by {
                        lemma_dropped(before, key, k);
                        lemma_kept(dropped(before, key), k);
                        assert(users_of(before, k) >= 0);
                    }
                    lemma_dropped(before, key, key);
                    lemma_kept(dropped(before, key), key);
                }
                released
            },
        }
    }
}

/// Dropping a reference changes no key, and no other count.
proof fn lemma_dropped(
    entries: Seq<CachedCompositeFb>,
    key: CompositeFbKey,
    other: CompositeFbKey,
)
    requires
        distinct_keys(entries),
    ensures
        distinct_keys(dropped(entries, key)),
        users_of(dropped(entries, key), other) == if other == key && users_of(entries, key) > 0 {
            users_of(entries, key) - 1
        } else {
            users_of(entries, other)
        },
        users_of(entries, other) >= 0,
    decreases entries.len(),
{
    let after = dropped(entries, key);
    assert forall|i: int, j: int|
        #![trigger after[i], after[j]]
        0 <= i < j < after.len() implies after[i].key != after[j].key by {
        let a = entries[i];
        let b = entries[j];
    }
    if entries.len() > 0 {
        lemma_dropped(entries.drop_last(), key, other);
        assert(after.drop_last() =~= dropped(entries.drop_last(), key));
    }
}

/// Whether the display library knows a pixel format.
pub uninterp spec fn known_fourcc(code: u32) -> bool;

/// `DrmFourcc::try_from`: whether the display library knows a pixel format by
/// its code. The library keeps a fixed list; which codes are on it is not
/// stated.
#[verifier::external_body]
fn fourcc_is_known(code: u32) -> (known: bool)
    ensures
        known == known_fourcc(code),
{
    drm::buffer::DrmFourcc::try_from(code).is_ok()
}

/// A frame may be presented exactly if the session owns powered outputs that are ready,
/// nothing is in flight, and no new size waits; the reasons against are told in this order.
pub proof fn frames_wait_for_their_turn(backend: DrmBackend, result: Result<(), DrmError>)
    requires
        call_ensures(DrmBackend::check_presentable, (&backend,), result),
    ensures
        result is Ok <==> backend.active && backend.render_ready && backend.outputs_powered
            && backend.pending_flips@.is_empty() && backend.pending_resize is None,
        !backend.active || !backend.render_ready || !backend.outputs_powered ==> result is Err
            && result->Err_0 is Inactive,
        backend.active && backend.render_ready && backend.outputs_powered
            && !backend.pending_flips@.is_empty() ==> result is Err && result->Err_0 is Busy,
        backend.active && backend.render_ready && backend.outputs_powered
            && backend.pending_flips@.is_empty() && backend.pending_resize is Some ==> result is Err
            && result->Err_0 is Reconfigured,
{
}

/// The sprite may be moved while a frame is in flight, but not before one is shown.
pub proof fn sprites_need_a_frame(backend: DrmBackend, result: Result<(), DrmError>)
    requires
        call_ensures(DrmBackend::check_cursor_presentable, (&backend,), result),
    ensures
        result is Ok <==> backend.active && backend.render_ready && backend.outputs_powered
            && backend.pending_resize is None && backend.current is Some,
        backend.active && backend.render_ready && backend.outputs_powered && backend.pending_resize
            is None && backend.current is None ==> result is Err && result->Err_0
            is ScanoutUnsupported,
{
}

/// A client buffer is shown as it is exactly where a frame could be, its format is known,
/// and every plane can wait for its fence, where it has one.
pub proof fn client_buffers_need_a_known_format(
    backend: DrmBackend,
    format: u32,
    has_fence: bool,
    result: Result<(), DrmError>,
    presentable: Result<(), DrmError>,
)
    requires
        call_ensures(DrmBackend::check_client_scanout, (&backend, format, has_fence), result),
        call_ensures(DrmBackend::check_presentable, (&backend,), presentable),
    ensures
        presentable is Err ==> result == presentable,
        result is Ok <==> presentable is Ok && known_fourcc(format) && (has_fence ==> forall|i: int|
            0 <= i < backend.displays.outputs@.len() ==> (
            #[trigger] backend.displays.outputs@[i]).primary.props.in_fence_fd is Some),
        presentable is Ok && result is Err ==> result->Err_0 is ScanoutUnsupported,
{
}

/// A layout is shown for a client's format exactly if it is listed for it.
pub proof fn listed_layouts_are_shown(
    backend: DrmBackend,
    fourcc: u32,
    modifier: u64,
    supported: bool,
)
    requires
        call_ensures(DrmBackend::supports_scanout, (&backend, fourcc, modifier), supported),
    ensures
        supported <==> backend.displays.scanout_formats@.contains_key(fourcc)
            && backend.displays.scanout_formats@[fourcc]@.contains(modifier),
{
}

/// A frame that leaves the screen gives back its own framebuffer and handle, unless they
/// are kept for the next one.
pub proof fn dropped_frames_give_back_their_own(
    backend: &mut DrmBackend,
    scanout: Scanout,
    released: Vec<Resource>,
)
    requires
        backend.counts(Some(scanout)),
        call_ensures(DrmBackend::release_scanout, (backend, scanout), released),
    ensures
        scanout.ownership is TransientCompositor || scanout.ownership is TransientClient
            ==> released@.len() == 1 && released@[0].framebuffer == scanout.framebuffer
            && released@[0].gem == scanout.gem && final(backend).cache.entries@
            == old(backend).cache.entries@,
        final(backend).current == old(backend).current
            && final(backend).retiring == old(backend).retiring,
        final(backend).pending_flips == old(backend).pending_flips,
{
}

/// A fresh backend drives the displays it was given, shows nothing yet, and sets the
/// outputs up with its first frame.
pub proof fn fresh_backends_show_nothing(
    displays: DisplaySet,
    extent: (u32, u32),
    settings: OutputSettings,
    backend: DrmBackend,
    size: Size,
    pending: bool,
    active: bool,
)
    requires
        displays.size.0 <= i32::MAX && displays.size.1 <= i32::MAX,
        call_ensures(DrmBackend::new, (displays, extent, settings), backend),
        call_ensures(DrmBackend::size, (&backend,), size),
        call_ensures(DrmBackend::presentation_pending, (&backend,), pending),
        call_ensures(DrmBackend::is_active, (&backend,), active),
    ensures
        size.w == displays.size.0 && size.h == displays.size.1,
        !pending && active,
        !backend.modeset_done && backend.current is None && backend.cursor.state is None,
        backend.cursor.extent == extent,
{
}

} // verus!

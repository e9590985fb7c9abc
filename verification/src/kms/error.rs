//! Errors of direct-display operation.

use vstd::prelude::*;

verus! {

/// `EPERM`: the operation needs a privilege that the caller lacks.
pub const EPERM: i32 = 1;

/// `EACCES`: the caller may not perform the operation.
pub const EACCES: i32 = 13;

/// `EBUSY`: an earlier update is still pending.
pub const EBUSY: i32 = 16;

/// Errors that prevent direct-display operation.
#[derive(Debug)]
pub enum DrmError {
    /// The seat daemon refused an operation.
    Seat(String),
    /// No usable display card was found; the text lists the ones tried.
    NoCard(String),
    /// The kernel refused an operation, with its error number where it has one.
    Io(Option<i32>),
    /// No connected connector with a display mode.
    NoConnector,
    /// A connector has no compatible controller.
    NoCrtc,
    /// A controller has no compatible primary plane.
    NoPlane,
    /// The plane format table is malformed.
    MalformedFormats(&'static str),
    /// The combined framebuffer of the given size exceeds the card's limits.
    DesktopTooLarge(u32, u32),
    /// An object lacks a required property.
    MissingProperty(&'static str),
    /// The input library could not bind the named seat.
    InputSeat(String),
    /// The renderer failed.
    Flux,
    /// The renderer cannot export its render targets.
    DmabufUnsupported,
    /// The session does not own the display right now.
    Inactive,
    /// The previous update is still being cleaned up.
    Busy,
    /// A page flip did not complete in time.
    FlipTimeout,
    /// The display set changed while a frame was being presented.
    Reconfigured,
    /// A client buffer cannot be scanned out directly.
    ScanoutUnsupported,
    /// The hardware cursor cannot show the sprite.
    CursorUnsupported(&'static str),
    /// The hardware cursor update was rejected; compose the cursor instead.
    CursorFallback,
}

/// Whether the kernel error number of a failed display update stands for a
/// condition that passes by itself.
pub open spec fn transient_errno(errno: Option<i32>) -> bool {
    errno == Some(EBUSY) || errno == Some(EACCES) || errno == Some(EPERM)
}

/// Whether a failed display update, given by its kernel error number, is a
/// frame to skip rather than a failure to report.
pub fn commit_error_is_transient(errno: Option<i32>) -> (transient: bool)
    ensures
        transient == transient_errno(errno),
{
    match errno {
        Some(code) => code == EBUSY || code == EACCES || code == EPERM,
        None => false,
    }
}

/// The error that a failed display update reports, given the kernel's error
/// number.
///
/// A pending earlier update answers `EBUSY`. A session that has lost the
/// display to a terminal switch, before the seat said so, answers `EACCES` or
/// `EPERM`. Both skip a frame and never end the session.
pub fn commit_error(errno: Option<i32>) -> (error: DrmError)
    ensures
        errno == Some(EBUSY) ==> error == DrmError::Busy,
        errno == Some(EACCES) || errno == Some(EPERM) ==> error == DrmError::Inactive,
        !transient_errno(errno) ==> error == DrmError::Io(errno),
        error.skips_frame() == transient_errno(errno),
{
    match errno {
        Some(code) => {
            if code == EBUSY {
                DrmError::Busy
            } else if code == EACCES || code == EPERM {
                DrmError::Inactive
            } else {
                DrmError::Io(errno)
            }
        },
        None => DrmError::Io(errno),
    }
}

impl DrmError {
    /// Whether a presentation that failed this way only skips a frame. Every
    /// other error is one to report.
    pub open spec fn skips_frame(self) -> bool {
        self is Busy || self is FlipTimeout || self is Inactive || self is Reconfigured
    }
}

/// A busy display and a lost one only skip a frame; every other rejection is reported with
/// the kernel's own number.
pub proof fn rejections_keep_their_number(errno: Option<i32>, error: DrmError, transient: bool)
    requires
        call_ensures(commit_error, (errno,), error),
        call_ensures(commit_error_is_transient, (errno,), transient),
    ensures
        error is Busy <==> errno == Some(16i32),
        error is Inactive <==> errno == Some(13i32) || errno == Some(1i32),
        transient <==> error is Busy || error is Inactive,
        !transient ==> error == DrmError::Io(errno),
{
}

} // verus!

//! Over-the-air updates: staging an image in the inactive slot and fetching it
//! over plain HTTP.

pub mod http_download;
pub mod writer;

use vstd::prelude::*;

use crate::ota::http_download::HttpError;
use crate::ota::writer::OtaError;
use crate::state::{publish_ota_in_progress, publish_ota_progress};
use crate::state::{FailReason, OtaProgress, RadioState};

verus! {

/// The reason that is shown for a failed download.
pub open spec fn failure_reason(e: HttpError) -> FailReason {
    match e {
        HttpError::BadUrl => FailReason::BadUrl,
        HttpError::ConnectFailed => FailReason::Connect,
        HttpError::Io => FailReason::Io,
        HttpError::BadStatus(_) => FailReason::HttpStatus,
        HttpError::HeadersTooLarge => FailReason::Headers,
        HttpError::Truncated => FailReason::Truncated,
        HttpError::Writer(OtaError::BadImageHeader { .. }) => FailReason::BadImage,
        HttpError::Writer(OtaError::ImageTooLarge { .. }) => FailReason::TooLarge,
        HttpError::Writer(OtaError::SizeMismatch { .. }) => FailReason::Size,
        HttpError::Writer(OtaError::SlotNotFound) => FailReason::NoSlot,
        HttpError::Writer(OtaError::Flash(_)) => FailReason::Flash,
        HttpError::Writer(OtaError::Partition(_)) => FailReason::Partition,
    }
}

/// The reason that is shown for a failed download.
pub fn http_failure_reason(e: &HttpError) -> (r: FailReason)
    ensures
        r == failure_reason(*e),
{
    match e {
        HttpError::BadUrl => FailReason::BadUrl,
        HttpError::ConnectFailed => FailReason::Connect,
        HttpError::Io => FailReason::Io,
        HttpError::BadStatus(_) => FailReason::HttpStatus,
        HttpError::HeadersTooLarge => FailReason::Headers,
        HttpError::Truncated => FailReason::Truncated,
        HttpError::Writer(w) => match w {
            OtaError::BadImageHeader { .. } => FailReason::BadImage,
            OtaError::ImageTooLarge { .. } => FailReason::TooLarge,
            OtaError::SizeMismatch { .. } => FailReason::Size,
            OtaError::SlotNotFound => FailReason::NoSlot,
            OtaError::Flash(_) => FailReason::Flash,
            OtaError::Partition(_) => FailReason::Partition,
        },
    }
}

/// What happened in an update job.
#[derive(Debug, Clone, Copy, PartialEq, Eq, Structural)]
pub enum JobEvent {
    Started,
    /// The inactive slot was found and can be written.
    Opened,
    OpenFailed(OtaError),
    Downloaded,
    DownloadFailed(HttpError),
    /// The last sector was written and the slot selected for the next boot.
    Activated,
    ActivateFailed(OtaError),
}

/// What an update job does next.
#[derive(Debug, Clone, Copy, PartialEq, Eq, Structural)]
pub enum JobAction {
    /// Find the inactive slot and open the writer.
    Open,
    Download,
    /// Write the last sector and select the slot.
    Activate,
    /// Give the flash back; the running firmware stays selected.
    Release,
    /// Give the flash back; the new firmware is selected.
    ReleaseActivated,
}

/// Where an update stands after an event.
pub open spec fn progress_after(e: JobEvent, before: OtaProgress) -> OtaProgress {
    match e {
        JobEvent::Started => OtaProgress::Connecting,
        JobEvent::Opened => before,
        JobEvent::OpenFailed(_) => OtaProgress::Failed(FailReason::Init),
        JobEvent::Downloaded => OtaProgress::Activating,
        JobEvent::DownloadFailed(h) => OtaProgress::Failed(failure_reason(h)),
        JobEvent::Activated => OtaProgress::Success,
        JobEvent::ActivateFailed(_) => OtaProgress::Failed(FailReason::Activate),
    }
}

pub open spec fn action_after(e: JobEvent) -> JobAction {
    match e {
        JobEvent::Started => JobAction::Open,
        JobEvent::Opened => JobAction::Download,
        JobEvent::Downloaded => JobAction::Activate,
        JobEvent::Activated => JobAction::ReleaseActivated,
        _ => JobAction::Release,
    }
}

/// Whether the job still holds the flash after an event.
pub open spec fn busy_after(e: JobEvent) -> bool {
    !(action_after(e) == JobAction::Release || action_after(e) == JobAction::ReleaseActivated)
}

/// Advances an update job: publishes where it stands and says what to do.
pub fn run_job(state: &mut RadioState, event: JobEvent) -> (r: JobAction)
    ensures
        r == action_after(event),
        final(state).ota_progress == progress_after(event, old(state).ota_progress),
        final(state).ota_in_progress == busy_after(event),
        *final(state) == (RadioState {
            ota_progress: final(state).ota_progress,
            ota_in_progress: final(state).ota_in_progress,
            dirty: old(state).dirty || old(state).ota_progress != final(state).ota_progress || old(
                state,
            ).ota_in_progress != final(state).ota_in_progress,
            ..*old(state)
        }),
{
    let action: JobAction = match event {
        JobEvent::Started => {
            publish_ota_progress(state, OtaProgress::Connecting);
            JobAction::Open
        },
        JobEvent::Opened => JobAction::Download,
        JobEvent::OpenFailed(_) => {
            publish_ota_progress(state, OtaProgress::Failed(FailReason::Init));
            JobAction::Release
        },
        JobEvent::Downloaded => {
            publish_ota_progress(state, OtaProgress::Activating);
            JobAction::Activate
        },
        JobEvent::DownloadFailed(e) => {
            publish_ota_progress(state, OtaProgress::Failed(http_failure_reason(&e)));
            JobAction::Release
        },
        JobEvent::Activated => {
            publish_ota_progress(state, OtaProgress::Success);
            JobAction::ReleaseActivated
        },
        JobEvent::ActivateFailed(_) => {
            publish_ota_progress(state, OtaProgress::Failed(FailReason::Activate));
            JobAction::Release
        },
    };
    let busy: bool = match action {
        JobAction::Release | JobAction::ReleaseActivated => false,
        _ => true,
    };
    publish_ota_in_progress(state, busy);
    action
}

/// A job reports success only where the new firmware was selected, and the
/// interlock falls exactly when the flash is given back.
pub proof fn law_success_means_activated(e: JobEvent, before: OtaProgress)
    requires
        before != OtaProgress::Success,
    ensures
        progress_after(e, before) == OtaProgress::Success <==> e == JobEvent::Activated,
        progress_after(e, before) is Failed && !(before is Failed) ==> action_after(e)
            == JobAction::Release && !busy_after(e),
{
}

/// An update goes step by step: the slot is opened, the image fetched, the slot
/// selected, and the flash given back; meanwhile it is held. Where a step fails,
/// the flash is given back at once, the running firmware stays, and the reason
/// is shown.
pub proof fn law_update_goes_step_by_step(before: OtaProgress, h: HttpError, o: OtaError)
    ensures
        action_after(JobEvent::Started) == JobAction::Open && busy_after(JobEvent::Started),
        action_after(JobEvent::Opened) == JobAction::Download && busy_after(JobEvent::Opened),
        action_after(JobEvent::Downloaded) == JobAction::Activate && busy_after(
            JobEvent::Downloaded,
        ),
        action_after(JobEvent::Activated) == JobAction::ReleaseActivated && !busy_after(
            JobEvent::Activated,
        ),
        action_after(JobEvent::OpenFailed(o)) == JobAction::Release && !busy_after(
            JobEvent::OpenFailed(o),
        ),
        action_after(JobEvent::DownloadFailed(h)) == JobAction::Release && !busy_after(
            JobEvent::DownloadFailed(h),
        ),
        action_after(JobEvent::ActivateFailed(o)) == JobAction::Release && !busy_after(
            JobEvent::ActivateFailed(o),
        ),
        progress_after(JobEvent::Started, before) == OtaProgress::Connecting,
        progress_after(JobEvent::Opened, before) == before,
        progress_after(JobEvent::Downloaded, before) == OtaProgress::Activating,
        progress_after(JobEvent::OpenFailed(o), before) == OtaProgress::Failed(FailReason::Init),
        progress_after(JobEvent::ActivateFailed(o), before) == OtaProgress::Failed(
            FailReason::Activate,
        ),
        progress_after(JobEvent::DownloadFailed(h), before) == OtaProgress::Failed(
            failure_reason(h),
        ),
{
}

/// The reasons of failed downloads are told apart: two failures show the same
/// reason only where they are of the same kind.
pub proof fn law_failures_are_told_apart(h: HttpError)
    ensures
        h == HttpError::BadUrl <==> failure_reason(h) == FailReason::BadUrl,
        h == HttpError::ConnectFailed <==> failure_reason(h) == FailReason::Connect,
        h == HttpError::Io <==> failure_reason(h) == FailReason::Io,
        h is BadStatus <==> failure_reason(h) == FailReason::HttpStatus,
        h == HttpError::HeadersTooLarge <==> failure_reason(h) == FailReason::Headers,
        h == HttpError::Truncated <==> failure_reason(h) == FailReason::Truncated,
        h is Writer && h->Writer_0 is BadImageHeader <==> failure_reason(h) == FailReason::BadImage,
        h is Writer && h->Writer_0 is ImageTooLarge <==> failure_reason(h) == FailReason::TooLarge,
        h is Writer && h->Writer_0 is SizeMismatch <==> failure_reason(h) == FailReason::Size,
        h is Writer && h->Writer_0 is SlotNotFound <==> failure_reason(h) == FailReason::NoSlot,
        h is Writer && h->Writer_0 is Flash <==> failure_reason(h) == FailReason::Flash,
        h is Writer && h->Writer_0 is Partition <==> failure_reason(h) == FailReason::Partition,
{
}

} // verus!

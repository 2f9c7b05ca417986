//! Layers on disk: when their files are here, when they are downloaded and when they are
//! removed.
//!
//! A layer whose file is here is resident.  When its eviction is requested it stays usable
//! until the last reader is gone; then the removal of the file is scheduled.  An access
//! before that keeps the layer.  An access after that resets the layer and downloads the
//! file anew, under a new version, and a removal that was scheduled for an older version
//! does nothing: evictions lose to downloads.
use vstd::prelude::*;

use crate::base::lsn::Lsn;
use crate::base::ordered_map::MapKey;
use crate::pageserver::ids::Generation;
use crate::pageserver::key::Key;

verus! {

/// The file of a layer that is here, by the version of its download.
#[derive(Clone, Copy, Debug, PartialEq, Eq, Structural)]
pub enum ResidentOrWantedEvicted {
    Resident(usize),
    /// Only readers keep the layer.
    WantedEvicted(usize),
}

impl ResidentOrWantedEvicted {
    /// What becomes of the layer when its eviction is requested, and the version that is no
    /// longer held: there is one where this is the first request.
    pub open spec fn downgraded(self) -> (ResidentOrWantedEvicted, Option<usize>) {
        match self {
            ResidentOrWantedEvicted::Resident(version) => (
                ResidentOrWantedEvicted::WantedEvicted(version),
                Some(version),
            ),
            ResidentOrWantedEvicted::WantedEvicted(_) => (self, None),
        }
    }

    /// When eviction is first requested, drops down to what readers keep.  Returns the version
    /// if this was the first time eviction was requested.
    pub fn downgrade(&mut self) -> (r: Option<usize>)
        ensures
            (*final(self), r) == old(self).downgraded(),
    {
        match *self {
            ResidentOrWantedEvicted::Resident(version) => {
                *self = ResidentOrWantedEvicted::WantedEvicted(version);
                Some(version)
            },
            ResidentOrWantedEvicted::WantedEvicted(_) => None,
        }
    }
}

/// Only the first of several requests for an eviction counts; the others change nothing.
pub proof fn only_the_first_eviction_request_counts(layer: ResidentOrWantedEvicted)
    ensures
        layer.downgraded().1 is Some <==> layer is Resident,
        layer.downgraded().0.downgraded() == (layer.downgraded().0, None::<usize>),
{
}

/// Why a layer was not evicted.
#[derive(Clone, Copy, Debug, PartialEq, Eq, Structural)]
pub enum EvictionCancelled {
    LayerGone,
    TimelineGone,
    VersionCheckFailed,
    FileNotFound,
    RemoveFailed,
    AlreadyReinitialized,
    /// Not evicted because of a pending reinitialization.
    LostToDownload,
    /// After eviction, there was a new layer access which cancelled the eviction.
    UpgradedBackOnAccess,
}

impl EvictionCancelled {
    pub open spec fn label(self) -> Seq<char> {
        match self {
            EvictionCancelled::LayerGone => "layer_gone"@,
            EvictionCancelled::TimelineGone => "timeline_gone"@,
            EvictionCancelled::VersionCheckFailed => "version_check_fail"@,
            EvictionCancelled::FileNotFound => "file_not_found"@,
            EvictionCancelled::RemoveFailed => "remove_failed"@,
            EvictionCancelled::AlreadyReinitialized => "already_reinitialized"@,
            EvictionCancelled::LostToDownload => "lost_to_download"@,
            EvictionCancelled::UpgradedBackOnAccess => "upgraded_back_on_access"@,
        }
    }

    /// The metric label.
    pub fn as_str(&self) -> (r: &'static str)
        ensures
            r@ == self.label(),
    {
        match self {
            EvictionCancelled::LayerGone => "layer_gone",
            EvictionCancelled::TimelineGone => "timeline_gone",
            EvictionCancelled::VersionCheckFailed => "version_check_fail",
            EvictionCancelled::FileNotFound => "file_not_found",
            EvictionCancelled::RemoveFailed => "remove_failed",
            EvictionCancelled::AlreadyReinitialized => "already_reinitialized",
            EvictionCancelled::LostToDownload => "lost_to_download",
            EvictionCancelled::UpgradedBackOnAccess => "upgraded_back_on_access",
        }
    }
}

/// Why a layer was not deleted.
#[derive(Clone, Copy, Debug, PartialEq, Eq, Structural)]
pub enum DeleteFailed {
    TimelineGone,
    DeleteSchedulingFailed,
}

impl DeleteFailed {
    pub open spec fn label(self) -> Seq<char> {
        match self {
            DeleteFailed::TimelineGone => "timeline_gone"@,
            DeleteFailed::DeleteSchedulingFailed => "delete_scheduling_failed"@,
        }
    }

    /// The metric label.
    pub fn as_str(&self) -> (r: &'static str)
        ensures
            r@ == self.label(),
    {
        match self {
            DeleteFailed::TimelineGone => "timeline_gone",
            DeleteFailed::DeleteSchedulingFailed => "delete_scheduling_failed",
        }
    }
}

/// Events that are expected to be rare.
#[derive(Clone, Copy, Debug, PartialEq, Eq, Structural)]
pub enum RareEvent {
    RemoveOnDropFailed,
    RetriedGetOrMaybeDownload,
    DownloadFailedWithoutRequester,
    UpgradedWantedEvicted,
    InitWithoutDownload,
    PermanentLoadingFailure,
    EvictAndWaitLagged,
}

impl RareEvent {
    pub open spec fn label(self) -> Seq<char> {
        match self {
            RareEvent::RemoveOnDropFailed => "remove_on_drop_failed"@,
            RareEvent::RetriedGetOrMaybeDownload => "retried_gomd"@,
            RareEvent::DownloadFailedWithoutRequester => "download_failed_without"@,
            RareEvent::UpgradedWantedEvicted => "raced_wanted_evicted"@,
            RareEvent::InitWithoutDownload => "init_needed_no_download"@,
            RareEvent::PermanentLoadingFailure => "permanent_loading_failure"@,
            RareEvent::EvictAndWaitLagged => "broadcast_lagged"@,
        }
    }

    /// The metric label.
    pub fn as_str(&self) -> (r: &'static str)
        ensures
            r@ == self.label(),
    {
        match self {
            RareEvent::RemoveOnDropFailed => "remove_on_drop_failed",
            RareEvent::RetriedGetOrMaybeDownload => "retried_gomd",
            RareEvent::DownloadFailedWithoutRequester => "download_failed_without",
            RareEvent::UpgradedWantedEvicted => "raced_wanted_evicted",
            RareEvent::InitWithoutDownload => "init_needed_no_download",
            RareEvent::PermanentLoadingFailure => "permanent_loading_failure",
            RareEvent::EvictAndWaitLagged => "broadcast_lagged",
        }
    }
}

/// Why a request for an eviction was not fulfilled.
#[derive(Clone, Copy, Debug, PartialEq, Eq, Structural)]
pub enum EvictionError {
    /// The layer was already evicted.
    NotFound,
    /// The layer was downloaded instead.
    Downloaded,
}

/// Why a layer is not available.
#[derive(Clone, Copy, Debug, PartialEq, Eq, Structural)]
pub enum DownloadError {
    TimelineShutdown,
    NoRemoteStorage,
    ContextAndConfigReallyDeniesDownloads,
    DownloadRequired,
    NotFile,
    DownloadFailed,
    DownloadCancelled,
    PreStatFailed,
    PostStatFailed,
}

impl DownloadError {
    pub open spec fn message_text(self) -> Seq<char> {
        match self {
            DownloadError::TimelineShutdown => "timeline has already shutdown"@,
            DownloadError::NoRemoteStorage => "no remote storage configured"@,
            DownloadError::ContextAndConfigReallyDeniesDownloads => "context denies downloading"@,
            DownloadError::DownloadRequired =>
                "downloading is really required but not allowed by this method"@,
            DownloadError::NotFile => "layer path exists, but it is not a file"@,
            DownloadError::DownloadFailed => "downloading evicted layer file failed"@,
            DownloadError::DownloadCancelled => "downloading failed, possibly for shutdown"@,
            DownloadError::PreStatFailed => "pre-condition: stat before download failed"@,
            DownloadError::PostStatFailed => "post-condition: stat after download failed"@,
        }
    }

    /// The error in words.
    pub fn message(&self) -> (r: &'static str)
        ensures
            r@ == self.message_text(),
    {
        match self {
            DownloadError::TimelineShutdown => "timeline has already shutdown",
            DownloadError::NoRemoteStorage => "no remote storage configured",
            DownloadError::ContextAndConfigReallyDeniesDownloads => "context denies downloading",
            DownloadError::DownloadRequired =>
                "downloading is really required but not allowed by this method",
            DownloadError::NotFile => "layer path exists, but it is not a file",
            DownloadError::DownloadFailed => "downloading evicted layer file failed",
            DownloadError::DownloadCancelled => "downloading failed, possibly for shutdown",
            DownloadError::PreStatFailed => "pre-condition: stat before download failed",
            DownloadError::PostStatFailed => "post-condition: stat after download failed",
        }
    }
}

/// Why the file on disk cannot be used.
#[derive(Clone, Copy, Debug, PartialEq, Eq, Structural)]
pub enum NeedsDownload {
    NotFound,
    NotFile,
    WrongSize { actual: u64, expected: u64 },
}

/// What is on disk at the path of a layer.
#[derive(Clone, Copy, Debug, PartialEq, Eq, Structural)]
pub enum FileStat {
    Present { is_file: bool, len: u64 },
    NotFound,
    Failed,
}

/// What a task may do when a layer is not here.
#[derive(Clone, Copy, Debug, PartialEq, Eq, Structural)]
pub enum DownloadBehavior {
    Download,
    Warn,
    Error,
}

/// Whether the file on disk is the layer's.
pub fn is_file_present_and_good_size(is_file: bool, len: u64, file_size: u64) -> (r: Result<
    (),
    NeedsDownload,
>)
    ensures
        r == if !is_file {
            Err(NeedsDownload::NotFile)
        } else if len != file_size {
            Err(NeedsDownload::WrongSize { actual: len, expected: file_size })
        } else {
            Ok(())
        },
{
    if !is_file {
        Err(NeedsDownload::NotFile)
    } else if len != file_size {
        Err(NeedsDownload::WrongSize { actual: len, expected: file_size })
    } else {
        Ok(())
    }
}

/// Why the file has to be downloaded, if it has to.
pub open spec fn download_need(stat: FileStat, file_size: u64) -> Result<Option<NeedsDownload>, ()> {
    match stat {
        FileStat::Present { is_file, len } => Ok(
            if !is_file {
                Some(NeedsDownload::NotFile)
            } else if len != file_size {
                Some(NeedsDownload::WrongSize { actual: len, expected: file_size })
            } else {
                None
            },
        ),
        FileStat::NotFound => Ok(Some(NeedsDownload::NotFound)),
        FileStat::Failed => Err(()),
    }
}

/// Why the file has to be downloaded, if it has to.
pub fn needs_download(stat: FileStat, file_size: u64) -> (r: Result<Option<NeedsDownload>, ()>)
    ensures
        r == download_need(stat, file_size),
{
    match stat {
        FileStat::Present { is_file, len } => match is_file_present_and_good_size(
            is_file,
            len,
            file_size,
        ) {
            Ok(()) => Ok(None),
            Err(reason) => Ok(Some(reason)),
        },
        FileStat::NotFound => Ok(Some(NeedsDownload::NotFound)),
        FileStat::Failed => Err(()),
    }
}

/// Whether a task may download.  A task that should not is stopped only where the
/// configuration does not make a warning of it.
pub open spec fn download_denied(behavior: DownloadBehavior, treat_error_as_warn: bool) -> bool {
    behavior == DownloadBehavior::Error && !treat_error_as_warn
}

/// Fails where a task may not download.
pub fn check_expected_download(behavior: DownloadBehavior, treat_error_as_warn: bool) -> (r: Result<
    (),
    DownloadError,
>)
    ensures
        r == if download_denied(behavior, treat_error_as_warn) {
            Err(DownloadError::ContextAndConfigReallyDeniesDownloads)
        } else {
            Ok(())
        },
{
    match behavior {
        DownloadBehavior::Download => Ok(()),
        DownloadBehavior::Warn => Ok(()),
        DownloadBehavior::Error => {
            if treat_error_as_warn {
                Ok(())
            } else {
                Err(DownloadError::ContextAndConfigReallyDeniesDownloads)
            }
        },
    }
}

/// What happens when a layer is accessed.
#[derive(Clone, Copy, Debug, PartialEq, Eq, Structural)]
pub enum Access {
    /// The layer is here.  With `upgraded` its eviction had been requested and is cancelled:
    /// those who wait for it are told.
    Got { upgraded: bool },
    /// The layer has to be initialized.  With `retried` an eviction that was scheduled has
    /// been deactivated.
    Init { retried: bool },
}

/// How an initialization goes on.
#[derive(Clone, Copy, Debug, PartialEq, Eq, Structural)]
pub enum InitStep {
    /// The file is here, from an attempt that was given up.
    UseFile,
    Download,
}

/// What becomes of a layer's file when its last reader is gone.
#[derive(Clone, Copy, Debug, PartialEq, Eq, Structural)]
pub enum DropAction {
    Nothing,
    /// Remove the file, if this is still the version.
    ScheduleEviction { version: usize },
}

/// How the removal of a file has ended.
#[derive(Clone, Copy, Debug, PartialEq, Eq, Structural)]
pub enum RemoveEnd {
    Removed,
    NotFound,
    Failed,
}

/// What those who wait for an eviction have been told last.
#[derive(Clone, Copy, Debug, PartialEq, Eq, Structural)]
pub enum Status {
    Evicted,
    Downloaded,
    /// Messages were missed.
    Lagged,
}

/// How a download has ended.
#[derive(Clone, Copy, Debug, PartialEq, Eq, Structural)]
pub enum DownloadEnd {
    Done,
    Cancelled,
    Failed,
    /// The task that downloaded is gone.
    Gone,
}

/// Whether the file of a layer is here.
#[derive(Clone, Copy, Debug, PartialEq, Eq, Structural)]
pub enum LayerResidenceStatus {
    Resident,
    Evicted,
}

/// Why a residence is recorded.
#[derive(Clone, Copy, Debug, PartialEq, Eq, Structural)]
pub enum LayerResidenceEventReason {
    /// The layer was found when its timeline was loaded.
    LayerLoad,
    /// The layer was just written.
    LayerCreate,
    ResidenceChange,
}

/// What is recorded of the residence of a layer in its access statistics.
#[derive(Clone, Copy, Debug, PartialEq, Eq, Structural)]
pub struct LayerResidenceEvent {
    pub status: LayerResidenceStatus,
    pub reason: LayerResidenceEventReason,
}

/// The residence of a layer.
pub struct LayerInner {
    pub inner: Option<ResidentOrWantedEvicted>,
    /// How many readers hold the file that is here.
    pub readers: usize,
    /// The version of the latest download that was begun.
    pub version: usize,
    /// The version of an initialization that is under way.
    pub pending: Option<usize>,
    pub wanted_deleted: bool,
    pub wanted_evicted: bool,
    pub have_remote_client: bool,
    pub consecutive_failures: usize,
    pub file_size: u64,
    /// The versions whose removal has been scheduled.
    pub scheduled: Ghost<Set<usize>>,
}

impl ResidentOrWantedEvicted {
    pub open spec fn version_of(self) -> usize {
        match self {
            ResidentOrWantedEvicted::Resident(v) => v,
            ResidentOrWantedEvicted::WantedEvicted(v) => v,
        }
    }
}

impl LayerInner {
    /// Readers hold only a file that is here; versions grow; a removal is scheduled only for a
    /// version that nobody can read any more.
    pub open spec fn wf(self) -> bool {
        &&& self.readers > 0 ==> self.inner is Some
        &&& self.inner matches Some(either) ==> either.version_of() <= self.version
            && self.pending is None
        &&& self.pending matches Some(p) ==> p <= self.version && !self.scheduled@.contains(p)
        &&& forall|v: usize| #[trigger] self.scheduled@.contains(v) ==> v <= self.version
        &&& forall|v: usize|
            #[trigger]
            self.scheduled@.contains(v) ==> self.inner != Some(ResidentOrWantedEvicted::Resident(v))
        &&& forall|v: usize|
            #[trigger]
            self.scheduled@.contains(v) && self.inner == Some(
                ResidentOrWantedEvicted::WantedEvicted(v),
            ) ==> self.readers == 0
    }

    /// A layer whose file is not here.
    pub fn for_evicted(have_remote_client: bool, file_size: u64) -> (r: LayerInner)
        ensures
            r.wf(),
            r.inner is None,
            r.readers == 0,
            r.version == 0,
            !r.wanted_deleted,
            !r.wanted_evicted,
            r.have_remote_client == have_remote_client,
            r.file_size == file_size,
            r.consecutive_failures == 0,
            r.pending is None,
            r.scheduled@ == Set::<usize>::empty(),
    {
        LayerInner {
            inner: None,
            readers: 0,
            version: 0,
            pending: None,
            wanted_deleted: false,
            wanted_evicted: false,
            have_remote_client,
            consecutive_failures: 0,
            file_size,
            scheduled: Ghost(Set::empty()),
        }
    }

    /// A layer whose file is here, with its first reader.
    pub fn for_resident(have_remote_client: bool, file_size: u64) -> (r: LayerInner)
        ensures
            r.wf(),
            r.inner == Some(ResidentOrWantedEvicted::Resident(0)),
            r.readers == 1,
            r.version == 0,
            !r.wanted_deleted,
            !r.wanted_evicted,
            r.have_remote_client == have_remote_client,
            r.file_size == file_size,
            r.consecutive_failures == 0,
            r.pending is None,
            r.scheduled@ == Set::<usize>::empty(),
    {
        LayerInner {
            inner: Some(ResidentOrWantedEvicted::Resident(0)),
            readers: 1,
            version: 0,
            pending: None,
            wanted_deleted: false,
            wanted_evicted: false,
            have_remote_client,
            consecutive_failures: 0,
            file_size,
            scheduled: Ghost(Set::empty()),
        }
    }

    /// The event that the access statistics of the layer begin with.  One that was just written
    /// is created, any other is loaded with its timeline.
    pub fn first_residence_event(&self, created: bool) -> (r: LayerResidenceEvent)
        ensures
            r == (LayerResidenceEvent {
                status: if self.inner is Some {
                    LayerResidenceStatus::Resident
                } else {
                    LayerResidenceStatus::Evicted
                },
                reason: if created {
                    LayerResidenceEventReason::LayerCreate
                } else {
                    LayerResidenceEventReason::LayerLoad
                },
            }),
    {
        LayerResidenceEvent {
            status: if self.inner.is_some() {
                LayerResidenceStatus::Resident
            } else {
                LayerResidenceStatus::Evicted
            },
            reason: if created {
                LayerResidenceEventReason::LayerCreate
            } else {
                LayerResidenceEventReason::LayerLoad
            },
        }
    }

    /// Whether the layer has to be fetched from remote storage.
    pub fn is_remote(&self) -> (r: bool)
        ensures
            r == (self.inner is None),
    {
        self.inner.is_none()
    }

    /// Wishes the deletion of the layer once it is no longer used.  Says whether this is the
    /// first such wish.
    pub fn delete_on_drop(&mut self) -> (r: bool)
        requires
            old(self).wf(),
        ensures
            final(self).wf(),
            r == !old(self).wanted_deleted,
            *final(self) == (LayerInner { wanted_deleted: true, ..*old(self) }),
    {
        let first = !self.wanted_deleted;
        self.wanted_deleted = true;
        first
    }

    /// What the last reader's leaving leads to.
    pub open spec fn drop_action(self, version: usize) -> DropAction {
        if !self.wanted_deleted && self.have_remote_client && self.wanted_evicted {
            DropAction::ScheduleEviction { version }
        } else {
            DropAction::Nothing
        }
    }

    /// The versions whose removal is scheduled after an action.
    pub open spec fn scheduled_after(self, action: DropAction) -> Set<usize> {
        match action {
            DropAction::Nothing => self.scheduled@,
            DropAction::ScheduleEviction { version } => self.scheduled@.insert(version),
        }
    }

    /// Decides what the last reader's leaving leads to.
    fn on_downloaded_layer_drop(&mut self, version: usize) -> (r: DropAction)
        ensures
            r == old(self).drop_action(version),
            *final(self) == (LayerInner {
                scheduled: Ghost(old(self).scheduled_after(r)),
                ..*old(self)
            }),
    {
        if self.wanted_deleted {
            DropAction::Nothing
        } else if self.have_remote_client && self.wanted_evicted {
            self.scheduled = Ghost(self.scheduled@.insert(version));
            DropAction::ScheduleEviction { version }
        } else {
            DropAction::Nothing
        }
    }

    /// Requests the eviction of the layer.  Says whether this is the first request since the
    /// layer became resident, and what that leads to if nobody reads it.
    pub fn request_eviction(&mut self) -> (r: Result<(bool, DropAction), EvictionError>)
        requires
            old(self).wf(),
            old(self).have_remote_client,
        ensures
            final(self).wf(),
            match old(self).inner {
                None => r == Err::<(bool, DropAction), EvictionError>(EvictionError::NotFound)
                    && *final(self) == *old(self),
                Some(ResidentOrWantedEvicted::WantedEvicted(_)) => r == Ok::<
                    (bool, DropAction),
                    EvictionError,
                >((false, DropAction::Nothing)) && *final(self) == (LayerInner {
                    wanted_evicted: true,
                    ..*old(self)
                }),
                Some(ResidentOrWantedEvicted::Resident(v)) => {
                    let action = if old(self).readers == 0 && !old(self).wanted_deleted {
                        DropAction::ScheduleEviction { version: v }
                    } else {
                        DropAction::Nothing
                    };
                    &&& r == Ok::<(bool, DropAction), EvictionError>((true, action))
                    &&& *final(self) == (LayerInner {
                        wanted_evicted: true,
                        inner: Some(ResidentOrWantedEvicted::WantedEvicted(v)),
                        scheduled: Ghost(old(self).scheduled_after(action)),
                        ..*old(self)
                    })
                },
            },
    {
        let mut either = match self.inner {
            None => {
                return Err(EvictionError::NotFound);
            },
            Some(either) => either,
        };
        self.wanted_evicted = true;
        let strong = either.downgrade();
        self.inner = Some(either);
        match strong {
            None => Ok((false, DropAction::Nothing)),
            Some(version) => {
                let action = if self.readers == 0 {
                    self.on_downloaded_layer_drop(version)
                } else {
                    DropAction::Nothing
                };
                Ok((true, action))
            },
        }
    }

    /// What a request for an eviction is answered, by what was heard of the layer since.
    pub fn eviction_outcome(&self, status: Status) -> (r: Result<(), EvictionError>)
        ensures
            r == match status {
                Status::Evicted => Ok(()),
                Status::Downloaded => Err(EvictionError::Downloaded),
                Status::Lagged => if self.inner is Some {
                    Err(EvictionError::Downloaded)
                } else {
                    Ok(())
                },
            },
    {
        match status {
            Status::Evicted => Ok(()),
            Status::Downloaded => Err(EvictionError::Downloaded),
            Status::Lagged => match self.inner {
                Some(_) => Err(EvictionError::Downloaded),
                None => Ok(()),
            },
        }
    }

    /// Accesses the layer.  Where the file is here its readers are one more.
    pub fn access(&mut self) -> (r: Access)
        requires
            old(self).wf(),
            old(self).pending is None,
            old(self).readers < usize::MAX,
        ensures
            final(self).wf(),
            match old(self).inner {
                None => r == (Access::Init { retried: false }) && *final(self) == *old(self),
                Some(ResidentOrWantedEvicted::Resident(_)) => r == (Access::Got { upgraded: false })
                    && *final(self) == (LayerInner {
                    readers: (old(self).readers + 1) as usize,
                    ..*old(self)
                }),
                Some(ResidentOrWantedEvicted::WantedEvicted(v)) => if old(self).readers > 0 {
                    r == (Access::Got { upgraded: true }) && *final(self) == (LayerInner {
                        inner: Some(ResidentOrWantedEvicted::Resident(v)),
                        readers: (old(self).readers + 1) as usize,
                        wanted_evicted: false,
                        ..*old(self)
                    })
                } else {
                    r == (Access::Init { retried: true }) && *final(self) == (LayerInner {
                        inner: None,
                        ..*old(self)
                    })
                },
            },
    {
        match self.inner {
            None => Access::Init { retried: false },
            Some(ResidentOrWantedEvicted::Resident(_)) => {
                self.readers = self.readers + 1;
                Access::Got { upgraded: false }
            },
            Some(ResidentOrWantedEvicted::WantedEvicted(version)) => {
                if self.readers > 0 {
                    self.inner = Some(ResidentOrWantedEvicted::Resident(version));
                    self.readers = self.readers + 1;
                    self.wanted_evicted = false;
                    Access::Got { upgraded: true }
                } else {
                    self.inner = None;
                    Access::Init { retried: true }
                }
            },
        }
    }

    /// A reader leaves.
    pub fn reader_gone(&mut self) -> (r: DropAction)
        requires
            old(self).wf(),
            old(self).readers > 0,
        ensures
            final(self).wf(),
            r == match old(self).inner {
                Some(ResidentOrWantedEvicted::WantedEvicted(v)) => if old(self).readers == 1 {
                    old(self).drop_action(v)
                } else {
                    DropAction::Nothing
                },
                _ => DropAction::Nothing,
            },
            *final(self) == (LayerInner {
                readers: (old(self).readers - 1) as usize,
                scheduled: Ghost(old(self).scheduled_after(r)),
                ..*old(self)
            }),
    {
        self.readers = self.readers - 1;
        match self.inner {
            Some(ResidentOrWantedEvicted::WantedEvicted(version)) => {
                if self.readers == 0 {
                    self.on_downloaded_layer_drop(version)
                } else {
                    DropAction::Nothing
                }
            },
            _ => DropAction::Nothing,
        }
    }

    /// Begins to initialize the layer, under a new version.  Those who wait for an eviction
    /// are told that it was downloaded.
    pub fn begin_init(&mut self)
        requires
            old(self).wf(),
            old(self).inner is None,
            old(self).version < usize::MAX,
        ensures
            final(self).wf(),
            *final(self) == (LayerInner {
                version: (old(self).version + 1) as usize,
                pending: Some((old(self).version + 1) as usize),
                ..*old(self)
            }),
    {
        let next_version = self.version + 1;
        self.version = next_version;
        self.pending = Some(next_version);
    }

    /// What an initialization does, or why it fails.
    pub open spec fn init_decision(
        self,
        timeline_alive: bool,
        stat: FileStat,
        behavior: Option<DownloadBehavior>,
        treat_error_as_warn: bool,
        allow_download: bool,
    ) -> Result<InitStep, DownloadError> {
        if !timeline_alive {
            Err(DownloadError::TimelineShutdown)
        } else {
            match download_need(stat, self.file_size) {
                Err(_) => Err(DownloadError::PreStatFailed),
                Ok(None) => Ok(InitStep::UseFile),
                Ok(Some(reason)) => if reason == NeedsDownload::NotFile {
                    Err(DownloadError::NotFile)
                } else if !self.have_remote_client {
                    Err(DownloadError::NoRemoteStorage)
                } else if behavior matches Some(b) && download_denied(b, treat_error_as_warn) {
                    Err(DownloadError::ContextAndConfigReallyDeniesDownloads)
                } else if !allow_download {
                    Err(DownloadError::DownloadRequired)
                } else {
                    Ok(InitStep::Download)
                },
            }
        }
    }

    /// Whether an initialization finds that the file has to be fetched.
    pub open spec fn file_missing(self, timeline_alive: bool, stat: FileStat) -> bool {
        timeline_alive && (download_need(stat, self.file_size) matches Ok(Some(reason)) && reason
            != NeedsDownload::NotFile)
    }

    /// Decides how an initialization goes on.  Once the file turns out to be needed, an
    /// earlier wish for eviction is forgotten.
    pub fn decide_init(
        &mut self,
        timeline_alive: bool,
        stat: FileStat,
        behavior: Option<DownloadBehavior>,
        treat_error_as_warn: bool,
        allow_download: bool,
    ) -> (r: Result<InitStep, DownloadError>)
        requires
            old(self).wf(),
            old(self).pending is Some,
        ensures
            final(self).wf(),
            r == old(self).init_decision(
                timeline_alive,
                stat,
                behavior,
                treat_error_as_warn,
                allow_download,
            ),
            *final(self) == (LayerInner {
                wanted_evicted: old(self).wanted_evicted && !old(self).file_missing(
                    timeline_alive,
                    stat,
                ),
                pending: if r is Ok {
                    old(self).pending
                } else {
                    None
                },
                ..*old(self)
            }),
    {
        let decision = if !timeline_alive {
            Err(DownloadError::TimelineShutdown)
        } else {
            match needs_download(stat, self.file_size) {
                Err(_) => Err(DownloadError::PreStatFailed),
                Ok(None) => Ok(InitStep::UseFile),
                Ok(Some(NeedsDownload::NotFile)) => Err(DownloadError::NotFile),
                Ok(Some(_)) => {
                    self.wanted_evicted = false;
                    let denied = match behavior {
                        Some(b) => check_expected_download(b, treat_error_as_warn).is_err(),
                        None => false,
                    };
                    if !self.have_remote_client {
                        Err(DownloadError::NoRemoteStorage)
                    } else if denied {
                        Err(DownloadError::ContextAndConfigReallyDeniesDownloads)
                    } else if !allow_download {
                        Err(DownloadError::DownloadRequired)
                    } else {
                        Ok(InitStep::Download)
                    }
                },
            }
        };
        if decision.is_err() {
            self.pending = None;
        }
        decision
    }

    /// What a download that has ended comes to.
    pub open spec fn download_result(self, end: DownloadEnd, stat: FileStat) -> Result<(), DownloadError> {
        match end {
            DownloadEnd::Done => if download_need(stat, self.file_size) is Err {
                Err(DownloadError::PostStatFailed)
            } else {
                Ok(())
            },
            DownloadEnd::Cancelled => Err(DownloadError::DownloadCancelled),
            DownloadEnd::Gone => Err(DownloadError::DownloadCancelled),
            DownloadEnd::Failed => Err(DownloadError::DownloadFailed),
        }
    }

    /// Takes the end of a download into account.  After a download that succeeded the file
    /// must be there; failures in a row are counted.
    pub fn download_ended(&mut self, end: DownloadEnd, stat: FileStat) -> (r: Result<(), DownloadError>)
        requires
            old(self).wf(),
            old(self).pending is Some,
            end == DownloadEnd::Done ==> !(download_need(stat, old(self).file_size) matches Ok(
                Some(_),
            )),
        ensures
            final(self).wf(),
            r == old(self).download_result(end, stat),
            *final(self) == (LayerInner {
                pending: if r is Ok {
                    old(self).pending
                } else {
                    None
                },
                consecutive_failures: match end {
                    DownloadEnd::Done => if r is Ok {
                        0
                    } else {
                        old(self).consecutive_failures
                    },
                    DownloadEnd::Gone => old(self).consecutive_failures,
                    _ => if old(self).consecutive_failures == usize::MAX {
                        0
                    } else {
                        (old(self).consecutive_failures + 1) as usize
                    },
                },
                ..*old(self)
            }),
    {
        let result = match end {
            DownloadEnd::Done => match needs_download(stat, self.file_size) {
                Err(_) => Err(DownloadError::PostStatFailed),
                Ok(_) => {
                    self.consecutive_failures = 0;
                    Ok(())
                },
            },
            DownloadEnd::Gone => Err(DownloadError::DownloadCancelled),
            DownloadEnd::Cancelled => {
                self.consecutive_failures = self.consecutive_failures.wrapping_add(1);
                Err(DownloadError::DownloadCancelled)
            },
            DownloadEnd::Failed => {
                self.consecutive_failures = self.consecutive_failures.wrapping_add(1);
                Err(DownloadError::DownloadFailed)
            },
        };
        if result.is_err() {
            self.pending = None;
        }
        result
    }

    /// Completes an initialization: the layer is resident and has one reader.  The change is to
    /// be recorded.
    pub fn finish_init(&mut self) -> (r: LayerResidenceEvent)
        requires
            old(self).wf(),
            old(self).pending is Some,
        ensures
            final(self).wf(),
            r == (LayerResidenceEvent {
                status: LayerResidenceStatus::Resident,
                reason: LayerResidenceEventReason::ResidenceChange,
            }),
            *final(self) == (LayerInner {
                inner: Some(ResidentOrWantedEvicted::Resident(old(self).pending->0)),
                readers: 1,
                pending: None,
                ..*old(self)
            }),
    {
        if let Some(version) = self.pending {
            self.inner = Some(ResidentOrWantedEvicted::Resident(version));
            self.readers = 1;
            self.pending = None;
        }
        LayerResidenceEvent {
            status: LayerResidenceStatus::Resident,
            reason: LayerResidenceEventReason::ResidenceChange,
        }
    }

    /// Why a removal that was scheduled is not carried out.
    pub open spec fn eviction_obstacle(self, timeline_alive: bool, only_version: usize) -> Option<
        EvictionCancelled,
    > {
        if !timeline_alive {
            Some(EvictionCancelled::TimelineGone)
        } else {
            match self.inner {
                None => Some(EvictionCancelled::LostToDownload),
                Some(ResidentOrWantedEvicted::Resident(_)) => Some(
                    EvictionCancelled::AlreadyReinitialized,
                ),
                Some(ResidentOrWantedEvicted::WantedEvicted(v)) => if v == only_version {
                    None
                } else {
                    Some(EvictionCancelled::VersionCheckFailed)
                },
            }
        }
    }

    /// Begins a removal that was scheduled for a version: from here on the layer is not
    /// resident, which is to be recorded.  The file is removed only where this succeeds, and
    /// nobody reads it.
    pub fn evict_blocking(&mut self, timeline_alive: bool, only_version: usize) -> (r: Result<
        LayerResidenceEvent,
        EvictionCancelled,
    >)
        requires
            old(self).wf(),
            old(self).scheduled@.contains(only_version),
        ensures
            final(self).wf(),
            match old(self).eviction_obstacle(timeline_alive, only_version) {
                Some(why) => r == Err::<LayerResidenceEvent, EvictionCancelled>(why) && *final(self)
                    == *old(self),
                None => {
                    &&& r == Ok::<LayerResidenceEvent, EvictionCancelled>(
                        LayerResidenceEvent {
                            status: LayerResidenceStatus::Evicted,
                            reason: LayerResidenceEventReason::ResidenceChange,
                        },
                    )
                    &&& *final(self) == (LayerInner { inner: None, ..*old(self) })
                    &&& old(self).readers == 0
                },
            },
    {
        if !timeline_alive {
            return Err(EvictionCancelled::TimelineGone);
        }
        match self.inner {
            None => Err(EvictionCancelled::LostToDownload),
            Some(ResidentOrWantedEvicted::Resident(_)) => Err(
                EvictionCancelled::AlreadyReinitialized,
            ),
            Some(ResidentOrWantedEvicted::WantedEvicted(version)) => {
                if version == only_version {
                    self.inner = None;
                    Ok(
                        LayerResidenceEvent {
                            status: LayerResidenceStatus::Evicted,
                            reason: LayerResidenceEventReason::ResidenceChange,
                        },
                    )
                } else {
                    Err(EvictionCancelled::VersionCheckFailed)
                }
            },
        }
    }
}

/// What a removal that was begun comes to.
pub fn eviction_result(end: RemoveEnd) -> (r: Result<(), EvictionCancelled>)
    ensures
        r == match end {
            RemoveEnd::Removed => Ok(()),
            RemoveEnd::NotFound => Err(EvictionCancelled::FileNotFound),
            RemoveEnd::Failed => Err(EvictionCancelled::RemoveFailed),
        },
{
    match end {
        RemoveEnd::Removed => Ok(()),
        RemoveEnd::NotFound => Err(EvictionCancelled::FileNotFound),
        RemoveEnd::Failed => Err(EvictionCancelled::RemoveFailed),
    }
}

/// What the deletion of a layer that was no longer used comes to.
#[derive(Clone, Copy, Debug)]
pub struct DeletionReport {
    /// Whether the size of the file is taken off the timeline's resident size.
    pub size_released: bool,
    /// Whether the file could not be removed though it was there.
    pub remove_failed: bool,
    /// What became of the deletion in remote storage; nothing where there is none.
    pub deletion: Option<Result<(), DeleteFailed>>,
}

/// Sums up the deletion of a layer: what became of the file, whether the timeline is still
/// there, and, where it has remote storage, whether the deletion there was scheduled.
pub fn deletion_report(end: RemoveEnd, timeline_alive: bool, scheduled: Option<bool>) -> (r:
    DeletionReport)
    ensures
        r.size_released == (timeline_alive && end == RemoveEnd::Removed),
        r.remove_failed == (end == RemoveEnd::Failed),
        r.deletion == if !timeline_alive {
            Some(Err(DeleteFailed::TimelineGone))
        } else {
            match scheduled {
                None => None,
                Some(true) => Some(Ok(())),
                Some(false) => Some(Err(DeleteFailed::DeleteSchedulingFailed)),
            }
        },
{
    let removed = match end {
        RemoveEnd::Removed => true,
        _ => false,
    };
    let remove_failed = match end {
        RemoveEnd::Failed => true,
        _ => false,
    };
    let deletion = if !timeline_alive {
        Some(Err(DeleteFailed::TimelineGone))
    } else {
        match scheduled {
            None => None,
            Some(true) => Some(Ok(())),
            Some(false) => Some(Err(DeleteFailed::DeleteSchedulingFailed)),
        }
    };
    DeletionReport { size_released: timeline_alive && removed, remove_failed, deletion }
}

/// What a layer covers.
#[derive(Clone, Copy, Debug, PartialEq, Eq, Structural)]
pub struct LayerDesc {
    pub is_delta: bool,
    pub key_start: Key,
    /// Not part of the layer.
    pub key_end: Key,
    pub lsn_start: Lsn,
    /// Not part of the layer.
    pub lsn_end: Lsn,
    pub file_size: u64,
}

/// Whether a value of `key` in a range of log positions may be looked for in the layer.
pub fn lookup_fits(desc: &LayerDesc, key: Key, lsn_start: Lsn, lsn_end: Lsn) -> (r: bool)
    ensures
        r == (desc.key_start.rank() <= key.rank() < desc.key_end.rank() && lsn_start.0
            >= desc.lsn_start.0 && (desc.is_delta || lsn_end.0 >= desc.lsn_start.0)),
{
    let key_fits = !key.precedes(&desc.key_start) && key.precedes(&desc.key_end);
    if desc.is_delta {
        lsn_start.0 >= desc.lsn_start.0 && key_fits
    } else {
        key_fits && lsn_start.0 >= desc.lsn_start.0 && lsn_end.0 >= desc.lsn_start.0
    }
}

/// A layer as it is reported.  `S` is what is reported of its accesses.
#[derive(Debug, PartialEq, Eq)]
pub enum HistoricLayerInfo<S> {
    Delta {
        layer_file_name: String,
        layer_file_size: u64,
        lsn_start: Lsn,
        lsn_end: Lsn,
        remote: bool,
        access_stats: S,
    },
    Image {
        layer_file_name: String,
        layer_file_size: u64,
        lsn_start: Lsn,
        remote: bool,
        access_stats: S,
    },
}

/// Reports a layer.
pub fn layer_info<S>(
    desc: &LayerDesc,
    layer: &LayerInner,
    layer_file_name: String,
    access_stats: S,
) -> (r: HistoricLayerInfo<S>)
    ensures
        r == if desc.is_delta {
            HistoricLayerInfo::Delta {
                layer_file_name,
                layer_file_size: desc.file_size,
                lsn_start: desc.lsn_start,
                lsn_end: desc.lsn_end,
                remote: layer.inner is None,
                access_stats,
            }
        } else {
            HistoricLayerInfo::Image {
                layer_file_name,
                layer_file_size: desc.file_size,
                lsn_start: desc.lsn_start,
                remote: layer.inner is None,
                access_stats,
            }
        },
{
    let remote = layer.is_remote();
    if desc.is_delta {
        HistoricLayerInfo::Delta {
            layer_file_name,
            layer_file_size: desc.file_size,
            lsn_start: desc.lsn_start,
            lsn_end: desc.lsn_end,
            remote,
            access_stats,
        }
    } else {
        HistoricLayerInfo::Image {
            layer_file_name,
            layer_file_size: desc.file_size,
            lsn_start: desc.lsn_start,
            remote,
            access_stats,
        }
    }
}

/// The label of a layer: its short name and the suffix of its generation, or a mark where
/// the generation is broken.
pub fn layer_label(short_id: &str, generation: Generation, suffix: &str) -> (r: String)
    ensures
        r@ == short_id@ + if generation == Generation::Broken {
            "-broken"@
        } else {
            suffix@
        },
{
    let mut r = String::from_str(short_id);
    if generation == Generation::Broken {
        r.append("-broken");
    } else {
        r.append(suffix);
    }
    r
}

/// A removal that was scheduled for one version of a layer does nothing once the layer has
/// been downloaded anew, is being downloaded, or is in use.
pub proof fn evictions_lose_to_downloads(layer: LayerInner, timeline_alive: bool, version: usize)
    requires
        layer.wf(),
        layer.scheduled@.contains(version),
        layer.inner is None || layer.readers > 0 || layer.inner->0.version_of() != version,
    ensures
        layer.eviction_obstacle(timeline_alive, version) is Some,
{
}

/// A layer that was downloaded has a version for which no removal was ever scheduled.
pub proof fn downloads_are_safe_from_earlier_evictions(layer: LayerInner)
    requires
        layer.wf(),
        layer.pending is Some,
    ensures
        !layer.scheduled@.contains(layer.pending->0),
{
}

/// The first request turns a resident layer into one that only readers keep, and gives up just
/// the version that was resident.
pub proof fn requests_keep_the_version(version: usize)
    ensures
        ResidentOrWantedEvicted::Resident(version).downgraded() == (
            ResidentOrWantedEvicted::WantedEvicted(version),
            Some(version),
        ),
        ResidentOrWantedEvicted::WantedEvicted(version).downgraded() == (
            ResidentOrWantedEvicted::WantedEvicted(version),
            None::<usize>,
        ),
{
}

/// A file is good exactly if it is a file of the layer's size; whatever else is found says why
/// not, and nothing is known where it could not be looked at.
pub proof fn files_are_good_by_kind_and_size(stat: FileStat, file_size: u64)
    ensures
        download_need(stat, file_size) == Ok::<Option<NeedsDownload>, ()>(None) <==> stat == (
        FileStat::Present { is_file: true, len: file_size }),
        download_need(stat, file_size) == Ok::<Option<NeedsDownload>, ()>(
            Some(NeedsDownload::NotFound),
        ) <==> stat == FileStat::NotFound,
        download_need(stat, file_size) == Ok::<Option<NeedsDownload>, ()>(
            Some(NeedsDownload::NotFile),
        ) <==> (stat matches FileStat::Present { is_file, .. } && !is_file),
        download_need(stat, file_size) matches Ok(Some(NeedsDownload::WrongSize {
            actual,
            expected,
        })) ==> stat == (FileStat::Present { is_file: true, len: actual }) && expected == file_size
            && actual != file_size,
        stat matches FileStat::Present { is_file, len } ==> is_file && len != file_size ==> (
        download_need(stat, file_size) matches Ok(Some(NeedsDownload::WrongSize {
            actual,
            expected,
        })) && actual == len && expected == file_size),
        download_need(stat, file_size) is Err <==> stat == FileStat::Failed,
{
}

/// Only a task that treats downloads as errors is denied them, and not where the configuration
/// makes a warning of it.
pub proof fn downloads_are_denied_as_configured(behavior: DownloadBehavior, as_warn: bool)
    ensures
        !download_denied(DownloadBehavior::Download, as_warn),
        !download_denied(DownloadBehavior::Warn, as_warn),
        !download_denied(behavior, true),
        download_denied(DownloadBehavior::Error, false),
{
}

/// The file is removed behind the last reader exactly where an eviction is wanted, the layer can
/// be had again from remote storage, and it is not to be deleted; then its own version is.
pub proof fn wanted_evictions_follow_the_last_reader(layer: LayerInner, version: usize)
    ensures
        layer.drop_action(version) == (DropAction::ScheduleEviction { version })
            <==> layer.wanted_evicted && layer.have_remote_client && !layer.wanted_deleted,
        layer.drop_action(version) == DropAction::Nothing <==> !(layer.wanted_evicted
            && layer.have_remote_client && !layer.wanted_deleted),
        layer.scheduled_after(DropAction::Nothing) == layer.scheduled@,
        forall|v: usize|
            #[trigger] layer.scheduled_after(DropAction::ScheduleEviction { version }).contains(v)
                <==> v == version || layer.scheduled@.contains(v),
{
}

/// A download is begun exactly where the timeline lives, the file is missing or has the wrong
/// size, there is remote storage to have it from, the task is not denied downloads and the
/// caller allows one.  A good file is used without any of this but the timeline.
pub proof fn downloads_are_begun_where_they_can_be(
    layer: LayerInner,
    alive: bool,
    stat: FileStat,
    behavior: Option<DownloadBehavior>,
    as_warn: bool,
    allow: bool,
)
    ensures
        ({
            let decision = layer.init_decision(alive, stat, behavior, as_warn, allow);
            let missing = stat == FileStat::NotFound || (stat matches FileStat::Present {
                is_file,
                len,
            } && is_file && len != layer.file_size);
            let denied = behavior == Some(DownloadBehavior::Error) && !as_warn;
            &&& decision == Ok::<InitStep, DownloadError>(InitStep::Download) <==> alive && missing
                && layer.have_remote_client && !denied && allow
            &&& decision == Ok::<InitStep, DownloadError>(InitStep::UseFile) <==> alive && stat == (
            FileStat::Present { is_file: true, len: layer.file_size })
            &&& decision == Err::<InitStep, DownloadError>(DownloadError::TimelineShutdown)
                <==> !alive
            &&& decision == Err::<InitStep, DownloadError>(DownloadError::PreStatFailed) <==> alive
                && stat == FileStat::Failed
            &&& decision == Err::<InitStep, DownloadError>(DownloadError::NotFile) <==> alive && (
            stat matches FileStat::Present { is_file, .. } && !is_file)
            &&& decision == Err::<InitStep, DownloadError>(DownloadError::NoRemoteStorage)
                <==> alive && missing && !layer.have_remote_client
            &&& decision == Err::<InitStep, DownloadError>(
                DownloadError::ContextAndConfigReallyDeniesDownloads,
            ) <==> alive && missing && layer.have_remote_client && denied
            &&& decision == Err::<InitStep, DownloadError>(DownloadError::DownloadRequired)
                <==> alive && missing && layer.have_remote_client && !denied && !allow
            &&& layer.file_missing(alive, stat) <==> alive && missing
        }),
{
}

/// A download has succeeded where it is done and the file can be looked at; every other end
/// has its own error.
pub proof fn downloads_succeed_when_done(layer: LayerInner, end: DownloadEnd, stat: FileStat)
    ensures
        layer.download_result(end, stat) is Ok <==> end == DownloadEnd::Done && stat
            != FileStat::Failed,
        layer.download_result(end, stat) == Err::<(), DownloadError>(DownloadError::PostStatFailed)
            <==> end == DownloadEnd::Done && stat == FileStat::Failed,
        layer.download_result(end, stat) == Err::<(), DownloadError>(
            DownloadError::DownloadCancelled,
        ) <==> end == DownloadEnd::Cancelled || end == DownloadEnd::Gone,
        layer.download_result(end, stat) == Err::<(), DownloadError>(DownloadError::DownloadFailed)
            <==> end == DownloadEnd::Failed,
{
}

/// A scheduled removal goes on exactly where the timeline lives and the layer is still wanted
/// evicted in the version that it was scheduled for; otherwise what has come in between is the
/// reason.
pub proof fn removals_need_their_version(layer: LayerInner, alive: bool, version: usize)
    ensures
        layer.eviction_obstacle(alive, version) is None <==> alive && layer.inner == Some(
            ResidentOrWantedEvicted::WantedEvicted(version),
        ),
        layer.eviction_obstacle(alive, version) == Some(EvictionCancelled::TimelineGone) <==> !alive,
        layer.eviction_obstacle(alive, version) == Some(EvictionCancelled::LostToDownload)
            <==> alive && layer.inner is None,
        layer.eviction_obstacle(alive, version) == Some(EvictionCancelled::AlreadyReinitialized)
            <==> alive && (layer.inner matches Some(either) && either is Resident),
        layer.eviction_obstacle(alive, version) == Some(EvictionCancelled::VersionCheckFailed)
            <==> alive && (layer.inner matches Some(ResidentOrWantedEvicted::WantedEvicted(v)) && v
            != version),
{
}

/// A layer's version is that of the download that made it, whether its eviction is wanted or not.
pub proof fn versions_outlast_requests(version: usize)
    ensures
        ResidentOrWantedEvicted::Resident(version).version_of() == version,
        ResidentOrWantedEvicted::WantedEvicted(version).version_of() == version,
{
}

/// The labels under which cancelled evictions, failed deletions and rare events are counted.
pub proof fn metric_labels()
    ensures
        EvictionCancelled::LayerGone.label() == "layer_gone"@,
        EvictionCancelled::TimelineGone.label() == "timeline_gone"@,
        EvictionCancelled::VersionCheckFailed.label() == "version_check_fail"@,
        EvictionCancelled::FileNotFound.label() == "file_not_found"@,
        EvictionCancelled::RemoveFailed.label() == "remove_failed"@,
        EvictionCancelled::AlreadyReinitialized.label() == "already_reinitialized"@,
        EvictionCancelled::LostToDownload.label() == "lost_to_download"@,
        EvictionCancelled::UpgradedBackOnAccess.label() == "upgraded_back_on_access"@,
        DeleteFailed::TimelineGone.label() == "timeline_gone"@,
        DeleteFailed::DeleteSchedulingFailed.label() == "delete_scheduling_failed"@,
        RareEvent::RemoveOnDropFailed.label() == "remove_on_drop_failed"@,
        RareEvent::RetriedGetOrMaybeDownload.label() == "retried_gomd"@,
        RareEvent::DownloadFailedWithoutRequester.label() == "download_failed_without"@,
        RareEvent::UpgradedWantedEvicted.label() == "raced_wanted_evicted"@,
        RareEvent::InitWithoutDownload.label() == "init_needed_no_download"@,
        RareEvent::PermanentLoadingFailure.label() == "permanent_loading_failure"@,
        RareEvent::EvictAndWaitLagged.label() == "broadcast_lagged"@,
{
}

/// What is said of a layer that is not available.
pub proof fn download_error_words()
    ensures
        DownloadError::TimelineShutdown.message_text() == "timeline has already shutdown"@,
        DownloadError::NoRemoteStorage.message_text() == "no remote storage configured"@,
        DownloadError::ContextAndConfigReallyDeniesDownloads.message_text()
            == "context denies downloading"@,
        DownloadError::DownloadRequired.message_text()
            == "downloading is really required but not allowed by this method"@,
        DownloadError::NotFile.message_text() == "layer path exists, but it is not a file"@,
        DownloadError::DownloadFailed.message_text() == "downloading evicted layer file failed"@,
        DownloadError::DownloadCancelled.message_text()
            == "downloading failed, possibly for shutdown"@,
        DownloadError::PreStatFailed.message_text()
            == "pre-condition: stat before download failed"@,
        DownloadError::PostStatFailed.message_text()
            == "post-condition: stat after download failed"@,
{
}

} // verus!

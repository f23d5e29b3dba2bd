//! The persisted record of one download job and the transitions it may take:
//! Pending -> Downloading -> Completed or Failed, and Failed -> Pending on retry.
use vstd::prelude::*;
use crate::text::str_eq;

verus! {

#[derive(Clone, Copy, Debug, PartialEq, Eq, Structural)]
pub enum DownloadStatus {
    Pending,
    Downloading,
    Completed,
    Failed,
}

pub open spec fn status_text(s: DownloadStatus) -> Seq<char> {
    match s {
        DownloadStatus::Pending => "pending"@,
        DownloadStatus::Downloading => "downloading"@,
        DownloadStatus::Completed => "completed"@,
        DownloadStatus::Failed => "failed"@,
    }
}

/// The status that a stored status text denotes; unknown text is pending.
pub open spec fn status_of_text(t: Seq<char>) -> DownloadStatus {
    if t == "downloading"@ {
        DownloadStatus::Downloading
    } else if t == "completed"@ {
        DownloadStatus::Completed
    } else if t == "failed"@ {
        DownloadStatus::Failed
    } else {
        DownloadStatus::Pending
    }
}

impl DownloadStatus {
    pub fn as_str(self) -> (r: &'static str)
        ensures
            r@ == status_text(self),
    {
        match self {
            DownloadStatus::Pending => "pending",
            DownloadStatus::Downloading => "downloading",
            DownloadStatus::Completed => "completed",
            DownloadStatus::Failed => "failed",
        }
    }

    /// The status that a stored status text denotes.
    pub fn from_text(t: &str) -> (r: DownloadStatus)
        ensures
            r == status_of_text(t@),
    {
        if str_eq(t, "downloading") {
            DownloadStatus::Downloading
        } else if str_eq(t, "completed") {
            DownloadStatus::Completed
        } else if str_eq(t, "failed") {
            DownloadStatus::Failed
        } else {
            DownloadStatus::Pending
        }
    }

    /// Terminal statuses take no further step without a retry.
    pub open spec fn is_terminal(self) -> bool {
        self is Completed || self is Failed
    }
}

/// A transition that the job's status does not allow.
#[derive(Clone, Copy, Debug, PartialEq, Eq, Structural)]
pub enum TransitionError {
    /// Only a pending job can start.
    NotPending,
    /// Only a downloading job can progress, complete or fail.
    NotDownloading,
    /// Only a failed job can be retried.
    NotFailed,
}

/// The mathematical value of a `JobRecord`.
pub struct JobView {
    pub status: DownloadStatus,
    pub file_path: Option<Seq<char>>,
    pub file_size: Option<u64>,
    pub progress: u64,
    pub error_message: Option<Seq<char>>,
}

/// The durable record of one job, as the core sees it.
pub struct JobRecord {
    pub status: DownloadStatus,
    pub file_path: Option<String>,
    pub file_size: Option<u64>,
    /// Hundredths of a percent.
    pub progress: u64,
    pub error_message: Option<String>,
}

pub open spec fn opt_seq(o: Option<String>) -> Option<Seq<char>> {
    match o {
        Some(s) => Some(s@),
        None => None,
    }
}

impl View for JobRecord {
    type V = JobView;

    open spec fn view(&self) -> JobView {
        JobView {
            status: self.status,
            file_path: opt_seq(self.file_path),
            file_size: self.file_size,
            progress: self.progress,
            error_message: opt_seq(self.error_message),
        }
    }
}

/// A new job: pending, with nothing recorded.
pub open spec fn fresh_job() -> JobView {
    JobView {
        status: DownloadStatus::Pending,
        file_path: None,
        file_size: None,
        progress: 0,
        error_message: None,
    }
}

/// The job once its run has started.
pub open spec fn job_started(j: JobView) -> JobView {
    JobView { status: DownloadStatus::Downloading, ..j }
}

/// The job with a new displayed percent.
pub open spec fn job_progressed(j: JobView, percent: u64) -> JobView {
    JobView { progress: percent, ..j }
}

/// The job once its file is in place: complete, 100%, and no error.
pub open spec fn job_completed(j: JobView, path: Seq<char>, size: Option<u64>) -> JobView {
    JobView {
        status: DownloadStatus::Completed,
        file_path: Some(path),
        file_size: size,
        progress: 10000,
        error_message: None,
    }
}

/// The job once its run has failed with `message`.
pub open spec fn job_failed(j: JobView, message: Seq<char>) -> JobView {
    JobView { status: DownloadStatus::Failed, error_message: Some(message), ..j }
}

/// The job put back in the queue after a failure.
pub open spec fn job_retried(j: JobView) -> JobView {
    JobView { status: DownloadStatus::Pending, ..j }
}

impl JobRecord {
    pub fn new() -> (r: Self)
        ensures
            r@ == fresh_job(),
    {
        JobRecord {
            status: DownloadStatus::Pending,
            file_path: None,
            file_size: None,
            progress: 0,
            error_message: None,
        }
    }

    /// Pending -> Downloading.
    pub fn start(&mut self) -> (r: Result<(), TransitionError>)
        ensures
            old(self).status is Pending ==> r is Ok && final(self)@ == job_started(old(self)@),
            !(old(self).status is Pending) ==> r == Err::<(), _>(TransitionError::NotPending)
                && final(self)@ == old(self)@,
    {
        match self.status {
            DownloadStatus::Pending => {
                self.status = DownloadStatus::Downloading;
                Ok(())
            },
            _ => Err(TransitionError::NotPending),
        }
    }

    /// Records the displayed percent of a downloading job.
    pub fn set_progress(&mut self, percent: u64) -> (r: Result<(), TransitionError>)
        ensures
            old(self).status is Downloading ==> r is Ok && final(self)@ == job_progressed(
                old(self)@,
                percent,
            ),
            !(old(self).status is Downloading) ==> r == Err::<(), _>(
                TransitionError::NotDownloading,
            ) && final(self)@ == old(self)@,
    {
        match self.status {
            DownloadStatus::Downloading => {
                self.progress = percent;
                Ok(())
            },
            _ => Err(TransitionError::NotDownloading),
        }
    }

    /// Downloading -> Completed, with the file's path and size.
    pub fn complete(&mut self, path: String, size: Option<u64>) -> (r: Result<(), TransitionError>)
        ensures
            old(self).status is Downloading ==> r is Ok && final(self)@ == job_completed(
                old(self)@,
                path@,
                size,
            ),
            !(old(self).status is Downloading) ==> r == Err::<(), _>(
                TransitionError::NotDownloading,
            ) && final(self)@ == old(self)@,
    {
        match self.status {
            DownloadStatus::Downloading => {
                self.status = DownloadStatus::Completed;
                self.file_path = Some(path);
                self.file_size = size;
                self.progress = 10000;
                self.error_message = None;
                Ok(())
            },
            _ => Err(TransitionError::NotDownloading),
        }
    }

    /// Downloading -> Failed, with the message shown to the user.
    pub fn fail(&mut self, message: String) -> (r: Result<(), TransitionError>)
        ensures
            old(self).status is Downloading ==> r is Ok && final(self)@ == job_failed(
                old(self)@,
                message@,
            ),
            !(old(self).status is Downloading) ==> r == Err::<(), _>(
                TransitionError::NotDownloading,
            ) && final(self)@ == old(self)@,
    {
        match self.status {
            DownloadStatus::Downloading => {
                self.status = DownloadStatus::Failed;
                self.error_message = Some(message);
                Ok(())
            },
            _ => Err(TransitionError::NotDownloading),
        }
    }

    /// Failed -> Pending.
    pub fn retry(&mut self) -> (r: Result<(), TransitionError>)
        ensures
            old(self).status is Failed ==> r is Ok && final(self)@ == job_retried(old(self)@),
            !(old(self).status is Failed) ==> r == Err::<(), _>(TransitionError::NotFailed)
                && final(self)@ == old(self)@,
    {
        match self.status {
            DownloadStatus::Failed => {
                self.status = DownloadStatus::Pending;
                Ok(())
            },
            _ => Err(TransitionError::NotFailed),
        }
    }
}

/// What a request to download a video does, given its existing job.
#[derive(Clone, Copy, Debug, PartialEq, Eq, Structural)]
pub enum StartAdmission {
    /// A job for the video is pending or downloading: nothing new starts.
    AlreadyInProgress,
    /// The video has been downloaded: nothing new starts.
    AlreadyDownloaded,
    /// No job, or a failed one: a new job is queued.
    Accept,
}

/// Decides a download request from the status of the video's existing job.
pub fn admit_start(existing: Option<DownloadStatus>) -> (r: StartAdmission)
    ensures
        r is AlreadyInProgress <==> (existing == Some(DownloadStatus::Pending) || existing == Some(
            DownloadStatus::Downloading,
        )),
        r is AlreadyDownloaded <==> existing == Some(DownloadStatus::Completed),
        r is Accept <==> (existing is None || existing == Some(DownloadStatus::Failed)),
{
    match existing {
        Some(DownloadStatus::Pending) | Some(DownloadStatus::Downloading) => {
            StartAdmission::AlreadyInProgress
        },
        Some(DownloadStatus::Completed) => StartAdmission::AlreadyDownloaded,
        _ => StartAdmission::Accept,
    }
}

/// A failed job that is retried goes back to pending, then to downloading
/// when its new run starts, and once that run completes it holds the new
/// file at 100% with the earlier error cleared.
pub proof fn lemma_retry_clears_error(j: JobView, path: Seq<char>, size: Option<u64>)
    requires
        j.status is Failed,
    ensures
        job_retried(j).status is Pending,
        job_started(job_retried(j)).status is Downloading,
        job_completed(job_started(job_retried(j)), path, size).status is Completed,
        job_completed(job_started(job_retried(j)), path, size).error_message is None,
        job_completed(job_started(job_retried(j)), path, size).file_path == Some(path),
        job_completed(job_started(job_retried(j)), path, size).progress == 10000,
{
}

} // verus!

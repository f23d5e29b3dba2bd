use toobarr::job::{admit_start, DownloadStatus, JobRecord, StartAdmission, TransitionError};
use toobarr::progress::{parse_progress_line, DownloadEvent, DownloadProgress};
use toobarr::run::{RunAction, RunOutcome, RunState};
use toobarr::status::{settle, EphemeralStatus, StatusLabel, StatusTable, CLEANUP_DELAY_SECS};
use toobarr::worker::{
    download_dir, output_template_in, request_cancel, request_retry, sanitize_filename,
    thumbnail_url, Dispatcher, DownloadCommand, VideoMeta, WorkerAction,
};

fn progress(percent: u64) -> DownloadEvent {
    DownloadEvent::Progress(DownloadProgress {
        downloaded_bytes: 0,
        total_bytes: None,
        speed: None,
        eta: None,
        percent: Some(percent),
        fragment_index: None,
        fragment_count: None,
    })
}

fn meta() -> VideoMeta {
    VideoMeta {
        youtube_id: "abc".to_string(),
        title: "T".to_string(),
        description: None,
        duration_seconds: Some(60),
        upload_date: None,
    }
}

/// Feeds lines through the classifier and the run, recording what the job shows.
fn feed(lines: &[&str], run: &mut RunState, record: &mut JobRecord, table: &mut StatusTable, id: &str) {
    let mut current = None;
    for line in lines {
        if let Some(event) = parse_progress_line(line, &mut current) {
            let action = run.on_event(&event);
            if let RunAction::Progress { percent, .. } = action {
                record.set_progress(percent).unwrap();
            }
            if let Some(status) = EphemeralStatus::for_action(&action) {
                table.insert(id.to_string(), status);
            }
        }
    }
}

#[test]
fn displayed_percent_is_the_running_maximum() {
    let mut run = RunState::new();
    let mut shown = Vec::new();
    for p in [1000, 4000, 500, 6000] {
        if let RunAction::Progress { percent, .. } = run.on_event(&progress(p)) {
            shown.push(percent);
        }
    }
    assert_eq!(shown, vec![1000, 4000, 4000, 6000]);
    assert_eq!(run.max_percent(), 6000);
}

#[test]
fn successful_run_is_persisted_completed() {
    let mut record = JobRecord::new();
    let mut table = StatusTable::new();
    record.start().unwrap();
    table.insert("job1".to_string(), EphemeralStatus::started());
    let mut run = RunState::new();
    feed(
        &[
            "[download] Destination: /d/chan/video.mp4",
            "[download]  10.0% of 10.00MiB at 1.00MiB/s ETA 00:09",
            "[download]  55.0% of 10.00MiB at 1.00MiB/s ETA 00:04",
            "[download] 100.0% of 10.00MiB at 1.00MiB/s ETA 00:00",
        ],
        &mut run,
        &mut record,
        &mut table,
        "job1",
    );
    assert_eq!(record.progress, 10000);
    assert_eq!(table.get("job1").unwrap().label, StatusLabel::Progress);
    let mut current = Some("/d/chan/video.mp4".to_string());
    let last = toobarr::client::finish_event(true, Some(0), current.take(), "/d/chan/%(title)s.%(ext)s");
    assert!(matches!(run.on_event(&last), RunAction::Idle));
    let outcome = run.outcome();
    assert!(matches!(&outcome, RunOutcome::Completed { filename } if filename == "/d/chan/video.mp4"));
    let (done, status) = settle(&mut record, &outcome, Some(10485760));
    assert_eq!(done, Ok(()));
    assert_eq!(record.status, DownloadStatus::Completed);
    assert_eq!(record.file_path, Some("/d/chan/video.mp4".to_string()));
    assert_eq!(record.file_size, Some(10485760));
    assert_eq!(record.progress, 10000);
    assert_eq!(record.error_message, None);
    assert_eq!(status.label, StatusLabel::Completed);
    assert_eq!(status.percent, 10000);
}

#[test]
fn cancelled_run_is_persisted_failed_and_its_status_goes() {
    let mut dispatcher = Dispatcher::new();
    let action = dispatcher.on_command(DownloadCommand::Start {
        download_id: "job2".to_string(),
        video_url: "https://v".to_string(),
        channel_name: "Chan".to_string(),
        video_meta: meta(),
    });
    assert!(matches!(action, WorkerAction::Spawn { ref download_id, .. } if download_id == "job2"));
    assert!(dispatcher.is_running("job2"));

    let mut record = JobRecord::new();
    let mut table = StatusTable::new();
    record.start().unwrap();
    let mut run = RunState::new();
    feed(&["[download] Destination: x.mp4", " 12.0% 5.00MiB 1.00MiB/s 00:04"], &mut run, &mut record, &mut table, "job2");

    let cancel = dispatcher.on_command(DownloadCommand::Cancel { download_id: "job2".to_string() });
    assert!(matches!(cancel, WorkerAction::SignalCancel { ref download_id } if download_id == "job2"));
    assert!(!dispatcher.is_running("job2"));
    run.on_cancel();
    let outcome = run.outcome();
    let (_, status) = settle(&mut record, &outcome, None);
    assert_eq!(record.status, DownloadStatus::Failed);
    assert_eq!(record.error_message, Some("Cancelled by user".to_string()));
    assert_eq!(status.error, Some("Cancelled by user".to_string()));
    table.insert("job2".to_string(), status);
    assert_eq!(table.get("job2").unwrap().label, StatusLabel::Failed);
    assert_eq!(CLEANUP_DELAY_SECS, 5);
    table.remove("job2");
    assert!(table.get("job2").is_none());
    dispatcher.on_run_finished("job2");
    assert!(!dispatcher.is_running("job2"));
}

#[test]
fn cancel_of_idle_job_is_ignored() {
    let mut dispatcher = Dispatcher::new();
    let action = dispatcher.on_command(DownloadCommand::Cancel { download_id: "nope".to_string() });
    assert!(matches!(action, WorkerAction::Ignore));
}

#[test]
fn retry_runs_again_and_clears_the_error() {
    let mut record = JobRecord::new();
    record.start().unwrap();
    record.fail("ERROR text".to_string()).unwrap();
    assert_eq!(record.status, DownloadStatus::Failed);
    assert_eq!(record.start(), Err(TransitionError::NotPending));
    record.retry().unwrap();
    assert_eq!(record.status, DownloadStatus::Pending);
    record.start().unwrap();
    assert_eq!(record.status, DownloadStatus::Downloading);
    let mut run = RunState::new();
    run.on_event(&DownloadEvent::Finished { filename: "f.mkv".to_string() });
    let (done, _) = settle(&mut record, &run.outcome(), Some(1));
    assert_eq!(done, Ok(()));
    assert_eq!(record.status, DownloadStatus::Completed);
    assert_eq!(record.error_message, None);
}

#[test]
fn invalid_transitions_are_refused() {
    let mut record = JobRecord::new();
    assert_eq!(record.retry(), Err(TransitionError::NotFailed));
    assert_eq!(record.set_progress(10), Err(TransitionError::NotDownloading));
    assert_eq!(record.complete("x".to_string(), None), Err(TransitionError::NotDownloading));
    assert_eq!(record.fail("x".to_string()), Err(TransitionError::NotDownloading));
    assert_eq!(record.status, DownloadStatus::Pending);
}

#[test]
fn error_events_and_missing_files_fail_the_run() {
    let mut run = RunState::new();
    run.on_event(&DownloadEvent::Error { message: "Video unavailable".to_string() });
    run.on_event(&DownloadEvent::Finished { filename: "x".to_string() });
    assert!(matches!(run.outcome(), RunOutcome::Failed { message } if message == "Video unavailable"));

    let quiet = RunState::new();
    let mut record = JobRecord::new();
    record.start().unwrap();
    let (_, status) = settle(&mut record, &quiet.outcome(), None);
    assert_eq!(record.error_message, Some("Download completed but no file found".to_string()));
    assert_eq!(status.error, Some("No file found".to_string()));

    let mut broken = RunState::new();
    broken.on_stream_error("pipe closed".to_string());
    assert!(matches!(broken.outcome(), RunOutcome::Failed { message } if message == "pipe closed"));
}

#[test]
fn processing_status_and_active_count() {
    let mut table = StatusTable::new();
    table.insert("a".to_string(), EphemeralStatus::started());
    let status = EphemeralStatus::for_action(&RunAction::Processing { status: "[ffmpeg] x".to_string() }).unwrap();
    assert_eq!(status.percent, 10000);
    table.insert("b".to_string(), status);
    table.insert("c".to_string(), EphemeralStatus::for_outcome(&RunOutcome::NoFile));
    assert_eq!(table.active_count(), 2);
    table.insert("a".to_string(), EphemeralStatus::for_outcome(&RunOutcome::NoFile));
    assert_eq!(table.active_count(), 1);
    assert_eq!(StatusLabel::Processing.as_str(), "processing");
    assert!(EphemeralStatus::for_action(&RunAction::Idle).is_none());
}

#[test]
fn status_texts() {
    assert_eq!(DownloadStatus::Downloading.as_str(), "downloading");
    assert_eq!(DownloadStatus::from_text("failed"), DownloadStatus::Failed);
    assert_eq!(DownloadStatus::from_text("completed"), DownloadStatus::Completed);
    assert_eq!(DownloadStatus::from_text("weird"), DownloadStatus::Pending);
}

#[test]
fn paths_for_a_channel() {
    assert_eq!(sanitize_filename("  A/B: C?  "), "A_B_ C_");
    assert_eq!(download_dir("./downloads", "My|Chan"), "./downloads/My_Chan");
    assert_eq!(output_template_in("/d/c"), "/d/c/%(title)s.%(ext)s");
    assert_eq!(thumbnail_url("abc"), "https://i.ytimg.com/vi/abc/maxresdefault.jpg");
}

#[test]
fn start_requests_are_admitted_by_existing_status() {
    assert_eq!(admit_start(None), StartAdmission::Accept);
    assert_eq!(admit_start(Some(DownloadStatus::Failed)), StartAdmission::Accept);
    assert_eq!(admit_start(Some(DownloadStatus::Pending)), StartAdmission::AlreadyInProgress);
    assert_eq!(admit_start(Some(DownloadStatus::Downloading)), StartAdmission::AlreadyInProgress);
    assert_eq!(admit_start(Some(DownloadStatus::Completed)), StartAdmission::AlreadyDownloaded);
}

#[test]
fn user_cancel_and_retry_requests() {
    let mut record = JobRecord::new();
    assert_eq!(
        request_cancel(&mut record, "j".to_string()).err(),
        Some(TransitionError::NotDownloading)
    );
    record.start().unwrap();
    let cancel = request_cancel(&mut record, "j".to_string()).unwrap();
    assert!(matches!(cancel, DownloadCommand::Cancel { ref download_id } if download_id == "j"));
    assert_eq!(record.status, DownloadStatus::Failed);
    assert_eq!(record.error_message, Some("Cancelled by user".to_string()));

    let retry = request_retry(&mut record, "j".to_string(), "https://v".to_string(), "C".to_string(), meta())
        .unwrap();
    assert!(matches!(retry, DownloadCommand::Start { ref download_id, ref video_url, .. }
        if download_id == "j" && video_url == "https://v"));
    assert_eq!(record.status, DownloadStatus::Pending);
    let again = request_retry(&mut record, "j".to_string(), "u".to_string(), "C".to_string(), meta());
    assert_eq!(again.err(), Some(TransitionError::NotFailed));
}

use toobarr::client::finish_event;
use toobarr::progress::{format_bytes, parse_progress_line, DownloadEvent, DownloadProgress};

fn classify(line: &str, current: &mut Option<String>) -> Option<DownloadEvent> {
    parse_progress_line(line, current)
}

#[test]
fn test_parse_progress_line_destination() {
    let mut filename = None;
    let event = parse_progress_line("[download] Destination: video.mp4", &mut filename);
    assert!(matches!(event, Some(DownloadEvent::DownloadStarted { .. })));
    assert_eq!(filename, Some("video.mp4".to_string()));
}

#[test]
fn test_parse_progress_line_error() {
    let mut filename = None;
    let event = parse_progress_line("ERROR: Video unavailable", &mut filename);
    assert!(matches!(event, Some(DownloadEvent::Error { .. })));
}

#[test]
fn destination_then_bare_percent_line() {
    let mut current = None;
    let first = classify("[download] Destination: video.mp4", &mut current);
    assert_eq!(
        first,
        Some(DownloadEvent::DownloadStarted { filename: "video.mp4".to_string() })
    );
    assert_eq!(current, Some("video.mp4".to_string()));
    let second = classify(" 14.6%  887.84MiB    7.61MiB/s 01:39", &mut current);
    match second {
        Some(DownloadEvent::Progress(p)) => {
            assert_eq!(p.percent, Some(1460));
            assert_eq!(p.total_bytes, Some(930967715));
            assert_eq!(p.speed, Some(7979663));
            assert_eq!(p.eta, Some(99));
            assert_eq!(p.downloaded_bytes, 135921286);
        }
        other => panic!("unexpected {:?}", other),
    }
    assert_eq!(current, Some("video.mp4".to_string()));
}

#[test]
fn destination_line_with_percent_is_still_a_destination() {
    let mut current = None;
    let e = classify("[download] Destination: 100% done.mp4", &mut current);
    assert_eq!(
        e,
        Some(DownloadEvent::DownloadStarted { filename: "100% done.mp4".to_string() })
    );
}

#[test]
fn download_prefixed_progress_line() {
    let mut current = None;
    let e = classify(
        "[download]  50.0% of 10.00MiB at  1.00MiB/s ETA 00:05",
        &mut current,
    );
    assert_eq!(
        e,
        Some(DownloadEvent::Progress(DownloadProgress {
            downloaded_bytes: 0,
            total_bytes: None,
            speed: Some(1048576),
            eta: None,
            percent: Some(5000),
            fragment_index: None,
            fragment_count: None,
        }))
    );
}

#[test]
fn template_progress_line() {
    let mut current = None;
    let e = classify("download:  42.0% 100.00MiB 2.00MiB/s 00:29", &mut current);
    assert_eq!(
        e,
        Some(DownloadEvent::Progress(DownloadProgress {
            downloaded_bytes: 44040192,
            total_bytes: Some(104857600),
            speed: Some(2097152),
            eta: Some(29),
            percent: Some(4200),
            fragment_index: None,
            fragment_count: None,
        }))
    );
}

#[test]
fn template_line_with_unknown_fields() {
    let mut current = None;
    let e = classify("download: 3.5% N/A N/A Unknown", &mut current);
    assert_eq!(
        e,
        Some(DownloadEvent::Progress(DownloadProgress {
            downloaded_bytes: 0,
            total_bytes: None,
            speed: None,
            eta: None,
            percent: Some(350),
            fragment_index: None,
            fragment_count: None,
        }))
    );
}

#[test]
fn merger_line_updates_the_file_name() {
    let mut current = Some("a.f137.mp4".to_string());
    let e = classify(
        "[Merger] Merging formats into \"/data/chan/Title.mkv\"",
        &mut current,
    );
    assert_eq!(e, Some(DownloadEvent::MergingFormats));
    assert_eq!(current, Some("/data/chan/Title.mkv".to_string()));
}

#[test]
fn merger_line_without_quotes_keeps_the_file_name() {
    let mut current = Some("a.mp4".to_string());
    let e = classify("[Merger] Merging formats", &mut current);
    assert_eq!(e, Some(DownloadEvent::MergingFormats));
    assert_eq!(current, Some("a.mp4".to_string()));
}

#[test]
fn postprocessing_lines() {
    let mut current = None;
    assert_eq!(
        classify("[EmbedThumbnail] ffmpeg: Adding thumbnail", &mut current),
        Some(DownloadEvent::EmbeddingThumbnail)
    );
    assert_eq!(
        classify("[Metadata] Adding metadata to \"x.mp4\"", &mut current),
        Some(DownloadEvent::EmbeddingMetadata)
    );
    assert_eq!(
        classify("  [ExtractAudio] Destination: x.mp3  ", &mut current),
        Some(DownloadEvent::PostProcessing { status: "[ExtractAudio] Destination: x.mp3".to_string() })
    );
    assert_eq!(
        classify("[ffmpeg] Fixing container", &mut current),
        Some(DownloadEvent::PostProcessing { status: "[ffmpeg] Fixing container".to_string() })
    );
}

#[test]
fn already_downloaded_line() {
    let mut current = Some("v.mp4".to_string());
    assert_eq!(
        classify("[download] v.mp4 has already been downloaded", &mut current),
        Some(DownloadEvent::Finished { filename: "v.mp4".to_string() })
    );
    let mut none = None;
    assert_eq!(
        classify("[download] v.mp4 has already been downloaded", &mut none),
        Some(DownloadEvent::Finished { filename: String::new() })
    );
}

#[test]
fn warning_error_and_unknown_lines() {
    let mut current = None;
    assert_eq!(
        classify("WARNING:  slow network ", &mut current),
        Some(DownloadEvent::Warning { message: "slow network".to_string() })
    );
    assert_eq!(
        classify("ERROR: Video unavailable", &mut current),
        Some(DownloadEvent::Error { message: "Video unavailable".to_string() })
    );
    assert_eq!(classify("[youtube] abc: Downloading webpage", &mut current), None);
    assert_eq!(classify("", &mut current), None);
    assert_eq!(current, None);
}

#[test]
fn event_predicates() {
    assert!(DownloadEvent::Error { message: String::new() }.is_error());
    assert!(!DownloadEvent::MergingFormats.is_error());
    assert!(DownloadEvent::Finished { filename: String::new() }.is_finished());
    assert!(!DownloadEvent::EmbeddingMetadata.is_finished());
}

#[test]
fn finish_event_after_exit() {
    assert_eq!(
        finish_event(false, Some(2), Some("a.mp4".to_string()), "/out/%(title)s.%(ext)s"),
        DownloadEvent::Error { message: "yt-dlp exited with code 2".to_string() }
    );
    assert_eq!(
        finish_event(false, None, None, "/out/x"),
        DownloadEvent::Error { message: "yt-dlp exited with code -1".to_string() }
    );
    assert_eq!(
        finish_event(true, Some(0), Some("a.mp4".to_string()), "/out/x"),
        DownloadEvent::Finished { filename: "a.mp4".to_string() }
    );
    assert_eq!(
        finish_event(true, Some(0), None, "/out/x"),
        DownloadEvent::Finished { filename: "/out/x".to_string() }
    );
}

#[test]
fn display_formats() {
    assert_eq!(format_bytes(999), "999 B");
    assert_eq!(format_bytes(1500), "1.50 KB");
    assert_eq!(format_bytes(2345678), "2.35 MB");
    assert_eq!(format_bytes(3000000000), "3.00 GB");
    let p = DownloadProgress {
        downloaded_bytes: 1024,
        total_bytes: Some(5_000_000),
        speed: Some(1_500_000),
        eta: Some(3725),
        percent: None,
        fragment_index: None,
        fragment_count: None,
    };
    assert_eq!(p.format_speed(), Some("1.50 MB/s".to_string()));
    assert_eq!(p.format_eta(), Some("1:02:05".to_string()));
    assert_eq!(p.format_size(), "1.02 KB");
    assert_eq!(p.format_total(), Some("5.00 MB".to_string()));
    let q = DownloadProgress { speed: Some(512), eta: Some(99), total_bytes: None, ..p };
    assert_eq!(q.format_speed(), Some("512 B/s".to_string()));
    assert_eq!(q.format_eta(), Some("1:39".to_string()));
    assert_eq!(q.format_total(), None);
}

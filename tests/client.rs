use toobarr::client::YtDlp;
use toobarr::options::{Container, DownloadOptions, OutputFormat};

#[test]
fn test_ytdlp_default() {
    let client = YtDlp::default();
    assert_eq!(client.binary(), "yt-dlp");
    assert!(client.cookies_file().is_none());
    assert!(client.extra_args().is_empty());
}

#[test]
fn test_ytdlp_with_binary() {
    let client = YtDlp::with_binary("/usr/local/bin/yt-dlp");
    assert_eq!(client.binary(), "/usr/local/bin/yt-dlp");
}

#[test]
fn test_ytdlp_set_cookies_and_extra_args() {
    let mut client = YtDlp::new();
    client.set_cookies_file(Some("/tmp/cookies.txt".to_string()));
    client.set_extra_args(vec![
        "--extractor-args".to_string(),
        "youtube:player-client=mweb".to_string()
    ]);
    assert_eq!(client.cookies_file(), Some(&"/tmp/cookies.txt".to_string()));
    assert_eq!(client.extra_args().len(), 2);
}

#[test]
fn test_ytdlp_set_binary() {
    let mut client = YtDlp::new();
    client.set_binary("/opt/yt-dlp".to_string());
    assert_eq!(client.binary(), "/opt/yt-dlp");
}

#[test]
fn test_ytdlp_ffmpeg_location() {
    let mut client = YtDlp::new();
    client.set_ffmpeg_location(Some("/usr/local/bin/ffmpeg".to_string()));
    assert_eq!(client.ffmpeg_location(), Some(&"/usr/local/bin/ffmpeg".to_string()));
}

#[test]
fn test_ytdlp_env_vars() {
    let mut client = YtDlp::new();
    client.set_env("PATH_PREPEND".to_string(), "/opt/bin".to_string());
    assert_eq!(client.env_var("PATH_PREPEND"), Some(&"/opt/bin".to_string()));
}

#[test]
fn later_env_assignment_wins() {
    let mut client = YtDlp::new();
    client.set_env("A".to_string(), "1".to_string());
    client.set_env("A".to_string(), "2".to_string());
    assert_eq!(client.env_var("A"), Some(&"2".to_string()));
    assert_eq!(client.env_var("B"), None);
}

#[test]
fn progress_invocation_arguments() {
    let mut client = YtDlp::with_binary("/bin/yt-dlp");
    client.set_cookies_file(Some("/c.txt".to_string()));
    client.set_extra_args(vec!["--x".to_string()]);
    client.set_ffmpeg_location(Some("/ff".to_string()));
    let options = DownloadOptions::new().embed_metadata(true);
    let cmd = client.progress_command("https://v", "/out/%(title)s.%(ext)s", &options);
    assert_eq!(cmd.get_binary(), "/bin/yt-dlp");
    assert_eq!(cmd.get_args(), &[
        "--cookies", "/c.txt", "--x", "--embed-metadata",
        "-o", "/out/%(title)s.%(ext)s", "--newline",
        "--progress-template",
        "download:%(progress._percent_str)s %(progress._total_bytes_str)s %(progress._speed_str)s %(progress._eta_str)s",
        "https://v", "--ffmpeg-location", "/ff",
    ]);
}

#[test]
fn info_and_plain_download_invocations() {
    let mut client = YtDlp::new();
    client.set_ffmpeg_location(Some("/ff".to_string()));
    assert_eq!(client.video_info_command("u").get_args(), &[
        "--ffmpeg-location", "/ff", "--dump-json", "--skip-download", "--no-playlist", "u",
    ]);
    assert_eq!(client.playlist_info_command("p").get_args(), &[
        "--ffmpeg-location", "/ff", "--dump-json", "--skip-download", "--yes-playlist",
        "--flat-playlist", "p",
    ]);
    let options = DownloadOptions::new().format(OutputFormat::Best);
    assert_eq!(client.download_command("u", "/o.mp4", &options).get_args(), &[
        "--ffmpeg-location", "/ff", "-f", "best", "-o", "/o.mp4", "u",
    ]);
    assert_eq!(client.command().get_args(), &["--ffmpeg-location", "/ff"]);
}

#[test]
fn download_builder_sets_options() {
    let client = YtDlp::new();
    let b = client
        .build_download("https://v")
        .format(OutputFormat::BestAudio)
        .container(Container::M4a)
        .output_template("t")
        .embed_thumbnail(true)
        .embed_metadata(true)
        .embed_subtitles(true)
        .extract_audio(true)
        .audio_format("m4a")
        .audio_quality("5")
        .cookies_file("/c")
        .rate_limit("50K");
    assert_eq!(b.url, "https://v");
    assert_eq!(b.progress_command("/o").get_args(), &[
        "-f", "bestaudio", "--merge-output-format", "m4a", "-o", "t",
        "--embed-thumbnail", "--embed-metadata", "--embed-subs", "-x",
        "--audio-format", "m4a", "--audio-quality", "5", "--cookies", "/c", "-r", "50K",
        "-o", "/o", "--newline", "--progress-template",
        "download:%(progress._percent_str)s %(progress._total_bytes_str)s %(progress._speed_str)s %(progress._eta_str)s",
        "https://v",
    ]);
}

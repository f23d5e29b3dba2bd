use toobarr::command::{env_overlay, CommandBuilder, EnvVar};
use toobarr::options::{Container, DownloadOptions, OutputFormat};

#[test]
fn test_command_builder_basic() {
    let builder = CommandBuilder::new("yt-dlp").arg("--version");
    assert_eq!(builder.get_args(), &["--version"]);
}

#[test]
fn test_command_builder_download() {
    let builder = CommandBuilder::new("yt-dlp")
        .format("best")
        .output("/tmp/video.mp4")
        .url("https://example.com/video");
    assert_eq!(builder.get_args(), &[
        "-f", "best",
        "-o", "/tmp/video.mp4",
        "https://example.com/video"
    ]);
}

#[test]
fn test_command_builder_cookies_file_opt() {
    let some_path = Some("/tmp/cookies.txt".to_string());
    let builder = CommandBuilder::new("yt-dlp").cookies_file_opt(some_path.as_ref());
    assert_eq!(builder.get_args(), &["--cookies", "/tmp/cookies.txt"]);

    let none_path: Option<String> = None;
    let builder = CommandBuilder::new("yt-dlp").cookies_file_opt(none_path.as_ref());
    assert!(builder.get_args().is_empty());
}

#[test]
fn test_command_builder_with_options() {
    let options = DownloadOptions::new().embed_metadata(true).embed_thumbnail(true);
    let builder = CommandBuilder::new("yt-dlp")
        .with_options(&options)
        .url("https://example.com/video");
    let args = builder.get_args();
    assert!(args.contains(&"--embed-thumbnail".to_string()));
    assert!(args.contains(&"--embed-metadata".to_string()));
}

#[test]
fn test_command_builder_ffmpeg_location() {
    let builder = CommandBuilder::new("yt-dlp").ffmpeg_location("/usr/local/bin/ffmpeg");
    assert_eq!(builder.get_args(), &["--ffmpeg-location", "/usr/local/bin/ffmpeg"]);
}

#[test]
fn test_build_with_env_path_prepend() {
    let env_vars = vec![EnvVar { key: "PATH_PREPEND".to_string(), value: "/opt/bin".to_string() }];
    let builder = CommandBuilder::new("echo").arg("test");
    assert_eq!(builder.get_binary(), "echo");
    let envs = env_overlay(&env_vars, "/usr/bin:/bin");
    let path = envs.iter().find(|v| v.key == "PATH").map(|v| v.value.clone());
    assert!(path.unwrap().starts_with("/opt/bin:"));
}

#[test]
fn env_overlay_passes_other_variables_and_drops_the_pseudo_variable() {
    let env_vars = vec![
        EnvVar { key: "HOME".to_string(), value: "/home/u".to_string() },
        EnvVar { key: "PATH_PREPEND".to_string(), value: "/opt/bin".to_string() },
    ];
    let envs = env_overlay(&env_vars, "/usr/bin");
    let pairs: Vec<(String, String)> =
        envs.iter().map(|v| (v.key.clone(), v.value.clone())).collect();
    assert_eq!(pairs, vec![
        ("PATH".to_string(), "/opt/bin:/usr/bin".to_string()),
        ("HOME".to_string(), "/home/u".to_string()),
    ]);
    let plain = env_overlay(&vec![EnvVar { key: "A".to_string(), value: "1".to_string() }], "/bin");
    assert_eq!(plain.len(), 1);
    assert_eq!(plain[0].key, "A");
    assert!(env_overlay(&Vec::new(), "/bin").is_empty());
}

#[test]
fn every_option_in_order() {
    let options = DownloadOptions::new()
        .format(OutputFormat::Custom("bv*+ba".to_string()))
        .container(Container::Mkv)
        .output_template("%(title)s.%(ext)s")
        .embed_thumbnail(true)
        .embed_metadata(true)
        .embed_subtitles(true)
        .extract_audio(true)
        .audio_format("mp3")
        .audio_quality("0")
        .subtitles_langs(vec!["en".to_string(), "de".to_string()])
        .write_subtitles(true)
        .write_thumbnail(true)
        .cookies_file("/c.txt")
        .rate_limit("1M")
        .concurrent_fragments(4)
        .extra_arg("--no-mtime")
        .extra_args(vec!["--a".to_string(), "--b".to_string()]);
    let builder = CommandBuilder::new("yt-dlp").with_options(&options);
    assert_eq!(builder.get_args(), &[
        "-f", "bv*+ba",
        "--merge-output-format", "mkv",
        "-o", "%(title)s.%(ext)s",
        "--embed-thumbnail", "--embed-metadata", "--embed-subs", "-x",
        "--audio-format", "mp3",
        "--audio-quality", "0",
        "--sub-langs", "en,de",
        "--write-subs", "--write-thumbnail",
        "--cookies", "/c.txt",
        "-r", "1M",
        "--concurrent-fragments", "4",
        "--no-mtime", "--a", "--b",
    ]);
}

#[test]
fn default_options_add_nothing() {
    let builder = CommandBuilder::new("yt-dlp").with_options(&DownloadOptions::default());
    assert!(builder.get_args().is_empty());
}

#[test]
fn format_and_container_values() {
    assert_eq!(OutputFormat::Default.as_arg(), None);
    assert_eq!(OutputFormat::Best.as_arg(), Some("best".to_string()));
    assert_eq!(OutputFormat::Worst.as_arg(), Some("worst".to_string()));
    assert_eq!(OutputFormat::BestVideo.as_arg(), Some("bestvideo".to_string()));
    assert_eq!(OutputFormat::BestAudio.as_arg(), Some("bestaudio".to_string()));
    assert_eq!(Container::Default.as_str(), None);
    assert_eq!(Container::Mp4.as_str(), Some("mp4"));
    assert_eq!(Container::Opus.as_str(), Some("opus"));
    assert_eq!(Container::Flac.as_str(), Some("flac"));
    assert_eq!(Container::Custom("ts".to_string()).as_str(), Some("ts"));
}

#[test]
fn single_flags() {
    let b = CommandBuilder::new("yt-dlp")
        .json_output()
        .skip_download()
        .list_formats()
        .newline_progress()
        .no_warnings()
        .flat_playlist()
        .yes_playlist()
        .no_playlist()
        .write_subtitles()
        .progress_template("t")
        .subtitles_langs(&Vec::new())
        .args(&vec!["x".to_string()]);
    assert_eq!(b.get_args(), &[
        "--dump-json", "--skip-download", "--list-formats", "--newline", "--no-warnings",
        "--flat-playlist", "--yes-playlist", "--no-playlist", "--write-subs",
        "--progress-template", "t", "x",
    ]);
}

use toobarr::settings::{format_upload_date, get_extension_from_url, parse_extractor_args};

#[test]
fn test_parse_extractor_args_basic() {
    let input = "youtube:player-client=default,mweb\nyoutubepot-bgutilhttp:base_url=http://bgutil:4416";
    let result = parse_extractor_args(input);
    assert_eq!(result, vec![
        "--extractor-args",
        "youtube:player-client=default,mweb;youtubepot-bgutilhttp:base_url=http://bgutil:4416"
    ]);
}

#[test]
fn test_parse_extractor_args_empty() {
    assert!(parse_extractor_args("").is_empty());
    assert!(parse_extractor_args("  \n  \n  ").is_empty());
}

#[test]
fn test_parse_extractor_args_whitespace() {
    let input = "  youtube:player-client=mweb  \n\n  youtube:po_token=abc  ";
    let result = parse_extractor_args(input);
    assert_eq!(result, vec![
        "--extractor-args",
        "youtube:player-client=mweb;youtube:po_token=abc"
    ]);
}

#[test]
fn extractor_args_with_windows_line_ends() {
    assert_eq!(parse_extractor_args("a\r\nb\r\n"), vec!["--extractor-args", "a;b"]);
}

#[test]
fn image_extensions() {
    assert_eq!(get_extension_from_url("https://x/a.png?x=1"), "png");
    assert_eq!(get_extension_from_url("https://x/a.webp"), "webp");
    assert_eq!(get_extension_from_url("https://x/a.jpeg"), "jpg");
}

#[test]
fn upload_dates() {
    assert_eq!(format_upload_date("20230415"), "2023-04-15");
    assert_eq!(format_upload_date("2023"), "2023");
}

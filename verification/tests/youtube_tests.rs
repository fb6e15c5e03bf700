use whiplash::text::{join_strings, split_tokens};
use whiplash::youtube::{
    download_outcome, video_id_from_match, video_id_from_results_page, video_url,
    youtube_search_url, ytdlp_download_url, ytdlp_executable_name,
};

#[test]
fn search_url_joins_words_with_plus() {
    assert_eq!(
        youtube_search_url("  Daft Punk\tOne More   Time "),
        "https://www.youtube.com/results?search_query=Daft+Punk+One+More+Time"
    );
    assert_eq!(youtube_search_url(""), "https://www.youtube.com/results?search_query=");
}

#[test]
fn tokens_split_on_unicode_whitespace() {
    assert_eq!(split_tokens("a\u{3000}b\u{a0}c\nd"), vec!["a", "b", "c", "d"]);
    assert_eq!(join_strings(&vec!["x".to_string(), "y".to_string()], "+"), "x+y");
}

#[test]
fn first_video_link_wins() {
    let html = r#"<a href="/watch?v=dQw4w9WgXcQ">x</a> <a href="/watch?v=AAAAAAAAAAA">"#;
    assert_eq!(video_id_from_results_page(html), Ok("dQw4w9WgXcQ".to_string()));
}

#[test]
fn video_link_needs_eleven_non_space_characters() {
    let html = "watch?v=abc def ghijk watch?v=ABCDEFGHIJK";
    assert_eq!(video_id_from_results_page(html), Ok("ABCDEFGHIJK".to_string()));
    let html = "watch?v=abc\u{3000}defghij watch?v=a\nbcdefghijk watch?v=0123456789_-";
    assert_eq!(video_id_from_results_page(html), Ok("0123456789_".to_string()));
}

#[test]
fn no_video_link() {
    assert_eq!(video_id_from_results_page("<html>nothing</html>"), Err("No video found".to_string()));
    assert_eq!(video_id_from_results_page("watch?v=short"), Err("No video found".to_string()));
}

#[test]
fn video_id_outcomes() {
    assert_eq!(video_id_from_match(Ok(Some("abc".to_string()))), Ok("abc".to_string()));
    assert_eq!(video_id_from_match(Ok(None)), Err("No video found".to_string()));
    assert_eq!(video_id_from_match(Err("bad".to_string())), Err("Failed to compile regex: bad".to_string()));
}

#[test]
fn video_page_url() {
    assert_eq!(video_url("dQw4w9WgXcQ"), "https://www.youtube.com/watch?v=dQw4w9WgXcQ");
}

#[test]
fn ytdlp_urls_by_platform() {
    assert_eq!(
        ytdlp_download_url("windows", "x86_64"),
        Ok("https://github.com/yt-dlp/yt-dlp/releases/latest/download/yt-dlp.exe".to_string())
    );
    assert_eq!(
        ytdlp_download_url("linux", "x86_64"),
        Ok("https://github.com/yt-dlp/yt-dlp/releases/latest/download/yt-dlp".to_string())
    );
    assert_eq!(
        ytdlp_download_url("macos", "aarch64"),
        Ok("https://github.com/yt-dlp/yt-dlp/releases/latest/download/yt-dlp_macos".to_string())
    );
    assert_eq!(
        ytdlp_download_url("macos", "x86_64"),
        Ok("https://github.com/yt-dlp/yt-dlp/releases/latest/download/yt-dlp_macos".to_string())
    );
    assert_eq!(ytdlp_download_url("linux", "aarch64"), Err("Unsupported platform".to_string()));
    assert_eq!(ytdlp_download_url("freebsd", "x86_64"), Err("Unsupported platform".to_string()));
}

#[test]
fn ytdlp_program_names() {
    assert_eq!(ytdlp_executable_name("windows"), "yt-dlp.exe");
    assert_eq!(ytdlp_executable_name("linux"), "yt-dlp");
}

#[test]
fn download_outcomes() {
    assert_eq!(download_outcome(true, "/tmp/x.m4a", ""), Ok("Successfully downloaded to: /tmp/x.m4a".to_string()));
    assert_eq!(download_outcome(false, "/tmp/x.m4a", "ERROR: 404"), Err("Download failed: ERROR: 404".to_string()));
}

//! Finding a track on YouTube and fetching its audio with yt-dlp.

use vstd::prelude::*;
use crate::text::{
    is_ws, join, join_strings, occurs_at, opt_view, split_tokens, str_equal, tokens,
};

verus! {

broadcast use vstd::string::group_string_axioms;

/// The address of YouTube's result page for a query: the words of the query
/// joined with `+`.
pub open spec fn search_url_spec(query: Seq<char>) -> Seq<char> {
    "https://www.youtube.com/results?search_query="@ + join(tokens(query), "+"@)
}

/// The address of YouTube's result page for a query.
pub fn youtube_search_url(query: &str) -> (r: String)
    ensures
        r@ == search_url_spec(query@),
{
    let words = split_tokens(query);
    let joined = join_strings(&words, "+");
    let mut r = String::from_str("https://www.youtube.com/results?search_query=");
    r.append(joined.as_str());
    r
}

/// The pattern of a link to a video in a result page; its group holds the
/// video's 11-character id.
pub const VIDEO_LINK_PATTERN: &'static str = r"watch\?v=(\S{11})";

/// Whether a link to a video starts at `i` in `s`: `watch?v=` followed by 11
/// characters that are not whitespace (what `VIDEO_LINK_PATTERN` matches).
pub open spec fn video_link_at(s: Seq<char>, i: int) -> bool {
    &&& i + 19 <= s.len()
    &&& occurs_at(s, "watch?v="@, i)
    &&& forall|j: int| i + 8 <= j < i + 19 ==> !is_ws(#[trigger] s[j])
}

/// The id in the first video link of `s` at or after position `i`: the 11
/// characters after `watch?v=`.
pub open spec fn first_video_id_from(s: Seq<char>, i: int) -> Option<Seq<char>>
    decreases s.len() - i,
{
    if i < 0 || i + 19 > s.len() {
        None
    } else if video_link_at(s, i) {
        Some(s.subrange(i + 8, i + 19))
    } else {
        first_video_id_from(s, i + 1)
    }
}

/// The id in the first video link of a page.
pub open spec fn first_video_id(s: Seq<char>) -> Option<Seq<char>> {
    first_video_id_from(s, 0)
}

/// The group of the first match of `VIDEO_LINK_PATTERN` in `html`.
///
/// Calls `regex::Regex::new` on the pattern and `Regex::captures` on the
/// page. `Regex::new` fails only on a pattern that is not valid syntax or whose
/// compiled form exceeds the default size limit of 10 MiB; this pattern is valid
/// and small (eleven repetitions of one class), so the call succeeds. The
/// pattern has no alternation and a fixed length, so the leftmost match starts
/// at the first position where `watch?v=` is followed by 11 characters outside
/// Unicode's `White_Space` (the class `\S` excludes), and its group is those
/// 11 characters.
#[verifier::external_body]
fn find_video_link(html: &str) -> (r: Result<Option<String>, String>)
    ensures
        r is Ok,
        r matches Ok(m) ==> opt_view(m) == first_video_id(html@),
{
    match regex::Regex::new(VIDEO_LINK_PATTERN) {
        Ok(re) => Ok(re.captures(html).and_then(|c| c.get(1)).map(|m| m.as_str().to_string())),
        Err(e) => Err(e.to_string()),
    }
}

/// The outcome of a YouTube search given what the link pattern found in the
/// result page.
pub fn video_id_from_match(found: Result<Option<String>, String>) -> (r: Result<String, String>)
    ensures
        found matches Ok(Some(id)) ==> r == Ok::<String, String>(id),
        found matches Ok(None) ==> (r matches Err(e) && e@ == "No video found"@),
        found matches Err(m) ==> (r matches Err(e) && e@ == "Failed to compile regex: "@ + m@),
{
    match found {
        Ok(Some(id)) => Ok(id),
        Ok(None) => Err(String::from_str("No video found")),
        Err(m) => {
            let mut e = String::from_str("Failed to compile regex: ");
            e.append(m.as_str());
            Err(e)
        },
    }
}

/// The id of the first video linked from a YouTube result page.
pub fn video_id_from_results_page(html: &str) -> (r: Result<String, String>)
    ensures
        match first_video_id(html@) {
            Some(id) => r matches Ok(v) && v@ == id,
            None => r matches Err(e) && e@ == "No video found"@,
        },
{
    video_id_from_match(find_video_link(html))
}

/// The address of a video's page.
pub fn video_url(video_id: &str) -> (r: String)
    ensures
        r@ == "https://www.youtube.com/watch?v="@ + video_id@,
{
    let mut r = String::from_str("https://www.youtube.com/watch?v=");
    r.append(video_id);
    r
}

/// Where yt-dlp is downloaded from for an operating system and architecture
/// (as Rust names them), if it is offered for them.
pub open spec fn ytdlp_url_spec(os: Seq<char>, arch: Seq<char>) -> Option<Seq<char>> {
    if os == "windows"@ && arch == "x86_64"@ {
        Some("https://github.com/yt-dlp/yt-dlp/releases/latest/download/yt-dlp.exe"@)
    } else if os == "linux"@ && arch == "x86_64"@ {
        Some("https://github.com/yt-dlp/yt-dlp/releases/latest/download/yt-dlp"@)
    } else if os == "macos"@ && (arch == "x86_64"@ || arch == "aarch64"@) {
        Some("https://github.com/yt-dlp/yt-dlp/releases/latest/download/yt-dlp_macos"@)
    } else {
        None
    }
}

/// The download address of yt-dlp for the platform, or the error for a platform it is not offered for.
pub fn ytdlp_download_url(os: &str, arch: &str) -> (r: Result<String, String>)
    ensures
        match ytdlp_url_spec(os@, arch@) {
            Some(u) => r matches Ok(v) && v@ == u,
            None => r matches Err(e) && e@ == "Unsupported platform"@,
        },
{
    let url = if str_equal(os, "windows") && str_equal(arch, "x86_64") {
        "https://github.com/yt-dlp/yt-dlp/releases/latest/download/yt-dlp.exe"
    } else if str_equal(os, "linux") && str_equal(arch, "x86_64") {
        "https://github.com/yt-dlp/yt-dlp/releases/latest/download/yt-dlp"
    } else if str_equal(os, "macos") && (str_equal(arch, "x86_64") || str_equal(arch, "aarch64")) {
        "https://github.com/yt-dlp/yt-dlp/releases/latest/download/yt-dlp_macos"
    } else {
        return Err(String::from_str("Unsupported platform"));
    };
    Ok(String::from_str(url))
}

/// The file name of the yt-dlp program on an operating system.
pub fn ytdlp_executable_name(os: &str) -> (r: String)
    ensures
        r@ == if os@ == "windows"@ {
            "yt-dlp.exe"@
        } else {
            "yt-dlp"@
        },
{
    if str_equal(os, "windows") {
        String::from_str("yt-dlp.exe")
    } else {
        String::from_str("yt-dlp")
    }
}

/// The outcome of a yt-dlp download into `output_path`, from its exit status
/// and what it wrote to standard error.
pub fn download_outcome(success: bool, output_path: &str, stderr: &str) -> (r: Result<String, String>)
    ensures
        success ==> (r matches Ok(m) && m@ == "Successfully downloaded to: "@ + output_path@),
        !success ==> (r matches Err(e) && e@ == "Download failed: "@ + stderr@),
{
    if success {
        let mut m = String::from_str("Successfully downloaded to: ");
        m.append(output_path);
        Ok(m)
    } else {
        let mut e = String::from_str("Download failed: ");
        e.append(stderr);
        Err(e)
    }
}

} // verus!

//! Which files the library scanner treats as audio.

use vstd::prelude::*;
use crate::text::{opt_view, str_equal};

verus! {

/// The extensions (lower case, without the dot) of the files taken as audio.
pub open spec fn audio_extensions() -> Seq<Seq<char>> {
    seq![
        "mp3"@, "flac"@, "ogg"@, "oga"@, "wav"@, "m4a"@, "aac"@, "wma"@, "ape"@, "mpc"@,
        "wavpack"@, "wv"@,
    ]
}

/// Whether a lower-case extension is one of the audio extensions.
pub fn is_audio_extension(ext: &str) -> (r: bool)
    ensures
        r == audio_extensions().contains(ext@),
{
    let found = str_equal(ext, "mp3") || str_equal(ext, "flac") || str_equal(ext, "ogg")
        || str_equal(ext, "oga") || str_equal(ext, "wav") || str_equal(ext, "m4a")
        || str_equal(ext, "aac") || str_equal(ext, "wma") || str_equal(ext, "ape")
        || str_equal(ext, "mpc") || str_equal(ext, "wavpack") || str_equal(ext, "wv");
    proof {
        let s = audio_extensions();
        if found {
            if ext@ == "mp3"@ { assert(s[0] == ext@); }
            else if ext@ == "flac"@ { assert(s[1] == ext@); }
            else if ext@ == "ogg"@ { assert(s[2] == ext@); }
            else if ext@ == "oga"@ { assert(s[3] == ext@); }
            else if ext@ == "wav"@ { assert(s[4] == ext@); }
            else if ext@ == "m4a"@ { assert(s[5] == ext@); }
            else if ext@ == "aac"@ { assert(s[6] == ext@); }
            else if ext@ == "wma"@ { assert(s[7] == ext@); }
            else if ext@ == "ape"@ { assert(s[8] == ext@); }
            else if ext@ == "mpc"@ { assert(s[9] == ext@); }
            else if ext@ == "wavpack"@ { assert(s[10] == ext@); }
            else { assert(s[11] == ext@); }
        } else {
            assert(!s.contains(ext@)) by {
                if s.contains(ext@) {
                    let k = choose|k: int| 0 <= k < s.len() && s[k] == ext@;
                    assert(0 <= k < 12);
                }
            }
        }
    }
    found
}

/// An audio file found by the scanner, with what its tags say.
pub struct ScannedTrack {
    pub file_path: String,
    pub folder_path: String,
    pub file_name: String,
    pub title: Option<String>,
    pub artist: Option<String>,
    pub album: Option<String>,
    pub genre: Option<String>,
    pub year: Option<i32>,
    pub track_number: Option<u32>,
    /// The playing time in seconds, held as the bit pattern of the `f64`
    /// (`f64::to_bits`); `None` when it could not be read.
    pub duration_bits: Option<u64>,
}

/// What `str::to_lowercase` gives for a text (the Unicode lowercase mapping).
pub uninterp spec fn lowercase(s: Seq<char>) -> Seq<char>;

/// A text made of ASCII characters only.
pub open spec fn is_ascii_text(s: Seq<char>) -> bool {
    forall|i: int| 0 <= i < s.len() ==> (s[i] as u32) < 128
}

/// The lower-case form of an ASCII character: `A`..`Z` become `a`..`z`, any
/// other character stays.
pub open spec fn ascii_lower_char(c: char) -> char {
    if 65 <= (c as u32) <= 90 {
        ((c as u32) + 32) as char
    } else {
        c
    }
}

/// A text with `A`..`Z` turned into `a`..`z`.
pub open spec fn ascii_lower(s: Seq<char>) -> Seq<char> {
    s.map_values(|c: char| ascii_lower_char(c))
}

/// The lower-case form of a text.
///
/// Calls `str::to_lowercase`. The contract claims that the result is a
/// function of the text alone, named `lowercase`, and that on an ASCII text it
/// maps `A`..`Z` to `a`..`z` and keeps every other character, as Unicode's
/// lowercase mapping does for ASCII. What it gives for other characters is
/// left to the name.
#[verifier::external_body]
fn to_lowercase(s: &str) -> (r: String)
    ensures
        r@ == lowercase(s@),
        is_ascii_text(s@) ==> r@ == ascii_lower(s@),
{
    s.to_lowercase()
}

/// The position of the last `c` in `s`, if any.
pub open spec fn last_index_of(s: Seq<char>, c: char) -> Option<int>
    decreases s.len(),
{
    if s.len() == 0 {
        None
    } else if s.last() == c {
        Some(s.len() - 1)
    } else {
        last_index_of(s.drop_last(), c)
    }
}

/// A path that is a bare file name: not empty, not `.` or `..`, and without
/// any character that a platform reads as a separator or a drive prefix
/// (`/`, `\`, `:`). Such a path is its own file name on every platform.
pub open spec fn is_plain_file_name(s: Seq<char>) -> bool {
    &&& s.len() > 0
    &&& s != "."@
    &&& s != ".."@
    &&& forall|i: int| 0 <= i < s.len() ==> s[i] != '/' && s[i] != '\\' && s[i] != ':'
}

/// The text after the last `/` of a path (the whole path when it has none).
pub open spec fn last_segment(p: Seq<char>) -> Seq<char> {
    match last_index_of(p, '/') {
        None => p,
        Some(k) => p.skip(k + 1),
    }
}

/// A path whose file name is its last `/`-separated segment on every
/// platform: it holds no `\` (a separator on Windows) and no `:` (a drive
/// prefix on Windows), does not start with `//` (a network share on Windows),
/// and its last segment is a bare file name (so not empty, `.` or `..`, which
/// `Path` would not take as the file name).
pub open spec fn has_simple_file_name(p: Seq<char>) -> bool {
    &&& forall|i: int| 0 <= i < p.len() ==> p[i] != '\\' && p[i] != ':'
    &&& !(p.len() >= 2 && p[0] == '/' && p[1] == '/')
    &&& is_plain_file_name(last_segment(p))
}

/// A character after which a platform starts a new path component or the
/// text after a drive prefix: `/` everywhere, `\` and `:` on Windows.
pub open spec fn is_name_break(c: char) -> bool {
    c == '/' || c == '\\' || c == ':'
}

/// The position of the last `/`, `\` or `:` in `s`, if any.
pub open spec fn last_break_index(s: Seq<char>) -> Option<int>
    decreases s.len(),
{
    if s.len() == 0 {
        None
    } else if is_name_break(s.last()) {
        Some(s.len() - 1)
    } else {
        last_break_index(s.drop_last())
    }
}

/// The text after the last `/`, `\` or `:` of a path (the whole path when it
/// has none).
pub open spec fn last_part(p: Seq<char>) -> Seq<char> {
    match last_break_index(p) {
        None => p,
        Some(k) => p.skip(k + 1),
    }
}

/// A path that starts with two separators (`/` or `\`), which Windows reads
/// as a network share or a device.
pub open spec fn starts_with_two_separators(p: Seq<char>) -> bool {
    p.len() >= 2 && (p[0] == '/' || p[0] == '\\') && (p[1] == '/' || p[1] == '\\')
}

/// A path without the trailing `/` and `/.` that `Path` normalises away on
/// every platform (`a/b/`, `a/b/.` and `a/b` have the same components).
pub open spec fn trim_tail(p: Seq<char>) -> Seq<char>
    decreases p.len(),
{
    if p.len() == 0 {
        p
    } else if p.last() == '/' {
        trim_tail(p.drop_last())
    } else if p.len() >= 2 && p.last() == '.' && p[p.len() - 2] == '/' {
        trim_tail(p.drop_last())
    } else {
        p
    }
}

/// A path whose extension is the same on every platform: it does not start
/// with two separators, and, once the trailing `/` and `/.` are set aside, the
/// text after its last `/`, `\` or `:` is not `..` and has a dot after its
/// first character. Both the file name Unix takes (after the last `/`) and the
/// one Windows takes (after the last `/` or `\`, or after a drive prefix) end
/// with that text, so their last dots and extensions agree.
pub open spec fn has_portable_extension(p: Seq<char>) -> bool {
    &&& !starts_with_two_separators(p)
    &&& last_part(trim_tail(p)) != ".."@
    &&& last_index_of(last_part(trim_tail(p)), '.') matches Some(k) && k > 0
}

/// A path that has no extension on any platform: it does not start with two
/// separators, and, once the trailing `/` and `/.` are set aside, its last
/// `/`-separated segment has no dot after its first character. That segment is
/// the file name on Unix (if the path has one), and the Windows file name is
/// a part of its end, so neither has a dot after its first character.
pub open spec fn lacks_extension(p: Seq<char>) -> bool {
    &&& !starts_with_two_separators(p)
    &&& match last_index_of(last_segment(trim_tail(p)), '.') {
        Some(k) => k == 0,
        None => true,
    }
}

/// The extension of a file name, as `Path::extension` documents it: none
/// when the name has no dot, or its only dot is the first character;
/// otherwise the text after the last dot.
pub open spec fn name_extension(name: Seq<char>) -> Option<Seq<char>> {
    match last_index_of(name, '.') {
        None => None,
        Some(k) => if k == 0 {
            None
        } else {
            Some(name.skip(k + 1))
        },
    }
}

/// The extension of the file a path names, without its dot.
///
/// Calls `std::path::Path::extension` (and converts the result to text). The
/// contract states the extension exactly in three cases. For a path with a
/// simple file name (`has_simple_file_name`), `Path` splits it at `/` on every
/// platform, skips empty and `.` components and takes the last one as the file
/// name, whose extension is as the documentation of `Path::extension`
/// describes it. For a path with a portable extension
/// (`has_portable_extension`), the file names that Unix and Windows take
/// (after the trailing `/` and `/.`, which the documentation of `Components`
/// says are normalised away) both end with the text after the last `/`, `\`
/// or `:`, which holds their last dot; for a path that lacks an extension
/// (`lacks_extension`), neither file name has a dot after its first
/// character. For other paths the split depends on the platform (`\`
/// separates and `C:` or `//server` start a prefix on Windows only), and the
/// contract states only that an extension holds neither a dot nor a `/`.
#[verifier::external_body]
fn path_extension(path: &str) -> (r: Option<String>)
    ensures
        r matches Some(e) ==> !e@.contains('.') && !e@.contains('/'),
        has_simple_file_name(path@) ==> opt_view(r) == name_extension(last_segment(path@)),
        has_portable_extension(path@) ==> opt_view(r) == name_extension(last_part(trim_tail(path@))),
        lacks_extension(path@) ==> r is None,
{
    std::path::Path::new(path).extension().map(|e| e.to_string_lossy().into_owned())
}

/// A file name whose extension, if any, is ASCII text.
pub open spec fn ascii_extension(name: Seq<char>) -> bool {
    match name_extension(name) {
        Some(e) => is_ascii_text(e),
        None => true,
    }
}

/// Whether a file name's extension, in lower case, is an audio extension.
pub open spec fn audio_file_name(name: Seq<char>) -> bool {
    match name_extension(name) {
        Some(e) => audio_extensions().contains(lowercase(e)),
        None => false,
    }
}

/// The same test with the ASCII lower-case mapping, which is what
/// `audio_file_name` comes to for a name with an ASCII extension.
pub open spec fn ascii_audio_file_name(name: Seq<char>) -> bool {
    match name_extension(name) {
        Some(e) => audio_extensions().contains(ascii_lower(e)),
        None => false,
    }
}

/// Whether a file with this extension (if any) is taken as audio: its lower-case
/// form must be one of the audio extensions.
pub fn is_audio_extension_of(ext: Option<String>) -> (r: bool)
    ensures
        r == match ext {
            Some(e) => audio_extensions().contains(lowercase(e@)),
            None => false,
        },
        ext matches Some(e) ==> (is_ascii_text(e@) ==> r == audio_extensions().contains(
            ascii_lower(e@),
        )),
{
    match ext {
        Some(e) => {
            let lower = to_lowercase(e.as_str());
            is_audio_extension(lower.as_str())
        },
        None => false,
    }
}

/// Whether the file at `path` is taken as audio, judged by its extension
/// alone, whatever its case; the file itself is never looked at.
pub fn is_audio_file(path: &str) -> (r: bool)
    ensures
        r ==> exists|e: Seq<char>|
            !e.contains('.') && !e.contains('/') && audio_extensions().contains(
                #[trigger] lowercase(e),
            ),
        has_simple_file_name(path@) ==> r == audio_file_name(last_segment(path@)),
        has_simple_file_name(path@) && ascii_extension(last_segment(path@)) ==> r
            == ascii_audio_file_name(last_segment(path@)),
        has_portable_extension(path@) ==> r == audio_file_name(last_part(trim_tail(path@))),
        has_portable_extension(path@) && ascii_extension(last_part(trim_tail(path@))) ==> r
            == ascii_audio_file_name(last_part(trim_tail(path@))),
        lacks_extension(path@) ==> !r,
{
    let ext = path_extension(path);
    let ghost g = ext;
    let r = is_audio_extension_of(ext);
    proof {
        if r {
            let e = g->0@;
            assert(!e.contains('.') && !e.contains('/') && audio_extensions().contains(lowercase(e)));
        }
        if let Some(e) = g {
            assert(opt_view(g) == Some(e@));
        }
    }
    r
}

/// A directory path written plainly: not empty, without `\` or `:`, and made
/// of non-empty components joined by single `/` (one may lead, for the root),
/// none of them `.` or `..`, with no `/` at the end.
pub open spec fn is_plain_dir_path(d: Seq<char>) -> bool {
    &&& d.len() > 0
    &&& forall|i: int| 0 <= i < d.len() ==> d[i] != '\\' && d[i] != ':'
    &&& forall|i: int| 0 <= i < d.len() && #[trigger] d[i] == '/' ==> i + 1 < d.len() && d[i + 1] != '/'
    &&& forall|i: int|
        0 <= i < d.len() && (i == 0 || d[i - 1] == '/') ==> !(#[trigger] d[i] == '.' && (i + 1 == d.len()
            || d[i + 1] == '/')) && !(d[i] == '.' && i + 1 < d.len() && d[i + 1] == '.' && (i
            + 2 == d.len() || d[i + 2] == '/'))
}

/// The folder of a path with a simple file name, where it is plain: empty
/// for a bare file name, `/` for a file at the root, and the text before the
/// last `/` when that is a plain directory path; `None` otherwise.
pub open spec fn plain_parent(p: Seq<char>) -> Option<Seq<char>> {
    if !has_simple_file_name(p) {
        None
    } else {
        match last_index_of(p, '/') {
            None => Some(Seq::empty()),
            Some(k) => if k == 0 {
                Some("/"@)
            } else if is_plain_dir_path(p.take(k)) {
                Some(p.take(k))
            } else {
                None
            },
        }
    }
}

/// The file name of a path, as text.
///
/// Calls `std::path::Path::file_name` (and converts the result to text). The
/// contract states it for a path with a simple file name: its last `/`-separated
/// segment, which is the path's final component on every platform.
#[verifier::external_body]
fn path_file_name(path: &str) -> (r: Option<String>)
    ensures
        has_simple_file_name(path@) ==> opt_view(r) == Some(last_segment(path@)),
{
    std::path::Path::new(path).file_name().map(|n| n.to_string_lossy().into_owned())
}

/// The folder of a path, as text.
///
/// Calls `std::path::Path::parent` (and converts the result to text), which
/// returns the path without its final component: empty for a relative path of
/// one component, `/` for a file at the root, as its documentation shows. The
/// contract states it where the rest of the path is written plainly
/// (`plain_parent`); how other paths (with empty or `.` components, `\` or a
/// drive prefix) are cut depends on `Path`'s normalisation and the platform,
/// and is not stated.
#[verifier::external_body]
fn path_parent(path: &str) -> (r: Option<String>)
    ensures
        plain_parent(path@) matches Some(d) ==> opt_view(r) == Some(d),
{
    std::path::Path::new(path).parent().map(|p| p.to_string_lossy().into_owned())
}

/// Where a scanned file lies: the folder it is in and its file name, each
/// empty when the path has none.
pub fn file_location(path: &str) -> (r: (String, String))
    ensures
        plain_parent(path@) matches Some(d) ==> r.0@ == d,
        has_simple_file_name(path@) ==> r.1@ == last_segment(path@),
{
    let folder = match path_parent(path) {
        Some(d) => d,
        None => String::new(),
    };
    let name = match path_file_name(path) {
        Some(n) => n,
        None => String::new(),
    };
    (folder, name)
}

/// Where `last_index_of` finds a character, it is there and within the text.
pub proof fn lemma_last_index_of_bounds(s: Seq<char>, c: char)
    ensures
        last_index_of(s, c) matches Some(k) ==> 0 <= k < s.len() && s[k] == c,
    decreases s.len(),
{
    if s.len() > 0 && s.last() != c {
        lemma_last_index_of_bounds(s.drop_last(), c);
    }
}

} // verus!

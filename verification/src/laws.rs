//! Properties of the player that span several of its functions, proved over
//! the specifications those functions meet.

use vstd::prelude::*;
use crate::text::{
    before_char, first_token, is_ws, join, lemma_before_char, lemma_tok_end_bounds,
    lemma_ws_end_bounds, tok_end, tokens, tokens_from, ws_end,
};
use crate::spotify::{
    base64_url_nopad, callback_code, code_challenge_spec, segment_after_first, sha256_spec,
    token_valid_spec,
};
use crate::spotify_items::{
    artist_names, playlist_next_offset_spec, playlist_page_spec, saved_next_offset_spec,
    saved_page_spec, SpotifyTrackView, TrackObjectView, PAGE_SIZE,
};
use crate::library::{
    count_not_in_library, device_track_spec, missing_paths_spec, scanned_track_record,
    temporary_id, DeviceLookup, StoredTrack,
};
use crate::scanner::{
    ascii_audio_file_name, ascii_extension, ascii_lower, ascii_lower_char, audio_file_name,
    has_portable_extension, has_simple_file_name, is_ascii_text, is_name_break,
    is_plain_file_name, last_break_index, last_index_of, last_part, last_segment,
    lacks_extension, lemma_last_index_of_bounds, starts_with_two_separators, trim_tail,
    ScannedTrack,
};
use crate::metadata::{metadata_from_tag_spec, tag_updates_spec, TagFields};
use crate::drives::{df_drives, df_line_drives};
use crate::youtube::search_url_spec;

verus! {

/// A token just received from Spotify can be used right away exactly when
/// its lifetime is longer than the one-minute margin.
pub proof fn law_fresh_token_usable(now: int, expires_in: int)
    ensures
        token_valid_spec(now + expires_in, now) <==> expires_in > 60,
{
}

/// Every whitespace-separated token is free of whitespace.
pub proof fn lemma_tokens_free_of_ws(s: Seq<char>, i: int)
    requires
        0 <= i,
    ensures
        forall|k: int, j: int|
            0 <= k < tokens_from(s, i).len() && 0 <= j < tokens_from(s, i)[k].len() ==> !is_ws(
                #[trigger] tokens_from(s, i)[k][j],
            ),
        forall|k: int| 0 <= k < tokens_from(s, i).len() ==> #[trigger] tokens_from(s, i)[k].len() > 0,
    decreases s.len() - i,
{
    if i < s.len() {
        let a = ws_end(s, i);
        lemma_ws_end_bounds(s, i);
        if a < s.len() {
            let b = tok_end(s, a);
            lemma_tok_end_bounds(s, a);
            lemma_tokens_free_of_ws(s, b);
            let t = s.subrange(a, b);
            let rest = tokens_from(s, b);
            assert(tokens_from(s, i) == seq![t] + rest);
            assert forall|k: int, j: int|
                0 <= k < tokens_from(s, i).len() && 0 <= j < tokens_from(s, i)[k].len() implies !is_ws(
                #[trigger] tokens_from(s, i)[k][j],
            ) by {
                if k == 0 {
                    assert(tokens_from(s, i)[k][j] == s[a + j]);
                } else {
                    assert(tokens_from(s, i)[k] == rest[k - 1]);
                }
            }
            assert forall|k: int| 0 <= k < tokens_from(s, i).len() implies #[trigger] tokens_from(
                s,
                i,
            )[k].len() > 0 by {
                if k > 0 {
                    assert(tokens_from(s, i)[k] == rest[k - 1]);
                }
            }
        }
    }
}

/// The authorization code read from the browser's redirect is cut at the
/// first whitespace or `&`: it holds neither.
pub proof fn law_callback_code_clean(request: Seq<char>)
    ensures
        callback_code(request) matches Some(c) ==> !c.contains('&') && forall|i: int|
            0 <= i < c.len() ==> !is_ws(#[trigger] c[i]),
{
    if let Some(seg) = segment_after_first(request, "code="@) {
        if let Some(t) = first_token(seg) {
            lemma_tokens_free_of_ws(seg, 0);
            assert(t == tokens(seg)[0]);
            let c = before_char(t, '&');
            lemma_before_char(t, '&');
            assert forall|i: int| 0 <= i < c.len() implies !is_ws(#[trigger] c[i]) by {
                assert(c[i] == t[i]);
                assert(t[i] == tokens_from(seg, 0)[0][i]);
            }
        }
    }
}

/// Rescanning a file that is already in the library keeps its id, play count,
/// last play and date added, and marks it present again, modified at the scan.
pub proof fn law_rescan_keeps_history(
    scanned: ScannedTrack,
    id: i64,
    play_count: i32,
    last_played: Option<i64>,
    date_added: i64,
    now: i64,
)
    ensures
        ({
            let t = scanned_track_record(
                scanned,
                StoredTrack::Existing { id, play_count, last_played, date_added },
                now,
            );
            &&& t.id == id
            &&& t.play_count == play_count
            &&& t.last_played == last_played
            &&& t.date_added == date_added
            &&& !t.is_missing
            &&& t.date_modified == Some(now)
        }),
{
}

/// A file added to the library by a scan starts unplayed, added at the scan.
pub proof fn law_new_track_starts_unplayed(scanned: ScannedTrack, id: i64, now: i64)
    ensures
        ({
            let t = scanned_track_record(scanned, StoredTrack::Inserted { id }, now);
            &&& t.id == id
            &&& t.play_count == 0
            &&& t.last_played is None
            &&& t.date_added == now
            &&& t.rating == 0
        }),
{
}

/// Each file not in the library adds one to the count of those before a later position.
pub proof fn lemma_count_not_in_library_grows(lookups: Seq<DeviceLookup>, i: int, j: int)
    requires
        0 <= i < j <= lookups.len(),
    ensures
        count_not_in_library(lookups.take(j)) >= count_not_in_library(lookups.take(i)) + (
        if lookups[i] is NotInLibrary {
            1int
        } else {
            0int
        }),
        count_not_in_library(lookups.take(j)) <= j,
    decreases j - i,
{
    let tj = lookups.take(j);
    assert(tj.drop_last() =~= lookups.take(j - 1));
    assert(tj.last() == lookups[j - 1]);
    if j - 1 > i {
        lemma_count_not_in_library_grows(lookups, i, j - 1);
    } else {
        lemma_count_bounded(lookups.take(i));
        assert(lookups.take(i).len() == i);
    }
    lemma_count_bounded(tj);
}

/// The count of files not in the library is at most the number of lookups.
pub proof fn lemma_count_bounded(lookups: Seq<DeviceLookup>)
    ensures
        count_not_in_library(lookups) <= lookups.len(),
    decreases lookups.len(),
{
    if lookups.len() > 0 {
        lemma_count_bounded(lookups.drop_last());
    }
}

/// In a device listing, the files that are not in the library get negative
/// ids, and no two of them the same.
pub proof fn law_device_temporary_ids_distinct(
    scanned: Seq<ScannedTrack>,
    lookups: Seq<DeviceLookup>,
    i: int,
    j: int,
)
    requires
        lookups.len() <= i64::MAX,
        0 <= i < j < lookups.len(),
        lookups[i] is NotInLibrary,
        lookups[j] is NotInLibrary,
    ensures
        ({
            let ti = device_track_spec(
                scanned[i],
                lookups[i],
                temporary_id(count_not_in_library(lookups.take(i))),
            );
            let tj = device_track_spec(
                scanned[j],
                lookups[j],
                temporary_id(count_not_in_library(lookups.take(j))),
            );
            &&& ti.id < 0
            &&& tj.id < 0
            &&& ti.id != tj.id
        }),
{
    lemma_count_not_in_library_grows(lookups, i, j);
    lemma_count_bounded(lookups.take(i));
}

/// Tracks of a device listing that are in the library keep the library's id.
pub proof fn law_device_library_ids_kept(
    scanned: ScannedTrack,
    id: i64,
    play_count: i32,
    last_played: Option<i64>,
    date_added: i64,
    rating: i32,
    date_modified: Option<i64>,
    temp_id: i64,
)
    ensures
        device_track_spec(
            scanned,
            DeviceLookup::InLibrary {
                id,
                play_count,
                last_played,
                date_added,
                rating,
                date_modified,
            },
            temp_id,
        ).id == id,
{
}

/// The paths reported missing are exactly those whose file does not exist,
/// each in the order listed.
pub proof fn law_missing_paths_exact(paths: Seq<String>, exists: Seq<bool>)
    requires
        paths.len() == exists.len(),
    ensures
        forall|i: int|
            0 <= i < paths.len() && !exists[i] ==> missing_paths_spec(paths, exists).contains(
                #[trigger] paths[i],
            ),
        forall|p: String|
            #[trigger] missing_paths_spec(paths, exists).contains(p) ==> exists|i: int|
                0 <= i < paths.len() && !exists[i] && paths[i] == p,
    decreases paths.len(),
{
    if paths.len() > 0 {
        let n = paths.len() - 1;
        let ps = paths.drop_last();
        let es = exists.take(n);
        law_missing_paths_exact(ps, es);
        let rest = missing_paths_spec(ps, es);
        assert forall|i: int|
            0 <= i < paths.len() && !exists[i] implies missing_paths_spec(paths, exists).contains(
            #[trigger] paths[i],
        ) by {
            if i < n {
                assert(ps[i] == paths[i] && es[i] == exists[i]);
                assert(rest.contains(ps[i]));
                let k = choose|k: int| 0 <= k < rest.len() && rest[k] == ps[i];
                if !exists[n] {
                    assert(rest.push(paths.last())[k] == paths[i]);
                }
            } else {
                assert(rest.push(paths.last())[rest.len() as int] == paths[i]);
            }
        }
        assert forall|p: String| #[trigger] missing_paths_spec(paths, exists).contains(p) implies exists|i: int|
            0 <= i < paths.len() && !exists[i] && paths[i] == p by {
            let m = missing_paths_spec(paths, exists);
            let k = choose|k: int| 0 <= k < m.len() && m[k] == p;
            if k < rest.len() {
                assert(m[k] == rest[k]);
                assert(rest.contains(p));
                let i = choose|i: int| 0 <= i < ps.len() && !es[i] && ps[i] == p;
                assert(paths[i] == ps[i] && exists[i] == es[i]);
            } else {
                assert(p == paths[n]);
            }
        }
    }
}

/// Reading the tags of a file and writing them back unchanged writes the
/// values that were read (title, artist, genre, year and track number).
pub proof fn law_tags_round_trip(t: TagFields)
    ensures
        tag_updates_spec(metadata_from_tag_spec(Some(t))) == t,
{
    match t.track_number {
        Some(n) => {
            assert((n as u32) as u16 == n);
        },
        None => {},
    }
}

/// Paging through a playlist always moves forward, by one page, and never
/// past the reported total.
pub proof fn law_playlist_paging_advances(offset: int, page_len: int, total: int)
    requires
        page_len >= 0,
    ensures
        playlist_next_offset_spec(offset, page_len, total) matches Some(n) ==> n == offset
            + PAGE_SIZE && n < total && page_len > 0,
        page_len > 0 && offset + PAGE_SIZE < total ==> playlist_next_offset_spec(
            offset,
            page_len,
            total,
        ) == Some(offset + PAGE_SIZE),
        page_len == 0 || offset + PAGE_SIZE >= total ==> playlist_next_offset_spec(
            offset,
            page_len,
            total,
        ) is None,
{
}

/// Paging through the saved tracks moves forward by one page until the
/// offset reaches the reported total.
pub proof fn law_saved_paging_advances(offset: int, total: int)
    ensures
        saved_next_offset_spec(offset, total) matches Some(n) ==> n == offset + PAGE_SIZE && offset
            < total,
        offset >= total ==> saved_next_offset_spec(offset, total) is None,
        offset < total ==> saved_next_offset_spec(offset, total) == Some(offset + PAGE_SIZE),
{
}

/// Every drive read from `df` output names itself: letter and name are the
/// same non-empty text, without whitespace.
pub proof fn law_df_drives_named(output: Seq<char>)
    ensures
        forall|k: int|
            0 <= k < df_drives(output).len() ==> {
                let d = #[trigger] df_drives(output)[k];
                &&& d.name == Some(d.letter)
                &&& d.letter.len() > 0
                &&& forall|j: int| 0 <= j < d.letter.len() ==> !is_ws(#[trigger] d.letter[j])
            },
{
    lemma_df_line_drives_named(crate::text::pieces(output, '\n').skip(1));
}

proof fn lemma_df_line_drives_named(lines: Seq<Seq<char>>)
    ensures
        forall|k: int|
            0 <= k < df_line_drives(lines).len() ==> {
                let d = #[trigger] df_line_drives(lines)[k];
                &&& d.name == Some(d.letter)
                &&& d.letter.len() > 0
                &&& forall|j: int| 0 <= j < d.letter.len() ==> !is_ws(#[trigger] d.letter[j])
            },
    decreases lines.len(),
{
    if lines.len() > 0 {
        let rest = df_line_drives(lines.drop_last());
        lemma_df_line_drives_named(lines.drop_last());
        let l = lines.last();
        lemma_tokens_free_of_ws(l, 0);
        assert forall|k: int| 0 <= k < df_line_drives(lines).len() implies {
            let d = #[trigger] df_line_drives(lines)[k];
            &&& d.name == Some(d.letter)
            &&& d.letter.len() > 0
            &&& forall|j: int| 0 <= j < d.letter.len() ==> !is_ws(#[trigger] d.letter[j])
        } by {
            if k < rest.len() {
                assert(df_line_drives(lines)[k] == rest[k]);
            } else {
                let t = tokens(l)[0];
                assert(df_line_drives(lines)[k].letter == t);
                assert forall|j: int| 0 <= j < t.len() implies !is_ws(#[trigger] t[j]) by {
                    assert(t[j] == tokens_from(l, 0)[0][j]);
                }
            }
        }
    }
}

/// Words joined with `+` hold no whitespace when the words hold none.
proof fn lemma_join_free_of_ws(parts: Seq<Seq<char>>)
    requires
        forall|k: int, j: int|
            0 <= k < parts.len() && 0 <= j < parts[k].len() ==> !is_ws(#[trigger] parts[k][j]),
    ensures
        forall|j: int| 0 <= j < join(parts, "+"@).len() ==> !is_ws(#[trigger] join(parts, "+"@)[j]),
    decreases parts.len(),
{
    reveal_strlit("+");
    if parts.len() > 1 {
        let init = parts.drop_last();
        assert forall|k: int, j: int| 0 <= k < init.len() && 0 <= j < init[k].len() implies !is_ws(
            #[trigger] init[k][j],
        ) by {
            assert(init[k] == parts[k]);
        }
        lemma_join_free_of_ws(init);
        let a = join(init, "+"@);
        let l = parts.last();
        assert forall|j: int| 0 <= j < join(parts, "+"@).len() implies !is_ws(
            #[trigger] join(parts, "+"@)[j],
        ) by {
            let whole = join(parts, "+"@);
            assert(whole == a + "+"@ + l);
            if j < a.len() {
                assert(whole[j] == a[j]);
            } else if j == a.len() {
                assert(whole[j] == '+');
            } else {
                assert(whole[j] == l[j - a.len() - 1]);
                assert(parts[parts.len() - 1][j - a.len() - 1] == l[j - a.len() - 1]);
            }
        }
    } else if parts.len() == 1 {
        assert forall|j: int| 0 <= j < join(parts, "+"@).len() implies !is_ws(
            #[trigger] join(parts, "+"@)[j],
        ) by {
            assert(join(parts, "+"@)[j] == parts[0][j]);
        }
    }
}

/// The query part of a YouTube search address holds no whitespace: the words
/// of the query are joined with `+`.
pub proof fn law_search_url_query_free_of_ws(query: Seq<char>)
    ensures
        ({
            let prefix_len = "https://www.youtube.com/results?search_query="@.len();
            let url = search_url_spec(query);
            forall|j: int| prefix_len <= j < url.len() ==> !is_ws(#[trigger] url[j])
        }),
{
    lemma_tokens_free_of_ws(query, 0);
    lemma_join_free_of_ws(tokens(query));
    let prefix = "https://www.youtube.com/results?search_query="@;
    let q = join(tokens(query), "+"@);
    let url = search_url_spec(query);
    assert forall|j: int| prefix.len() <= j < url.len() implies !is_ws(#[trigger] url[j]) by {
        assert(url[j] == q[j - prefix.len()]);
    }
}

/// Appending text without `c` leaves the last `c` where it was.
pub proof fn lemma_last_index_of_append(a: Seq<char>, b: Seq<char>, c: char)
    requires
        forall|i: int| 0 <= i < b.len() ==> b[i] != c,
    ensures
        last_index_of(a + b, c) == last_index_of(a, c),
    decreases b.len(),
{
    if b.len() == 0 {
        assert(a + b =~= a);
    } else {
        assert((a + b).drop_last() =~= a + b.drop_last());
        assert((a + b).last() == b.last());
        lemma_last_index_of_append(a, b.drop_last(), c);
    }
}

/// Appending text without `/`, `\` or `:` leaves the last of them where it was.
pub proof fn lemma_last_break_append(a: Seq<char>, b: Seq<char>)
    requires
        forall|i: int| 0 <= i < b.len() ==> !is_name_break(b[i]),
    ensures
        last_break_index(a + b) == last_break_index(a),
    decreases b.len(),
{
    if b.len() == 0 {
        assert(a + b =~= a);
    } else {
        assert((a + b).drop_last() =~= a + b.drop_last());
        assert((a + b).last() == b.last());
        lemma_last_break_append(a, b.drop_last());
    }
}

/// A text that ends in a file name other than `.` has no trailing `/` or `/.`
/// to set aside.
pub proof fn lemma_trim_tail_of_name(a: Seq<char>, name: Seq<char>)
    requires
        is_plain_file_name(name),
    ensures
        trim_tail(a + name) == a + name,
{
    reveal_strlit(".");
    let p = a + name;
    assert(p.last() == name.last());
    if p.last() == '.' && p.len() >= 2 {
        if name.len() == 1 {
            assert(name =~= "."@);
        } else {
            assert(p[p.len() - 2] == name[name.len() - 2]);
        }
    }
}

/// Whether a file is taken as audio does not depend on the directory it is
/// in: below any directory, joined with `/` or `\`, a bare file name is the
/// text the path is judged by, and the path is judged as the name alone is.
/// Joined with `/`, a path that does not start with two separators always has
/// a portable extension or lacks one, as the name does.
pub proof fn law_audio_file_ignores_directory(dir: Seq<char>, sep: char, name: Seq<char>)
    requires
        is_plain_file_name(name),
        sep == '/' || sep == '\\',
    ensures
        trim_tail(dir.push(sep) + name) == dir.push(sep) + name,
        trim_tail(name) == name,
        last_part(dir.push(sep) + name) == name,
        last_part(name) == name,
        sep == '/' ==> last_segment(dir.push(sep) + name) == name,
        has_simple_file_name(name),
        has_portable_extension(dir.push(sep) + name) ==> has_portable_extension(name),
        sep == '/' && !starts_with_two_separators(dir.push(sep) + name) ==> (has_portable_extension(
            dir.push(sep) + name,
        ) <==> has_portable_extension(name)) && (lacks_extension(dir.push(sep) + name)
            <==> lacks_extension(name)) && (has_portable_extension(name) || lacks_extension(
            name,
        )),
        audio_file_name(last_part(dir.push(sep) + name)) == audio_file_name(name),
        ascii_audio_file_name(last_part(dir.push(sep) + name)) == ascii_audio_file_name(name),
{
    reveal_strlit("..");
    let a = dir.push(sep);
    let empty = Seq::<char>::empty();
    assert(empty + name =~= name);
    lemma_trim_tail_of_name(a, name);
    lemma_trim_tail_of_name(empty, name);
    lemma_last_break_append(a, name);
    lemma_last_break_append(empty, name);
    assert(a.last() == sep);
    assert(last_break_index(a) == Some(dir.len() as int));
    assert((a + name).skip(dir.len() + 1int) =~= name);
    lemma_last_index_of_append(empty, name, '/');
    assert(!starts_with_two_separators(name)) by {
        if name.len() >= 2 {
            assert(name[0] != '/' && name[0] != '\\');
        }
    }
    if sep == '/' {
        lemma_last_index_of_append(a, name, '/');
        assert(last_index_of(a, '/') == Some(dir.len() as int));
        lemma_last_index_of_bounds(name, '.');
    }
}

/// Turning `A`..`Z` into `a`..`z` moves no dot.
pub proof fn lemma_last_dot_ascii_lower(s: Seq<char>)
    ensures
        last_index_of(ascii_lower(s), '.') == last_index_of(s, '.'),
    decreases s.len(),
{
    if s.len() > 0 {
        let c = s.last();
        assert(ascii_lower(s).last() == ascii_lower_char(c));
        assert(ascii_lower_char(c) == '.' <==> c == '.');
        assert(ascii_lower(s).drop_last() =~= ascii_lower(s.drop_last()));
        lemma_last_dot_ascii_lower(s.drop_last());
    }
}

/// Turning `A`..`Z` into `a`..`z` keeps a text ASCII, and a text that is not
/// ASCII stays so.
pub proof fn lemma_ascii_lower_keeps_ascii(e: Seq<char>)
    ensures
        is_ascii_text(ascii_lower(e)) == is_ascii_text(e),
{
    assert forall|i: int| 0 <= i < e.len() implies ((ascii_lower(e)[i] as u32) < 128) == ((
    e[i] as u32) < 128) by {
        assert(ascii_lower(e)[i] == ascii_lower_char(e[i]));
    }
    if !is_ascii_text(e) {
        let i = choose|i: int| 0 <= i < e.len() && !((e[i] as u32) < 128);
        assert(!((ascii_lower(e)[i] as u32) < 128));
    }
}

/// Whether a file is taken as audio does not depend on the case of the ASCII
/// letters of its name: two names that differ only in the case of `A`..`Z`
/// have ASCII extensions alike, and are judged alike.
pub proof fn law_audio_file_ignores_ascii_case(a: Seq<char>, b: Seq<char>)
    requires
        ascii_lower(a) == ascii_lower(b),
    ensures
        ascii_extension(a) == ascii_extension(b),
        ascii_audio_file_name(a) == ascii_audio_file_name(b),
{
    lemma_last_dot_ascii_lower(a);
    lemma_last_dot_ascii_lower(b);
    assert(a.len() == b.len()) by {
        assert(ascii_lower(a).len() == a.len());
        assert(ascii_lower(b).len() == b.len());
    }
    match last_index_of(a, '.') {
        None => {},
        Some(k) => {
            lemma_last_index_of_bounds(a, '.');
            assert(ascii_lower(a.skip(k + 1)) =~= ascii_lower(a).skip(k + 1));
            assert(ascii_lower(b.skip(k + 1)) =~= ascii_lower(b).skip(k + 1));
            lemma_ascii_lower_keeps_ascii(a.skip(k + 1));
            lemma_ascii_lower_keeps_ascii(b.skip(k + 1));
        },
    }
}

/// A scan records each file with the tags it read, unchanged: the path,
/// folder, file name, title, artist, album, genre, year and duration are the
/// scanned file's own, the track number is the tag's taken as 32 bits, and
/// the track is present, unrated and modified at the time of the scan,
/// whether the file was already in the library or not.
pub proof fn law_scan_keeps_tags(scanned: ScannedTrack, stored: StoredTrack, now: i64)
    ensures
        ({
            let t = scanned_track_record(scanned, stored, now);
            &&& t.file_path == scanned.file_path
            &&& t.folder_path == scanned.folder_path
            &&& t.file_name == scanned.file_name
            &&& t.title == scanned.title
            &&& t.artist == scanned.artist
            &&& t.album == scanned.album
            &&& t.genre == scanned.genre
            &&& t.year == scanned.year
            &&& t.duration_bits == scanned.duration_bits
            &&& t.track_number == match scanned.track_number {
                Some(n) => Some(n as i32),
                None => None,
            }
            &&& !t.is_missing
            &&& t.rating == 0
            &&& t.date_modified == Some(now)
        }),
{
}

/// A track listed for a file on a device carries the file's own tags: the
/// path, folder, file name, title, artist, album, genre, year and duration
/// are those the scan read, whatever the library knows of the file, and the
/// track is present.
pub proof fn law_device_track_keeps_tags(scanned: ScannedTrack, lookup: DeviceLookup, temp_id: i64)
    ensures
        ({
            let t = device_track_spec(scanned, lookup, temp_id);
            &&& t.file_path == scanned.file_path
            &&& t.folder_path == scanned.folder_path
            &&& t.file_name == scanned.file_name
            &&& t.title == scanned.title
            &&& t.artist == scanned.artist
            &&& t.album == scanned.album
            &&& t.genre == scanned.genre
            &&& t.year == scanned.year
            &&& t.duration_bits == scanned.duration_bits
            &&& t.track_number == match scanned.track_number {
                Some(n) => Some(n as i32),
                None => None,
            }
            &&& !t.is_missing
        }),
{
}

/// On a page of saved tracks, an entry whose track has an id, a name and an
/// artist list adds one track after those of the entries before it: with
/// that id, name and the artists present in the list, the album's name (or
/// `Unknown` when the album has none), and the track's duration; any other
/// entry adds nothing.
pub proof fn law_saved_page_entry(entries: Seq<Option<TrackObjectView>>, e: Option<TrackObjectView>)
    ensures
        ({
            let before = saved_page_spec(entries);
            let after = saved_page_spec(entries.push(e));
            match e {
                Some(o) => if o.id is Some && o.name is Some && o.artists is Some {
                    &&& after.len() == before.len() + 1
                    &&& after.drop_last() == before
                    &&& after.last().id == o.id->0
                    &&& after.last().name == o.name->0
                    &&& after.last().artists == artist_names(o.artists->0)
                    &&& after.last().album == match o.album_name {
                        Some(a) => a,
                        None => "Unknown"@,
                    }
                    &&& after.last().duration_ms == (match o.duration_ms {
                        Some(d) => d,
                        None => 0,
                    }) as u32
                    &&& after.last().external_urls == o.external_urls
                } else {
                    after == before
                },
                None => after == before,
            }
        }),
{
    assert(entries.push(e).drop_last() =~= entries);
}

/// On a page of a playlist's items, once the entries before are read, a
/// track entry with an id, a name and an artist list adds one track: with
/// that id, name and the artists present in the list, the album's name (or
/// `Unknown Album` when the album has none), and the track's duration; an
/// entry that is not a track adds nothing.
pub proof fn law_playlist_page_entry(entries: Seq<Option<TrackObjectView>>, e: Option<TrackObjectView>)
    ensures
        playlist_page_spec(entries) matches Ok(before) ==> match e {
            Some(o) => if o.kind == Some("track"@) && o.id is Some && o.name is Some
                && o.artists is Some {
                playlist_page_spec(entries.push(e)) matches Ok(after) && {
                    &&& after.len() == before.len() + 1
                    &&& after.drop_last() == before
                    &&& after.last().id == o.id->0
                    &&& after.last().name == o.name->0
                    &&& after.last().artists == artist_names(o.artists->0)
                    &&& after.last().album == match o.album_name {
                        Some(a) => a,
                        None => "Unknown Album"@,
                    }
                    &&& after.last().duration_ms == (match o.duration_ms {
                        Some(d) => d,
                        None => 0,
                    }) as u32
                    &&& after.last().external_urls == o.external_urls
                }
            } else if o.kind != Some("track"@) {
                playlist_page_spec(entries.push(e)) == Ok::<Seq<SpotifyTrackView>, Seq<char>>(before)
            } else {
                playlist_page_spec(entries.push(e)) == Err::<Seq<SpotifyTrackView>, Seq<char>>(
                    if o.id is None {
                        "Missing track id"@
                    } else if o.name is None {
                        "Missing track name"@
                    } else {
                        "Missing artists"@
                    },
                )
            },
            None => playlist_page_spec(entries.push(e)) == Ok::<Seq<SpotifyTrackView>, Seq<char>>(before),
        },
{
    assert(entries.push(e).drop_last() =~= entries);
}

/// The PKCE code challenge is the URL-safe base64 (without padding) of the
/// SHA-256 digest of the whole verifier's UTF-8 bytes, whatever its length,
/// as the S256 method asks.
pub proof fn law_code_challenge_hashes_whole_verifier(verifier: Seq<char>)
    ensures
        code_challenge_spec(verifier) == base64_url_nopad(
            sha256_spec(vstd::utf8::encode_utf8(verifier)),
        ),
{
}

} // verus!

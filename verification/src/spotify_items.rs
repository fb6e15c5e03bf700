//! Reading Spotify's listings: playlists, the tracks of a playlist, the user's
//! saved tracks, the paging through them, and the messages for failed requests.

use vstd::prelude::*;
use crate::text::opt_view;

verus! {

broadcast use vstd::string::group_string_axioms;

/// A JSON value that Spotify sent and the player hands on unread (the
/// `external_urls` object of playlists and tracks).
#[verifier::external_type_specification]
#[verifier::external_body]
pub struct ExJsonValue(serde_json::Value);

/// A playlist of the user, as the player lists it.
pub struct SpotifyPlaylist {
    pub id: String,
    pub name: String,
    pub description: Option<String>,
    pub external_urls: serde_json::Value,
}

/// The fields of one entry of Spotify's playlist listing that the player reads:
/// each string field is present only when the entry holds a string there.
pub struct PlaylistItem {
    pub id: Option<String>,
    pub name: Option<String>,
    pub description: Option<String>,
    pub external_urls: serde_json::Value,
}

/// The playlist an entry describes: entries without an id or a name are left out.
pub open spec fn playlist_of(item: PlaylistItem) -> Option<SpotifyPlaylist> {
    match (item.id, item.name) {
        (Some(id), Some(name)) => Some(
            SpotifyPlaylist {
                id,
                name,
                description: item.description,
                external_urls: item.external_urls,
            },
        ),
        _ => None,
    }
}

/// The playlists that a listing describes, in order.
pub open spec fn playlists_of(items: Seq<PlaylistItem>) -> Seq<SpotifyPlaylist>
    decreases items.len(),
{
    if items.len() == 0 {
        seq![]
    } else {
        let rest = playlists_of(items.drop_last());
        match playlist_of(items.last()) {
            Some(p) => rest.push(p),
            None => rest,
        }
    }
}

/// The playlists in Spotify's answer; `items` is `None` when the answer has
/// no `items` array.
pub fn playlists_from_items(items: Option<Vec<PlaylistItem>>) -> (r: Result<Vec<SpotifyPlaylist>, String>)
    ensures
        items is None ==> (r matches Err(e) && e@ == "Missing items in response"@),
        items matches Some(v) ==> (r matches Ok(ps) && ps@ == playlists_of(v@)),
{
    let mut items = match items {
        Some(v) => v,
        None => return Err(String::from_str("Missing items in response")),
    };
    let ghost all = items@;
    let total = items.len();
    let mut out: Vec<SpotifyPlaylist> = Vec::new();
    let mut k: usize = 0;
    while items.len() > 0
        invariant
            total == all.len(),
            k <= all.len(),
            items@ == all.skip(k as int),
            out@ == playlists_of(all.take(k as int)),
        decreases items@.len(),
    {
        let item = items.remove(0);
        proof {
            assert(all.take(k + 1).drop_last() =~= all.take(k as int));
            assert(all.take(k + 1).last() == item);
            assert(items@ =~= all.skip(k + 1));
        }
        match (item.id, item.name) {
            (Some(id), Some(name)) => {
                out.push(
                    SpotifyPlaylist {
                        id,
                        name,
                        description: item.description,
                        external_urls: item.external_urls,
                    },
                );
            },
            _ => {},
        }
        k = k + 1;
    }
    assert(all.take(k as int) =~= all);
    Ok(out)
}

/// A Spotify track, as the player lists it.
pub struct SpotifyTrack {
    pub id: String,
    pub name: String,
    pub artists: Vec<String>,
    pub album: String,
    pub duration_ms: u32,
    pub external_urls: serde_json::Value,
}

/// The mathematical view of a `SpotifyTrack`.
pub struct SpotifyTrackView {
    pub id: Seq<char>,
    pub name: Seq<char>,
    pub artists: Seq<Seq<char>>,
    pub album: Seq<char>,
    pub duration_ms: u32,
    pub external_urls: serde_json::Value,
}

/// The views of a sequence of strings.
pub open spec fn str_views(v: Seq<String>) -> Seq<Seq<char>> {
    v.map_values(|x: String| x@)
}

impl View for SpotifyTrack {
    type V = SpotifyTrackView;

    open spec fn view(&self) -> SpotifyTrackView {
        SpotifyTrackView {
            id: self.id@,
            name: self.name@,
            artists: str_views(self.artists@),
            album: self.album@,
            duration_ms: self.duration_ms,
            external_urls: self.external_urls,
        }
    }
}

/// The views of a sequence of tracks.
pub open spec fn track_views(v: Seq<SpotifyTrack>) -> Seq<SpotifyTrackView> {
    v.map_values(|t: SpotifyTrack| t@)
}

/// The fields of a track object in Spotify's answers that the player reads.
/// Each field is present only when the object holds a value of the right kind
/// there (`artists` lists, for each artist, its name if it is a string).
pub struct TrackObject {
    pub kind: Option<String>,
    pub id: Option<String>,
    pub name: Option<String>,
    pub artists: Option<Vec<Option<String>>>,
    pub album_name: Option<String>,
    pub duration_ms: Option<u64>,
    pub external_urls: serde_json::Value,
}

/// The mathematical view of a `TrackObject`.
pub struct TrackObjectView {
    pub kind: Option<Seq<char>>,
    pub id: Option<Seq<char>>,
    pub name: Option<Seq<char>>,
    pub artists: Option<Seq<Option<Seq<char>>>>,
    pub album_name: Option<Seq<char>>,
    pub duration_ms: Option<u64>,
    pub external_urls: serde_json::Value,
}

/// The views of a sequence of optional strings.
pub open spec fn opt_views(v: Seq<Option<String>>) -> Seq<Option<Seq<char>>> {
    v.map_values(|x: Option<String>| opt_view(x))
}

impl View for TrackObject {
    type V = TrackObjectView;

    open spec fn view(&self) -> TrackObjectView {
        TrackObjectView {
            kind: opt_view(self.kind),
            id: opt_view(self.id),
            name: opt_view(self.name),
            artists: match self.artists {
                Some(a) => Some(opt_views(a@)),
                None => None,
            },
            album_name: opt_view(self.album_name),
            duration_ms: self.duration_ms,
            external_urls: self.external_urls,
        }
    }
}

/// The views of a sequence of optional track objects.
pub open spec fn entry_views(v: Seq<Option<TrackObject>>) -> Seq<Option<TrackObjectView>> {
    v.map_values(
        |x: Option<TrackObject>|
            match x {
                Some(o) => Some(o@),
                None => None,
            },
    )
}

/// The names among a track's artists, in order (artists without a name are left out).
pub open spec fn artist_names(a: Seq<Option<Seq<char>>>) -> Seq<Seq<char>>
    decreases a.len(),
{
    if a.len() == 0 {
        seq![]
    } else {
        let rest = artist_names(a.drop_last());
        match a.last() {
            Some(n) => rest.push(n),
            None => rest,
        }
    }
}

/// The track built from an object that has an id, a name and an artist list;
/// `default_album` stands in for a missing album name, and the duration is
/// that of the object (0 if absent) cut to 32 bits.
pub open spec fn track_of(o: TrackObjectView, default_album: Seq<char>) -> SpotifyTrackView {
    SpotifyTrackView {
        id: o.id->0,
        name: o.name->0,
        artists: artist_names(o.artists->0),
        album: match o.album_name {
            Some(a) => a,
            None => default_album,
        },
        duration_ms: (match o.duration_ms {
            Some(d) => d,
            None => 0,
        }) as u32,
        external_urls: o.external_urls,
    }
}

/// Whether an entry of a playlist's item listing is a track (and not, say, a podcast episode).
pub open spec fn is_track_entry(e: Option<TrackObjectView>) -> bool {
    e matches Some(o) && o.kind == Some("track"@)
}

/// The tracks of one page of a playlist's items, or the error for the first
/// track that lacks its id, its name or its artist list.
pub open spec fn playlist_page_spec(entries: Seq<Option<TrackObjectView>>) -> Result<
    Seq<SpotifyTrackView>,
    Seq<char>,
>
    decreases entries.len(),
{
    if entries.len() == 0 {
        Ok(seq![])
    } else {
        match playlist_page_spec(entries.drop_last()) {
            Err(e) => Err(e),
            Ok(ts) => {
                let e = entries.last();
                if !is_track_entry(e) {
                    Ok(ts)
                } else {
                    let o = e->0;
                    if o.id is None {
                        Err("Missing track id"@)
                    } else if o.name is None {
                        Err("Missing track name"@)
                    } else if o.artists is None {
                        Err("Missing artists"@)
                    } else {
                        Ok(ts.push(track_of(o, "Unknown Album"@)))
                    }
                }
            },
        }
    }
}

/// The tracks of one page of the user's saved tracks: entries without a
/// track, or whose track lacks its id, its name or its artist list, are left out.
pub open spec fn saved_page_spec(entries: Seq<Option<TrackObjectView>>) -> Seq<SpotifyTrackView>
    decreases entries.len(),
{
    if entries.len() == 0 {
        seq![]
    } else {
        let rest = saved_page_spec(entries.drop_last());
        match entries.last() {
            Some(o) => if o.id is Some && o.name is Some && o.artists is Some {
                rest.push(track_of(o, "Unknown"@))
            } else {
                rest
            },
            None => rest,
        }
    }
}

/// The names of a track's artists.
fn collect_artist_names(artists: Vec<Option<String>>) -> (r: Vec<String>)
    ensures
        str_views(r@) == artist_names(opt_views(artists@)),
{
    let mut artists = artists;
    let ghost all = artists@;
    let total = artists.len();
    let mut out: Vec<String> = Vec::new();
    let mut k: usize = 0;
    while artists.len() > 0
        invariant
            total == all.len(),
            k <= all.len(),
            artists@ == all.skip(k as int),
            str_views(out@) == artist_names(opt_views(all.take(k as int))),
        decreases artists@.len(),
    {
        let a = artists.remove(0);
        proof {
            assert(opt_views(all.take(k + 1)).drop_last() =~= opt_views(all.take(k as int)));
            assert(all.take(k + 1).last() == a);
            assert(artists@ =~= all.skip(k + 1));
        }
        let ghost before = out@;
        match a {
            Some(n) => {
                out.push(n);
                assert(str_views(out@) =~= str_views(before).push(out@.last()@));
            },
            None => {},
        }
        k = k + 1;
    }
    assert(all.take(k as int) =~= all);
    out
}

/// Builds the track of an object that has an id, a name and an artist list.
fn build_track(o: TrackObject, default_album: &str) -> (r: SpotifyTrack)
    requires
        o.id is Some,
        o.name is Some,
        o.artists is Some,
    ensures
        r@ == track_of(o@, default_album@),
{
    let album = match o.album_name {
        Some(a) => a,
        None => String::from_str(default_album),
    };
    let duration = match o.duration_ms {
        Some(d) => d,
        None => 0,
    };
    SpotifyTrack {
        id: o.id.unwrap(),
        name: o.name.unwrap(),
        artists: collect_artist_names(o.artists.unwrap()),
        album,
        duration_ms: duration as u32,
        external_urls: o.external_urls,
    }
}

/// Whether a track object's type is `track`.
fn kind_is_track(kind: &Option<String>) -> (r: bool)
    ensures
        r == (opt_view(*kind) == Some("track"@)),
{
    match kind {
        Some(k) => crate::text::str_equal(k.as_str(), "track"),
        None => false,
    }
}

/// The tracks of one page of a playlist's items; `items` is `None` when the
/// answer has no `items` array. Each entry is the `item` object of an item, if any.
pub fn playlist_tracks_from_items(items: Option<Vec<Option<TrackObject>>>) -> (r: Result<
    Vec<SpotifyTrack>,
    String,
>)
    ensures
        items is None ==> (r matches Err(e) && e@ == "Missing items in response"@),
        items matches Some(v) ==> match playlist_page_spec(entry_views(v@)) {
            Ok(ts) => r matches Ok(out) && track_views(out@) == ts,
            Err(m) => r matches Err(e) && e@ == m,
        },
{
    let mut rest = match items {
        Some(v) => v,
        None => return Err(String::from_str("Missing items in response")),
    };
    let ghost all = rest@;
    let total = rest.len();
    assert(entry_views(all.take(0)) =~= seq![]);
    let mut out: Vec<SpotifyTrack> = Vec::new();
    assert(track_views(out@) =~= seq![]);
    let mut k: usize = 0;
    while rest.len() > 0
        invariant
            items matches Some(v) && v@ == all,
            total == all.len(),
            k <= all.len(),
            rest@ == all.skip(k as int),
            playlist_page_spec(entry_views(all.take(k as int))) == Ok::<
                Seq<SpotifyTrackView>,
                Seq<char>,
            >(track_views(out@)),
        decreases rest@.len(),
    {
        let e = rest.remove(0);
        let ghost prefix = entry_views(all.take(k + 1));
        proof {
            assert(prefix.drop_last() =~= entry_views(all.take(k as int)));
            assert(all.take(k + 1).last() == e);
            assert(rest@ =~= all.skip(k + 1));
            assert(entry_views(all).take(k + 1) =~= prefix);
        }
        match e {
            Some(o) => {
                if kind_is_track(&o.kind) {
                    if o.id.is_none() {
                        let r = String::from_str("Missing track id");
                        proof {
                            lemma_playlist_page_error_persists(entry_views(all), k as int + 1);
                        }
                        return Err(r);
                    }
                    if o.name.is_none() {
                        let r = String::from_str("Missing track name");
                        proof {
                            lemma_playlist_page_error_persists(entry_views(all), k as int + 1);
                        }
                        return Err(r);
                    }
                    if o.artists.is_none() {
                        let r = String::from_str("Missing artists");
                        proof {
                            lemma_playlist_page_error_persists(entry_views(all), k as int + 1);
                        }
                        return Err(r);
                    }
                    let ghost before = out@;
                    let t = build_track(o, "Unknown Album");
                    out.push(t);
                    assert(track_views(out@) =~= track_views(before).push(t@));
                }
            },
            None => {},
        }
        k = k + 1;
    }
    assert(all.take(k as int) =~= all);
    Ok(out)
}

/// Once a prefix of a page fails, the whole page fails with the same message.
proof fn lemma_playlist_page_error_persists(entries: Seq<Option<TrackObjectView>>, k: int)
    requires
        0 <= k <= entries.len(),
        playlist_page_spec(entries.take(k)) is Err,
    ensures
        playlist_page_spec(entries) == playlist_page_spec(entries.take(k)),
    decreases entries.len() - k,
{
    if k < entries.len() {
        assert(entries.take(k + 1).drop_last() =~= entries.take(k));
        lemma_playlist_page_error_persists(entries, k + 1);
    } else {
        assert(entries.take(k) =~= entries);
    }
}

/// The tracks of one page of the user's saved tracks; `items` is `None` when
/// the answer has no `items` array. Each entry is the `track` value of an
/// item, if it has one.
pub fn saved_tracks_from_items(items: Option<Vec<Option<TrackObject>>>) -> (r: Result<
    Vec<SpotifyTrack>,
    String,
>)
    ensures
        items is None ==> (r matches Err(e) && e@ == "Invalid response format"@),
        items matches Some(v) ==> (r matches Ok(out) && track_views(out@) == saved_page_spec(
            entry_views(v@),
        )),
{
    let mut rest = match items {
        Some(v) => v,
        None => return Err(String::from_str("Invalid response format")),
    };
    let ghost all = rest@;
    let total = rest.len();
    assert(entry_views(all.take(0)) =~= seq![]);
    let mut out: Vec<SpotifyTrack> = Vec::new();
    let mut k: usize = 0;
    while rest.len() > 0
        invariant
            items matches Some(v) && v@ == all,
            total == all.len(),
            k <= all.len(),
            rest@ == all.skip(k as int),
            track_views(out@) == saved_page_spec(entry_views(all.take(k as int))),
        decreases rest@.len(),
    {
        let e = rest.remove(0);
        proof {
            assert(entry_views(all.take(k + 1)).drop_last() =~= entry_views(all.take(k as int)));
            assert(all.take(k + 1).last() == e);
            assert(rest@ =~= all.skip(k + 1));
        }
        match e {
            Some(o) => {
                if o.id.is_some() && o.name.is_some() && o.artists.is_some() {
                    let ghost before = out@;
                    let t = build_track(o, "Unknown");
                    out.push(t);
                    assert(track_views(out@) =~= track_views(before).push(t@));
                }
            },
            None => {},
        }
        k = k + 1;
    }
    assert(all.take(k as int) =~= all);
    Ok(out)
}

/// The number of entries asked for per page.
pub const PAGE_SIZE: usize = 50;

/// After a page of `page_len` entries of a playlist's items, read from
/// `offset`: the offset of the next page, or `None` when the page was empty
/// or the next offset reaches `total`.
pub open spec fn playlist_next_offset_spec(offset: int, page_len: int, total: int) -> Option<int> {
    if page_len == 0 || offset + PAGE_SIZE >= total {
        None
    } else {
        Some(offset + PAGE_SIZE)
    }
}

/// After a page of `page_len` entries of a playlist's items, read from
/// `offset`: the offset of the next page, or `None` when the page was empty
/// or the next offset reaches the `total` that Spotify reported.
pub fn playlist_next_offset(offset: usize, page_len: usize, total: u64) -> (r: Option<usize>)
    requires
        page_len > 0 ==> offset + PAGE_SIZE <= usize::MAX,
    ensures
        match r {
            Some(n) => playlist_next_offset_spec(offset as int, page_len as int, (total as usize) as int) == Some(n as int),
            None => playlist_next_offset_spec(offset as int, page_len as int, (total as usize) as int) is None,
        },
{
    if page_len == 0 {
        return None;
    }
    let next = offset + PAGE_SIZE;
    if next >= total as usize {
        None
    } else {
        Some(next)
    }
}

/// After a page of the user's saved tracks read from `offset`: the offset of
/// the next page, or `None` once `offset` has reached `total`.
pub open spec fn saved_next_offset_spec(offset: int, total: int) -> Option<int> {
    if offset >= total {
        None
    } else {
        Some(offset + PAGE_SIZE)
    }
}

/// After a page of the user's saved tracks read from `offset`: the offset of
/// the next page, or `None` once `offset` has reached the `total` that Spotify
/// reported.
pub fn saved_next_offset(offset: usize, total: u64) -> (r: Option<usize>)
    requires
        offset < (total as usize) ==> offset + PAGE_SIZE <= usize::MAX,
    ensures
        match r {
            Some(n) => saved_next_offset_spec(offset as int, (total as usize) as int) == Some(n as int),
            None => saved_next_offset_spec(offset as int, (total as usize) as int) is None,
        },
{
    if offset >= total as usize {
        None
    } else {
        Some(offset + PAGE_SIZE)
    }
}

/// The message for a failed request for a playlist's details.
pub fn playlist_info_error(status: u16, error_text: &str) -> (r: String)
    ensures
        status == 403 ==> r@
            == "Cannot access playlist info (403). This playlist may be private or you don't have permission to access it.\n\nError: "@
            + error_text@,
        status != 403 ==> r@ == "Failed to get playlist info: "@ + error_text@,
{
    let mut r = if status == 403 {
        String::from_str(
            "Cannot access playlist info (403). This playlist may be private or you don't have permission to access it.\n\nError: ",
        )
    } else {
        String::from_str("Failed to get playlist info: ")
    };
    r.append(error_text);
    r
}

/// The message for a failed request for a page of a playlist's items;
/// `status_text` is the status as HTTP writes it (such as `404 Not Found`).
pub fn playlist_tracks_error(status: u16, status_text: &str, is_public: bool, error_text: &str) -> (r: String)
    ensures
        status == 403 && is_public ==> r@
            == "Cannot access playlist tracks (403). The playlist appears to be public but track access is restricted.\n\nThis could be due to:\n1. Regional restrictions\n2. Playlist owner's privacy settings\n3. Content licensing restrictions\n\nError details: "@
            + error_text@,
        status == 403 && !is_public ==> r@
            == "Access denied (403). This usually means:\n1. The token has expired - try re-authenticating\n2. The playlist is private and not accessible\n3. Missing required permissions\n\nError details: "@
            + error_text@,
        status != 403 ==> r@ == "Failed to fetch playlist tracks (HTTP "@ + status_text@ + "): "@
            + error_text@,
{
    let mut r = if status == 403 {
        if is_public {
            String::from_str(
                "Cannot access playlist tracks (403). The playlist appears to be public but track access is restricted.\n\nThis could be due to:\n1. Regional restrictions\n2. Playlist owner's privacy settings\n3. Content licensing restrictions\n\nError details: ",
            )
        } else {
            String::from_str(
                "Access denied (403). This usually means:\n1. The token has expired - try re-authenticating\n2. The playlist is private and not accessible\n3. Missing required permissions\n\nError details: ",
            )
        }
    } else {
        let mut m = String::from_str("Failed to fetch playlist tracks (HTTP ");
        m.append(status_text);
        m.append("): ");
        m
    };
    r.append(error_text);
    r
}

/// The message for a failed request for a page of the user's saved tracks.
pub fn saved_tracks_error(status: u16, status_text: &str, error_text: &str) -> (r: String)
    ensures
        status == 403 ==> r@
            == "Access denied (403). This usually means:\n1. The token has expired - try re-authenticating\n2. Missing required permissions\n\nError details: "@
            + error_text@,
        status != 403 ==> r@ == "Failed to fetch saved tracks (HTTP "@ + status_text@ + "): "@
            + error_text@,
{
    let mut r = if status == 403 {
        String::from_str(
            "Access denied (403). This usually means:\n1. The token has expired - try re-authenticating\n2. Missing required permissions\n\nError details: ",
        )
    } else {
        let mut m = String::from_str("Failed to fetch saved tracks (HTTP ");
        m.append(status_text);
        m.append("): ");
        m
    };
    r.append(error_text);
    r
}

} // verus!

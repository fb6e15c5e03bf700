use serde_json::Value;
use whiplash::spotify_items::{
    playlist_info_error, playlist_next_offset, playlist_tracks_error, playlist_tracks_from_items,
    playlists_from_items, saved_next_offset, saved_tracks_error, saved_tracks_from_items,
    PlaylistItem, TrackObject,
};

fn s(x: &str) -> Option<String> {
    Some(x.to_string())
}

fn track(kind: Option<&str>, id: Option<&str>, name: Option<&str>) -> TrackObject {
    TrackObject {
        kind: kind.map(|k| k.to_string()),
        id: id.map(|k| k.to_string()),
        name: name.map(|k| k.to_string()),
        artists: Some(vec![s("Artist A"), None, s("Artist B")]),
        album_name: None,
        duration_ms: Some(123_456),
        external_urls: Value::Null,
    }
}

#[test]
fn playlists_keep_entries_with_id_and_name() {
    let items = vec![
        PlaylistItem { id: s("1"), name: s("One"), description: s("d"), external_urls: Value::Bool(true) },
        PlaylistItem { id: None, name: s("NoId"), description: None, external_urls: Value::Null },
        PlaylistItem { id: s("3"), name: None, description: None, external_urls: Value::Null },
        PlaylistItem { id: s("4"), name: s("Four"), description: None, external_urls: Value::Null },
    ];
    let ps = playlists_from_items(Some(items)).unwrap();
    assert_eq!(ps.len(), 2);
    assert_eq!(ps[0].id, "1");
    assert_eq!(ps[0].name, "One");
    assert_eq!(ps[0].description.as_deref(), Some("d"));
    assert_eq!(ps[0].external_urls, Value::Bool(true));
    assert_eq!(ps[1].id, "4");
    assert_eq!(ps[1].description, None);
}

#[test]
fn playlists_without_items_array() {
    assert_eq!(playlists_from_items(None).err(), Some("Missing items in response".to_string()));
}

#[test]
fn playlist_tracks_skip_non_tracks() {
    let items = vec![
        Some(track(Some("track"), Some("t1"), Some("First"))),
        Some(track(Some("episode"), None, None)),
        None,
        Some(TrackObject { album_name: s("Album"), duration_ms: None, ..track(Some("track"), Some("t2"), Some("Second")) }),
    ];
    let ts = playlist_tracks_from_items(Some(items)).unwrap();
    assert_eq!(ts.len(), 2);
    assert_eq!(ts[0].id, "t1");
    assert_eq!(ts[0].name, "First");
    assert_eq!(ts[0].artists, vec!["Artist A".to_string(), "Artist B".to_string()]);
    assert_eq!(ts[0].album, "Unknown Album");
    assert_eq!(ts[0].duration_ms, 123_456);
    assert_eq!(ts[1].album, "Album");
    assert_eq!(ts[1].duration_ms, 0);
}

#[test]
fn playlist_track_errors_in_order() {
    let missing_id = vec![
        Some(track(Some("track"), Some("ok"), Some("Fine"))),
        Some(track(Some("track"), None, None)),
        Some(track(Some("track"), Some("x"), None)),
    ];
    assert_eq!(playlist_tracks_from_items(Some(missing_id)).err(), Some("Missing track id".to_string()));
    let missing_name = vec![Some(track(Some("track"), Some("x"), None))];
    assert_eq!(playlist_tracks_from_items(Some(missing_name)).err(), Some("Missing track name".to_string()));
    let missing_artists = vec![Some(TrackObject { artists: None, ..track(Some("track"), Some("x"), Some("y")) })];
    assert_eq!(playlist_tracks_from_items(Some(missing_artists)).err(), Some("Missing artists".to_string()));
    assert_eq!(playlist_tracks_from_items(None).err(), Some("Missing items in response".to_string()));
}

#[test]
fn duration_is_cut_to_32_bits() {
    let items = vec![Some(TrackObject { duration_ms: Some((1u64 << 32) + 5), ..track(Some("track"), Some("a"), Some("b")) })];
    let ts = playlist_tracks_from_items(Some(items)).unwrap();
    assert_eq!(ts[0].duration_ms, 5);
}

#[test]
fn saved_tracks_skip_incomplete_entries() {
    let items = vec![
        Some(track(None, Some("s1"), Some("Saved"))),
        Some(track(None, None, Some("NoId"))),
        None,
        Some(TrackObject { artists: None, ..track(None, Some("s3"), Some("NoArtists")) }),
    ];
    let ts = saved_tracks_from_items(Some(items)).unwrap();
    assert_eq!(ts.len(), 1);
    assert_eq!(ts[0].id, "s1");
    assert_eq!(ts[0].album, "Unknown");
    assert_eq!(saved_tracks_from_items(None).err(), Some("Invalid response format".to_string()));
}

#[test]
fn playlist_paging() {
    assert_eq!(playlist_next_offset(0, 50, 120), Some(50));
    assert_eq!(playlist_next_offset(50, 50, 120), Some(100));
    assert_eq!(playlist_next_offset(100, 20, 120), None);
    assert_eq!(playlist_next_offset(0, 0, 120), None);
    assert_eq!(playlist_next_offset(0, 10, 50), None);
}

#[test]
fn saved_paging() {
    assert_eq!(saved_next_offset(0, 0), None);
    assert_eq!(saved_next_offset(0, 50), Some(50));
    assert_eq!(saved_next_offset(50, 50), None);
    assert_eq!(saved_next_offset(50, 120), Some(100));
}

#[test]
fn playlist_info_errors() {
    assert_eq!(
        playlist_info_error(403, "nope"),
        "Cannot access playlist info (403). This playlist may be private or you don't have permission to access it.\n\nError: nope"
    );
    assert_eq!(playlist_info_error(404, "gone"), "Failed to get playlist info: gone");
}

#[test]
fn playlist_tracks_errors() {
    assert!(playlist_tracks_error(403, "403 Forbidden", true, "e")
        .starts_with("Cannot access playlist tracks (403). The playlist appears to be public"));
    assert!(playlist_tracks_error(403, "403 Forbidden", false, "e").starts_with("Access denied (403)."));
    assert!(playlist_tracks_error(403, "403 Forbidden", false, "e").ends_with("\n\nError details: e"));
    assert_eq!(
        playlist_tracks_error(500, "500 Internal Server Error", true, "boom"),
        "Failed to fetch playlist tracks (HTTP 500 Internal Server Error): boom"
    );
}

#[test]
fn saved_tracks_errors() {
    assert_eq!(
        saved_tracks_error(403, "403 Forbidden", "x"),
        "Access denied (403). This usually means:\n1. The token has expired - try re-authenticating\n2. Missing required permissions\n\nError details: x"
    );
    assert_eq!(
        saved_tracks_error(401, "401 Unauthorized", "y"),
        "Failed to fetch saved tracks (HTTP 401 Unauthorized): y"
    );
}

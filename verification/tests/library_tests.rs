use whiplash::library::{
    copy_destination_check, copy_precheck, device_tracks, get_current_version, get_selected_watch_folder,
    missing_paths, record_scanned_track, scan_write, search_pattern, DeviceLookup, ScanWrite,
    StoredTrack,
};
use whiplash::scanner::ScannedTrack;

fn scanned(path: &str) -> ScannedTrack {
    ScannedTrack {
        file_path: path.to_string(),
        folder_path: "/music".to_string(),
        file_name: path.rsplit('/').next().unwrap().to_string(),
        title: Some("Title".to_string()),
        artist: None,
        album: Some("Album".to_string()),
        genre: None,
        year: Some(2001),
        track_number: Some(3),
        duration_bits: Some(180.5f64.to_bits()),
    }
}

#[test]
fn rescan_keeps_history() {
    let t = record_scanned_track(
        scanned("/music/a.mp3"),
        StoredTrack::Existing { id: 42, play_count: 9, last_played: Some(1234), date_added: 1000 },
        5000,
    );
    assert_eq!(t.id, 42);
    assert_eq!(t.play_count, 9);
    assert_eq!(t.last_played, Some(1234));
    assert_eq!(t.date_added, 1000);
    assert!(!t.is_missing);
    assert_eq!(t.date_modified, Some(5000));
    assert_eq!(t.rating, 0);
    assert_eq!(t.track_number, Some(3));
    assert_eq!(t.duration_bits.map(f64::from_bits), Some(180.5));
    assert_eq!(t.file_path, "/music/a.mp3");
    assert_eq!(t.title.as_deref(), Some("Title"));
}

#[test]
fn new_track_starts_unplayed() {
    let t = record_scanned_track(scanned("/music/b.flac"), StoredTrack::Inserted { id: 7 }, 6000);
    assert_eq!(t.id, 7);
    assert_eq!(t.play_count, 0);
    assert_eq!(t.last_played, None);
    assert_eq!(t.date_added, 6000);
    assert_eq!(t.date_modified, Some(6000));
    assert_eq!(t.rating, 0);
}

#[test]
fn large_track_number_wraps_to_signed() {
    let mut s = scanned("/music/c.mp3");
    s.track_number = Some(u32::MAX);
    let t = record_scanned_track(s, StoredTrack::Inserted { id: 1 }, 0);
    assert_eq!(t.track_number, Some(-1));
}

#[test]
fn device_tracks_get_distinct_negative_ids() {
    let tracks = vec![scanned("/dev/a.mp3"), scanned("/dev/b.mp3"), scanned("/dev/c.mp3"), scanned("/dev/d.mp3")];
    let lookups = vec![
        DeviceLookup::NotInLibrary { now: 100 },
        DeviceLookup::InLibrary {
            id: 55,
            play_count: 3,
            last_played: Some(90),
            date_added: 10,
            rating: 4,
            date_modified: None,
        },
        DeviceLookup::NotInLibrary { now: 101 },
        DeviceLookup::NotInLibrary { now: 102 },
    ];
    let out = device_tracks(tracks, lookups);
    assert_eq!(out.iter().map(|t| t.id).collect::<Vec<_>>(), vec![-1, 55, -2, -3]);
    assert_eq!(out[0].date_added, 100);
    assert_eq!(out[0].date_modified, Some(100));
    assert_eq!(out[0].play_count, 0);
    assert_eq!(out[1].play_count, 3);
    assert_eq!(out[1].rating, 4);
    assert_eq!(out[1].date_modified, None);
    assert_eq!(out[1].last_played, Some(90));
    assert_eq!(out[3].file_path, "/dev/d.mp3");
    assert!(out.iter().all(|t| !t.is_missing));
}

#[test]
fn missing_paths_in_order() {
    let paths = vec!["/a".to_string(), "/b".to_string(), "/c".to_string()];
    let out = missing_paths(paths, vec![false, true, false]);
    assert_eq!(out, vec!["/a".to_string(), "/c".to_string()]);
    assert!(missing_paths(vec![], vec![]).is_empty());
}

#[test]
fn search_pattern_wraps_query() {
    assert_eq!(search_pattern("beat"), "%beat%");
    assert_eq!(search_pattern(""), "%%");
}

#[test]
fn no_watch_folder_selected() {
    assert_eq!(get_selected_watch_folder(), Ok(None));
}

#[test]
fn copy_checks_in_order() {
    assert_eq!(copy_precheck(false, false, None), Err("Source file does not exist".to_string()));
    assert_eq!(copy_precheck(true, false, Some("x".to_string())), Err("Device path does not exist".to_string()));
    assert_eq!(copy_precheck(true, true, None), Err("Failed to get file name".to_string()));
    assert_eq!(copy_precheck(true, true, Some("song.mp3".to_string())), Ok("song.mp3".to_string()));
    assert_eq!(copy_destination_check(true), Err("File already exists at destination".to_string()));
    assert_eq!(copy_destination_check(false), Ok(()));
}

#[test]
fn version_is_package_version() {
    assert_eq!(get_current_version(), "0.1.0");
}

#[test]
fn scan_write_updates_a_known_file() {
    match scan_write(scanned("/music/a.mp3"), Some((7, 4, Some(900), 100)), 5000) {
        ScanWrite::Update(t) => {
            assert_eq!(t.id, 7);
            assert_eq!(t.play_count, 4);
            assert_eq!(t.last_played, Some(900));
            assert_eq!(t.date_added, 100);
            assert_eq!(t.date_modified, Some(5000));
            assert!(!t.is_missing);
            assert_eq!(t.rating, 0);
            assert_eq!(t.file_path, "/music/a.mp3");
            assert_eq!(t.track_number, Some(3));
        }
        ScanWrite::Insert(_) => panic!("expected an update"),
    }
}

#[test]
fn scan_write_inserts_a_new_file() {
    match scan_write(scanned("/music/b.flac"), None, 6000) {
        ScanWrite::Insert(t) => {
            assert_eq!(t.play_count, 0);
            assert_eq!(t.last_played, None);
            assert_eq!(t.date_added, 6000);
            assert_eq!(t.date_modified, Some(6000));
            assert!(!t.is_missing);
            assert_eq!(t.rating, 0);
            assert_eq!(t.file_name, "b.flac");
            assert_eq!(t.year, Some(2001));
        }
        ScanWrite::Update(_) => panic!("expected an insert"),
    }
}

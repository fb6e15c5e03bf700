//! The records the player keeps of tracks, tags, playlists, watched folders
//! and devices, and the rules by which scans and device listings fill them.

use vstd::prelude::*;
use crate::scanner::ScannedTrack;

verus! {

broadcast use vstd::string::group_string_axioms;

/// A track of the library.
pub struct Track {
    pub id: i64,
    pub file_path: String,
    pub folder_path: String,
    pub file_name: String,
    pub title: Option<String>,
    pub artist: Option<String>,
    pub album: Option<String>,
    pub genre: Option<String>,
    pub year: Option<i32>,
    pub track_number: Option<i32>,
    /// The playing time in seconds, held as the bit pattern of the `f64`
    /// (`f64::to_bits`).
    pub duration_bits: Option<u64>,
    pub play_count: i32,
    pub date_added: i64,
    pub last_played: Option<i64>,
    pub is_missing: bool,
    pub date_modified: Option<i64>,
    pub rating: i32,
}

/// A tag that tracks can carry.
pub struct Tag {
    pub id: i64,
    pub name: String,
}

/// A playlist of the library.
pub struct Playlist {
    pub id: i64,
    pub name: String,
    pub date_created: i64,
}

/// A folder that the library watches for audio files.
pub struct WatchFolder {
    pub id: i64,
    pub path: String,
    pub last_scanned: Option<i64>,
    pub is_disabled: bool,
}

/// A device (a mounted player or card) that tracks can be copied to.
pub struct Device {
    pub id: i64,
    pub path: String,
    pub name: String,
}

/// A track number as the library stores it: the tag's number taken as a 32-bit signed integer.
pub open spec fn stored_track_number(t: Option<u32>) -> Option<i32> {
    match t {
        Some(n) => Some(n as i32),
        None => None,
    }
}

/// A tag's track number as the library stores it.
pub fn to_stored_track_number(t: Option<u32>) -> (r: Option<i32>)
    ensures
        r == stored_track_number(t),
{
    match t {
        Some(n) => Some(n as i32),
        None => None,
    }
}

/// What the library held of a scanned file before the scan wrote it.
pub enum StoredTrack {
    /// The file was already in the library, with these counters; its row was updated.
    Existing { id: i64, play_count: i32, last_played: Option<i64>, date_added: i64 },
    /// The file was new; its row was inserted under this id.
    Inserted { id: i64 },
}

/// The track that a scan at Unix time `now` leaves in the library for a scanned
/// file: the tags come from the scan; a track already in the library keeps
/// its id, play count, last play and date added; a new track starts unplayed,
/// added now. Either way the track is present, modified now, and unrated.
pub open spec fn scanned_track_record(scanned: ScannedTrack, stored: StoredTrack, now: i64) -> Track {
    let (id, play_count, last_played, date_added) = match stored {
        StoredTrack::Existing { id, play_count, last_played, date_added } => (
            id,
            play_count,
            last_played,
            date_added,
        ),
        StoredTrack::Inserted { id } => (id, 0i32, None, now),
    };
    Track {
        id,
        file_path: scanned.file_path,
        folder_path: scanned.folder_path,
        file_name: scanned.file_name,
        title: scanned.title,
        artist: scanned.artist,
        album: scanned.album,
        genre: scanned.genre,
        year: scanned.year,
        track_number: stored_track_number(scanned.track_number),
        duration_bits: scanned.duration_bits,
        play_count,
        date_added,
        last_played,
        is_missing: false,
        date_modified: Some(now),
        rating: 0,
    }
}

/// The track that a scan at Unix time `now` leaves in the library for a scanned file.
pub fn record_scanned_track(scanned: ScannedTrack, stored: StoredTrack, now: i64) -> (r: Track)
    ensures
        r == scanned_track_record(scanned, stored, now),
{
    let (id, play_count, last_played, date_added) = match stored {
        StoredTrack::Existing { id, play_count, last_played, date_added } => (
            id,
            play_count,
            last_played,
            date_added,
        ),
        StoredTrack::Inserted { id } => (id, 0i32, None, now),
    };
    Track {
        id,
        file_path: scanned.file_path,
        folder_path: scanned.folder_path,
        file_name: scanned.file_name,
        title: scanned.title,
        artist: scanned.artist,
        album: scanned.album,
        genre: scanned.genre,
        year: scanned.year,
        track_number: to_stored_track_number(scanned.track_number),
        duration_bits: scanned.duration_bits,
        play_count,
        date_added,
        last_played,
        is_missing: false,
        date_modified: Some(now),
        rating: 0,
    }
}

/// What a scan writes to the library for a scanned file.
pub enum ScanWrite {
    /// The file already has a row: its values become these (the id and the
    /// counters are the row's own, unchanged).
    Update(Track),
    /// The file is new: a row with these values is inserted; the database
    /// assigns its id, so the `id` here is not written.
    Insert(Track),
}

/// The write a scan at Unix time `now` makes for a scanned file, given the
/// row the library holds for its path, if any, as its id, play count, last
/// play and date added: an update of that row to the track the scan leaves,
/// or the insertion of a new, unplayed track added now.
pub fn scan_write(scanned: ScannedTrack, existing: Option<(i64, i32, Option<i64>, i64)>, now: i64) -> (r: ScanWrite)
    ensures
        match existing {
            Some((id, play_count, last_played, date_added)) => r == ScanWrite::Update(
                scanned_track_record(
                    scanned,
                    StoredTrack::Existing { id, play_count, last_played, date_added },
                    now,
                ),
            ),
            None => r == ScanWrite::Insert(
                scanned_track_record(scanned, StoredTrack::Inserted { id: 0 }, now),
            ),
        },
{
    match existing {
        Some((id, play_count, last_played, date_added)) => ScanWrite::Update(
            record_scanned_track(
                scanned,
                StoredTrack::Existing { id, play_count, last_played, date_added },
                now,
            ),
        ),
        None => ScanWrite::Insert(record_scanned_track(scanned, StoredTrack::Inserted { id: 0 }, now)),
    }
}

/// The tracks that a scan at Unix time `now` leaves in the library for the
/// scanned files, in scan order: `stored[i]` is what the library held of
/// `scanned[i]` before the scan wrote it.
pub fn record_scanned_tracks(scanned: Vec<ScannedTrack>, stored: Vec<StoredTrack>, now: i64) -> (r: Vec<Track>)
    requires
        scanned@.len() == stored@.len(),
    ensures
        r@.len() == scanned@.len(),
        forall|i: int|
            0 <= i < r@.len() ==> #[trigger] r@[i] == scanned_track_record(scanned@[i], stored@[i], now),
{
    let ghost n = scanned@.len() as int;
    let ghost s0 = scanned@;
    let ghost t0 = stored@;
    let mut scanned = scanned;
    let mut stored = stored;
    let mut reversed: Vec<Track> = Vec::new();
    while scanned.len() > 0
        invariant
            scanned@.len() == stored@.len(),
            scanned@ == s0.take(scanned@.len() as int),
            stored@ == t0.take(stored@.len() as int),
            s0.len() == n,
            t0.len() == n,
            scanned@.len() + reversed@.len() == n,
            forall|k: int|
                0 <= k < reversed@.len() ==> #[trigger] reversed@[k] == scanned_track_record(
                    s0[n - 1 - k],
                    t0[n - 1 - k],
                    now,
                ),
        decreases scanned@.len(),
    {
        let ghost m = scanned@.len() as int;
        let sc = scanned.pop().unwrap();
        let st = stored.pop().unwrap();
        assert(sc == s0[m - 1]);
        assert(st == t0[m - 1]);
        assert(scanned@ =~= s0.take(m - 1));
        assert(stored@ =~= t0.take(m - 1));
        reversed.push(record_scanned_track(sc, st, now));
    }
    let mut out: Vec<Track> = Vec::new();
    while reversed.len() > 0
        invariant
            reversed@.len() + out@.len() == n,
            forall|k: int|
                0 <= k < reversed@.len() ==> #[trigger] reversed@[k] == scanned_track_record(
                    s0[n - 1 - k],
                    t0[n - 1 - k],
                    now,
                ),
            forall|i: int|
                0 <= i < out@.len() ==> #[trigger] out@[i] == scanned_track_record(s0[i], t0[i], now),
        decreases reversed@.len(),
    {
        let ghost m = reversed@.len() as int;
        let t = reversed.pop().unwrap();
        assert(t == scanned_track_record(s0[n - m], t0[n - m], now));
        out.push(t);
    }
    out
}

/// The `LIKE` pattern a search uses: the query anywhere in the text.
pub fn search_pattern(query: &str) -> (r: String)
    ensures
        r@ == "%"@ + query@ + "%"@,
{
    let mut r = String::from_str("%");
    r.append(query);
    r.append("%");
    r
}

/// What the library knows of a file found on a device.
pub enum DeviceLookup {
    /// The file is a track of the library, with these values.
    InLibrary {
        id: i64,
        play_count: i32,
        last_played: Option<i64>,
        date_added: i64,
        rating: i32,
        date_modified: Option<i64>,
    },
    /// The file is not in the library; `now` is the Unix time at which that was found.
    NotInLibrary { now: i64 },
}

/// How many of the lookups are for files not in the library.
pub open spec fn count_not_in_library(lookups: Seq<DeviceLookup>) -> nat
    decreases lookups.len(),
{
    if lookups.len() == 0 {
        0
    } else {
        count_not_in_library(lookups.drop_last()) + (if lookups.last() is NotInLibrary {
            1nat
        } else {
            0nat
        })
    }
}

/// The id a device file not in the library gets when `k` such files came
/// before it in the listing: -1 for the first, -2 for the second, and so on.
pub open spec fn temporary_id(k: nat) -> i64 {
    (-1 - k) as i64
}

/// The track listed for a file on a device: values of the library's track when
/// there is one, else the temporary id `temp_id`, unplayed, unrated, added and
/// modified at the time of the lookup.
pub open spec fn device_track_spec(scanned: ScannedTrack, lookup: DeviceLookup, temp_id: i64) -> Track {
    let (id, play_count, last_played, date_added, rating, date_modified) = match lookup {
        DeviceLookup::InLibrary { id, play_count, last_played, date_added, rating, date_modified } => (
            id,
            play_count,
            last_played,
            date_added,
            rating,
            date_modified,
        ),
        DeviceLookup::NotInLibrary { now } => (temp_id, 0i32, None, now, 0i32, Some(now)),
    };
    Track {
        id,
        file_path: scanned.file_path,
        folder_path: scanned.folder_path,
        file_name: scanned.file_name,
        title: scanned.title,
        artist: scanned.artist,
        album: scanned.album,
        genre: scanned.genre,
        year: scanned.year,
        track_number: stored_track_number(scanned.track_number),
        duration_bits: scanned.duration_bits,
        play_count,
        date_added,
        last_played,
        is_missing: false,
        date_modified,
        rating,
    }
}

/// The tracks listed for the audio files found on a device, in the order
/// found; `lookups[i]` is what the library knows of `scanned[i]`.
pub fn device_tracks(scanned: Vec<ScannedTrack>, lookups: Vec<DeviceLookup>) -> (r: Vec<Track>)
    requires
        scanned@.len() == lookups@.len(),
        scanned@.len() <= i64::MAX,
    ensures
        r@.len() == scanned@.len(),
        forall|i: int|
            0 <= i < r@.len() ==> #[trigger] r@[i] == device_track_spec(
                scanned@[i],
                lookups@[i],
                temporary_id(count_not_in_library(lookups@.take(i))),
            ),
{
    let mut scanned = scanned;
    let mut lookups = lookups;
    let ghost all_s = scanned@;
    let ghost all_l = lookups@;
    let total = scanned.len();
    let mut out: Vec<Track> = Vec::new();
    let mut next_temp_id: i64 = -1;
    let mut k: usize = 0;
    assert(all_l.take(0) =~= seq![]);
    while scanned.len() > 0
        invariant
            total == all_s.len(),
            all_s.len() == all_l.len(),
            total <= i64::MAX,
            k <= total,
            scanned@ == all_s.skip(k as int),
            lookups@ == all_l.skip(k as int),
            out@.len() == k,
            count_not_in_library(all_l.take(k as int)) <= k,
            next_temp_id == temporary_id(count_not_in_library(all_l.take(k as int))),
            forall|i: int|
                0 <= i < k ==> #[trigger] out@[i] == device_track_spec(
                    all_s[i],
                    all_l[i],
                    temporary_id(count_not_in_library(all_l.take(i))),
                ),
        decreases scanned@.len(),
    {
        let t = scanned.remove(0);
        let l = lookups.remove(0);
        proof {
            assert(all_l.take(k + 1).drop_last() =~= all_l.take(k as int));
            assert(all_l.take(k + 1).last() == l);
            assert(scanned@ =~= all_s.skip(k + 1));
            assert(lookups@ =~= all_l.skip(k + 1));
            assert(t == all_s[k as int]);
        }
        let (id, play_count, last_played, date_added, rating, date_modified) = match l {
            DeviceLookup::InLibrary { id, play_count, last_played, date_added, rating, date_modified } => (
                id,
                play_count,
                last_played,
                date_added,
                rating,
                date_modified,
            ),
            DeviceLookup::NotInLibrary { now } => {
                let temp_id = next_temp_id;
                next_temp_id = next_temp_id - 1;
                (temp_id, 0i32, None, now, 0i32, Some(now))
            },
        };
        let track = Track {
            id,
            file_path: t.file_path,
            folder_path: t.folder_path,
            file_name: t.file_name,
            title: t.title,
            artist: t.artist,
            album: t.album,
            genre: t.genre,
            year: t.year,
            track_number: to_stored_track_number(t.track_number),
            duration_bits: t.duration_bits,
            play_count,
            date_added,
            last_played,
            is_missing: false,
            date_modified,
            rating,
        };
        out.push(track);
        k = k + 1;
    }
    out
}

/// The paths, in order, whose file no longer exists; `exists[i]` tells
/// whether the file at `paths[i]` exists.
pub open spec fn missing_paths_spec(paths: Seq<String>, exists: Seq<bool>) -> Seq<String>
    decreases paths.len(),
{
    if paths.len() == 0 {
        seq![]
    } else {
        let rest = missing_paths_spec(paths.drop_last(), exists.take(paths.len() - 1));
        if exists[paths.len() - 1] {
            rest
        } else {
            rest.push(paths.last())
        }
    }
}

/// Picks out the paths whose file no longer exists, keeping their order.
pub fn missing_paths(paths: Vec<String>, exists: Vec<bool>) -> (r: Vec<String>)
    requires
        paths@.len() == exists@.len(),
    ensures
        r@ == missing_paths_spec(paths@, exists@),
{
    let mut paths = paths;
    let ghost all = paths@;
    let total = paths.len();
    let mut out: Vec<String> = Vec::new();
    let mut k: usize = 0;
    while paths.len() > 0
        invariant
            total == all.len(),
            all.len() == exists@.len(),
            k <= total,
            paths@ == all.skip(k as int),
            out@ == missing_paths_spec(all.take(k as int), exists@.take(k as int)),
        decreases paths@.len(),
    {
        let p = paths.remove(0);
        proof {
            assert(all.take(k + 1).drop_last() =~= all.take(k as int));
            assert(exists@.take(k + 1).take(k as int) =~= exists@.take(k as int));
            assert(all.take(k + 1).last() == p);
            assert(paths@ =~= all.skip(k + 1));
        }
        if !exists[k] {
            out.push(p);
        }
        k = k + 1;
    }
    assert(all.take(k as int) =~= all);
    assert(exists@.take(k as int) =~= exists@);
    out
}

/// The watch folder selected for scanning: no selection is kept yet, so there is none.
pub fn get_selected_watch_folder() -> (r: Result<Option<i64>, String>)
    ensures
        r == Ok::<Option<i64>, String>(None),
{
    Ok(None)
}

/// The checks before a file is copied to a device, in the order they are
/// made: the source must exist, then the device, then the source must have a
/// file name that is valid text. Gives that file name, or the message of the
/// first check that fails.
pub fn copy_precheck(source_exists: bool, device_exists: bool, file_name: Option<String>) -> (r: Result<String, String>)
    ensures
        !source_exists ==> (r matches Err(e) && e@ == "Source file does not exist"@),
        source_exists && !device_exists ==> (r matches Err(e) && e@ == "Device path does not exist"@),
        source_exists && device_exists && file_name is None ==> (r matches Err(e) && e@
            == "Failed to get file name"@),
        source_exists && device_exists && file_name is Some ==> r == Ok::<String, String>(
            file_name->0,
        ),
{
    if !source_exists {
        return Err(String::from_str("Source file does not exist"));
    }
    if !device_exists {
        return Err(String::from_str("Device path does not exist"));
    }
    match file_name {
        Some(n) => Ok(n),
        None => Err(String::from_str("Failed to get file name")),
    }
}

/// A copy never overwrites: it fails when the destination already exists.
pub fn copy_destination_check(destination_exists: bool) -> (r: Result<(), String>)
    ensures
        destination_exists ==> (r matches Err(e) && e@ == "File already exists at destination"@),
        !destination_exists ==> r is Ok,
{
    if destination_exists {
        Err(String::from_str("File already exists at destination"))
    } else {
        Ok(())
    }
}

/// The version of the player (that of this package).
pub const VERSION: &'static str = "0.1.0";

/// The version of the player, as the update dialog shows it.
pub fn get_current_version() -> (r: String)
    ensures
        r@ == VERSION@,
{
    String::from_str(VERSION)
}

} // verus!

//! The tags of audio files: what the player reads from them and what it writes back.

use vstd::prelude::*;

verus! {

/// The tags of an audio file, as the player shows and edits them.
pub struct TrackMetadata {
    pub title: Option<String>,
    pub artist: Option<String>,
    pub album: Option<String>,
    pub genre: Option<String>,
    pub year: Option<i32>,
    pub track_number: Option<u32>,
    /// The playing time in seconds, as the bit pattern of the `f64`
    /// (`f64::to_bits`).
    pub duration_bits: Option<u64>,
}

/// The tag fields that the tag reader offers for a file.
pub struct TagFields {
    pub title: Option<String>,
    pub artist: Option<String>,
    pub genre: Option<String>,
    pub year: Option<i32>,
    pub track_number: Option<u16>,
}

/// The metadata of a file from its tags (`None` when they could not be read):
/// title, artist, genre, year and track number come from the tags; album and
/// duration are left empty.
pub open spec fn metadata_from_tag_spec(tag: Option<TagFields>) -> TrackMetadata {
    match tag {
        Some(t) => TrackMetadata {
            title: t.title,
            artist: t.artist,
            album: None,
            genre: t.genre,
            year: t.year,
            track_number: match t.track_number {
                Some(n) => Some(n as u32),
                None => None,
            },
            duration_bits: None,
        },
        None => TrackMetadata {
            title: None,
            artist: None,
            album: None,
            genre: None,
            year: None,
            track_number: None,
            duration_bits: None,
        },
    }
}

/// The metadata of a file from its tags; a file whose tags cannot be read gets
/// empty metadata.
pub fn metadata_from_tag(tag: Option<TagFields>) -> (r: TrackMetadata)
    ensures
        r == metadata_from_tag_spec(tag),
{
    match tag {
        Some(t) => TrackMetadata {
            title: t.title,
            artist: t.artist,
            album: None,
            genre: t.genre,
            year: t.year,
            track_number: match t.track_number {
                Some(n) => Some(n as u32),
                None => None,
            },
            duration_bits: None,
        },
        None => TrackMetadata {
            title: None,
            artist: None,
            album: None,
            genre: None,
            year: None,
            track_number: None,
            duration_bits: None,
        },
    }
}

/// The changes written to a file's tags for edited metadata: each field that
/// is set is written, the track number cut to 16 bits; album and duration are
/// not written.
pub open spec fn tag_updates_spec(m: TrackMetadata) -> TagFields {
    TagFields {
        title: m.title,
        artist: m.artist,
        genre: m.genre,
        year: m.year,
        track_number: match m.track_number {
            Some(n) => Some(n as u16),
            None => None,
        },
    }
}

/// The changes to write to a file's tags for edited metadata.
pub fn tag_updates(m: TrackMetadata) -> (r: TagFields)
    ensures
        r == tag_updates_spec(m),
{
    TagFields {
        title: m.title,
        artist: m.artist,
        genre: m.genre,
        year: m.year,
        track_number: match m.track_number {
            Some(n) => Some(n as u16),
            None => None,
        },
    }
}

} // verus!

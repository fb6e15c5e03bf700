use whiplash::audio::{initial_frequency_data, silence, FREQUENCY_BANDS};
use whiplash::metadata::{metadata_from_tag, tag_updates, TagFields, TrackMetadata};
use whiplash::scanner::{file_location, is_audio_extension, is_audio_extension_of, is_audio_file};

#[test]
fn audio_extensions_are_recognised() {
    for ext in ["mp3", "flac", "ogg", "oga", "wav", "m4a", "aac", "wma", "ape", "mpc", "wavpack", "wv"] {
        assert!(is_audio_extension(ext), "{}", ext);
    }
    assert!(!is_audio_extension("txt"));
    assert!(!is_audio_extension("MP3"));
    assert!(!is_audio_extension(""));
    assert!(!is_audio_extension("mp"));
}

#[test]
fn audio_file_by_extension_in_any_case() {
    assert!(is_audio_file("/music/song.mp3"));
    assert!(is_audio_file("/music/Song.MP3"));
    assert!(is_audio_file("album/track01.FlAc"));
    assert!(is_audio_file("a.b.c/x.wavpack"));
    assert!(!is_audio_file("/music/cover.jpg"));
    assert!(!is_audio_file("/music/noextension"));
    assert!(!is_audio_file("/music/.mp3"));
    assert!(!is_audio_file(""));
}

#[test]
fn audio_file_judged_by_name_alone() {
    assert!(is_audio_file("/no/such/dir/a.flac"));
    assert!(is_audio_file("b.wavpack"));
    assert!(is_audio_file("c.wv"));
    assert!(is_audio_file("d.oga"));
    assert!(!is_audio_file("/music/"));
    assert!(!is_audio_file("/music/mp3"));
    assert!(!is_audio_file("/music.mp3/notes"));
    assert!(!is_audio_file("song.mp3.txt"));
}

#[test]
fn audio_file_ignores_directory_and_case() {
    assert_eq!(is_audio_file("a/b/x.Flac"), is_audio_file("x.FLAC"));
    assert!(is_audio_file("a/b/x.Flac"));
    assert_eq!(is_audio_file("deep/er/cover.PNG"), is_audio_file("cover.png"));
    assert!(!is_audio_file("deep/er/cover.PNG"));
}

#[test]
fn audio_file_with_windows_separators() {
    assert_eq!(is_audio_file("C:\\Music/x.mp3"), is_audio_file("x.mp3"));
    assert!(is_audio_file("C:\\Music/x.mp3"));
    assert!(is_audio_file("C:x.Flac"));
    assert!(!is_audio_file("C:\\Music\\cover.jpg"));
}

#[test]
fn audio_file_with_non_ascii_name() {
    assert!(is_audio_file("/música/canção.OGG"));
    assert_eq!(is_audio_file("ação.Mp3"), is_audio_file("ação.mp3"));
}

#[test]
fn audio_file_after_trailing_separators() {
    assert!(is_audio_file("x.mp3/"));
    assert!(is_audio_file("a/b.mp3/."));
    assert!(is_audio_file("a/b.OGG/./"));
    assert!(!is_audio_file("C:\\dir/README"));
    assert_eq!(is_audio_file("C:\\dir/README"), is_audio_file("README"));
    assert!(!is_audio_file("a/b.mp3/.."));
    assert!(!is_audio_file("/"));
}

#[test]
fn file_location_splits_folder_and_name() {
    assert_eq!(file_location("/music/album/song.mp3"), ("/music/album".to_string(), "song.mp3".to_string()));
    assert_eq!(file_location("/song.mp3"), ("/".to_string(), "song.mp3".to_string()));
    assert_eq!(file_location("song.mp3"), ("".to_string(), "song.mp3".to_string()));
    assert_eq!(file_location("/"), ("".to_string(), "".to_string()));
}

#[test]
fn audio_extension_of_optional() {
    assert!(is_audio_extension_of(Some("OGG".to_string())));
    assert!(!is_audio_extension_of(Some("png".to_string())));
    assert!(!is_audio_extension_of(None));
}

#[test]
fn frequency_data_starts_silent() {
    let d = initial_frequency_data();
    assert_eq!(d.len(), 64);
    assert_eq!(FREQUENCY_BANDS, 64);
    assert!(d.iter().all(|b| *b == 0));
}

#[test]
fn silence_zeroes_every_band() {
    let mut d = vec![5u8, 200, 0, 17];
    silence(&mut d);
    assert_eq!(d, vec![0u8, 0, 0, 0]);
}

#[test]
fn metadata_from_readable_tag() {
    let m = metadata_from_tag(Some(TagFields {
        title: Some("Song".to_string()),
        artist: Some("Band".to_string()),
        genre: Some("Rock".to_string()),
        year: Some(1999),
        track_number: Some(7),
    }));
    assert_eq!(m.title.as_deref(), Some("Song"));
    assert_eq!(m.artist.as_deref(), Some("Band"));
    assert_eq!(m.album, None);
    assert_eq!(m.genre.as_deref(), Some("Rock"));
    assert_eq!(m.year, Some(1999));
    assert_eq!(m.track_number, Some(7u32));
    assert_eq!(m.duration_bits, None);
}

#[test]
fn metadata_from_unreadable_tag_is_empty() {
    let m = metadata_from_tag(None);
    assert!(m.title.is_none() && m.artist.is_none() && m.album.is_none() && m.genre.is_none());
    assert!(m.year.is_none() && m.track_number.is_none() && m.duration_bits.is_none());
}

#[test]
fn tag_updates_cut_track_number_to_sixteen_bits() {
    let u = tag_updates(TrackMetadata {
        title: Some("T".to_string()),
        artist: None,
        album: Some("ignored".to_string()),
        genre: None,
        year: Some(2020),
        track_number: Some(65537),
        duration_bits: Some(0),
    });
    assert_eq!(u.title.as_deref(), Some("T"));
    assert_eq!(u.artist, None);
    assert_eq!(u.year, Some(2020));
    assert_eq!(u.track_number, Some(1u16));
}

#[test]
fn tags_round_trip() {
    let read = TagFields {
        title: Some("A".to_string()),
        artist: Some("B".to_string()),
        genre: None,
        year: Some(1970),
        track_number: Some(12),
    };
    let written = tag_updates(metadata_from_tag(Some(read)));
    assert_eq!(written.title.as_deref(), Some("A"));
    assert_eq!(written.artist.as_deref(), Some("B"));
    assert_eq!(written.genre, None);
    assert_eq!(written.year, Some(1970));
    assert_eq!(written.track_number, Some(12));
}

#[test]
fn bare_file_names() {
    assert!(is_audio_file("Song.Mp3"));
    assert!(is_audio_file(".hidden.ogg"));
    assert!(!is_audio_file(".ogg"));
    assert!(!is_audio_file("track.mp3."));
    assert!(!is_audio_file("mp3"));
}

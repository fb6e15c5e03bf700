//! Verified core of the whiplash music player: the rules the player applies
//! to files, tracks, playlists, drives and the Spotify and YouTube services,
//! apart from the input and output that drive them.

pub mod text;
pub mod scanner;
pub mod spotify;
pub mod spotify_items;
pub mod library;
pub mod drives;
pub mod youtube;
pub mod metadata;
pub mod audio;
pub mod laws;

//! Applies album metadata described once in a TOML document to the audio
//! files of an album: reading the document, expanding the album into one
//! record per track, and naming the files after their tracks.

pub mod album_tags;
pub mod config;
pub mod fs_utils;
pub mod toml_helpers;
pub mod track_tags;
pub mod text;
pub mod value;

pub use album_tags::AlbumTags;
pub use track_tags::TrackTags;

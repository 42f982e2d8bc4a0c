//! Verified core logic of the Cantus now-playing bar: packed GPU words,
//! storage-buffer layouts, the playback queue and artwork state machines,
//! weather codes, and the Spotify request logic.

pub mod art;
pub mod audio;
pub mod atlas;
pub mod auth;
pub mod cache;
pub mod glyphs;
pub mod calendar;
pub mod config;
pub mod interaction;
pub mod labels;
pub mod layout;
pub mod packing;
pub mod pass;
pub mod playback;
pub mod player;
pub mod playlists;
pub mod scene;
pub mod shader;
pub mod status;
pub mod sync;
pub mod text;
pub mod texture;
pub mod weather;

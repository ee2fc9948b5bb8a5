//! Verified core of a desktop media player: media identity, playback
//! planning, playlist navigation, download bookkeeping and subtitle handling.

pub mod settings;
pub mod text;
pub mod media;
pub mod playback;
pub mod download;
pub mod sys;
pub mod capabilities;
pub mod download_options;
pub mod online;
pub mod playlist;
pub mod directory;
pub mod playlist_files;
pub mod probe;
pub mod web;
pub mod digest;
pub mod subtitles;
pub mod learning;
pub mod assets;
pub mod library;
pub mod toolchain;
pub mod laws;
pub mod proxy;
pub mod remux_cache;
pub mod audio;
pub mod downloader;

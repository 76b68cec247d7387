//! The decisions behind a desktop music player, verified.
//!
//! What is fetched, played, drawn or stored happens elsewhere; what to fetch,
//! what to play next, what an answer means and what to keep is decided here.

pub mod api;
pub mod artwork;
pub mod audio;
pub mod auth;
pub mod commands;
pub mod config;
pub mod controls;
pub mod db;
pub mod discord;
pub mod engine;
pub mod lastfm;
pub mod local;
pub mod lyrics;
pub mod order;
pub mod outside;
pub mod player;
pub mod settings;
pub mod smtc;
pub mod snap;
pub mod source;
pub mod stream;
pub mod subsonic;
pub mod sync;
pub mod text;
pub mod theme;
pub mod thumbbar;
pub mod window;

//! A browser core for a remote music catalog (artists, albums, songs).
//!
//! The catalog tree is fetched lazily: a node's children are fetched from
//! the server at most once, kept in an in-memory cache, and handed to a
//! consumer through request and event messages.
pub mod conn;
pub mod library;
pub mod subsonic;
pub mod ui;

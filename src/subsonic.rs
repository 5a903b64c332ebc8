//! The pages that the catalog server returns, as plain values.
use crate::library::Id;
use vstd::prelude::*;

verus! {

/// One response of the server: its status, its protocol version and its payload.
#[derive(Debug, Clone)]
pub struct SubsonicResponse {
    pub status: String,
    pub version: String,
    pub data: Option<SubsonicData>,
}

#[derive(Debug, Clone)]
pub enum SubsonicData {
    License(License),
    MusicFolders(MusicFolders),
    Artists(Artists),
    Artist(Artist),
    Album(Album),
    Error(Error),
}

#[derive(Debug, Clone)]
pub struct License {
    pub valid: bool,
    pub email: Option<String>,
    pub license_expires: Option<String>,
}

#[derive(Debug, Clone)]
pub struct MusicFolders {
    pub music_folder: Vec<MusicFolder>,
}

#[derive(Debug, Clone)]
pub struct MusicFolder {
    pub id: Id,
    pub name: Option<String>,
}

/// The artist listing, grouped by named index.
#[derive(Debug, Clone)]
pub struct Artists {
    pub index: Vec<Index>,
    pub ignored_articles: String,
}

/// A named group of artists ("A", "B", ...).
#[derive(Debug, Clone)]
pub struct Index {
    pub artist: Vec<Artist>,
    pub name: String,
}

/// An artist, with its albums when the page is the artist's own listing.
#[derive(Debug, Clone)]
pub struct Artist {
    pub id: Id,
    pub name: String,
    pub album_count: usize,
    pub album: Vec<Album>,
}

/// An album, with its songs when the page is the album's own listing.
#[derive(Debug, Clone)]
pub struct Album {
    pub id: Id,
    pub name: String,
    pub artist: Option<String>,
    pub artist_id: Option<Id>,
    pub song_count: usize,
    pub duration: usize,
    /// When the album was added, in seconds since the Unix epoch (UTC).
    pub created: i64,
    pub year: Option<usize>,
    pub genre: Option<String>,
    pub song: Vec<Child>,
}

/// A song of an album.
#[derive(Debug, Clone)]
pub struct Child {
    pub id: Id,
    pub parent: Option<Id>,
    pub is_dir: bool,
    pub title: String,
    pub album: Option<String>,
    pub artist: Option<String>,
    pub track: Option<usize>,
    pub year: Option<usize>,
    pub genre: Option<String>,
    pub content_type: Option<String>,
    pub duration: Option<usize>,
}

/// The error payload: a numeric code and an optional message.
#[derive(Debug, Clone)]
pub struct Error {
    pub code: usize,
    pub message: Option<String>,
}

} // verus!

//! Playlists that are given by rules instead of by a list of songs.
use vstd::prelude::*;

use crate::client::query::{Operation, Term};

verus! {

/// By what the songs of a dynamic playlist are ordered. Songs that lack the value come last in
/// either direction.
#[derive(Debug, Clone, Copy, PartialEq, Eq, Structural)]
pub enum SongOrder {
    AscAlbumTitle,
    DescAlbumTitle,
    Track,
    AscReleaseDate,
    DescReleaseDate,
    AscArtistTag,
    DescArtistTag,
    AscRating,
    DescRating,
    AscLastModified,
    DescLastModified,
    AscPlayCount,
    DescPlayCount,
    AscSkipCount,
    DescSkipCount,
    Random,
}

/// What stickers are attached to: songs, playlists, or everything with one value of a tag.
#[derive(Debug)]
pub enum StickerObjectType {
    Song,
    Playlist,
    Tag(String),
}

/// A condition on a sticker, with the operator in the notation of the server.
#[derive(Debug)]
pub struct StickerClause {
    pub object: StickerObjectType,
    pub key: String,
    pub op: String,
    pub rhs: String,
}

/// What a database condition looks at.
#[derive(Debug)]
pub enum QueryLhs {
    LastMod,
    Other(Term, Operation),
}

/// A condition on the database.
#[derive(Debug)]
pub struct QueryClause {
    pub lhs: QueryLhs,
    pub rhs: String,
}

/// One rule of a dynamic playlist.
#[derive(Debug)]
pub enum Rule {
    Sticker(StickerClause),
    Query(QueryClause),
    /// The file changed within this many seconds.
    LastModified(i64),
}

#[derive(Debug)]
pub struct DynamicPlaylist {
    pub name: String,
    pub rules: Vec<Rule>,
    pub ordering: Vec<SongOrder>,
    pub limit: Option<u32>,
}

}

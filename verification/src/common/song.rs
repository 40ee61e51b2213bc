//! Songs.
use vstd::prelude::*;

use super::album::{album_comp_id, AlbumInfo, AlbumView};
use super::artist::{artist_views, clone_artists, ArtistInfo, ArtistView};
use super::date::Date;
use super::quality::QualityGrade;
use super::sticker::Stickers;
use super::{clone_opt, clone_strings, opt_view, str_views};

verus! {

#[derive(Debug)]
pub struct SongInfo {
    pub uri: String,
    pub title: String,
    pub artists: Vec<ArtistInfo>,
    pub artist_tag: Option<String>,
    pub album: Option<AlbumInfo>,
    pub genres: Vec<String>,
    pub track: Option<i64>,
    pub disc: Option<i64>,
    pub duration: Option<u64>,
    pub release_date: Option<Date>,
    /// When the file last changed, in seconds since the Unix epoch.
    pub last_modified: Option<i64>,
    /// When the song was last played, in seconds since the Unix epoch.
    pub last_played: Option<i64>,
    pub quality_grade: QualityGrade,
    /// The place of the song in the queue, counted from 0.
    pub queue_pos: Option<u32>,
    /// What the server calls this entry of the queue.
    pub queue_id: Option<u32>,
    pub mbid: Option<String>,
}

/// What a `SongInfo` says.
pub struct SongView {
    pub uri: Seq<char>,
    pub title: Seq<char>,
    pub artists: Seq<ArtistView>,
    pub artist_tag: Option<Seq<char>>,
    pub album: Option<AlbumView>,
    pub genres: Seq<Seq<char>>,
    pub track: Option<i64>,
    pub disc: Option<i64>,
    pub duration: Option<u64>,
    pub release_date: Option<Date>,
    pub last_modified: Option<i64>,
    pub last_played: Option<i64>,
    pub quality_grade: QualityGrade,
    pub queue_pos: Option<u32>,
    pub queue_id: Option<u32>,
    pub mbid: Option<Seq<char>>,
}

impl View for SongInfo {
    type V = SongView;

    open spec fn view(&self) -> SongView {
        SongView {
            uri: self.uri@,
            title: self.title@,
            artists: artist_views(self.artists@),
            artist_tag: opt_view(self.artist_tag),
            album: match self.album {
                Some(album) => Some(album@),
                None => None,
            },
            genres: str_views(self.genres@),
            track: self.track,
            disc: self.disc,
            duration: self.duration,
            release_date: self.release_date,
            last_modified: self.last_modified,
            last_played: self.last_played,
            quality_grade: self.quality_grade,
            queue_pos: self.queue_pos,
            queue_id: self.queue_id,
            mbid: opt_view(self.mbid),
        }
    }
}

impl Clone for SongInfo {
    fn clone(&self) -> (r: Self)
        ensures
            r@ == self@,
    {
        let album: Option<AlbumInfo> = match &self.album {
            Some(album) => Some(album.clone()),
            None => None,
        };
        SongInfo {
            uri: self.uri.clone(),
            title: self.title.clone(),
            artists: clone_artists(&self.artists),
            artist_tag: clone_opt(&self.artist_tag),
            album,
            genres: clone_strings(&self.genres),
            track: self.track,
            disc: self.disc,
            duration: self.duration,
            release_date: self.release_date,
            last_modified: self.last_modified,
            last_played: self.last_played,
            quality_grade: self.quality_grade,
            queue_pos: self.queue_pos,
            queue_id: self.queue_id,
            mbid: clone_opt(&self.mbid),
        }
    }
}

/// What a song is that nothing is known of.
pub open spec fn blank_song() -> SongView {
    SongView {
        uri: Seq::empty(),
        title: Seq::empty(),
        artists: Seq::empty(),
        artist_tag: None,
        album: None,
        genres: Seq::empty(),
        track: None,
        disc: None,
        duration: None,
        release_date: None,
        last_modified: None,
        last_played: None,
        quality_grade: QualityGrade::Unknown,
        queue_pos: None,
        queue_id: None,
        mbid: None,
    }
}

impl Default for SongInfo {
    fn default() -> (r: Self)
        ensures
            r@ == blank_song(),
    {
        let artists: Vec<ArtistInfo> = Vec::new();
        let genres: Vec<String> = Vec::new();
        assert(artist_views(artists@) =~= Seq::empty());
        assert(str_views(genres@) =~= Seq::empty());
        SongInfo {
            uri: String::new(),
            title: String::new(),
            artists,
            artist_tag: None,
            album: None,
            genres,
            track: None,
            disc: None,
            duration: None,
            release_date: None,
            last_modified: None,
            last_played: None,
            quality_grade: QualityGrade::Unknown,
            queue_pos: None,
            queue_id: None,
            mbid: None,
        }
    }
}

/// A song with its stickers.
pub type SongStickers = (SongInfo, Stickers);

/// What songs are told apart by: the MusicBrainz ID, or the URI where there is none.
pub open spec fn song_comp_id(s: SongInfo) -> Seq<char> {
    match s.mbid {
        Some(id) => id@,
        None => s.uri@,
    }
}

/// What runs of one album in the queue are told apart by: the album, or the song itself where it has
/// none, so that songs without an album stand alone.
pub open spec fn cluster_id(s: SongInfo) -> Seq<char> {
    match s.album {
        Some(album) => album_comp_id(album),
        None => song_comp_id(s),
    }
}

/// What runs of one album in the queue are told apart by.
pub fn song_cluster_id(song: &SongInfo) -> (r: &str)
    ensures
        r@ == cluster_id(*song),
{
    match &song.album {
        Some(album) => album.get_comp_id(),
        None => song.get_comp_id(),
    }
}

impl SongInfo {
    /// What songs are told apart by.
    pub fn get_comp_id(&self) -> (r: &str)
        ensures
            r@ == song_comp_id(*self),
    {
        match &self.mbid {
            Some(id) => id.as_str(),
            None => self.uri.as_str(),
        }
    }

    /// The album that the song is tagged with.
    pub fn into_album_info(self) -> (r: Option<AlbumInfo>)
        ensures
            r == self.album,
    {
        self.album
    }

    /// The artists that the song is tagged with.
    pub fn into_artist_infos(self) -> (r: Vec<ArtistInfo>)
        ensures
            r == self.artists,
    {
        self.artists
    }
}

/// A song is told apart by its identifier, and by its URI where it has none. In a shuffle it goes with its
/// album, and by itself where it has none.
pub proof fn law_songs_are_told_apart(song: SongInfo, r: &str, cluster: &str)
    requires
        call_ensures(SongInfo::get_comp_id, (&song,), r),
        call_ensures(song_cluster_id, (&song,), cluster),
    ensures
        song.mbid is Some ==> r@ == song.mbid->0@,
        song.mbid is None ==> r@ == song.uri@,
        song.album is None ==> cluster@ == r@,
        song.album is Some && song.album->0.mbid is Some ==> cluster@ == song.album->0.mbid->0@,
        song.album is Some && song.album->0.mbid is None ==> cluster@ == song.album->0.title@,
{
}

}

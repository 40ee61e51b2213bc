//! Albums, and the copies of one album that a library may hold in several folders.
use vstd::prelude::*;

use super::artist::{artist_views, clone_artists, ArtistInfo, ArtistView};
use super::date::Date;
use super::quality::QualityGrade;
use super::{clone_opt, opt_view};

verus! {

/// A copy of an album other than the one that is shown.
#[derive(Debug)]
pub struct AlbumCopy {
    pub folder_uri: String,
    pub mount_name: Option<String>,
    pub quality_grade: QualityGrade,
}

/// What an `AlbumCopy` says.
pub struct AlbumCopyView {
    pub folder_uri: Seq<char>,
    pub mount_name: Option<Seq<char>>,
    pub quality_grade: QualityGrade,
}

impl View for AlbumCopy {
    type V = AlbumCopyView;

    open spec fn view(&self) -> AlbumCopyView {
        AlbumCopyView {
            folder_uri: self.folder_uri@,
            mount_name: opt_view(self.mount_name),
            quality_grade: self.quality_grade,
        }
    }
}

#[derive(Debug)]
pub struct AlbumInfo {
    pub title: String,
    pub folder_uri: String,
    pub artists: Vec<ArtistInfo>,
    pub albumartist: Option<String>,
    pub release_date: Option<Date>,
    pub mbid: Option<String>,
    pub mount_name: Option<String>,
    pub quality_grade: QualityGrade,
    pub alternates: Vec<AlbumCopy>,
}

/// What an `AlbumInfo` says.
pub struct AlbumView {
    pub title: Seq<char>,
    pub folder_uri: Seq<char>,
    pub artists: Seq<ArtistView>,
    pub albumartist: Option<Seq<char>>,
    pub release_date: Option<Date>,
    pub mbid: Option<Seq<char>>,
    pub mount_name: Option<Seq<char>>,
    pub quality_grade: QualityGrade,
    pub alternates: Seq<AlbumCopyView>,
}

impl View for AlbumInfo {
    type V = AlbumView;

    open spec fn view(&self) -> AlbumView {
        AlbumView {
            title: self.title@,
            folder_uri: self.folder_uri@,
            artists: artist_views(self.artists@),
            albumartist: opt_view(self.albumartist),
            release_date: self.release_date,
            mbid: opt_view(self.mbid),
            mount_name: opt_view(self.mount_name),
            quality_grade: self.quality_grade,
            alternates: copy_views(self.alternates@),
        }
    }
}

/// What each record of a copy says.
pub open spec fn copy_views(s: Seq<AlbumCopy>) -> Seq<AlbumCopyView> {
    s.map_values(|c: AlbumCopy| c@)
}

impl Clone for AlbumCopy {
    fn clone(&self) -> (r: Self)
        ensures
            r == *self,
    {
        AlbumCopy {
            folder_uri: self.folder_uri.clone(),
            mount_name: clone_opt(&self.mount_name),
            quality_grade: self.quality_grade,
        }
    }
}

/// A copy of a list of records of copies.
pub fn clone_copies(s: &Vec<AlbumCopy>) -> (r: Vec<AlbumCopy>)
    ensures
        r@ == s@,
{
    let mut r: Vec<AlbumCopy> = Vec::new();
    let mut i: usize = 0;
    while i < s.len()
        invariant
            i <= s@.len(),
            r@ =~= s@.take(i as int),
        decreases s.len() - i,
    {
        assert(s@.take(i + 1) =~= s@.take(i as int).push(s@[i as int]));
        r.push(s[i].clone());
        i = i + 1;
    }
    assert(s@.take(i as int) =~= s@);
    r
}

impl Clone for AlbumInfo {
    fn clone(&self) -> (r: Self)
        ensures
            r@ == self@,
    {
        AlbumInfo {
            title: self.title.clone(),
            folder_uri: self.folder_uri.clone(),
            artists: clone_artists(&self.artists),
            albumartist: clone_opt(&self.albumartist),
            release_date: self.release_date,
            mbid: clone_opt(&self.mbid),
            mount_name: clone_opt(&self.mount_name),
            quality_grade: self.quality_grade,
            alternates: clone_copies(&self.alternates),
        }
    }
}

/// What albums are told apart by: the MusicBrainz ID, or the title where there is none.
pub open spec fn album_id(a: AlbumView) -> Seq<char> {
    match a.mbid {
        Some(id) => id,
        None => a.title,
    }
}

/// What albums are told apart by.
pub open spec fn album_comp_id(a: AlbumInfo) -> Seq<char> {
    album_id(a@)
}

/// What each album record says.
pub open spec fn album_views(s: Seq<AlbumInfo>) -> Seq<AlbumView> {
    s.map_values(|a: AlbumInfo| a@)
}

impl AlbumInfo {
    /// What albums are told apart by.
    pub fn get_comp_id(&self) -> (r: &str)
        ensures
            r@ == album_comp_id(*self),
    {
        match &self.mbid {
            Some(id) => id.as_str(),
            None => self.title.as_str(),
        }
    }
}

/// An album is told apart by its identifier, and by its title where it has none.
pub proof fn law_albums_are_told_apart(album: AlbumInfo, r: &str)
    requires
        call_ensures(AlbumInfo::get_comp_id, (&album,), r),
    ensures
        album.mbid is Some ==> r@ == album.mbid->0@,
        album.mbid is None ==> r@ == album.title@,
{
}

}

//! Artists.
use vstd::prelude::*;

use super::{clone_opt, opt_view};

verus! {

#[derive(Debug)]
pub struct ArtistInfo {
    pub name: String,
    pub mbid: Option<String>,
}

/// What an `ArtistInfo` says.
pub struct ArtistView {
    pub name: Seq<char>,
    pub mbid: Option<Seq<char>>,
}

impl View for ArtistInfo {
    type V = ArtistView;

    open spec fn view(&self) -> ArtistView {
        ArtistView { name: self.name@, mbid: opt_view(self.mbid) }
    }
}

impl Clone for ArtistInfo {
    fn clone(&self) -> (r: Self)
        ensures
            r == *self,
    {
        ArtistInfo { name: self.name.clone(), mbid: clone_opt(&self.mbid) }
    }
}

/// What each artist record says.
pub open spec fn artist_views(s: Seq<ArtistInfo>) -> Seq<ArtistView> {
    s.map_values(|a: ArtistInfo| a@)
}

/// A copy of a list of artists.
pub fn clone_artists(s: &Vec<ArtistInfo>) -> (r: Vec<ArtistInfo>)
    ensures
        r@ == s@,
{
    let mut r: Vec<ArtistInfo> = Vec::new();
    let mut i: usize = 0;
    while i < s.len()
        invariant
            i <= s@.len(),
            r@ =~= s@.take(i as int),
        decreases s.len() - i,
    {
        assert(s@.take(i + 1) =~= s@.take(i as int).push(s@[i as int]));
        r.push(s[i].clone());
        i = i + 1;
    }
    assert(s@.take(i as int) =~= s@);
    r
}

/// What artists are told apart by: the MusicBrainz ID, or the name where there is none.
pub open spec fn artist_comp_id(a: ArtistInfo) -> Seq<char> {
    match a.mbid {
        Some(id) => id@,
        None => a.name@,
    }
}

impl ArtistInfo {
    /// What artists are told apart by.
    pub fn get_comp_id(&self) -> (r: &str)
        ensures
            r@ == artist_comp_id(*self),
    {
        match &self.mbid {
            Some(id) => id.as_str(),
            None => self.name.as_str(),
        }
    }
}

/// An artist is told apart by their identifier, and by their name where they have none.
pub proof fn law_artists_are_told_apart(artist: ArtistInfo, r: &str)
    requires
        call_ensures(ArtistInfo::get_comp_id, (&artist,), r),
    ensures
        artist.mbid is Some ==> r@ == artist.mbid->0@,
        artist.mbid is None ==> r@ == artist.name@,
{
}

}

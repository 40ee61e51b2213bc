//! The page of one genre, which shows its albums or its artists.
use vstd::prelude::*;

use crate::text::{digits, numbered};

verus! {

/// The page of one genre.
#[derive(Debug, Clone, Copy, PartialEq, Eq, Structural)]
pub struct GenreContentView {
    /// Whether the page shows albums.
    pub albums_active: bool,
    /// Whether the user has last chosen albums. This outlives the genre that is shown.
    pub last_subview_albums: bool,
    /// Whether the artists of the genre have been asked for.
    pub artists_initialized: bool,
}

/// What is to be fetched for the page.
#[derive(Debug, Clone, Copy, PartialEq, Eq, Structural)]
pub struct GenreFetch {
    pub albums: bool,
    pub artists: bool,
}

/// The page after the user has chosen albums or artists.
pub open spec fn after_toggle(v: GenreContentView, albums: bool) -> GenreContentView {
    GenreContentView {
        albums_active: albums,
        last_subview_albums: albums,
        artists_initialized: v.artists_initialized || !albums,
    }
}

/// The page after another genre is shown on it.
pub open spec fn after_bind(v: GenreContentView) -> GenreContentView {
    GenreContentView {
        albums_active: v.last_subview_albums,
        last_subview_albums: v.last_subview_albums,
        artists_initialized: v.artists_initialized || !v.last_subview_albums,
    }
}

/// The page after no genre is shown on it any more.
pub open spec fn after_unbind(v: GenreContentView) -> GenreContentView {
    GenreContentView { artists_initialized: false, ..v }
}

impl GenreContentView {
    /// Takes note that the user has chosen albums or artists. Says whether the artists are to be
    /// fetched.
    pub fn toggle(&mut self, albums: bool) -> (r: bool)
        ensures
            *final(self) == after_toggle(*old(self), albums),
            r == (!albums && !old(self).artists_initialized),
    {
        self.albums_active = albums;
        self.last_subview_albums = albums;
        if !albums && !self.artists_initialized {
            self.artists_initialized = true;
            true
        } else {
            false
        }
    }

    /// Shows another genre. Says what is to be fetched for it.
    pub fn bind(&mut self) -> (r: GenreFetch)
        ensures
            *final(self) == after_bind(*old(self)),
            r.albums,
            r.artists == (!old(self).last_subview_albums && !old(self).artists_initialized),
    {
        let want: bool = self.last_subview_albums;
        let was: bool = self.albums_active;
        let mut artists: bool = false;
        if want != was {
            artists = self.toggle(want);
        } else if !want && !self.artists_initialized {
            self.artists_initialized = true;
            artists = true;
        }
        GenreFetch { albums: true, artists }
    }

    /// Shows no genre any more.
    pub fn unbind(&mut self)
        ensures
            *final(self) == after_unbind(*old(self)),
    {
        self.artists_initialized = false;
    }

    /// The name of the part of the page that is shown.
    pub fn subview(&self) -> (r: &'static str)
        ensures
            r@ == (if self.albums_active {
                "albums"@
            } else {
                "artists"@
            }),
    {
        if self.albums_active {
            "albums"
        } else {
            "artists"
        }
    }
}

/// How many albums or artists there are.
pub open spec fn count_text(albums: bool, n: int) -> Seq<char> {
    match (albums, n == 1) {
        (true, true) => "1 album"@,
        (true, false) => ""@ + digits(n as nat) + " albums"@,
        (false, true) => "1 artist"@,
        (false, false) => ""@ + digits(n as nat) + " artists"@,
    }
}

/// How many albums or artists there are.
pub fn count_label(albums: bool, n: u32) -> (r: String)
    ensures
        r@ == count_text(albums, n as int),
{
    if albums {
        if n == 1 {
            "1 album".to_string()
        } else {
            numbered("", n as u64, " albums")
        }
    } else {
        if n == 1 {
            "1 artist".to_string()
        } else {
            numbered("", n as u64, " artists")
        }
    }
}

/// Whenever artists are shown they have been asked for: right after a genre is shown, and after every
/// choice of the user.
pub proof fn law_shown_artists_are_fetched(v: GenreContentView, albums: bool)
    ensures
        !after_bind(v).albums_active ==> after_bind(v).artists_initialized,
        !after_toggle(v, albums).albums_active ==> after_toggle(v, albums).artists_initialized,
{
}

/// What the user has chosen last is shown again for the next genre.
pub proof fn law_choice_persists(v: GenreContentView, albums: bool)
    ensures
        after_bind(after_unbind(after_toggle(v, albums))).albums_active == albums,
{
}

/// The albums of a genre are fetched when it is shown, and its artists when they are shown for the first time.
/// What the user has last chosen is shown.
pub proof fn law_genres_are_fetched(
    a: &mut GenreContentView,
    fetch: GenreFetch,
    b: &mut GenreContentView,
    albums: bool,
    r: bool,
    c: &mut GenreContentView,
)
    requires
        call_ensures(GenreContentView::bind, (a,), fetch),
        call_ensures(GenreContentView::toggle, (b, albums), r),
        call_ensures(GenreContentView::unbind, (c,), ()),
    ensures
        fetch.albums,
        fetch.artists <==> !old(a).last_subview_albums && !old(a).artists_initialized,
        final(a).albums_active == old(a).last_subview_albums,
        final(a).last_subview_albums == old(a).last_subview_albums,
        fetch.artists ==> final(a).artists_initialized,
        r <==> !albums && !old(b).artists_initialized,
        final(b).albums_active == albums,
        final(b).last_subview_albums == albums,
        final(b).artists_initialized <==> old(b).artists_initialized || r,
        !final(c).artists_initialized,
        final(c).last_subview_albums == old(c).last_subview_albums,
{
}

/// Albums and artists are counted, each by its own word, in the singular where there is one.
pub proof fn law_counts(v: GenreContentView, name: &'static str, n: u32, albums: String, artists: String)
    requires
        call_ensures(GenreContentView::subview, (&v,), name),
        call_ensures(count_label, (true, n), albums),
        call_ensures(count_label, (false, n), artists),
    ensures
        v.albums_active ==> name@ == "albums"@,
        !v.albums_active ==> name@ == "artists"@,
        n == 1 ==> albums@ == "1 album"@ && artists@ == "1 artist"@,
        n != 1 ==> albums@ == digits(n as nat) + " albums"@ && artists@ == digits(n as nat)
            + " artists"@,
{
    reveal_strlit("");
    assert(""@ + digits(n as nat) =~= digits(n as nat));
}

}

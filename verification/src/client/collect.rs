//! Gathering albums and artists from songs, each once.
use vstd::prelude::*;

use crate::common::album::{album_id, album_views, AlbumInfo, AlbumView};
use crate::common::artist::{artist_comp_id, ArtistInfo};
use crate::common::distinct::{extend_distinct, fresh, insert_distinct, DistinctStrings};
use crate::common::song::SongInfo;
use crate::common::str_views;
use crate::text::same;

verus! {

/// Of some artists those that were not seen before, who then count as seen.
pub fn fresh_artists(seen: DistinctStrings, artists: Vec<ArtistInfo>) -> (r: (
    DistinctStrings,
    Vec<ArtistInfo>,
))
    ensures
        r.1@ == fresh(seen@, artists@, |a: ArtistInfo| artist_comp_id(a)),
        r.0@ == extend_distinct(seen@, artists@.map_values(|a: ArtistInfo| artist_comp_id(a))),
{
    let ghost start = seen@;
    let ghost all = artists@;
    let ghost id = |a: ArtistInfo| artist_comp_id(a);
    let mut seen = seen;
    let mut out: Vec<ArtistInfo> = Vec::new();
    proof {
        assert(all.take(0) =~= Seq::empty());
        assert(all.take(0).map_values(id) =~= Seq::empty());
    }
    for artist in it: artists
        invariant
            it.seq() == all,
            id == (|a: ArtistInfo| artist_comp_id(a)),
            out@ == fresh(start, all.take(it.index()), id),
            seen@ == extend_distinct(start, all.take(it.index()).map_values(id)),
    {
        let ghost next = all.take(it.index() + 1);
        proof {
            assert(next.drop_last() =~= all.take(it.index()));
            assert(next.last() == artist);
            assert(next.map_values(id).drop_last() =~= all.take(it.index()).map_values(id));
            assert(next.map_values(id).last() == artist_comp_id(artist));
        }
        let key: String = artist.get_comp_id().to_owned();
        let (more, is_new): (DistinctStrings, bool) = insert_distinct(seen, key);
        seen = more;
        if is_new {
            out.push(artist);
        }
    }
    assert(all.take(all.len() as int) =~= all);
    (seen, out)
}

/// Of some artists those that are called by one of the names.
pub fn named_artists(artists: Vec<ArtistInfo>, names: &DistinctStrings) -> (r: Vec<ArtistInfo>)
    ensures
        r@ == artists@.filter(|a: ArtistInfo| names@.contains(a.name@)),
{
    let ghost all = artists@;
    let ghost wanted = |a: ArtistInfo| names@.contains(a.name@);
    let mut out: Vec<ArtistInfo> = Vec::new();
    proof {
        reveal(Seq::filter);
        assert(all.take(0).filter(wanted) =~= Seq::empty());
    }
    for artist in it: artists
        invariant
            it.seq() == all,
            wanted == (|a: ArtistInfo| names@.contains(a.name@)),
            out@ == all.take(it.index()).filter(wanted),
    {
        proof {
            assert(all.take(it.index() + 1) =~= all.take(it.index()).push(artist));
            all.take(it.index()).lemma_filter_push(artist, wanted);
        }
        if names.contains(artist.name.as_str()) {
            out.push(artist);
        }
    }
    assert(all.take(all.len() as int) =~= all);
    out
}

/// The albums that songs are tagged with, song by song.
pub open spec fn albums_of(songs: Seq<SongInfo>) -> Seq<AlbumView>
    decreases songs.len(),
{
    if songs.len() == 0 {
        Seq::empty()
    } else {
        let before = albums_of(songs.drop_last());
        match songs.last().album {
            Some(album) => before.push(album@),
            None => before,
        }
    }
}

/// The artists that songs are tagged with, song by song.
pub open spec fn artists_of(songs: Seq<SongInfo>) -> Seq<ArtistInfo>
    decreases songs.len(),
{
    if songs.len() == 0 {
        Seq::empty()
    } else {
        artists_of(songs.drop_last()) + songs.last().artists@
    }
}

/// Of the albums of some songs those that were not seen before, which then count as seen.
pub fn fresh_albums(seen: DistinctStrings, songs: &Vec<SongInfo>) -> (r: (
    DistinctStrings,
    Vec<AlbumInfo>,
))
    ensures
        album_views(r.1@) == fresh(seen@, albums_of(songs@), |a: AlbumView| album_id(a)),
        r.0@ == extend_distinct(
            seen@,
            albums_of(songs@).map_values(|a: AlbumView| album_id(a)),
        ),
{
    let ghost start = seen@;
    let ghost id = |a: AlbumView| album_id(a);
    let mut seen = seen;
    let mut out: Vec<AlbumInfo> = Vec::new();
    proof {
        assert(songs@.take(0) =~= Seq::empty());
        assert(Seq::<AlbumView>::empty().map_values(id) =~= Seq::empty());
        assert(album_views(out@) =~= Seq::empty());
    }
    let mut i: usize = 0;
    while i < songs.len()
        invariant
            id == (|a: AlbumView| album_id(a)),
            i <= songs@.len(),
            album_views(out@) == fresh(start, albums_of(songs@.take(i as int)), id),
            seen@ == extend_distinct(start, albums_of(songs@.take(i as int)).map_values(id)),
        decreases songs.len() - i,
    {
        let ghost before = albums_of(songs@.take(i as int));
        proof {
            assert(songs@.take(i + 1).drop_last() =~= songs@.take(i as int));
            assert(songs@.take(i + 1).last() == songs@[i as int]);
        }
        if let Some(album) = &songs[i].album {
            proof {
                let next = before.push(album@);
                assert(next.drop_last() =~= before);
                assert(next.map_values(id).drop_last() =~= before.map_values(id));
                assert(next.map_values(id).last() == album_id(album@));
            }
            let key: String = album.get_comp_id().to_owned();
            let (more, is_new): (DistinctStrings, bool) = insert_distinct(seen, key);
            seen = more;
            if is_new {
                let ghost had = out@;
                let copy: AlbumInfo = album.clone();
                out.push(copy);
                assert(album_views(out@) =~= album_views(had).push(album@));
            }
        }
        i = i + 1;
    }
    assert(songs@.take(i as int) =~= songs@);
    (seen, out)
}

/// The artists that songs are tagged with, song by song.
pub fn song_artists(songs: Vec<SongInfo>) -> (r: Vec<ArtistInfo>)
    ensures
        r@ == artists_of(songs@),
{
    let ghost all = songs@;
    let mut out: Vec<ArtistInfo> = Vec::new();
    assert(all.take(0) =~= Seq::empty());
    for song in it: songs
        invariant
            it.seq() == all,
            out@ == artists_of(all.take(it.index())),
    {
        proof {
            assert(all.take(it.index() + 1).drop_last() =~= all.take(it.index()));
            assert(all.take(it.index() + 1).last() == song);
        }
        let mut artists: Vec<ArtistInfo> = song.into_artist_infos();
        out.append(&mut artists);
    }
    assert(all.take(all.len() as int) =~= all);
    out
}

/// Whether a song is tagged with an artist.
pub open spec fn has_artist(song: SongInfo, id: Seq<char>) -> bool {
    exists|i: int| 0 <= i < song.artists@.len() && artist_comp_id(#[trigger] song.artists@[i]) == id
}

/// Whether a song is tagged with a genre.
pub open spec fn has_genre(song: SongInfo, genre: Seq<char>) -> bool {
    str_views(song.genres@).contains(genre)
}

/// Whether a song is tagged with an artist.
pub fn is_by(song: &SongInfo, id: &str) -> (r: bool)
    ensures
        r == has_artist(*song, id@),
{
    let mut i: usize = 0;
    while i < song.artists.len()
        invariant
            i <= song.artists@.len(),
            forall|j: int| 0 <= j < i ==> artist_comp_id(#[trigger] song.artists@[j]) != id@,
        decreases song.artists.len() - i,
    {
        if same(song.artists[i].get_comp_id(), id) {
            assert(artist_comp_id(song.artists@[i as int]) == id@);
            return true;
        }
        i = i + 1;
    }
    false
}

/// Whether a song is tagged with a genre.
pub fn is_of_genre(song: &SongInfo, genre: &str) -> (r: bool)
    ensures
        r == has_genre(*song, genre@),
{
    let ghost views = str_views(song.genres@);
    let mut i: usize = 0;
    while i < song.genres.len()
        invariant
            views == str_views(song.genres@),
            i <= song.genres@.len(),
            forall|j: int| 0 <= j < i ==> (#[trigger] views[j]) != genre@,
        decreases song.genres.len() - i,
    {
        assert(views[i as int] == song.genres@[i as int]@);
        if same(song.genres[i].as_str(), genre) {
            return true;
        }
        i = i + 1;
    }
    false
}

/// Of some songs those that are tagged with an artist. The server finds names that are part of others
/// too.
pub fn songs_by(songs: Vec<SongInfo>, id: &str) -> (r: Vec<SongInfo>)
    ensures
        r@ == songs@.filter(|s: SongInfo| has_artist(s, id@)),
{
    let ghost all = songs@;
    let ghost wanted = |s: SongInfo| has_artist(s, id@);
    let mut out: Vec<SongInfo> = Vec::new();
    proof {
        reveal(Seq::filter);
        assert(all.take(0).filter(wanted) =~= Seq::empty());
    }
    for song in it: songs
        invariant
            it.seq() == all,
            wanted == (|s: SongInfo| has_artist(s, id@)),
            out@ == all.take(it.index()).filter(wanted),
    {
        proof {
            assert(all.take(it.index() + 1) =~= all.take(it.index()).push(song));
            all.take(it.index()).lemma_filter_push(song, wanted);
        }
        if is_by(&song, id) {
            out.push(song);
        }
    }
    assert(all.take(all.len() as int) =~= all);
    out
}

/// Of some songs those that are tagged with a genre. The server finds names that are part of others too.
pub fn songs_of_genre(songs: Vec<SongInfo>, genre: &str) -> (r: Vec<SongInfo>)
    ensures
        r@ == songs@.filter(|s: SongInfo| has_genre(s, genre@)),
{
    let ghost all = songs@;
    let ghost wanted = |s: SongInfo| has_genre(s, genre@);
    let mut out: Vec<SongInfo> = Vec::new();
    proof {
        reveal(Seq::filter);
        assert(all.take(0).filter(wanted) =~= Seq::empty());
    }
    for song in it: songs
        invariant
            it.seq() == all,
            wanted == (|s: SongInfo| has_genre(s, genre@)),
            out@ == all.take(it.index()).filter(wanted),
    {
        proof {
            assert(all.take(it.index() + 1) =~= all.take(it.index()).push(song));
            all.take(it.index()).lemma_filter_push(song, wanted);
        }
        if is_of_genre(&song, genre) {
            out.push(song);
        }
    }
    assert(all.take(all.len() as int) =~= all);
    out
}

/// Batches may be cut anywhere: what is fresh in two batches one after the other is what is fresh in
/// both at once.
pub proof fn law_batches_make_no_difference<T>(
    seen: Seq<Seq<char>>,
    a: Seq<T>,
    b: Seq<T>,
    id: spec_fn(T) -> Seq<char>,
)
    ensures
        extend_distinct(seen, (a + b).map_values(id)) == extend_distinct(
            extend_distinct(seen, a.map_values(id)),
            b.map_values(id),
        ),
        fresh(seen, a + b, id) == fresh(seen, a, id) + fresh(
            extend_distinct(seen, a.map_values(id)),
            b,
            id,
        ),
    decreases b.len(),
{
    let mid = extend_distinct(seen, a.map_values(id));
    if b.len() == 0 {
        assert(a + b =~= a);
        assert(b.map_values(id) =~= Seq::empty());
        assert(fresh(seen, a, id) + fresh(mid, b, id) =~= fresh(seen, a, id));
    } else {
        let b1 = b.drop_last();
        law_batches_make_no_difference(seen, a, b1, id);
        assert((a + b).drop_last() =~= a + b1);
        assert((a + b).map_values(id).drop_last() =~= (a + b1).map_values(id));
        assert(b.map_values(id).drop_last() =~= b1.map_values(id));
        assert((a + b).map_values(id).last() == id(b.last()));
        assert(fresh(seen, a, id) + fresh(mid, b1, id).push(b.last()) =~= (fresh(seen, a, id)
            + fresh(mid, b1, id)).push(b.last()));
    }
}

/// A song is by an artist whom one of its tags names in full, and of a genre that one of its tags is.
pub proof fn law_whose_songs(song: SongInfo, text: &str, by: bool, of: bool)
    requires
        call_ensures(is_by, (&song, text), by),
        call_ensures(is_of_genre, (&song, text), of),
    ensures
        by <==> exists|i: int|
            0 <= i < song.artists@.len() && (if (#[trigger] song.artists@[i]).mbid is Some {
                song.artists@[i].mbid->0@ == text@
            } else {
                song.artists@[i].name@ == text@
            }),
        of <==> exists|i: int| 0 <= i < song.genres@.len() && (#[trigger] song.genres@[i])@ == text@,
{
    if by {
        let i = choose|i: int|
            0 <= i < song.artists@.len() && artist_comp_id(#[trigger] song.artists@[i]) == text@;
        assert(0 <= i < song.artists@.len());
        assert(artist_comp_id(song.artists@[i]) == text@);
    }
    let names = str_views(song.genres@);
    if of {
        let i = choose|i: int| 0 <= i < names.len() && names[i] == text@;
        assert(song.genres@[i]@ == text@);
    }
    if exists|i: int| 0 <= i < song.genres@.len() && (#[trigger] song.genres@[i])@ == text@ {
        let i = choose|i: int|
            0 <= i < song.genres@.len() && (#[trigger] song.genres@[i])@ == text@;
        assert(names[i] == text@);
    }
}

/// Of some songs exactly those of an artist or of a genre are kept.
pub proof fn law_songs_are_kept(
    songs: Vec<SongInfo>,
    text: &str,
    by: Vec<SongInfo>,
    of: Vec<SongInfo>,
    i: int,
    is_by_artist: bool,
    is_in_genre: bool,
)
    requires
        0 <= i < songs@.len(),
        call_ensures(songs_by, (songs, text), by),
        call_ensures(songs_of_genre, (songs, text), of),
        call_ensures(is_by, (&songs@[i], text), is_by_artist),
        call_ensures(is_of_genre, (&songs@[i], text), is_in_genre),
    ensures
        by@.contains(songs@[i]) <==> is_by_artist,
        of@.contains(songs@[i]) <==> is_in_genre,
{
    let a = |s: SongInfo| has_artist(s, text@);
    let g = |s: SongInfo| has_genre(s, text@);
    assert(by@ == songs@.filter(a));
    assert(of@ == songs@.filter(g));
    songs@.filter_lemma(a);
    songs@.filter_lemma(g);
    if by@.contains(songs@[i]) {
        let k = choose|k: int| 0 <= k < by@.len() && by@[k] == songs@[i];
        assert(a(songs@.filter(a)[k]));
    }
    if of@.contains(songs@[i]) {
        let k = choose|k: int| 0 <= k < of@.len() && of@[k] == songs@[i];
        assert(g(songs@.filter(g)[k]));
    }
}

/// Artists come out once: none that was seen before, no two of them the same, and each of them counts as seen
/// from then on.
pub proof fn law_artists_come_out_once(
    seen: DistinctStrings,
    artists: Vec<ArtistInfo>,
    r: (DistinctStrings, Vec<ArtistInfo>),
    i: int,
)
    requires
        seen@.no_duplicates(),
        call_ensures(fresh_artists, (seen, artists), r),
        0 <= i < artists@.len(),
    ensures
        r.0@.contains(artist_comp_id(artists@[i])),
        r.0@.no_duplicates(),
        r.0@.len() == seen@.len() + r.1@.len(),
        forall|k: int|
            0 <= k < r.1@.len() ==> r.0@[seen@.len() + k] == artist_comp_id(#[trigger] r.1@[k]),
        seen@.is_prefix_of(r.0@),
{
    let id = |a: ArtistInfo| artist_comp_id(a);
    let ids = artists@.map_values(id);
    crate::common::distinct::law_fresh(seen@, artists@, id);
    crate::common::distinct::law_extend_distinct(seen@, ids);
    assert(ids[i] == artist_comp_id(artists@[i]));
    assert(ids.contains(ids[i]));
    let out = r.1@.map_values(id);
    assert(r.0@ == seen@ + out);
    assert forall|k: int| 0 <= k < r.1@.len() implies r.0@[seen@.len() + k] == artist_comp_id(
        #[trigger] r.1@[k],
    ) by {
        assert(out[k] == artist_comp_id(r.1@[k]));
    }
}

/// Of some artists exactly those with one of the names are kept.
pub proof fn law_named_artists_are_kept(
    artists: Vec<ArtistInfo>,
    names: DistinctStrings,
    r: Vec<ArtistInfo>,
    i: int,
)
    requires
        0 <= i < artists@.len(),
        call_ensures(named_artists, (artists, &names), r),
    ensures
        r@.contains(artists@[i]) <==> names@.contains(artists@[i].name@),
{
    let keep = |a: ArtistInfo| names@.contains(a.name@);
    assert(r@ == artists@.filter(keep));
    artists@.filter_lemma(keep);
    if r@.contains(artists@[i]) {
        let k = choose|k: int| 0 <= k < r@.len() && r@[k] == artists@[i];
        assert(keep(artists@.filter(keep)[k]));
    }
}

/// The artists of songs are those of all songs before the last, and then those of the last.
pub proof fn law_artists_of_songs(
    songs: Vec<SongInfo>,
    more: Vec<SongInfo>,
    r: Vec<ArtistInfo>,
    s: Vec<ArtistInfo>,
)
    requires
        more@.len() == songs@.len() + 1,
        more@.drop_last() == songs@,
        call_ensures(song_artists, (songs,), r),
        call_ensures(song_artists, (more,), s),
    ensures
        songs@.len() == 0 ==> r@.len() == 0,
        s@ == r@ + more@.last().artists@,
{
}

}

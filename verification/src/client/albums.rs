//! The albums of songs that were fetched for many albums at once.
use vstd::prelude::*;

use super::dedup::{album_copies, are_infos_of, build_dedup_album_infos, CopyRanks, RankingView};
use super::mounts::{Mount, MountRegistry};
use crate::common::album::AlbumInfo;
use crate::common::song::SongInfo;
use crate::common::{joined, lemma_joined_push, lemma_joined_update, opt_view};
use crate::order::{is_total_preorder, sort_stable, stable_sorted};
use crate::text::{
    lemma_lex_irreflexive, lemma_lex_total, lemma_lex_transitive, less, lex_lt, same,
};

verus! {

/// The title and the artist of the album that a song is tagged with.
pub open spec fn album_tags(song: SongInfo) -> Option<(Seq<char>, Option<Seq<char>>)> {
    match song.album {
        Some(album) => Some((album.title@, opt_view(album.albumartist))),
        None => None,
    }
}

/// The first of the groups whose songs are tagged as `song` is; the number of groups where there is
/// none.
pub open spec fn group_index(groups: Seq<Seq<SongInfo>>, song: SongInfo) -> int
    decreases groups.len(),
{
    if groups.len() == 0 {
        0
    } else if album_tags(groups[0][0]) == album_tags(song) {
        0
    } else {
        1 + group_index(groups.drop_first(), song)
    }
}

/// The groups with another song.
pub open spec fn add_to_groups(groups: Seq<Seq<SongInfo>>, song: SongInfo) -> Seq<Seq<SongInfo>> {
    let i = group_index(groups, song);
    if i < groups.len() {
        groups.update(i, groups[i].push(song))
    } else {
        groups.push(seq![song])
    }
}

/// The songs in groups by the title and the artist of their albums, in the order in which these first
/// occur. Songs without an album are left out.
pub open spec fn album_groups(songs: Seq<SongInfo>) -> Seq<Seq<SongInfo>>
    decreases songs.len(),
{
    if songs.len() == 0 {
        Seq::empty()
    } else {
        let before = album_groups(songs.drop_last());
        if songs.last().album is Some {
            add_to_groups(before, songs.last())
        } else {
            before
        }
    }
}

proof fn lemma_group_index(groups: Seq<Seq<SongInfo>>, song: SongInfo)
    ensures
        0 <= group_index(groups, song) <= groups.len(),
        group_index(groups, song) < groups.len() ==> album_tags(
            groups[group_index(groups, song)][0],
        ) == album_tags(song),
        forall|i: int|
            0 <= i < group_index(groups, song) ==> album_tags((#[trigger] groups[i])[0])
                != album_tags(song),
    decreases groups.len(),
{
    if groups.len() > 0 && album_tags(groups[0][0]) != album_tags(song) {
        let rest = groups.drop_first();
        lemma_group_index(rest, song);
        assert forall|i: int| 0 <= i < group_index(groups, song) implies album_tags(
            (#[trigger] groups[i])[0],
        ) != album_tags(song) by {
            if i > 0 {
                assert(rest[i - 1] == groups[i]);
            }
        }
    }
}

/// Whether a group holds songs of one album, and at least one.
pub open spec fn is_album_group(group: Seq<SongInfo>) -> bool {
    &&& group.len() > 0
    &&& group[0].album is Some
    &&& forall|i: int|
        0 <= i < group.len() ==> album_tags(#[trigger] group[i]) == album_tags(group[0])
}

/// Each group holds songs of one album, no two groups are of the same album, and together they hold the
/// songs that have one, none lost and none repeated.
pub proof fn law_album_groups(songs: Seq<SongInfo>)
    ensures
        forall|i: int|
            0 <= i < album_groups(songs).len() ==> is_album_group(#[trigger] album_groups(songs)[i]),
        forall|i: int, j: int|
            0 <= i < j < album_groups(songs).len() ==> album_tags((#[trigger] album_groups(songs)[i])[0])
                != album_tags((#[trigger] album_groups(songs)[j])[0]),
        joined(album_groups(songs)).to_multiset() == songs.filter(
            |s: SongInfo| s.album is Some,
        ).to_multiset(),
    decreases songs.len(),
{
    broadcast use vstd::seq_lib::group_to_multiset_ensures;

    let has_album = |s: SongInfo| s.album is Some;
    reveal(Seq::filter);
    if songs.len() > 0 {
        let init = songs.drop_last();
        let song = songs.last();
        let before = album_groups(init);
        let groups = album_groups(songs);
        law_album_groups(init);
        assert(songs =~= init.push(song));
        init.lemma_filter_push(song, has_album);
        if song.album is Some {
            let i = group_index(before, song);
            lemma_group_index(before, song);
            if i < before.len() {
                lemma_joined_update(before, i, song);
                let grown = before[i].push(song);
                assert(is_album_group(before[i]));
                assert(grown[0] == before[i][0]);
                assert(is_album_group(grown)) by {
                    assert forall|k: int| 0 <= k < grown.len() implies album_tags(
                        #[trigger] grown[k],
                    ) == album_tags(grown[0]) by {
                        if k < before[i].len() {
                            assert(grown[k] == before[i][k]);
                        }
                    }
                }
                assert forall|k: int| 0 <= k < groups.len() implies is_album_group(
                    #[trigger] groups[k],
                ) by {
                    if k != i {
                        assert(groups[k] == before[k]);
                    }
                }
                assert forall|k: int, l: int| 0 <= k < l < groups.len() implies album_tags(
                    (#[trigger] groups[k])[0],
                ) != album_tags((#[trigger] groups[l])[0]) by {
                    assert(album_tags(groups[k][0]) == album_tags(before[k][0]));
                    assert(album_tags(groups[l][0]) == album_tags(before[l][0]));
                }
            } else {
                lemma_joined_push(before, seq![song]);
                assert(joined(before) + seq![song] =~= joined(before).push(song));
                assert forall|k: int| 0 <= k < groups.len() implies is_album_group(
                    #[trigger] groups[k],
                ) by {
                    if k < before.len() {
                        assert(groups[k] == before[k]);
                    }
                }
                assert forall|k: int, l: int| 0 <= k < l < groups.len() implies album_tags(
                    (#[trigger] groups[k])[0],
                ) != album_tags((#[trigger] groups[l])[0]) by {
                    assert(groups[k] == before[k]);
                    if l < before.len() {
                        assert(groups[l] == before[l]);
                    }
                }
            }
        }
    }
}

/// The songs of each group.
spec fn group_views(groups: Seq<Vec<SongInfo>>) -> Seq<Seq<SongInfo>> {
    groups.map_values(|g: Vec<SongInfo>| g@)
}

/// Whether two songs are tagged with the same album.
fn same_album(a: &SongInfo, b: &SongInfo) -> (r: bool)
    ensures
        r == (album_tags(*a) == album_tags(*b)),
{
    match (&a.album, &b.album) {
        (Some(x), Some(y)) => same(x.title.as_str(), y.title.as_str()) && match (
            &x.albumartist,
            &y.albumartist,
        ) {
            (Some(p), Some(q)) => same(p.as_str(), q.as_str()),
            (None, None) => true,
            _ => false,
        },
        (None, None) => true,
        _ => false,
    }
}

fn add_song(groups: &mut Vec<Vec<SongInfo>>, song: SongInfo)
    requires
        forall|i: int| 0 <= i < old(groups)@.len() ==> (#[trigger] old(groups)@[i])@.len() > 0,
    ensures
        group_views(final(groups)@) == add_to_groups(group_views(old(groups)@), song),
{
    let ghost before = group_views(groups@);
    let mut i: usize = 0;
    proof {
        lemma_group_index(before, song);
    }
    while i < groups.len()
        invariant
            groups@ == old(groups)@,
            before == group_views(groups@),
            forall|j: int| 0 <= j < groups@.len() ==> (#[trigger] groups@[j])@.len() > 0,
            i <= groups@.len(),
            forall|j: int| 0 <= j < i ==> album_tags((#[trigger] before[j])[0]) != album_tags(song),
        ensures
            groups@ == old(groups)@,
            i <= groups@.len(),
            forall|j: int| 0 <= j < i ==> album_tags((#[trigger] before[j])[0]) != album_tags(song),
            i < groups@.len() ==> album_tags(before[i as int][0]) == album_tags(song),
        decreases groups.len() - i,
    {
        assert(before[i as int] == groups@[i as int]@);
        if same_album(&groups[i][0], &song) {
            break;
        }
        i = i + 1;
    }
    assert(i == group_index(before, song)) by {
        let k = group_index(before, song);
        if k < i {
            assert(album_tags(before[k][0]) == album_tags(song));
        }
        if i < k {
            assert(album_tags(before[i as int][0]) != album_tags(song));
        }
    }
    if i < groups.len() {
        let mut group: Vec<SongInfo> = groups.remove(i);
        group.push(song);
        groups.insert(i, group);
        assert(group_views(groups@) =~= add_to_groups(before, song));
    } else {
        let mut group: Vec<SongInfo> = Vec::new();
        group.push(song);
        assert(group@ =~= seq![song]);
        groups.push(group);
        assert(group_views(groups@) =~= add_to_groups(before, song));
    }
}

fn make_groups(songs: Vec<SongInfo>) -> (r: Vec<Vec<SongInfo>>)
    ensures
        group_views(r@) == album_groups(songs@),
{
    let ghost all = songs@;
    let mut groups: Vec<Vec<SongInfo>> = Vec::new();
    assert(group_views(groups@) =~= Seq::empty());
    assert(all.take(0) =~= Seq::empty());
    for song in it: songs
        invariant
            it.seq() == all,
            group_views(groups@) == album_groups(all.take(it.index())),
    {
        let ghost next = all.take(it.index() + 1);
        proof {
            assert(next.drop_last() =~= all.take(it.index()));
            assert(next.last() == song);
            law_album_groups(all.take(it.index()));
            assert forall|i: int| 0 <= i < groups@.len() implies (
            #[trigger] groups@[i])@.len() > 0 by {
                assert(group_views(groups@)[i] == groups@[i]@);
            }
        }
        if song.album.is_some() {
            add_song(&mut groups, song);
        }
    }
    assert(all.take(all.len() as int) =~= all);
    groups
}

/// The order of albums by their folders.
pub open spec fn by_folder() -> spec_fn(AlbumInfo, AlbumInfo) -> bool {
    |a: AlbumInfo, b: AlbumInfo| !lex_lt(b.folder_uri@, a.folder_uri@)
}

/// Whether each of `parts` are the albums of one of the groups, given the mounts of the server and the
/// user's order of them.
pub open spec fn are_albums_of(
    parts: Seq<Seq<AlbumInfo>>,
    groups: Seq<Seq<SongInfo>>,
    mounts: Seq<Mount>,
    order: Seq<String>,
) -> bool {
    &&& parts.len() == groups.len()
    &&& forall|i: int|
        0 <= i < groups.len() ==> are_infos_of(
            #[trigger] parts[i],
            album_copies(groups[i]),
            RankingView { songs: groups[i], mounts, order },
        )
}

proof fn lemma_by_folder()
    ensures
        is_total_preorder(by_folder()),
{
    let leq = by_folder();
    assert forall|a: AlbumInfo, b: AlbumInfo| #[trigger] leq(a, b) || leq(b, a) by {
        lemma_lex_total(a.folder_uri@, b.folder_uri@);
        lemma_lex_irreflexive(a.folder_uri@);
        if lex_lt(a.folder_uri@, b.folder_uri@) && lex_lt(b.folder_uri@, a.folder_uri@) {
            lemma_lex_transitive(a.folder_uri@, b.folder_uri@, a.folder_uri@);
        }
    }
    assert forall|a: AlbumInfo, b: AlbumInfo, c: AlbumInfo|
        #![trigger leq(a, b), leq(b, c)]
        leq(a, b) && leq(b, c) implies leq(a, c) by {
        let x = a.folder_uri@;
        let y = b.folder_uri@;
        let z = c.folder_uri@;
        if lex_lt(z, x) {
            lemma_lex_total(x, y);
            lemma_lex_total(y, z);
            if lex_lt(x, y) {
                lemma_lex_transitive(z, x, y);
            }
        }
    }
}

/// The albums that the songs belong to, in the order of their folders: for each album by its title and
/// artist the copies to show, with their alternates. Songs without an album are left out.
pub fn dedup_album_infos_from_songs(songs: Vec<SongInfo>, registry: &MountRegistry) -> (r: Vec<
    AlbumInfo,
>)
    ensures
        exists|parts: Seq<Seq<AlbumInfo>>|
            #![trigger joined(parts)]
            are_albums_of(parts, album_groups(songs@), registry.mounts(), registry.order()) && r@
                == stable_sorted(joined(parts), by_folder()),
{
    let groups: Vec<Vec<SongInfo>> = make_groups(songs);
    let ghost all = group_views(groups@);
    let ghost mut parts: Seq<Seq<AlbumInfo>> = Seq::empty();
    let mut out: Vec<AlbumInfo> = Vec::new();
    let ghost vecs = groups@;
    for group in it: groups
        invariant
            it.seq() == vecs,
            all == group_views(vecs),
            are_albums_of(
                parts,
                all.take(it.index()),
                registry.mounts(),
                registry.order(),
            ),
            out@ == joined(parts),
    {
        let ghost done = parts;
        let ghost songs_here = group@;
        let ranks: CopyRanks = CopyRanks::new(&group, registry);
        let mut infos: Vec<AlbumInfo> = build_dedup_album_infos(group, &ranks);
        proof {
            lemma_joined_push(parts, infos@);
            parts = parts.push(infos@);
            assert(all[it.index()] == songs_here);
            let next = all.take(it.index() + 1);
            assert forall|i: int| 0 <= i < next.len() implies are_infos_of(
                #[trigger] parts[i],
                album_copies(next[i]),
                RankingView {
                    songs: next[i],
                    mounts: registry.mounts(),
                    order: registry.order(),
                },
            ) by {
                if i < done.len() {
                    assert(parts[i] == done[i]);
                    assert(next[i] == all.take(it.index())[i]);
                }
            }
        }
        out.append(&mut infos);
    }
    assert(all.take(all.len() as int) =~= all);
    proof {
        lemma_by_folder();
    }
    let leq = |a: &AlbumInfo, b: &AlbumInfo| -> (o: bool)
        ensures
            o == !lex_lt(b.folder_uri@, a.folder_uri@),
        { !less(b.folder_uri.as_str(), a.folder_uri.as_str()) };
    let sorted: Vec<AlbumInfo> = sort_stable(out, &leq, Ghost(by_folder()));
    assert(sorted@ == stable_sorted(joined(parts), by_folder()));
    sorted
}

/// Songs are of one album where both its title and its artist are the same, and of different albums where
/// one of them differs.
pub proof fn law_titles_and_artists_tell_albums_apart(
    songs: Seq<SongInfo>,
    i: int,
    p: int,
    j: int,
    q: int,
)
    requires
        0 <= i < album_groups(songs).len(),
        0 <= p < album_groups(songs)[i].len(),
        0 <= j < album_groups(songs).len(),
        0 <= q < album_groups(songs)[j].len(),
    ensures
        ({
            let a = album_groups(songs)[i][p].album;
            let b = album_groups(songs)[j][q].album;
            &&& a is Some && b is Some
            &&& i == j <==> a->0.title@ == b->0.title@ && (a->0.albumartist is Some
                <==> b->0.albumartist is Some) && (a->0.albumartist is Some ==> a->0.albumartist->0@
                == b->0.albumartist->0@)
        }),
{
    law_album_groups(songs);
    let g = album_groups(songs)[i];
    let h = album_groups(songs)[j];
    assert(is_album_group(g) && is_album_group(h));
    assert(album_tags(g[p]) == album_tags(g[0]));
    assert(album_tags(h[q]) == album_tags(h[0]));
    if i < j {
        assert(album_tags(album_groups(songs)[i][0]) != album_tags(album_groups(songs)[j][0]));
    } else if j < i {
        assert(album_tags(album_groups(songs)[j][0]) != album_tags(album_groups(songs)[i][0]));
    }
}

/// Albums come in the order of their folders.
pub proof fn law_albums_come_by_folder(
    songs: Vec<SongInfo>,
    registry: MountRegistry,
    r: Vec<AlbumInfo>,
    i: int,
    j: int,
)
    requires
        call_ensures(dedup_album_infos_from_songs, (songs, &registry), r),
        0 <= i < j < r@.len(),
    ensures
        !lex_lt(r@[j].folder_uri@, r@[i].folder_uri@),
{
    let parts = choose|parts: Seq<Seq<AlbumInfo>>|
        #![trigger joined(parts)]
        are_albums_of(parts, album_groups(songs@), registry.mounts(), registry.order()) && r@
            == stable_sorted(joined(parts), by_folder());
    lemma_by_folder();
    crate::order::law_stable_sorted(joined(parts), by_folder());
    assert(by_folder()(r@[i], r@[j]));
}

}

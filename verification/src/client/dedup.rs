//! Finding the copies of one album that lie in several folders, and choosing the one to show.
//!
//! Songs are put into buckets by their folders; folders that hold the discs of one set are merged;
//! each bucket is then a copy of an album. Copies with the same MusicBrainz ID form a group, of which
//! the best copy stands for the others.
use vstd::prelude::*;
use vstd::string::*;

use super::mounts::{mount_of, mount_rank, Mount, MountRegistry};
use crate::common::album::{AlbumCopy, AlbumCopyView, AlbumInfo};
use crate::common::opt_view;
use crate::common::quality::QualityGrade;
use crate::common::song::SongInfo;
use crate::order::{is_total_preorder, sort_stable, stable_sorted};
use crate::text::{
    chars_of, is_digit, last_index_of_char, lemma_last_index_of_char, lemma_lex_irreflexive,
    lemma_lex_total, lemma_lex_transitive, less, lex_lt, rfind, same,
};
use crate::utils::{folder_of, strip_filename_linux};

verus! {

/// `s` without the slashes at its end.
pub open spec fn without_slashes(s: Seq<char>) -> Seq<char>
    decreases s.len(),
{
    if s.len() > 0 && s.last() == '/' {
        without_slashes(s.drop_last())
    } else {
        s
    }
}

/// The folder of a song, without slashes at its end.
pub open spec fn bucket_of(uri: Seq<char>) -> Seq<char> {
    without_slashes(folder_of(uri))
}

/// The folder of a song, without slashes at its end, so that doubled slashes make no difference.
fn bucket_key(uri: &str) -> (r: String)
    ensures
        r@ == bucket_of(uri@),
{
    let folder: &str = strip_filename_linux(uri);
    let x: Vec<char> = chars_of(folder);
    let mut n: usize = x.len();
    assert(x@.take(n as int) =~= x@);
    while n > 0 && x[n - 1] == '/'
        invariant
            n <= x@.len(),
            without_slashes(x@) == without_slashes(x@.take(n as int)),
        ensures
            n <= x@.len(),
            without_slashes(x@) == x@.take(n as int),
        decreases n,
    {
        assert(x@.take(n as int).drop_last() =~= x@.take(n - 1));
        n = n - 1;
    }
    assert(folder@.subrange(0, n as int) =~= x@.take(n as int));
    folder.substring_char(0, n).to_owned()
}

/// The path that a folder lies in, where it has one.
pub open spec fn parent_of(path: Seq<char>) -> Option<Seq<char>> {
    let i = last_index_of_char(path, '/');
    if i >= 0 {
        Some(path.take(i))
    } else {
        None
    }
}

/// The last component of a path.
pub open spec fn name_of(path: Seq<char>) -> Seq<char> {
    path.skip(last_index_of_char(path, '/') + 1)
}

/// Whether two different folders lie in the same folder.
pub open spec fn are_siblings(a: Seq<char>, b: Seq<char>) -> bool {
    parent_of(a) is Some && parent_of(a) == parent_of(b) && a != b
}

/// True when `a` and `b` are different folders in a common parent folder: "music/Album/Disc 1" and
/// "music/Album/Disc 2" are, "music/Album" and "music/Album/Disc 2" are not.
pub fn is_sibling(a: &str, b: &str) -> (r: bool)
    ensures
        r == are_siblings(a@, b@),
{
    let x: Vec<char> = chars_of(a);
    let y: Vec<char> = chars_of(b);
    proof {
        lemma_last_index_of_char(a@, '/');
        lemma_last_index_of_char(b@, '/');
    }
    match (rfind(&x, '/'), rfind(&y, '/')) {
        (Some(i), Some(j)) => {
            let pa: &str = a.substring_char(0, i);
            let pb: &str = b.substring_char(0, j);
            assert(pa@ =~= a@.take(i as int));
            assert(pb@ =~= b@.take(j as int));
            same(pa, pb) && !same(a, b)
        },
        _ => false,
    }
}

/// Where the run of digits at the end of `s` starts.
pub open spec fn digits_start(s: Seq<char>) -> int
    decreases s.len(),
{
    if s.len() > 0 && is_digit(s.last()) {
        digits_start(s.drop_last())
    } else {
        s.len() as int
    }
}

/// The run of digits at the end of a string is as long as it can be.
proof fn lemma_digits_start(s: Seq<char>)
    ensures
        0 <= digits_start(s) <= s.len(),
        forall|i: int| digits_start(s) <= i < s.len() ==> is_digit(#[trigger] s[i]),
        digits_start(s) > 0 ==> !is_digit(s[digits_start(s) - 1]),
    decreases s.len(),
{
    if s.len() > 0 && is_digit(s.last()) {
        let d = s.drop_last();
        lemma_digits_start(d);
        assert forall|i: int| digits_start(s) <= i < s.len() implies is_digit(#[trigger] s[i]) by {
            if i < d.len() {
                assert(d[i] == s[i]);
            }
        }
    }
}

/// The name of a folder as a stem and the digits behind it, where it ends in digits.
pub open spec fn numbered_name(path: Seq<char>) -> Option<(Seq<char>, Seq<char>)> {
    let name = name_of(path);
    let k = digits_start(name);
    if k < name.len() {
        Some((name.take(k), name.skip(k)))
    } else {
        None
    }
}

/// Whether two folders are called alike but for the digits at the end of their names.
pub open spec fn are_numeric_siblings(a: Seq<char>, b: Seq<char>) -> bool {
    match (numbered_name(a), numbered_name(b)) {
        (Some((stem_a, digits_a)), Some((stem_b, digits_b))) => stem_a == stem_b && digits_a
            != digits_b,
        _ => false,
    }
}

/// The name of a folder as a stem and the digits behind it.
fn split_numbered(path: &str) -> (r: Option<(&str, &str)>)
    ensures
        match numbered_name(path@) {
            Some((stem, number)) => r is Some && (r->0).0@ == stem && (r->0).1@ == number,
            None => r is None,
        },
{
    let whole: Vec<char> = chars_of(path);
    proof {
        lemma_last_index_of_char(path@, '/');
    }
    let from: usize = match rfind(&whole, '/') {
        Some(i) => i + 1,
        None => 0,
    };
    let name: &str = path.substring_char(from, whole.len());
    assert(name@ =~= name_of(path@));
    let x: Vec<char> = chars_of(name);
    let mut k: usize = x.len();
    assert(x@.take(k as int) =~= x@);
    while k > 0 && '0' <= x[k - 1] && x[k - 1] <= '9'
        invariant
            k <= x@.len(),
            digits_start(x@) == digits_start(x@.take(k as int)),
        ensures
            k == digits_start(x@),
        decreases k,
    {
        assert(x@.take(k as int).drop_last() =~= x@.take(k - 1));
        k = k - 1;
    }
    proof {
        lemma_digits_start(x@);
    }
    if k == x.len() {
        return None;
    }
    let stem: &str = name.substring_char(0, k);
    let number: &str = name.substring_char(k, x.len());
    assert(stem@ =~= name@.take(k as int));
    assert(number@ =~= name@.skip(k as int));
    Some((stem, number))
}

/// True when both folders are called by the same stem with different digits behind it, as the discs or
/// volumes of one album often are ("Vol 01" and "Vol 02", "CD1" and "CD2").
pub fn folders_are_numeric_siblings(a: &str, b: &str) -> (r: bool)
    ensures
        r == are_numeric_siblings(a@, b@),
{
    match (split_numbered(a), split_numbered(b)) {
        (Some((stem_a, digits_a)), Some((stem_b, digits_b))) => same(stem_a, stem_b) && !same(
            digits_a,
            digits_b,
        ),
        _ => false,
    }
}

/// The songs of one folder.
struct Bucket {
    folder: String,
    songs: Vec<SongInfo>,
}

/// What a bucket holds.
#[verifier::ext_equal]
pub struct BucketView {
    pub folder: Seq<char>,
    pub songs: Seq<SongInfo>,
}

impl View for Bucket {
    type V = BucketView;

    closed spec fn view(&self) -> BucketView {
        BucketView { folder: self.folder@, songs: self.songs@ }
    }
}

/// What each bucket holds.
spec fn bucket_views(s: Seq<Bucket>) -> Seq<BucketView> {
    s.map_values(|b: Bucket| b@)
}

/// Buckets in the order of their folders, with `song` put into the one of `folder`.
pub open spec fn put_into(buckets: Seq<BucketView>, folder: Seq<char>, song: SongInfo) -> Seq<
    BucketView,
>
    decreases buckets.len(),
{
    if buckets.len() == 0 || lex_lt(folder, buckets[0].folder) {
        seq![BucketView { folder, songs: seq![song] }] + buckets
    } else if buckets[0].folder == folder {
        buckets.update(0, BucketView { folder, songs: buckets[0].songs.push(song) })
    } else {
        seq![buckets[0]] + put_into(buckets.drop_first(), folder, song)
    }
}

/// The songs by their folders, in the order of the folders.
pub open spec fn buckets_of(songs: Seq<SongInfo>) -> Seq<BucketView>
    decreases songs.len(),
{
    if songs.len() == 0 {
        Seq::empty()
    } else {
        put_into(buckets_of(songs.drop_last()), bucket_of(songs.last().uri@), songs.last())
    }
}

/// Whether the folders of the buckets are in strictly ascending order.
pub open spec fn folders_ascend(buckets: Seq<BucketView>) -> bool {
    forall|i: int, j: int|
        0 <= i < j < buckets.len() ==> lex_lt(
            (#[trigger] buckets[i]).folder,
            (#[trigger] buckets[j]).folder,
        )
}

/// The songs in the bucket of `folder`, none where there is no such bucket.
pub open spec fn songs_in(buckets: Seq<BucketView>, folder: Seq<char>) -> Seq<SongInfo>
    decreases buckets.len(),
{
    if buckets.len() == 0 {
        Seq::empty()
    } else if buckets[0].folder == folder {
        buckets[0].songs
    } else {
        songs_in(buckets.drop_first(), folder)
    }
}

proof fn lemma_put_skip(buckets: Seq<BucketView>, folder: Seq<char>, song: SongInfo, i: int)
    requires
        0 <= i <= buckets.len(),
        forall|j: int| 0 <= j < i ==> lex_lt((#[trigger] buckets[j]).folder, folder),
    ensures
        put_into(buckets, folder, song) == buckets.take(i) + put_into(
            buckets.skip(i),
            folder,
            song,
        ),
    decreases i,
{
    if i == 0 {
        assert(buckets.skip(0) =~= buckets);
        assert(buckets.take(0) + put_into(buckets, folder, song) =~= put_into(
            buckets,
            folder,
            song,
        ));
    } else {
        lemma_lex_total(buckets[0].folder, folder);
        let rest = buckets.drop_first();
        assert forall|j: int| 0 <= j < i - 1 implies lex_lt((#[trigger] rest[j]).folder, folder) by {
            assert(rest[j] == buckets[j + 1]);
        }
        lemma_put_skip(rest, folder, song, i - 1);
        assert(rest.skip(i - 1) =~= buckets.skip(i));
        assert(seq![buckets[0]] + rest.take(i - 1) =~= buckets.take(i));
        assert(seq![buckets[0]] + (rest.take(i - 1) + put_into(buckets.skip(i), folder, song))
            =~= buckets.take(i) + put_into(buckets.skip(i), folder, song));
    }
}

/// Puts `song` into the bucket of its folder.
fn put_song(buckets: &mut Vec<Bucket>, song: SongInfo)
    requires
        folders_ascend(bucket_views(old(buckets)@)),
    ensures
        bucket_views(final(buckets)@) == put_into(
            bucket_views(old(buckets)@),
            bucket_of(song.uri@),
            song,
        ),
{
    let folder: String = bucket_key(song.uri.as_str());
    let ghost before = bucket_views(buckets@);
    let ghost name = folder@;
    let mut i: usize = 0;
    while i < buckets.len()
        invariant
            i <= buckets@.len(),
            folder@ == name,
            name == bucket_of(song.uri@),
            before == bucket_views(buckets@),
            forall|j: int| 0 <= j < i ==> lex_lt((#[trigger] before[j]).folder, name),
            buckets@ == old(buckets)@,
        ensures
            buckets@ == old(buckets)@,
            i < buckets@.len() ==> !lex_lt(before[i as int].folder, name),
        decreases buckets@.len() - i,
    {
        assert(before[i as int] == buckets@[i as int]@);
        if !less(buckets[i].folder.as_str(), folder.as_str()) {
            break;
        }
        i = i + 1;
    }
    proof {
        lemma_put_skip(before, name, song, i as int);
    }
    let ghost rest = before.skip(i as int);
    if i < buckets.len() && same(buckets[i].folder.as_str(), folder.as_str()) {
        let mut b: Bucket = buckets.remove(i);
        let ghost b0 = b@;
        b.songs.push(song);
        buckets.insert(i, b);
        proof {
            lemma_lex_irreflexive(name);
            assert(rest[0] == b0);
            assert(bucket_views(buckets@) =~= before.take(i as int) + put_into(rest, name, song));
        }
    } else {
        let mut songs: Vec<SongInfo> = Vec::new();
        songs.push(song);
        let b: Bucket = Bucket { folder, songs };
        proof {
            if i < before.len() {
                lemma_lex_total(before[i as int].folder, name);
                assert(rest[0] == before[i as int]);
            }
            assert(b@ =~= (BucketView { folder: name, songs: seq![song] }));
        }
        buckets.insert(i, b);
        assert(bucket_views(buckets@) =~= before.take(i as int) + put_into(rest, name, song));
    }
}

/// Whether all folders come behind `m`.
spec fn all_behind(m: Seq<char>, buckets: Seq<BucketView>) -> bool {
    forall|i: int| 0 <= i < buckets.len() ==> lex_lt(m, (#[trigger] buckets[i]).folder)
}

proof fn lemma_ascend_tail(buckets: Seq<BucketView>)
    requires
        folders_ascend(buckets),
        buckets.len() > 0,
    ensures
        folders_ascend(buckets.drop_first()),
        all_behind(buckets[0].folder, buckets.drop_first()),
{
    let rest = buckets.drop_first();
    assert forall|i: int, j: int| 0 <= i < j < rest.len() implies lex_lt(
        (#[trigger] rest[i]).folder,
        (#[trigger] rest[j]).folder,
    ) by {
        assert(rest[i] == buckets[i + 1] && rest[j] == buckets[j + 1]);
    }
    assert forall|i: int| 0 <= i < rest.len() implies lex_lt(
        buckets[0].folder,
        (#[trigger] rest[i]).folder,
    ) by {
        assert(rest[i] == buckets[i + 1]);
    }
}

proof fn lemma_ascend_cons(b: BucketView, rest: Seq<BucketView>)
    requires
        folders_ascend(rest),
        all_behind(b.folder, rest),
    ensures
        folders_ascend(seq![b] + rest),
{
    let all = seq![b] + rest;
    assert forall|i: int, j: int| 0 <= i < j < all.len() implies lex_lt(
        (#[trigger] all[i]).folder,
        (#[trigger] all[j]).folder,
    ) by {
        assert(all[j] == rest[j - 1]);
        if i > 0 {
            assert(all[i] == rest[i - 1]);
        }
    }
}

proof fn lemma_none_in(buckets: Seq<BucketView>, f: Seq<char>)
    requires
        all_behind(f, buckets),
    ensures
        songs_in(buckets, f) == Seq::<SongInfo>::empty(),
    decreases buckets.len(),
{
    if buckets.len() > 0 {
        lemma_lex_irreflexive(f);
        let rest = buckets.drop_first();
        assert forall|i: int| 0 <= i < rest.len() implies lex_lt(f, (#[trigger] rest[i]).folder) by {
            assert(rest[i] == buckets[i + 1]);
        }
        lemma_none_in(rest, f);
    }
}

proof fn lemma_put(buckets: Seq<BucketView>, folder: Seq<char>, song: SongInfo)
    requires
        folders_ascend(buckets),
    ensures
        folders_ascend(put_into(buckets, folder, song)),
        forall|m: Seq<char>|
            #![trigger all_behind(m, put_into(buckets, folder, song))]
            lex_lt(m, folder) && all_behind(m, buckets) ==> all_behind(
                m,
                put_into(buckets, folder, song),
            ),
        forall|f: Seq<char>|
            #[trigger]
            songs_in(put_into(buckets, folder, song), f) == (if f == folder {
                songs_in(buckets, f).push(song)
            } else {
                songs_in(buckets, f)
            }),
    decreases buckets.len(),
{
    let r = put_into(buckets, folder, song);
    if buckets.len() == 0 || lex_lt(folder, buckets[0].folder) {
        let b = BucketView { folder, songs: seq![song] };
        assert(all_behind(folder, buckets)) by {
            assert forall|i: int| 0 <= i < buckets.len() implies lex_lt(
                folder,
                (#[trigger] buckets[i]).folder,
            ) by {
                if i > 0 {
                    lemma_lex_transitive(folder, buckets[0].folder, buckets[i].folder);
                }
            }
        }
        lemma_ascend_cons(b, buckets);
        lemma_none_in(buckets, folder);
        assert(r.drop_first() =~= buckets);
        assert(Seq::<SongInfo>::empty().push(song) =~= seq![song]);
        assert forall|f: Seq<char>| #[trigger] songs_in(r, f) == (if f == folder {
            songs_in(buckets, f).push(song)
        } else {
            songs_in(buckets, f)
        }) by {
            assert(r[0] == b);
            assert(songs_in(r.drop_first(), f) == songs_in(buckets, f));
        }
        assert forall|m: Seq<char>|
            #![trigger all_behind(m, r)]
            lex_lt(m, folder) && all_behind(m, buckets) implies all_behind(m, r) by {
            assert forall|i: int| 0 <= i < r.len() implies lex_lt(m, (#[trigger] r[i]).folder) by {
                if i > 0 {
                    assert(r[i] == buckets[i - 1]);
                }
            }
        }
    } else if buckets[0].folder == folder {
        let b = BucketView { folder, songs: buckets[0].songs.push(song) };
        lemma_ascend_tail(buckets);
        assert(r =~= seq![b] + buckets.drop_first());
        lemma_ascend_cons(b, buckets.drop_first());
        assert(r.drop_first() =~= buckets.drop_first());
        assert forall|f: Seq<char>| #[trigger] songs_in(r, f) == (if f == folder {
            songs_in(buckets, f).push(song)
        } else {
            songs_in(buckets, f)
        }) by {
            assert(r[0] == b);
            assert(songs_in(r.drop_first(), f) == songs_in(buckets.drop_first(), f));
        }
        assert forall|m: Seq<char>|
            #![trigger all_behind(m, r)]
            lex_lt(m, folder) && all_behind(m, buckets) implies all_behind(m, r) by {
            assert forall|i: int| 0 <= i < r.len() implies lex_lt(m, (#[trigger] r[i]).folder) by {
                if i > 0 {
                    assert(r[i] == buckets[i]);
                }
            }
        }
    } else {
        let rest = buckets.drop_first();
        let q = put_into(rest, folder, song);
        lemma_ascend_tail(buckets);
        lemma_put(rest, folder, song);
        lemma_lex_total(folder, buckets[0].folder);
        assert(all_behind(buckets[0].folder, q));
        lemma_ascend_cons(buckets[0], q);
        assert(r.drop_first() =~= q);
        assert forall|f: Seq<char>| #[trigger] songs_in(r, f) == (if f == folder {
            songs_in(buckets, f).push(song)
        } else {
            songs_in(buckets, f)
        }) by {
            assert(r[0] == buckets[0]);
            assert(songs_in(r.drop_first(), f) == songs_in(q, f));
        }
        assert forall|m: Seq<char>|
            #![trigger all_behind(m, r)]
            lex_lt(m, folder) && all_behind(m, buckets) implies all_behind(m, r) by {
            assert(all_behind(m, rest)) by {
                assert forall|i: int| 0 <= i < rest.len() implies lex_lt(
                    m,
                    (#[trigger] rest[i]).folder,
                ) by {
                    assert(rest[i] == buckets[i + 1]);
                }
            }
            assert(all_behind(m, q));
            assert forall|i: int| 0 <= i < r.len() implies lex_lt(m, (#[trigger] r[i]).folder) by {
                if i > 0 {
                    assert(r[i] == q[i - 1]);
                } else {
                    assert(lex_lt(m, buckets[0].folder));
                }
            }
        }
    }
}

/// Every song is in the bucket of its folder and in no other, in the order in which the songs came, and
/// the buckets are in the order of their folders.
pub proof fn law_buckets(songs: Seq<SongInfo>)
    ensures
        folders_ascend(buckets_of(songs)),
        forall|f: Seq<char>| #[trigger]
            songs_in(buckets_of(songs), f) == songs.filter(|s: SongInfo| bucket_of(s.uri@) == f),
    decreases songs.len(),
{
    if songs.len() > 0 {
        let init = songs.drop_last();
        let last = songs.last();
        law_buckets(init);
        lemma_put(buckets_of(init), bucket_of(last.uri@), last);
        assert(songs =~= init.push(last));
        assert forall|f: Seq<char>| #[trigger]
            songs_in(buckets_of(songs), f) == songs.filter(
                |s: SongInfo| bucket_of(s.uri@) == f,
            ) by {
            init.lemma_filter_push(last, |s: SongInfo| bucket_of(s.uri@) == f);
        }
    } else {
        assert forall|f: Seq<char>| #[trigger]
            songs_in(buckets_of(songs), f) == songs.filter(
                |s: SongInfo| bucket_of(s.uri@) == f,
            ) by {
            reveal(Seq::filter);
            assert(songs.filter(|s: SongInfo| bucket_of(s.uri@) == f) =~= Seq::empty());
        }
    }
}

/// Puts the songs into buckets by their folders.
fn make_buckets(songs: Vec<SongInfo>) -> (r: Vec<Bucket>)
    ensures
        bucket_views(r@) == buckets_of(songs@),
{
    let mut r: Vec<Bucket> = Vec::new();
    assert(bucket_views(r@) =~= Seq::empty());
    assert(songs@.take(0) =~= Seq::empty());
    for song in it: songs
        invariant
            it.seq() == songs@,
            bucket_views(r@) == buckets_of(songs@.take(it.index())),
    {
        let ghost init = songs@.take(it.index());
        let ghost next = songs@.take(it.index() + 1);
        proof {
            assert(next.drop_last() =~= init);
            assert(next.last() == song);
            law_buckets(init);
        }
        put_song(&mut r, song);
    }
    assert(songs@.take(songs@.len() as int) =~= songs@);
    r
}

/// Whether any of the songs has a disc number.
pub open spec fn has_discs(songs: Seq<SongInfo>) -> bool {
    exists|i: int| 0 <= i < songs.len() && (#[trigger] songs[i]).disc is Some
}

/// Whether no disc number occurs on both sides.
pub open spec fn discs_disjoint(a: Seq<SongInfo>, b: Seq<SongInfo>) -> bool {
    forall|i: int, j: int|
        0 <= i < a.len() && 0 <= j < b.len() && (#[trigger] a[i]).disc is Some ==> a[i].disc != (
        #[trigger] b[j]).disc
}

/// Whether two buckets hold discs of one set: they lie in one folder, and either their disc numbers
/// differ or, where neither has any, their names differ in a number at the end alone.
pub open spec fn are_discs_of_one_set(a: BucketView, b: BucketView) -> bool {
    &&& are_siblings(a.folder, b.folder)
    &&& if has_discs(a.songs) && has_discs(b.songs) {
        discs_disjoint(a.songs, b.songs)
    } else {
        !has_discs(a.songs) && !has_discs(b.songs) && are_numeric_siblings(a.folder, b.folder)
    }
}

fn any_disc(songs: &Vec<SongInfo>) -> (r: bool)
    ensures
        r == has_discs(songs@),
{
    let mut i: usize = 0;
    while i < songs.len()
        invariant
            i <= songs@.len(),
            forall|j: int| 0 <= j < i ==> (#[trigger] songs@[j]).disc is None,
        decreases songs.len() - i,
    {
        if songs[i].disc.is_some() {
            return true;
        }
        i = i + 1;
    }
    false
}

fn no_common_disc(a: &Vec<SongInfo>, b: &Vec<SongInfo>) -> (r: bool)
    ensures
        r == discs_disjoint(a@, b@),
{
    let mut i: usize = 0;
    while i < a.len()
        invariant
            i <= a@.len(),
            forall|k: int, j: int|
                0 <= k < i && 0 <= j < b@.len() && (#[trigger] a@[k]).disc is Some ==> a@[k].disc
                    != (#[trigger] b@[j]).disc,
        decreases a.len() - i,
    {
        if let Some(d) = a[i].disc {
            let mut j: usize = 0;
            while j < b.len()
                invariant
                    i < a@.len(),
                    a@[i as int].disc == Some(d),
                    j <= b@.len(),
                    forall|l: int| 0 <= l < j ==> (#[trigger] b@[l]).disc != Some(d),
                decreases b.len() - j,
            {
                if let Some(e) = b[j].disc {
                    if d == e {
                        assert(a@[i as int].disc == b@[j as int].disc);
                        return false;
                    }
                }
                j = j + 1;
            }
        }
        i = i + 1;
    }
    true
}

fn should_merge(a: &Bucket, b: &Bucket) -> (r: bool)
    ensures
        r == are_discs_of_one_set(a@, b@),
{
    if !is_sibling(a.folder.as_str(), b.folder.as_str()) {
        return false;
    }
    let discs_a: bool = any_disc(&a.songs);
    let discs_b: bool = any_disc(&b.songs);
    if discs_a && discs_b {
        no_common_disc(&a.songs, &b.songs)
    } else if !discs_a && !discs_b {
        folders_are_numeric_siblings(a.folder.as_str(), b.folder.as_str())
    } else {
        false
    }
}

/// `a` with the songs of those of `rest` that belong to it, and the others. A bucket that has taken in
/// another is compared with the songs of both.
pub open spec fn absorbed(a: BucketView, rest: Seq<BucketView>) -> (BucketView, Seq<BucketView>)
    decreases rest.len(),
{
    if rest.len() == 0 {
        (a, rest)
    } else if are_discs_of_one_set(a, rest[0]) {
        absorbed(BucketView { folder: a.folder, songs: a.songs + rest[0].songs }, rest.drop_first())
    } else {
        let (whole, others) = absorbed(a, rest.drop_first());
        (whole, seq![rest[0]] + others)
    }
}

/// Merging leaves no more buckets than there were.
pub proof fn lemma_absorbed_shrinks(a: BucketView, rest: Seq<BucketView>)
    ensures
        absorbed(a, rest).1.len() <= rest.len(),
    decreases rest.len(),
{
    if rest.len() > 0 {
        lemma_absorbed_shrinks(a, rest.drop_first());
        lemma_absorbed_shrinks(
            BucketView { folder: a.folder, songs: a.songs + rest[0].songs },
            rest.drop_first(),
        );
    }
}

/// The buckets with those merged that hold discs of one set, each under the folder that comes first.
pub open spec fn merged_discs(buckets: Seq<BucketView>) -> Seq<BucketView>
    decreases buckets.len(),
{
    if buckets.len() == 0 {
        buckets
    } else {
        let (whole, others) = absorbed(buckets[0], buckets.drop_first());
        proof {
            lemma_absorbed_shrinks(buckets[0], buckets.drop_first());
        }
        seq![whole] + merged_discs(others)
    }
}

/// Merges into `a` those of `rest` that belong to it, and returns it with the others.
fn absorb(a: Bucket, rest: Vec<Bucket>) -> (r: (Bucket, Vec<Bucket>))
    ensures
        r.0@ == absorbed(a@, bucket_views(rest@)).0,
        bucket_views(r.1@) == absorbed(a@, bucket_views(rest@)).1,
{
    let ghost start = a@;
    let ghost views = bucket_views(rest@);
    let mut whole: Bucket = a;
    let mut others: Vec<Bucket> = Vec::new();
    assert(views.skip(0) =~= views);
    assert(bucket_views(others@) + absorbed(start, views).1 =~= absorbed(start, views).1);
    for b in it: rest
        invariant
            it.seq() == rest@,
            views == bucket_views(rest@),
            absorbed(start, views).0 == absorbed(whole@, views.skip(it.index())).0,
            absorbed(start, views).1 == bucket_views(others@) + absorbed(
                whole@,
                views.skip(it.index()),
            ).1,
    {
        let ghost now = views.skip(it.index());
        let ghost kept = bucket_views(others@);
        let ghost had = whole@;
        assert(now[0] == b@);
        assert(now.drop_first() =~= views.skip(it.index() + 1));
        if should_merge(&whole, &b) {
            let mut more: Vec<SongInfo> = b.songs;
            whole.songs.append(&mut more);
            assert(whole@ =~= (BucketView {
                folder: had.folder,
                songs: had.songs + now[0].songs,
            }));
        } else {
            others.push(b);
            proof {
                let tail = absorbed(had, now.drop_first()).1;
                assert(bucket_views(others@) =~= kept.push(b@));
                assert(kept + (seq![b@] + tail) =~= kept.push(b@) + tail);
            }
        }
    }
    assert(views.skip(views.len() as int) =~= Seq::empty());
    assert(bucket_views(others@) + Seq::<BucketView>::empty() =~= bucket_views(others@));
    (whole, others)
}

/// Merges the buckets that hold discs of one set.
fn merge_discs(buckets: Vec<Bucket>) -> (r: Vec<Bucket>)
    ensures
        bucket_views(r@) == merged_discs(bucket_views(buckets@)),
{
    let ghost all = merged_discs(bucket_views(buckets@));
    let mut left: Vec<Bucket> = buckets;
    let mut done: Vec<Bucket> = Vec::new();
    assert(bucket_views(done@) + all =~= all);
    while left.len() > 0
        invariant
            all == bucket_views(done@) + merged_discs(bucket_views(left@)),
        decreases left@.len(),
    {
        let ghost views = bucket_views(left@);
        let ghost kept = bucket_views(done@);
        let first: Bucket = left.remove(0);
        proof {
            assert(views[0] == first@);
            assert(bucket_views(left@) =~= views.drop_first());
            lemma_absorbed_shrinks(views[0], views.drop_first());
        }
        let (whole, others): (Bucket, Vec<Bucket>) = absorb(first, left);
        done.push(whole);
        left = others;
        proof {
            let tail = merged_discs(bucket_views(others@));
            assert(bucket_views(done@) =~= kept.push(whole@));
            assert(kept + (seq![whole@] + tail) =~= kept.push(whole@) + tail);
        }
    }
    assert(bucket_views(done@) + Seq::<BucketView>::empty() =~= bucket_views(done@));
    assert(bucket_views(left@) =~= Seq::empty());
    done
}

/// All songs of the buckets, with no regard to order.
pub open spec fn song_bag(buckets: Seq<BucketView>) -> vstd::multiset::Multiset<SongInfo>
    decreases buckets.len(),
{
    if buckets.len() == 0 {
        vstd::multiset::Multiset::empty()
    } else {
        buckets[0].songs.to_multiset().add(song_bag(buckets.drop_first()))
    }
}

proof fn lemma_absorbed_keeps_songs(a: BucketView, rest: Seq<BucketView>)
    ensures
        absorbed(a, rest).0.songs.to_multiset().add(song_bag(absorbed(a, rest).1))
            =~= a.songs.to_multiset().add(song_bag(rest)),
        absorbed(a, rest).0.folder == a.folder,
        forall|m: Seq<char>|
            #![trigger all_behind(m, absorbed(a, rest).1)]
            all_behind(m, rest) ==> all_behind(m, absorbed(a, rest).1),
        folders_ascend(rest) ==> folders_ascend(absorbed(a, rest).1),
    decreases rest.len(),
{
    if rest.len() > 0 {
        let tail = rest.drop_first();
        if folders_ascend(rest) {
            lemma_ascend_tail(rest);
        }
        assert forall|m: Seq<char>| #[trigger]
            all_behind(m, rest) implies all_behind(m, tail) by {
            assert forall|i: int| 0 <= i < tail.len() implies lex_lt(
                m,
                (#[trigger] tail[i]).folder,
            ) by {
                assert(tail[i] == rest[i + 1]);
            }
        }
        if are_discs_of_one_set(a, rest[0]) {
            let whole = BucketView { folder: a.folder, songs: a.songs + rest[0].songs };
            lemma_absorbed_keeps_songs(whole, tail);
            vstd::seq_lib::lemma_multiset_commutative(a.songs, rest[0].songs);
            assert(whole.songs.to_multiset().add(song_bag(tail)) =~= a.songs.to_multiset().add(
                song_bag(rest),
            ));
        } else {
            lemma_absorbed_keeps_songs(a, tail);
            let others = absorbed(a, tail).1;
            let r = seq![rest[0]] + others;
            assert(r.drop_first() =~= others);
            assert(song_bag(r) == rest[0].songs.to_multiset().add(song_bag(others)));
            assert(song_bag(rest) == rest[0].songs.to_multiset().add(song_bag(tail)));
            let kept = absorbed(a, tail).0.songs.to_multiset();
            assert(kept.add(song_bag(r)) =~= kept.add(song_bag(others)).add(
                rest[0].songs.to_multiset(),
            ));
            assert(a.songs.to_multiset().add(song_bag(rest)) =~= a.songs.to_multiset().add(
                song_bag(tail),
            ).add(rest[0].songs.to_multiset()));
            if folders_ascend(rest) {
                assert(all_behind(rest[0].folder, others));
                lemma_ascend_cons(rest[0], others);
            }
            assert forall|m: Seq<char>|
                #![trigger all_behind(m, r)]
                all_behind(m, rest) implies all_behind(m, r) by {
                assert(all_behind(m, tail));
                assert(all_behind(m, others));
                assert forall|i: int| 0 <= i < r.len() implies lex_lt(
                    m,
                    (#[trigger] r[i]).folder,
                ) by {
                    if i > 0 {
                        assert(r[i] == others[i - 1]);
                    } else {
                        assert(lex_lt(m, rest[0].folder));
                    }
                }
            }
        }
    }
}

/// Merging the discs of one set neither loses nor repeats a song, and keeps the buckets in the order of
/// their folders.
pub proof fn law_merging_keeps_songs(buckets: Seq<BucketView>)
    ensures
        song_bag(merged_discs(buckets)) == song_bag(buckets),
        folders_ascend(buckets) ==> folders_ascend(merged_discs(buckets)),
    decreases buckets.len(),
{
    lemma_merging(buckets);
}

proof fn lemma_merging(buckets: Seq<BucketView>)
    ensures
        song_bag(merged_discs(buckets)) == song_bag(buckets),
        folders_ascend(buckets) ==> folders_ascend(merged_discs(buckets)),
        forall|m: Seq<char>|
            #![trigger all_behind(m, merged_discs(buckets))]
            all_behind(m, buckets) ==> all_behind(m, merged_discs(buckets)),
    decreases buckets.len(),
{
    if buckets.len() > 0 {
        let tail = buckets.drop_first();
        let (whole, others) = absorbed(buckets[0], tail);
        lemma_absorbed_shrinks(buckets[0], tail);
        lemma_absorbed_keeps_songs(buckets[0], tail);
        lemma_merging(others);
        let r = merged_discs(buckets);
        let rest = merged_discs(others);
        assert(r.drop_first() =~= rest);
        if folders_ascend(buckets) {
            lemma_ascend_tail(buckets);
            assert(all_behind(buckets[0].folder, others));
            assert(all_behind(whole.folder, rest));
            lemma_ascend_cons(whole, rest);
        }
        assert forall|m: Seq<char>|
            #![trigger all_behind(m, r)]
            all_behind(m, buckets) implies all_behind(m, r) by {
            assert(all_behind(m, tail)) by {
                assert forall|i: int| 0 <= i < tail.len() implies lex_lt(
                    m,
                    (#[trigger] tail[i]).folder,
                ) by {
                    assert(tail[i] == buckets[i + 1]);
                }
            }
            assert(all_behind(m, others));
            assert(all_behind(m, rest));
            assert forall|i: int| 0 <= i < r.len() implies lex_lt(m, (#[trigger] r[i]).folder) by {
                if i > 0 {
                    assert(r[i] == rest[i - 1]);
                } else {
                    assert(lex_lt(m, buckets[0].folder));
                }
            }
        }
    }
}

proof fn lemma_put_keeps_songs(buckets: Seq<BucketView>, folder: Seq<char>, song: SongInfo)
    ensures
        song_bag(put_into(buckets, folder, song)) =~= song_bag(buckets).insert(song),
    decreases buckets.len(),
{
    broadcast use vstd::seq_lib::group_to_multiset_ensures;

    let r = put_into(buckets, folder, song);
    if buckets.len() == 0 || lex_lt(folder, buckets[0].folder) {
        assert(r.drop_first() =~= buckets);
        assert(seq![song] =~= Seq::<SongInfo>::empty().push(song));
    } else if buckets[0].folder == folder {
        assert(r.drop_first() =~= buckets.drop_first());
    } else {
        lemma_put_keeps_songs(buckets.drop_first(), folder, song);
        assert(r.drop_first() =~= put_into(buckets.drop_first(), folder, song));
    }
}

/// Sorting songs into buckets neither loses nor repeats one.
pub proof fn law_buckets_keep_songs(songs: Seq<SongInfo>)
    ensures
        song_bag(buckets_of(songs)) == songs.to_multiset(),
    decreases songs.len(),
{
    broadcast use vstd::seq_lib::group_to_multiset_ensures;

    if songs.len() > 0 {
        let init = songs.drop_last();
        law_buckets_keep_songs(init);
        lemma_put_keeps_songs(buckets_of(init), bucket_of(songs.last().uri@), songs.last());
        assert(songs =~= init.push(songs.last()));
    }
}

/// The MusicBrainz ID of the album that a song is tagged with.
pub open spec fn mbid_at(song: SongInfo) -> Option<Seq<char>> {
    match song.album {
        Some(album) => opt_view(album.mbid),
        None => None,
    }
}

/// How many of the songs are tagged with the MusicBrainz ID `id`.
pub open spec fn mbid_count(songs: Seq<SongInfo>, id: Seq<char>) -> nat
    decreases songs.len(),
{
    if songs.len() == 0 {
        0
    } else {
        mbid_count(songs.drop_last(), id) + (if mbid_at(songs.last()) == Some(id) {
            1nat
        } else {
            0nat
        })
    }
}

/// Of the MusicBrainz IDs of the first `n` songs the one that is most common among all songs, and of
/// several the one that comes first.
pub open spec fn leading_mbid(songs: Seq<SongInfo>, n: int) -> Option<Seq<char>>
    decreases n,
{
    if n <= 0 {
        None
    } else {
        let best = leading_mbid(songs, n - 1);
        match mbid_at(songs[n - 1]) {
            None => best,
            Some(id) => match best {
                None => Some(id),
                Some(other) => if mbid_count(songs, id) > mbid_count(songs, other) {
                    Some(id)
                } else {
                    best
                },
            },
        }
    }
}

/// The most common MusicBrainz ID of the songs, and of several the one that comes first.
pub open spec fn common_mbid(songs: Seq<SongInfo>) -> Option<Seq<char>> {
    leading_mbid(songs, songs.len() as int)
}

/// `common_mbid` is an ID that no other ID outnumbers; it is absent only where no song has an ID.
pub proof fn law_common_mbid(songs: Seq<SongInfo>)
    ensures
        forall|i: int|
            0 <= i < songs.len() ==> (mbid_at(#[trigger] songs[i]) matches Some(id) ==> common_mbid(
                songs,
            ) is Some && mbid_count(songs, id) <= mbid_count(songs, common_mbid(songs)->0)),
        common_mbid(songs) is Some ==> exists|i: int|
            0 <= i < songs.len() && mbid_at(#[trigger] songs[i]) == common_mbid(songs),
{
    lemma_leading_mbid(songs, songs.len() as int);
}

proof fn lemma_leading_mbid(songs: Seq<SongInfo>, n: int)
    requires
        0 <= n <= songs.len(),
    ensures
        forall|i: int|
            0 <= i < n ==> (mbid_at(#[trigger] songs[i]) matches Some(id) ==> leading_mbid(
                songs,
                n,
            ) is Some && mbid_count(songs, id) <= mbid_count(songs, leading_mbid(songs, n)->0)),
        leading_mbid(songs, n) is Some ==> exists|i: int|
            0 <= i < n && mbid_at(#[trigger] songs[i]) == leading_mbid(songs, n),
    decreases n,
{
    if n > 0 {
        lemma_leading_mbid(songs, n - 1);
        assert(mbid_at(songs[n - 1]) == mbid_at(songs[n - 1]));
    }
}

/// The MusicBrainz ID of the album that a song is tagged with.
fn song_mbid(song: &SongInfo) -> (r: Option<&String>)
    ensures
        match mbid_at(*song) {
            Some(id) => r is Some && r->0@ == id,
            None => r is None,
        },
{
    match &song.album {
        Some(album) => match &album.mbid {
            Some(id) => Some(id),
            None => None,
        },
        None => None,
    }
}

fn count_mbid(songs: &Vec<SongInfo>, id: &String) -> (r: usize)
    ensures
        r == mbid_count(songs@, id@),
{
    let mut n: usize = 0;
    let mut i: usize = 0;
    assert(songs@.take(0) =~= Seq::empty());
    while i < songs.len()
        invariant
            i <= songs@.len(),
            n <= i,
            n == mbid_count(songs@.take(i as int), id@),
        decreases songs.len() - i,
    {
        assert(songs@.take(i + 1).drop_last() =~= songs@.take(i as int));
        if let Some(other) = song_mbid(&songs[i]) {
            if same(other.as_str(), id.as_str()) {
                n = n + 1;
            }
        }
        i = i + 1;
    }
    assert(songs@.take(i as int) =~= songs@);
    n
}

fn find_mbid(songs: &Vec<SongInfo>) -> (r: Option<String>)
    ensures
        opt_view(r) == common_mbid(songs@),
{
    let mut best: Option<String> = None;
    let mut best_count: usize = 0;
    let mut i: usize = 0;
    while i < songs.len()
        invariant
            i <= songs@.len(),
            opt_view(best) == leading_mbid(songs@, i as int),
            best is Some ==> best_count == mbid_count(songs@, best->0@),
        decreases songs.len() - i,
    {
        if let Some(id) = song_mbid(&songs[i]) {
            let n: usize = count_mbid(songs, id);
            if best.is_none() || n > best_count {
                best = Some(id.clone());
                best_count = n;
            }
        }
        i = i + 1;
    }
    best
}

/// The number of the track, where a song without one comes behind every numbered one.
pub open spec fn track_key(s: SongInfo) -> i64 {
    match s.track {
        Some(t) => t,
        None => i64::MAX,
    }
}

/// Whether `a` comes before `b` by track number and then by URI.
pub open spec fn by_track(a: SongInfo, b: SongInfo) -> bool {
    track_key(a) < track_key(b) || track_key(a) == track_key(b) && lex_lt(a.uri@, b.uri@)
}

/// Of the first `n` songs the place of the one that comes first by track number and URI.
pub open spec fn first_track(songs: Seq<SongInfo>, n: int) -> int
    decreases n,
{
    if n <= 1 {
        0
    } else {
        let best = first_track(songs, n - 1);
        if by_track(songs[n - 1], songs[best]) {
            n - 1
        } else {
            best
        }
    }
}

fn find_first_track(songs: &Vec<SongInfo>) -> (r: usize)
    requires
        songs@.len() > 0,
    ensures
        r == first_track(songs@, songs@.len() as int),
        r < songs@.len(),
{
    let mut best: usize = 0;
    let mut i: usize = 1;
    while i < songs.len()
        invariant
            1 <= i <= songs@.len(),
            best < i,
            best == first_track(songs@, i as int),
        decreases songs.len() - i,
    {
        let a: i64 = songs[i].track.unwrap_or(i64::MAX);
        let b: i64 = songs[best].track.unwrap_or(i64::MAX);
        if a < b || (a == b && less(songs[i].uri.as_str(), songs[best].uri.as_str())) {
            best = i;
        }
        i = i + 1;
    }
    best
}

/// A copy of an album: its folder, the song that represents it, and its MusicBrainz ID.
struct CopyCandidate {
    folder: String,
    rep: SongInfo,
    mbid: Option<String>,
}

/// What a `CopyCandidate` says.
pub struct CopyView {
    pub folder: Seq<char>,
    pub rep: SongInfo,
    pub mbid: Option<Seq<char>>,
}

impl View for CopyCandidate {
    type V = CopyView;

    closed spec fn view(&self) -> CopyView {
        CopyView { folder: self.folder@, rep: self.rep, mbid: opt_view(self.mbid) }
    }
}

/// The copy of an album that a bucket holds.
pub open spec fn copy_in(b: BucketView) -> CopyView {
    CopyView {
        folder: b.folder,
        rep: b.songs[first_track(b.songs, b.songs.len() as int)],
        mbid: common_mbid(b.songs),
    }
}

/// The copies of albums that the buckets hold.
pub open spec fn copies_in(buckets: Seq<BucketView>) -> Seq<CopyView> {
    buckets.filter(|b: BucketView| b.songs.len() > 0).map_values(|b: BucketView| copy_in(b))
}

spec fn copy_views(s: Seq<CopyCandidate>) -> Seq<CopyView> {
    s.map_values(|c: CopyCandidate| c@)
}

fn make_copies(buckets: Vec<Bucket>) -> (r: Vec<CopyCandidate>)
    ensures
        copy_views(r@) == copies_in(bucket_views(buckets@)),
{
    let ghost views = bucket_views(buckets@);
    let ghost filled = |b: BucketView| b.songs.len() > 0;
    let ghost copy = |b: BucketView| copy_in(b);
    let mut r: Vec<CopyCandidate> = Vec::new();
    assert(views.take(0) =~= Seq::empty());
    assert(views.take(0).filter(filled) =~= Seq::empty()) by {
        reveal(Seq::filter);
    }
    assert(copy_views(r@) =~= views.take(0).filter(filled).map_values(copy));
    for b in it: buckets
        invariant
            it.seq() == buckets@,
            views == bucket_views(buckets@),
            filled == (|b: BucketView| b.songs.len() > 0),
            copy == (|b: BucketView| copy_in(b)),
            copy_views(r@) == views.take(it.index()).filter(filled).map_values(copy),
    {
        let ghost v = b@;
        let ghost init = views.take(it.index());
        proof {
            assert(views.take(it.index() + 1) =~= init.push(v));
            init.lemma_filter_push(v, filled);
            init.filter(filled).lemma_push_map_commute(copy, v);
        }
        if b.songs.len() > 0 {
            let mbid: Option<String> = find_mbid(&b.songs);
            let k: usize = find_first_track(&b.songs);
            let mut songs: Vec<SongInfo> = b.songs;
            let rep: SongInfo = songs.swap_remove(k);
            let ghost had = copy_views(r@);
            let c: CopyCandidate = CopyCandidate { folder: b.folder, rep, mbid };
            assert(c@ == copy_in(v));
            r.push(c);
            assert(copy_views(r@) =~= had.push(copy_in(v)));
        }
    }
    assert(views.take(views.len() as int) =~= views);
    r
}

/// The best grade among the songs whose bucket is `folder`; unknown where there are none.
pub open spec fn grade_of_folder(songs: Seq<SongInfo>, folder: Seq<char>) -> QualityGrade
    decreases songs.len(),
{
    if songs.len() == 0 {
        QualityGrade::Unknown
    } else {
        let best = grade_of_folder(songs.drop_last(), folder);
        let last = songs.last();
        if bucket_of(last.uri@) == folder && last.quality_grade.level() > best.level() {
            last.quality_grade
        } else {
            best
        }
    }
}

/// By what copies are ranked: the grades of the songs in their folders, and the places of their mounts
/// in the user's order.
pub struct RankingView {
    pub songs: Seq<SongInfo>,
    pub mounts: Seq<Mount>,
    pub order: Seq<String>,
}

/// The rank of a copy.
#[verifier::ext_equal]
pub struct RankView {
    pub grade: QualityGrade,
    pub place: int,
    pub mount: Option<Seq<char>>,
}

/// The rank of the copy whose folder is `uri`.
pub open spec fn rank_of(by: RankingView, uri: Seq<char>) -> RankView {
    RankView {
        grade: grade_of_folder(by.songs, uri),
        place: mount_rank(by.order, mount_of(by.mounts, uri)),
        mount: mount_of(by.mounts, uri),
    }
}

/// The folder and the grade of one song.
struct FolderGrade {
    folder: String,
    grade: QualityGrade,
}

/// Ranks the copies of albums by the grades of their songs and by the mounts that they lie on.
pub struct CopyRanks<'a> {
    grades: Vec<FolderGrade>,
    registry: &'a MountRegistry,
    songs: Ghost<Seq<SongInfo>>,
}

impl<'a> CopyRanks<'a> {
    /// The songs, mounts and order that the ranks come from.
    pub closed spec fn ranking(&self) -> RankingView {
        RankingView {
            songs: self.songs@,
            mounts: self.registry.mounts(),
            order: self.registry.order(),
        }
    }

    #[verifier::type_invariant]
    spec fn grades_are_those_of_the_songs(&self) -> bool {
        &&& self.grades@.len() == self.songs@.len()
        &&& forall|i: int|
            0 <= i < self.grades@.len() ==> {
                &&& (#[trigger] self.grades@[i]).folder@ == bucket_of(self.songs@[i].uri@)
                &&& self.grades@[i].grade == self.songs@[i].quality_grade
            }
    }

    /// Ranks by the grades of `songs` and by the mounts of `registry`.
    pub fn new(songs: &Vec<SongInfo>, registry: &'a MountRegistry) -> (r: Self)
        ensures
            r.ranking() == (RankingView {
                songs: songs@,
                mounts: registry.mounts(),
                order: registry.order(),
            }),
    {
        let mut grades: Vec<FolderGrade> = Vec::new();
        for i in 0..songs.len()
            invariant
                grades@.len() == i,
                forall|j: int|
                    0 <= j < i ==> {
                        &&& (#[trigger] grades@[j]).folder@ == bucket_of(songs@[j].uri@)
                        &&& grades@[j].grade == songs@[j].quality_grade
                    },
        {
            let folder: String = bucket_key(songs[i].uri.as_str());
            grades.push(FolderGrade { folder, grade: songs[i].quality_grade });
        }
        CopyRanks { grades, registry, songs: Ghost(songs@) }
    }

    /// The best grade among the songs whose bucket is `folder`.
    fn grade_at(&self, folder: &str) -> (r: QualityGrade)
        ensures
            r == grade_of_folder(self.ranking().songs, folder@),
    {
        proof {
            use_type_invariant(self);
        }
        let mut best: QualityGrade = QualityGrade::Unknown;
        let mut i: usize = 0;
        assert(self.songs@.take(0) =~= Seq::empty());
        while i < self.grades.len()
            invariant
                i <= self.grades@.len(),
                self.grades_are_those_of_the_songs(),
                best == grade_of_folder(self.songs@.take(i as int), folder@),
            decreases self.grades.len() - i,
        {
            assert(self.songs@.take(i + 1).drop_last() =~= self.songs@.take(i as int));
            assert(self.grades@[i as int].folder@ == bucket_of(self.songs@[i as int].uri@));
            if same(self.grades[i].folder.as_str(), folder) && self.grades[i].grade.better_than(
                best,
            ) {
                best = self.grades[i].grade;
            }
            i = i + 1;
        }
        assert(self.songs@.take(i as int) =~= self.songs@);
        best
    }

    /// The grade, the place of the mount and the name of the mount of the copy whose folder is `uri`.
    pub fn rank_for_uri(&self, uri: &str) -> (r: (QualityGrade, usize, Option<String>))
        ensures
            r.0 == rank_of(self.ranking(), uri@).grade,
            r.1 == rank_of(self.ranking(), uri@).place,
            opt_view(r.2) == rank_of(self.ranking(), uri@).mount,
    {
        let grade: QualityGrade = self.grade_at(uri);
        let mount: Option<&str> = self.registry.classify(uri);
        let place: usize = self.registry.rank(mount);
        match mount {
            Some(name) => (grade, place, Some(name.to_owned())),
            None => (grade, place, None),
        }
    }
}

/// A copy with its rank.
struct RankedCopy {
    folder: String,
    grade: QualityGrade,
    place: usize,
    mount: Option<String>,
}

/// What a `RankedCopy` says.
#[verifier::ext_equal]
pub struct RankedView {
    pub folder: Seq<char>,
    pub rank: RankView,
}

impl View for RankedCopy {
    type V = RankedView;

    closed spec fn view(&self) -> RankedView {
        RankedView {
            folder: self.folder@,
            rank: RankView {
                grade: self.grade,
                place: self.place as int,
                mount: opt_view(self.mount),
            },
        }
    }
}

/// Whether `a` is preferred to `b`: by the better grade, then by the mount that stands first in the
/// user's order, then by the folder that comes first.
pub open spec fn is_preferred(a: RankedView, b: RankedView) -> bool {
    ||| a.rank.grade.level() > b.rank.grade.level()
    ||| a.rank.grade.level() == b.rank.grade.level() && a.rank.place < b.rank.place
    ||| a.rank.grade.level() == b.rank.grade.level() && a.rank.place == b.rank.place && lex_lt(
        a.folder,
        b.folder,
    )
}

/// The order of copies, the preferred ones first.
pub open spec fn preference() -> spec_fn(RankedView, RankedView) -> bool {
    |a: RankedView, b: RankedView| !is_preferred(b, a)
}

proof fn lemma_preference()
    ensures
        is_total_preorder(preference()),
{
    let leq = preference();
    assert forall|a: RankedView, b: RankedView| #[trigger] leq(a, b) || leq(b, a) by {
        lemma_lex_total(a.folder, b.folder);
    }
    assert forall|a: RankedView, b: RankedView, c: RankedView|
        #![trigger leq(a, b), leq(b, c)]
        leq(a, b) && leq(b, c) implies leq(a, c) by {
        lemma_lex_total(a.folder, b.folder);
        lemma_lex_total(b.folder, c.folder);
        lemma_lex_total(a.folder, c.folder);
        if lex_lt(a.folder, b.folder) && lex_lt(b.folder, c.folder) {
            lemma_lex_transitive(a.folder, b.folder, c.folder);
        }
    }
}

/// The copies with the MusicBrainz ID `mbid` and their ranks.
pub open spec fn group_of(copies: Seq<CopyView>, by: RankingView, mbid: Option<Seq<char>>) -> Seq<
    RankedView,
> {
    copies.filter(|c: CopyView| c.mbid == mbid).map_values(
        |c: CopyView| RankedView { folder: c.folder, rank: rank_of(by, c.folder) },
    )
}

/// The copies with the MusicBrainz ID `mbid`, the preferred ones first.
pub open spec fn sorted_group(
    copies: Seq<CopyView>,
    by: RankingView,
    mbid: Option<Seq<char>>,
) -> Seq<RankedView> {
    stable_sorted(group_of(copies, by, mbid), preference())
}

/// Whether a copy is the preferred one of its group.
pub open spec fn is_canonical(copies: Seq<CopyView>, by: RankingView, c: CopyView) -> bool {
    let group = sorted_group(copies, by, c.mbid);
    group.len() > 0 && group[0].folder == c.folder
}

/// The copies that are shown: of each group the preferred one, where its song is tagged with an album.
pub open spec fn shown_copies(copies: Seq<CopyView>, by: RankingView) -> Seq<CopyView> {
    copies.filter(|c: CopyView| is_canonical(copies, by, c) && c.rep.album is Some)
}

/// How a copy appears among the alternates of another.
pub open spec fn as_alternate(c: RankedView) -> AlbumCopyView {
    AlbumCopyView { folder_uri: c.folder, mount_name: c.rank.mount, quality_grade: c.rank.grade }
}

/// Whether `info` is the album of the copy `c` with the rest of its group as alternates.
pub open spec fn is_info_of(
    info: AlbumInfo,
    copies: Seq<CopyView>,
    by: RankingView,
    c: CopyView,
) -> bool {
    let album = c.rep.album->0;
    let group = sorted_group(copies, by, c.mbid);
    &&& info.title == album.title
    &&& info.artists == album.artists
    &&& info.albumartist == album.albumartist
    &&& info.release_date == album.release_date
    &&& info.mbid == album.mbid
    &&& info.folder_uri@ == c.folder
    &&& opt_view(info.mount_name) == rank_of(by, c.folder).mount
    &&& info.quality_grade == rank_of(by, c.folder).grade
    &&& info.alternates@.map_values(|a: AlbumCopy| a@) == group.drop_first().map_values(
        |r: RankedView| as_alternate(r),
    )
}

/// Whether `infos` are the albums of the copies that are shown, in the order of their folders.
pub open spec fn are_infos_of(infos: Seq<AlbumInfo>, copies: Seq<CopyView>, by: RankingView) -> bool {
    let shown = shown_copies(copies, by);
    &&& infos.len() == shown.len()
    &&& forall|i: int|
        0 <= i < shown.len() ==> is_info_of(#[trigger] infos[i], copies, by, shown[i])
}

/// The copies of albums among the songs, those of one set merged.
pub open spec fn album_copies(songs: Seq<SongInfo>) -> Seq<CopyView> {
    copies_in(merged_discs(buckets_of(songs)))
}

spec fn ranked_views(s: Seq<RankedCopy>) -> Seq<RankedView> {
    s.map_values(|c: RankedCopy| c@)
}

/// Whether two optional strings are the same.
fn same_opt(a: &Option<String>, b: &Option<String>) -> (r: bool)
    ensures
        r == (opt_view(*a) == opt_view(*b)),
{
    match (a, b) {
        (Some(x), Some(y)) => same(x.as_str(), y.as_str()),
        (None, None) => true,
        _ => false,
    }
}

/// The copies with the MusicBrainz ID `mbid`, the preferred ones first.
fn sort_group(copies: &Vec<CopyCandidate>, ranks: &CopyRanks, mbid: &Option<String>) -> (r: Vec<
    RankedCopy,
>)
    ensures
        ranked_views(r@) == sorted_group(copy_views(copies@), ranks.ranking(), opt_view(*mbid)),
{
    let ghost views = copy_views(copies@);
    let ghost by = ranks.ranking();
    let ghost id = opt_view(*mbid);
    let ghost of_group = |c: CopyView| c.mbid == id;
    let ghost ranked = |c: CopyView| RankedView { folder: c.folder, rank: rank_of(by, c.folder) };
    let mut group: Vec<RankedCopy> = Vec::new();
    assert(views.take(0) =~= Seq::empty());
    assert(views.take(0).filter(of_group) =~= Seq::empty()) by {
        reveal(Seq::filter);
    }
    assert(ranked_views(group@) =~= views.take(0).filter(of_group).map_values(ranked));
    for i in 0..copies.len()
        invariant
            views == copy_views(copies@),
            by == ranks.ranking(),
            id == opt_view(*mbid),
            of_group == (|c: CopyView| c.mbid == id),
            ranked == (|c: CopyView|
                RankedView { folder: c.folder, rank: rank_of(by, c.folder) }),
            ranked_views(group@) == views.take(i as int).filter(of_group).map_values(ranked),
    {
        let ghost init = views.take(i as int);
        let ghost v = copies@[i as int]@;
        proof {
            assert(views.take(i + 1) =~= init.push(v));
            init.lemma_filter_push(v, of_group);
            init.filter(of_group).lemma_push_map_commute(ranked, v);
        }
        if same_opt(&copies[i].mbid, mbid) {
            let folder: String = copies[i].folder.clone();
            let (grade, place, mount): (QualityGrade, usize, Option<String>) = ranks.rank_for_uri(
                folder.as_str(),
            );
            let ghost had = ranked_views(group@);
            let c: RankedCopy = RankedCopy { folder, grade, place, mount };
            assert(c@ =~= ranked(v));
            group.push(c);
            assert(ranked_views(group@) =~= had.push(ranked(v)));
        }
    }
    assert(views.take(views.len() as int) =~= views);
    let leq = |a: &RankedCopy, b: &RankedCopy| -> (o: bool)
        ensures
            o == !is_preferred(b@, a@),
        {
            let x: u8 = a.grade.as_level();
            let y: u8 = b.grade.as_level();
            !(y > x || (y == x && (b.place < a.place || (b.place == a.place && less(
                b.folder.as_str(),
                a.folder.as_str(),
            )))))
        };
    let ghost by_view = |a: RankedCopy, b: RankedCopy| preference()(a@, b@);
    proof {
        lemma_preference();
        let view = |c: RankedCopy| c@;
        let pref = preference();
        assert(is_total_preorder(by_view)) by {
            assert forall|a: RankedCopy, b: RankedCopy| #[trigger]
                by_view(a, b) || by_view(b, a) by {
                assert(pref(a@, b@) || pref(b@, a@));
            }
            assert forall|a: RankedCopy, b: RankedCopy, c: RankedCopy|
                #![trigger by_view(a, b), by_view(b, c)]
                by_view(a, b) && by_view(b, c) implies by_view(a, c) by {
                assert(pref(a@, b@) && pref(b@, c@));
            }
        }
        crate::order::lemma_sorted_map(group@, view, by_view, preference());
    }
    sort_stable(group, &leq, Ghost(by_view))
}

/// The alternates of a copy: the rest of its group.
fn make_alternates(group: Vec<RankedCopy>) -> (r: Vec<AlbumCopy>)
    requires
        group@.len() > 0,
    ensures
        r@.map_values(|a: AlbumCopy| a@) == ranked_views(group@).drop_first().map_values(
            |r: RankedView| as_alternate(r),
        ),
{
    let ghost views = ranked_views(group@);
    let mut group = group;
    let _ = group.remove(0);
    assert(ranked_views(group@) =~= views.drop_first());
    let ghost rest = group@;
    let mut r: Vec<AlbumCopy> = Vec::new();
    for c in it: group
        invariant
            it.seq() == rest,
            r@.len() == it.index(),
            forall|i: int|
                0 <= i < r@.len() ==> (#[trigger] r@[i])@ == as_alternate(rest[i]@),
    {
        let a: AlbumCopy = AlbumCopy {
            folder_uri: c.folder,
            mount_name: c.mount,
            quality_grade: c.grade,
        };
        assert(a@ == as_alternate(c@));
        r.push(a);
    }
    assert(r@.map_values(|a: AlbumCopy| a@) =~= views.drop_first().map_values(
        |r: RankedView| as_alternate(r),
    ));
    r
}

/// Buckets the songs of one album into copies and picks of each group of copies the one to show, with
/// the others as its alternates. The albums come in the order of their folders.
pub fn build_dedup_album_infos(songs: Vec<SongInfo>, ranks: &CopyRanks) -> (r: Vec<AlbumInfo>)
    ensures
        are_infos_of(r@, album_copies(songs@), ranks.ranking()),
{
    let mut copies: Vec<CopyCandidate> = make_copies(merge_discs(make_buckets(songs)));
    let ghost views = copy_views(copies@);
    let ghost by = ranks.ranking();
    // What is shown of each copy: nothing where another copy of its group is preferred.
    let mut plans: Vec<Option<Vec<AlbumCopy>>> = Vec::new();
    for i in 0..copies.len()
        invariant
            views == copy_views(copies@),
            by == ranks.ranking(),
            plans@.len() == i,
            forall|j: int|
                0 <= j < i ==> ((#[trigger] plans@[j]) is Some <==> is_canonical(
                    views,
                    by,
                    views[j],
                )),
            forall|j: int|
                0 <= j < i ==> ((#[trigger] plans@[j]) matches Some(alternates)
                    ==> alternates@.map_values(|a: AlbumCopy| a@) == sorted_group(
                    views,
                    by,
                    views[j].mbid,
                ).drop_first().map_values(|r: RankedView| as_alternate(r))),
    {
        let group: Vec<RankedCopy> = sort_group(&copies, ranks, &copies[i].mbid);
        assert(views[i as int] == copies@[i as int]@);
        if group.len() > 0 && same(group[0].folder.as_str(), copies[i].folder.as_str()) {
            assert(ranked_views(group@)[0] == group@[0]@);
            plans.push(Some(make_alternates(group)));
        } else {
            proof {
                if group@.len() > 0 {
                    assert(ranked_views(group@)[0] == group@[0]@);
                }
            }
            plans.push(None);
        }
    }
    let ghost shown = |c: CopyView| is_canonical(views, by, c) && c.rep.album is Some;
    let ghost all_plans = plans@;
    let ghost mut k: int = 0;
    let mut out: Vec<AlbumInfo> = Vec::new();
    assert(views.take(0) =~= Seq::empty());
    assert(views.take(0).filter(shown) =~= Seq::empty()) by {
        reveal(Seq::filter);
    }
    while copies.len() > 0
        invariant
            by == ranks.ranking(),
            shown == (|c: CopyView| is_canonical(views, by, c) && c.rep.album is Some),
            0 <= k <= views.len(),
            copy_views(copies@) == views.skip(k),
            plans@ == all_plans.skip(k),
            all_plans.len() == views.len(),
            forall|j: int|
                0 <= j < views.len() ==> ((#[trigger] all_plans[j]) is Some <==> is_canonical(
                    views,
                    by,
                    views[j],
                )),
            forall|j: int|
                0 <= j < views.len() ==> ((#[trigger] all_plans[j]) matches Some(alternates)
                    ==> alternates@.map_values(|a: AlbumCopy| a@) == sorted_group(
                    views,
                    by,
                    views[j].mbid,
                ).drop_first().map_values(|r: RankedView| as_alternate(r))),
            out@.len() == views.take(k).filter(shown).len(),
            forall|i: int|
                0 <= i < out@.len() ==> is_info_of(
                    #[trigger] out@[i],
                    views,
                    by,
                    views.take(k).filter(shown)[i],
                ),
        decreases copies@.len(),
    {
        proof {
            assert(copy_views(copies@).len() == copies@.len());
            assert(views.skip(k)[0] == views[k]);
            assert(copies@[0]@ == views[k]);
            assert(plans@[0] == all_plans[k]);
            assert(views.take(k + 1) =~= views.take(k).push(views[k]));
            views.take(k).lemma_filter_push(views[k], shown);
        }
        let c: CopyCandidate = copies.remove(0);
        let plan: Option<Vec<AlbumCopy>> = plans.remove(0);
        let ghost had = out@;
        assert(copy_views(copies@) =~= views.skip(k).drop_first());
        assert(views.skip(k).drop_first() =~= views.skip(k + 1));
        assert(plans@ =~= all_plans.skip(k + 1));
        if let Some(alternates) = plan {
            if let Some(album) = c.rep.into_album_info() {
                let (grade, _place, mount): (QualityGrade, usize, Option<String>) =
                    ranks.rank_for_uri(c.folder.as_str());
                let info: AlbumInfo = AlbumInfo {
                    title: album.title,
                    folder_uri: c.folder,
                    artists: album.artists,
                    albumartist: album.albumartist,
                    release_date: album.release_date,
                    mbid: album.mbid,
                    mount_name: mount,
                    quality_grade: grade,
                    alternates,
                };
                assert(is_info_of(info, views, by, views[k]));
                out.push(info);
            }
        }
        proof {
            k = k + 1;
        }
    }
    assert(views.take(views.len() as int) =~= views);
    out
}

/// A copy with its rank.
pub open spec fn ranked_copy(by: RankingView, c: CopyView) -> RankedView {
    RankedView { folder: c.folder, rank: rank_of(by, c.folder) }
}

/// Whether `r` is one of the copies with the MusicBrainz ID `mbid`, with its rank.
spec fn is_member(
    copies: Seq<CopyView>,
    by: RankingView,
    mbid: Option<Seq<char>>,
    r: RankedView,
) -> bool {
    exists|x: CopyView|
        copies.contains(x) && x.mbid == mbid && #[trigger] ranked_copy(by, x) == r
}

proof fn lemma_group_members(copies: Seq<CopyView>, by: RankingView, mbid: Option<Seq<char>>)
    ensures
        forall|x: CopyView|
            copies.contains(x) && x.mbid == mbid ==> sorted_group(copies, by, mbid).contains(
                #[trigger] ranked_copy(by, x),
            ),
        forall|i: int|
            0 <= i < sorted_group(copies, by, mbid).len() ==> is_member(
                copies,
                by,
                mbid,
                #[trigger] sorted_group(copies, by, mbid)[i],
            ),
        crate::order::is_sorted_by(sorted_group(copies, by, mbid), preference()),
{
    broadcast use vstd::seq_lib::group_to_multiset_ensures;

    let of_group = |c: CopyView| c.mbid == mbid;
    let ranked = |c: CopyView| RankedView { folder: c.folder, rank: rank_of(by, c.folder) };
    let members = copies.filter(of_group);
    let group = group_of(copies, by, mbid);
    let sorted = sorted_group(copies, by, mbid);
    assert(group == members.map_values(ranked));
    lemma_preference();
    crate::order::law_stable_sorted(group, preference());
    assert forall|x: CopyView| copies.contains(x) && x.mbid == mbid implies sorted.contains(
        #[trigger] ranked_copy(by, x),
    ) by {
        let j = choose|j: int| 0 <= j < copies.len() && copies[j] == x;
        assert(of_group(copies[j]));
        copies.lemma_filter_contains(of_group, j);
        assert(members.contains(x));
        let k = choose|k: int| 0 <= k < members.len() && members[k] == x;
        assert(group[k] == ranked_copy(by, x));
        assert(group.to_multiset().count(ranked_copy(by, x)) > 0);
    }
    assert forall|i: int| 0 <= i < sorted.len() implies is_member(
        copies,
        by,
        mbid,
        #[trigger] sorted[i],
    ) by {
        assert(sorted.to_multiset().count(sorted[i]) > 0);
        assert(group.contains(sorted[i]));
        let k = choose|k: int| 0 <= k < group.len() && group[k] == sorted[i];
        let x = members[k];
        assert(members.contains(x));
        copies.lemma_filter_contains_rev(of_group, x);
        copies.lemma_filter_pred(of_group, k);
        assert(of_group(x) && copies.contains(x));
        assert(ranked_copy(by, x) == sorted[i]);
    }
}

/// The copy that is shown of a group is one that no other copy of the group is preferred to.
pub proof fn law_shown_copy_is_preferred(
    copies: Seq<CopyView>,
    by: RankingView,
    c: CopyView,
    other: CopyView,
)
    requires
        copies.contains(c),
        copies.contains(other),
        is_canonical(copies, by, c),
        other.mbid == c.mbid,
    ensures
        !is_preferred(ranked_copy(by, other), ranked_copy(by, c)),
{
    let group = sorted_group(copies, by, c.mbid);
    let leq = preference();
    lemma_group_members(copies, by, c.mbid);
    assert(group.contains(ranked_copy(by, other)));
    let k = choose|k: int| 0 <= k < group.len() && group[k] == ranked_copy(by, other);
    assert(leq(group[0], group[k]));
    assert(is_member(copies, by, c.mbid, group[0]));
    let x = choose|x: CopyView|
        copies.contains(x) && x.mbid == c.mbid && #[trigger] ranked_copy(by, x) == group[0];
    assert(group[0] =~= ranked_copy(by, c));
}

/// No copy is lost: each is the preferred one of its group or stands among the others behind it.
pub proof fn law_every_copy_is_in_its_group(copies: Seq<CopyView>, by: RankingView, c: CopyView)
    requires
        copies.contains(c),
    ensures
        is_canonical(copies, by, c) || sorted_group(copies, by, c.mbid).drop_first().contains(
            ranked_copy(by, c),
        ),
        exists|x: CopyView|
            copies.contains(x) && x.mbid == c.mbid && #[trigger] is_canonical(copies, by, x),
{
    let group = sorted_group(copies, by, c.mbid);
    lemma_group_members(copies, by, c.mbid);
    assert(group.contains(ranked_copy(by, c)));
    let k = choose|k: int| 0 <= k < group.len() && group[k] == ranked_copy(by, c);
    if k > 0 {
        assert(group.drop_first()[k - 1] == group[k]);
    }
    assert(is_member(copies, by, c.mbid, group[0]));
    let x = choose|x: CopyView|
        copies.contains(x) && x.mbid == c.mbid && #[trigger] ranked_copy(by, x) == group[0];
    assert(is_canonical(copies, by, x));
}

/// Whether the folders of the copies are in strictly ascending order.
pub open spec fn copies_ascend(copies: Seq<CopyView>) -> bool {
    forall|i: int, j: int|
        0 <= i < j < copies.len() ==> lex_lt(
            (#[trigger] copies[i]).folder,
            (#[trigger] copies[j]).folder,
        )
}

proof fn lemma_filter_ascends(copies: Seq<CopyView>, p: spec_fn(CopyView) -> bool)
    requires
        copies_ascend(copies),
    ensures
        copies_ascend(copies.filter(p)),
    decreases copies.len(),
{
    reveal(Seq::filter);
    if copies.len() > 0 {
        let init = copies.drop_last();
        lemma_filter_ascends(init, p);
        let kept = init.filter(p);
        if p(copies.last()) {
            let all = kept.push(copies.last());
            assert forall|i: int, j: int| 0 <= i < j < all.len() implies lex_lt(
                (#[trigger] all[i]).folder,
                (#[trigger] all[j]).folder,
            ) by {
                if j == kept.len() {
                    assert(kept.contains(kept[i]));
                    init.lemma_filter_contains_rev(p, kept[i]);
                    let k = choose|k: int| 0 <= k < init.len() && init[k] == kept[i];
                    assert(lex_lt(copies[k].folder, copies[copies.len() - 1].folder));
                }
            }
        }
    }
}

proof fn lemma_copies_ascend(buckets: Seq<BucketView>)
    requires
        folders_ascend(buckets),
    ensures
        copies_ascend(copies_in(buckets)),
{
    let filled = |b: BucketView| b.songs.len() > 0;
    lemma_filled_ascend(buckets, filled);
    let kept = buckets.filter(filled);
    let copies = copies_in(buckets);
    assert forall|i: int, j: int| 0 <= i < j < copies.len() implies lex_lt(
        (#[trigger] copies[i]).folder,
        (#[trigger] copies[j]).folder,
    ) by {
        assert(copies[i].folder == kept[i].folder && copies[j].folder == kept[j].folder);
    }
}

proof fn lemma_filled_ascend(buckets: Seq<BucketView>, p: spec_fn(BucketView) -> bool)
    requires
        folders_ascend(buckets),
    ensures
        folders_ascend(buckets.filter(p)),
    decreases buckets.len(),
{
    reveal(Seq::filter);
    if buckets.len() > 0 {
        let init = buckets.drop_last();
        lemma_filled_ascend(init, p);
        let kept = init.filter(p);
        if p(buckets.last()) {
            let all = kept.push(buckets.last());
            assert forall|i: int, j: int| 0 <= i < j < all.len() implies lex_lt(
                (#[trigger] all[i]).folder,
                (#[trigger] all[j]).folder,
            ) by {
                if j == kept.len() {
                    assert(kept.contains(kept[i]));
                    init.lemma_filter_contains_rev(p, kept[i]);
                    let k = choose|k: int| 0 <= k < init.len() && init[k] == kept[i];
                    assert(lex_lt(buckets[k].folder, buckets[buckets.len() - 1].folder));
                }
            }
        }
    }
}

/// The albums that are shown come in the strictly ascending order of their folders, so no folder is
/// shown twice.
pub proof fn law_shown_albums_ascend(songs: Seq<SongInfo>, by: RankingView)
    ensures
        copies_ascend(album_copies(songs)),
        copies_ascend(shown_copies(album_copies(songs), by)),
{
    let buckets = buckets_of(songs);
    law_buckets(songs);
    lemma_merging(buckets);
    lemma_copies_ascend(merged_discs(buckets));
    let copies = album_copies(songs);
    lemma_filter_ascends(copies, |c: CopyView| is_canonical(copies, by, c) && c.rep.album is Some);
}

/// The folder of a song is what stands before the last slash of its URI.
pub proof fn law_bucket_of(folder: Seq<char>, name: Seq<char>)
    requires
        folder.len() > 0,
        folder.last() != '/',
        !name.contains('/'),
    ensures
        bucket_of(folder + seq!['/'] + name) == folder,
        name.len() > 0 ==> bucket_of(name) == Seq::<char>::empty(),
{
    let uri = folder + seq!['/'] + name;
    let k = folder.len() as int;
    lemma_last_index_of_char(uri, '/');
    let l = last_index_of_char(uri, '/');
    assert(uri[k] == '/');
    if l > k {
        assert(name[l - k - 1] == uri[l]);
        assert(name.contains('/'));
    }
    assert(l == k);
    assert(folder_of(uri) =~= folder.push('/'));
    assert(folder.push('/').drop_last() =~= folder);
    reveal_with_fuel(without_slashes, 2);
    lemma_last_index_of_char(name, '/');
    let m = last_index_of_char(name, '/');
    if m >= 0 {
        assert(name.contains('/'));
    }
    assert(folder_of(name) =~= Seq::empty());
}

/// Folders are siblings where they have different names in one folder.
pub proof fn law_siblings(parent: Seq<char>, other: Seq<char>, x: Seq<char>, y: Seq<char>)
    requires
        !x.contains('/'),
        !y.contains('/'),
    ensures
        are_siblings(parent + seq!['/'] + x, other + seq!['/'] + y) <==> parent == other && x != y,
        !are_siblings(x, parent + seq!['/'] + y),
        !are_siblings(parent + seq!['/'] + x, y),
        !are_siblings(x, y),
        name_of(parent + seq!['/'] + x) == x,
{
    lemma_path(parent, x);
    lemma_path(other, y);
    lemma_path(parent, y);
    lemma_last_index_of_char(x, '/');
    lemma_last_index_of_char(y, '/');
    if last_index_of_char(x, '/') >= 0 {
        assert(x.contains('/'));
    }
    if last_index_of_char(y, '/') >= 0 {
        assert(y.contains('/'));
    }
    let a = parent + seq!['/'] + x;
    let b = other + seq!['/'] + y;
    if parent == other && x != y && a == b {
        assert(a.skip(parent.len() as int + 1) =~= x);
        assert(b.skip(parent.len() as int + 1) =~= y);
    }
}

proof fn lemma_path(parent: Seq<char>, name: Seq<char>)
    requires
        !name.contains('/'),
    ensures
        last_index_of_char(parent + seq!['/'] + name, '/') == parent.len(),
        parent_of(parent + seq!['/'] + name) == Some(parent),
        name_of(parent + seq!['/'] + name) == name,
{
    let path = parent + seq!['/'] + name;
    let k = parent.len() as int;
    lemma_last_index_of_char(path, '/');
    let l = last_index_of_char(path, '/');
    assert(path[k] == '/');
    if l > k {
        assert(name[l - k - 1] == path[l]);
        assert(name.contains('/'));
    }
    assert(path.take(k) =~= parent);
    assert(path.skip(k + 1) =~= name);
}

proof fn lemma_digits_behind(stem: Seq<char>, number: Seq<char>)
    requires
        stem.len() == 0 || !('0' <= stem.last() <= '9'),
        forall|i: int| 0 <= i < number.len() ==> '0' <= #[trigger] number[i] <= '9',
    ensures
        digits_start(stem + number) == stem.len(),
    decreases number.len(),
{
    if number.len() == 0 {
        assert(stem + number =~= stem);
    } else {
        let init = number.drop_last();
        assert forall|i: int| 0 <= i < init.len() implies '0' <= #[trigger] init[i] <= '9' by {
            assert(init[i] == number[i]);
        }
        lemma_digits_behind(stem, init);
        assert((stem + number).drop_last() =~= stem + init);
        assert((stem + number).last() == number.last());
    }
}

/// Folders that are called by a stem and digits behind it are numbered siblings where the stems are the same
/// and the digits are not, however long they are. A name that ends in no digit is not numbered.
pub proof fn law_numbered_folders(
    parent: Seq<char>,
    stem_a: Seq<char>,
    digits_a: Seq<char>,
    stem_b: Seq<char>,
    digits_b: Seq<char>,
)
    requires
        !(stem_a + digits_a).contains('/'),
        !(stem_b + digits_b).contains('/'),
        stem_a.len() == 0 || !('0' <= stem_a.last() <= '9'),
        stem_b.len() == 0 || !('0' <= stem_b.last() <= '9'),
        forall|i: int| 0 <= i < digits_a.len() ==> '0' <= #[trigger] digits_a[i] <= '9',
        forall|i: int| 0 <= i < digits_b.len() ==> '0' <= #[trigger] digits_b[i] <= '9',
    ensures
        are_numeric_siblings(
            parent + seq!['/'] + (stem_a + digits_a),
            parent + seq!['/'] + (stem_b + digits_b),
        ) <==> digits_a.len() > 0 && digits_b.len() > 0 && stem_a == stem_b && digits_a != digits_b,
{
    lemma_path(parent, stem_a + digits_a);
    lemma_path(parent, stem_b + digits_b);
    lemma_digits_behind(stem_a, digits_a);
    lemma_digits_behind(stem_b, digits_b);
    assert((stem_a + digits_a).take(stem_a.len() as int) =~= stem_a);
    assert((stem_a + digits_a).skip(stem_a.len() as int) =~= digits_a);
    assert((stem_b + digits_b).take(stem_b.len() as int) =~= stem_b);
    assert((stem_b + digits_b).skip(stem_b.len() as int) =~= digits_b);
}

proof fn lemma_no_bucket(buckets: Seq<BucketView>, f: Seq<char>, i: int)
    requires
        folders_ascend(buckets),
        0 <= i < buckets.len(),
        buckets[i].folder == f,
    ensures
        songs_in(buckets, f) == buckets[i].songs,
    decreases buckets.len(),
{
    lemma_lex_irreflexive(f);
    if i > 0 {
        let rest = buckets.drop_first();
        assert(rest[i - 1] == buckets[i]);
        assert(lex_lt(buckets[0].folder, buckets[i].folder));
        assert forall|k: int, l: int| 0 <= k < l < rest.len() implies lex_lt(
            (#[trigger] rest[k]).folder,
            (#[trigger] rest[l]).folder,
        ) by {
            assert(rest[k] == buckets[k + 1] && rest[l] == buckets[l + 1]);
        }
        lemma_no_bucket(rest, f, i - 1);
    }
}

proof fn lemma_missing_bucket(buckets: Seq<BucketView>, f: Seq<char>)
    requires
        forall|i: int| 0 <= i < buckets.len() ==> (#[trigger] buckets[i]).folder != f,
    ensures
        songs_in(buckets, f).len() == 0,
    decreases buckets.len(),
{
    if buckets.len() > 0 {
        let rest = buckets.drop_first();
        assert forall|i: int| 0 <= i < rest.len() implies (#[trigger] rest[i]).folder != f by {
            assert(rest[i] == buckets[i + 1]);
        }
        assert(buckets[0].folder != f);
        lemma_missing_bucket(rest, f);
    }
}

proof fn lemma_put_fills(buckets: Seq<BucketView>, folder: Seq<char>, song: SongInfo)
    requires
        forall|i: int| 0 <= i < buckets.len() ==> (#[trigger] buckets[i]).songs.len() > 0,
    ensures
        forall|i: int|
            0 <= i < put_into(buckets, folder, song).len() ==> (#[trigger] put_into(
                buckets,
                folder,
                song,
            )[i]).songs.len() > 0,
    decreases buckets.len(),
{
    let r = put_into(buckets, folder, song);
    if buckets.len() == 0 || lex_lt(folder, buckets[0].folder) {
        assert forall|i: int| 0 <= i < r.len() implies (#[trigger] r[i]).songs.len() > 0 by {
            if i > 0 {
                assert(r[i] == buckets[i - 1]);
            }
        }
    } else if buckets[0].folder == folder {
        assert forall|i: int| 0 <= i < r.len() implies (#[trigger] r[i]).songs.len() > 0 by {
            if i > 0 {
                assert(r[i] == buckets[i]);
            }
        }
    } else {
        let rest = buckets.drop_first();
        assert forall|i: int| 0 <= i < rest.len() implies (#[trigger] rest[i]).songs.len() > 0 by {
            assert(rest[i] == buckets[i + 1]);
        }
        lemma_put_fills(rest, folder, song);
        assert forall|i: int| 0 <= i < r.len() implies (#[trigger] r[i]).songs.len() > 0 by {
            if i > 0 {
                assert(r[i] == put_into(rest, folder, song)[i - 1]);
            } else {
                assert(r[0] == buckets[0]);
            }
        }
    }
}

proof fn lemma_buckets_filled(songs: Seq<SongInfo>)
    ensures
        forall|i: int|
            0 <= i < buckets_of(songs).len() ==> (#[trigger] buckets_of(songs)[i]).songs.len() > 0,
    decreases songs.len(),
{
    if songs.len() > 0 {
        lemma_buckets_filled(songs.drop_last());
        lemma_put_fills(
            buckets_of(songs.drop_last()),
            bucket_of(songs.last().uri@),
            songs.last(),
        );
    }
}

/// The songs of two folders make two buckets.
proof fn lemma_two_buckets(songs: Seq<SongInfo>, f: Seq<char>, g: Seq<char>)
    requires
        lex_lt(f, g),
        forall|i: int|
            0 <= i < songs.len() ==> bucket_of((#[trigger] songs[i]).uri@) == f || bucket_of(
                songs[i].uri@,
            ) == g,
        exists|i: int| 0 <= i < songs.len() && bucket_of((#[trigger] songs[i]).uri@) == f,
        exists|i: int| 0 <= i < songs.len() && bucket_of((#[trigger] songs[i]).uri@) == g,
    ensures
        buckets_of(songs).len() == 2,
        buckets_of(songs)[0].folder == f,
        buckets_of(songs)[1].folder == g,
        buckets_of(songs)[0].songs == songs.filter(|s: SongInfo| bucket_of(s.uri@) == f),
        buckets_of(songs)[1].songs == songs.filter(|s: SongInfo| bucket_of(s.uri@) == g),
        buckets_of(songs)[0].songs.len() > 0,
        buckets_of(songs)[1].songs.len() > 0,
{
    let b = buckets_of(songs);
    let in_f = |s: SongInfo| bucket_of(s.uri@) == f;
    let in_g = |s: SongInfo| bucket_of(s.uri@) == g;
    law_buckets(songs);
    lemma_buckets_filled(songs);
    lemma_lex_irreflexive(f);
    lemma_lex_total(f, g);
    assert forall|i: int| 0 <= i < b.len() implies (#[trigger] b[i]).folder == f || b[i].folder
        == g by {
        let h = b[i].folder;
        let in_h = |s: SongInfo| bucket_of(s.uri@) == h;
        lemma_no_bucket(b, h, i);
        assert(songs_in(b, h) == songs.filter(in_h));
        let s = songs.filter(in_h)[0];
        assert(songs.filter(in_h).contains(s));
        songs.lemma_filter_pred(in_h, 0);
        songs.lemma_filter_contains_rev(in_h, s);
        let k = choose|k: int| 0 <= k < songs.len() && songs[k] == s;
        assert(bucket_of(songs[k].uri@) == h);
    }
    let k = choose|k: int| 0 <= k < songs.len() && bucket_of((#[trigger] songs[k]).uri@) == f;
    songs.lemma_filter_contains(in_f, k);
    assert(songs_in(b, f) == songs.filter(in_f));
    if forall|i: int| 0 <= i < b.len() ==> (#[trigger] b[i]).folder != f {
        lemma_missing_bucket(b, f);
    }
    let l = choose|l: int| 0 <= l < songs.len() && bucket_of((#[trigger] songs[l]).uri@) == g;
    songs.lemma_filter_contains(in_g, l);
    assert(songs_in(b, g) == songs.filter(in_g));
    if forall|i: int| 0 <= i < b.len() ==> (#[trigger] b[i]).folder != g {
        lemma_missing_bucket(b, g);
    }
    let m = choose|m: int| 0 <= m < b.len() && (#[trigger] b[m]).folder == f;
    let n = choose|n: int| 0 <= n < b.len() && (#[trigger] b[n]).folder == g;
    lemma_lex_irreflexive(g);
    if m > n {
        assert(lex_lt(b[n].folder, b[m].folder));
    }
    if m > 0 {
        assert(lex_lt(b[0].folder, b[m].folder));
        assert(b[0].folder == f || b[0].folder == g);
    }
    if n > 1 {
        assert(lex_lt(b[0].folder, b[1].folder));
        assert(lex_lt(b[1].folder, b[n].folder));
        assert(b[1].folder == f || b[1].folder == g);
    }
    if b.len() > 2 {
        assert(lex_lt(b[1].folder, b[2].folder));
        assert(b[2].folder == f || b[2].folder == g);
        assert(lex_lt(b[0].folder, b[2].folder));
    }
    assert(m == 0 && n == 1);
    lemma_no_bucket(b, f, 0);
    lemma_no_bucket(b, g, 1);
}

proof fn lemma_two_copies(a: BucketView, b: BucketView)
    requires
        a.songs.len() > 0,
        b.songs.len() > 0,
    ensures
        are_discs_of_one_set(a, b) ==> {
            &&& copies_in(merged_discs(seq![a, b])).len() == 1
            &&& copies_in(merged_discs(seq![a, b]))[0].folder == a.folder
        },
        !are_discs_of_one_set(a, b) ==> {
            &&& copies_in(merged_discs(seq![a, b])).len() == 2
            &&& copies_in(merged_discs(seq![a, b]))[0].folder == a.folder
            &&& copies_in(merged_discs(seq![a, b]))[1].folder == b.folder
        },
{
    reveal(Seq::filter);
    reveal_with_fuel(merged_discs, 3);
    reveal_with_fuel(absorbed, 3);
    reveal_with_fuel(Seq::filter, 3);
    let both = seq![a, b];
    let filled = |x: BucketView| x.songs.len() > 0;
    let copy = |x: BucketView| copy_in(x);
    assert(both.drop_first() =~= seq![b]);
    assert(seq![b].drop_first() =~= Seq::empty());
    let none = Seq::<BucketView>::empty();
    if are_discs_of_one_set(a, b) {
        let whole = BucketView { folder: a.folder, songs: a.songs + b.songs };
        assert(absorbed(a, seq![b]) == (whole, none));
        assert(merged_discs(both) =~= seq![whole]);
        assert(seq![whole].drop_last() =~= none);
        assert(seq![whole].filter(filled) =~= seq![whole]);
        assert(copies_in(seq![whole]) =~= seq![copy_in(whole)]);
    } else {
        assert(absorbed(a, seq![b]).1 =~= seq![b]);
        assert(merged_discs(seq![b]) =~= seq![b]);
        assert(merged_discs(both) =~= seq![a, b]);
        assert(both.drop_last() =~= seq![a]);
        assert(seq![a].drop_last() =~= none);
        assert(both.filter(filled) =~= both);
        assert(copies_in(both) =~= seq![copy_in(a), copy_in(b)]);
    }
}

/// Of the songs of two folders that lie in one folder, those make one copy whose discs are numbered and have
/// no number in common, and those that have no disc numbers where the folders are called alike but for digits
/// at the end. The copy has the folder that comes first. Otherwise each folder is a copy.
pub proof fn law_discs_of_one_set(songs: Seq<SongInfo>, f: Seq<char>, g: Seq<char>)
    requires
        lex_lt(f, g),
        forall|i: int|
            0 <= i < songs.len() ==> bucket_of((#[trigger] songs[i]).uri@) == f || bucket_of(
                songs[i].uri@,
            ) == g,
        exists|i: int| 0 <= i < songs.len() && bucket_of((#[trigger] songs[i]).uri@) == f,
        exists|i: int| 0 <= i < songs.len() && bucket_of((#[trigger] songs[i]).uri@) == g,
    ensures
        album_copies(songs).len() == 1 || album_copies(songs).len() == 2,
        album_copies(songs)[0].folder == f,
        album_copies(songs).len() == 2 ==> album_copies(songs)[1].folder == g,
        !are_siblings(f, g) ==> album_copies(songs).len() == 2,
        are_siblings(f, g) && (forall|i: int|
            0 <= i < songs.len() ==> (#[trigger] songs[i]).disc is Some) && (forall|i: int, j: int|
            0 <= i < songs.len() && 0 <= j < songs.len() && bucket_of(
                (#[trigger] songs[i]).uri@,
            ) == f && bucket_of((#[trigger] songs[j]).uri@) == g ==> songs[i].disc != songs[j].disc)
            ==> album_copies(songs).len() == 1,
        (exists|i: int, j: int|
            0 <= i < songs.len() && 0 <= j < songs.len() && bucket_of(
                (#[trigger] songs[i]).uri@,
            ) == f && bucket_of((#[trigger] songs[j]).uri@) == g && songs[i].disc is Some
                && songs[i].disc == songs[j].disc) ==> album_copies(songs).len() == 2,
        (forall|i: int| 0 <= i < songs.len() ==> (#[trigger] songs[i]).disc is None) ==> (
        album_copies(songs).len() == 1 <==> are_siblings(f, g) && are_numeric_siblings(f, g)),
        (exists|i: int| 0 <= i < songs.len() && (#[trigger] songs[i]).disc is Some) && ((forall|i: int|
            0 <= i < songs.len() && bucket_of((#[trigger] songs[i]).uri@) == f ==> songs[i].disc
                is None) || (forall|i: int|
            0 <= i < songs.len() && bucket_of((#[trigger] songs[i]).uri@) == g ==> songs[i].disc
                is None)) ==> album_copies(songs).len() == 2,
{
    let in_f = |s: SongInfo| bucket_of(s.uri@) == f;
    let in_g = |s: SongInfo| bucket_of(s.uri@) == g;
    lemma_two_buckets(songs, f, g);
    let a = buckets_of(songs)[0];
    let b = buckets_of(songs)[1];
    assert(buckets_of(songs) =~= seq![a, b]);
    lemma_two_copies(a, b);
    assert forall|i: int| 0 <= i < a.songs.len() implies bucket_of((#[trigger] a.songs[i]).uri@) == f
        && songs.contains(a.songs[i]) by {
        songs.lemma_filter_pred(in_f, i);
        assert(songs.filter(in_f).contains(a.songs[i]));
        songs.lemma_filter_contains_rev(in_f, a.songs[i]);
    }
    assert forall|i: int| 0 <= i < b.songs.len() implies bucket_of((#[trigger] b.songs[i]).uri@) == g
        && songs.contains(b.songs[i]) by {
        songs.lemma_filter_pred(in_g, i);
        assert(songs.filter(in_g).contains(b.songs[i]));
        songs.lemma_filter_contains_rev(in_g, b.songs[i]);
    }
    assert forall|i: int| 0 <= i < songs.len() && bucket_of((#[trigger] songs[i]).uri@)
        == f implies a.songs.contains(songs[i]) by {
        songs.lemma_filter_contains(in_f, i);
    }
    assert forall|i: int| 0 <= i < songs.len() && bucket_of((#[trigger] songs[i]).uri@)
        == g implies b.songs.contains(songs[i]) by {
        songs.lemma_filter_contains(in_g, i);
    }
    lemma_lex_total(f, g);
    // What the buckets hold of disc numbers is what the songs of their folders have.
    assert(has_discs(a.songs) <==> exists|i: int|
        0 <= i < songs.len() && bucket_of((#[trigger] songs[i]).uri@) == f && songs[i].disc is Some)
        by {
        if has_discs(a.songs) {
            let k = choose|k: int| 0 <= k < a.songs.len() && (#[trigger] a.songs[k]).disc is Some;
            let i = choose|i: int| 0 <= i < songs.len() && songs[i] == a.songs[k];
            assert(bucket_of(songs[i].uri@) == f);
        }
        if exists|i: int|
            0 <= i < songs.len() && bucket_of((#[trigger] songs[i]).uri@) == f && songs[i].disc
                is Some {
            let i = choose|i: int|
                0 <= i < songs.len() && bucket_of((#[trigger] songs[i]).uri@) == f
                    && songs[i].disc is Some;
            let k = choose|k: int| 0 <= k < a.songs.len() && a.songs[k] == songs[i];
            assert(a.songs[k].disc is Some);
        }
    }
    assert(has_discs(b.songs) <==> exists|i: int|
        0 <= i < songs.len() && bucket_of((#[trigger] songs[i]).uri@) == g && songs[i].disc is Some)
        by {
        if has_discs(b.songs) {
            let k = choose|k: int| 0 <= k < b.songs.len() && (#[trigger] b.songs[k]).disc is Some;
            let i = choose|i: int| 0 <= i < songs.len() && songs[i] == b.songs[k];
            assert(bucket_of(songs[i].uri@) == g);
        }
        if exists|i: int|
            0 <= i < songs.len() && bucket_of((#[trigger] songs[i]).uri@) == g && songs[i].disc
                is Some {
            let i = choose|i: int|
                0 <= i < songs.len() && bucket_of((#[trigger] songs[i]).uri@) == g
                    && songs[i].disc is Some;
            let k = choose|k: int| 0 <= k < b.songs.len() && b.songs[k] == songs[i];
            assert(b.songs[k].disc is Some);
        }
    }
    if forall|i: int, j: int|
        0 <= i < songs.len() && 0 <= j < songs.len() && bucket_of((#[trigger] songs[i]).uri@) == f
            && bucket_of((#[trigger] songs[j]).uri@) == g ==> songs[i].disc != songs[j].disc {
        assert forall|i: int, j: int|
            0 <= i < a.songs.len() && 0 <= j < b.songs.len() && (#[trigger] a.songs[i]).disc
                is Some implies a.songs[i].disc != (#[trigger] b.songs[j]).disc by {
            let k = choose|k: int| 0 <= k < songs.len() && songs[k] == a.songs[i];
            let l = choose|l: int| 0 <= l < songs.len() && songs[l] == b.songs[j];
            assert(songs[k].disc != songs[l].disc);
        }
        assert(discs_disjoint(a.songs, b.songs));
    }
    if exists|i: int, j: int|
        0 <= i < songs.len() && 0 <= j < songs.len() && bucket_of((#[trigger] songs[i]).uri@) == f
            && bucket_of((#[trigger] songs[j]).uri@) == g && songs[i].disc is Some && songs[i].disc
            == songs[j].disc {
        let (i, j) = choose|i: int, j: int|
            0 <= i < songs.len() && 0 <= j < songs.len() && bucket_of((#[trigger] songs[i]).uri@)
                == f && bucket_of((#[trigger] songs[j]).uri@) == g && songs[i].disc is Some
                && songs[i].disc == songs[j].disc;
        let k = choose|k: int| 0 <= k < a.songs.len() && a.songs[k] == songs[i];
        let l = choose|l: int| 0 <= l < b.songs.len() && b.songs[l] == songs[j];
        assert(a.songs[k].disc is Some && b.songs[l].disc is Some);
        assert(!discs_disjoint(a.songs, b.songs));
    }
    if forall|i: int| 0 <= i < songs.len() ==> (#[trigger] songs[i]).disc is Some {
        let i = choose|i: int| 0 <= i < songs.len() && bucket_of((#[trigger] songs[i]).uri@) == f;
        let j = choose|j: int| 0 <= j < songs.len() && bucket_of((#[trigger] songs[j]).uri@) == g;
        assert(songs[i].disc is Some && songs[j].disc is Some);
    }
}

/// The grade of a folder is that of one of its songs, and no song of it has a better one. A folder without
/// songs has none.
pub proof fn law_folders_have_their_best_grade(songs: Seq<SongInfo>, folder: Seq<char>)
    ensures
        forall|i: int|
            0 <= i < songs.len() && bucket_of((#[trigger] songs[i]).uri@) == folder
                ==> songs[i].quality_grade.level() <= grade_of_folder(songs, folder).level(),
        grade_of_folder(songs, folder) == QualityGrade::Unknown || exists|i: int|
            0 <= i < songs.len() && bucket_of((#[trigger] songs[i]).uri@) == folder
                && songs[i].quality_grade == grade_of_folder(songs, folder),
    decreases songs.len(),
{
    if songs.len() > 0 {
        let init = songs.drop_last();
        law_folders_have_their_best_grade(init, folder);
        let best = grade_of_folder(songs, folder);
        assert forall|i: int|
            0 <= i < songs.len() && bucket_of(
                (#[trigger] songs[i]).uri@,
            ) == folder implies songs[i].quality_grade.level() <= best.level() by {
            if i < init.len() {
                assert(init[i] == songs[i]);
            }
        }
        if best != QualityGrade::Unknown {
            if best == grade_of_folder(init, folder) {
                let i = choose|i: int|
                    0 <= i < init.len() && bucket_of((#[trigger] init[i]).uri@) == folder
                        && init[i].quality_grade == best;
                assert(songs[i] == init[i]);
            } else {
                assert(songs[songs.len() - 1].quality_grade == best);
            }
        }
    }
}

/// The rank of a folder: the best grade of its songs, the mount that holds it, and the place of that mount in
/// the user's order.
pub proof fn law_ranks(ranks: &CopyRanks, uri: &str, r: (QualityGrade, usize, Option<String>))
    requires
        call_ensures(CopyRanks::rank_for_uri, (ranks, uri), r),
    ensures
        r.0 == grade_of_folder(ranks.ranking().songs, uri@),
        opt_view(r.2) == mount_of(ranks.ranking().mounts, uri@),
        r.1 == mount_rank(ranks.ranking().order, mount_of(ranks.ranking().mounts, uri@)),
{
}

/// Of two copies the one with the better grade is preferred; of two with the same grade the one whose mount
/// stands first in the user's order; and of two that share both the one whose folder comes first.
pub proof fn law_preference(a: RankedView, b: RankedView)
    ensures
        a.rank.grade.level() > b.rank.grade.level() ==> is_preferred(a, b) && !is_preferred(b, a),
        a.rank.grade == b.rank.grade && a.rank.place < b.rank.place ==> is_preferred(a, b)
            && !is_preferred(b, a),
        a.rank.grade == b.rank.grade && a.rank.place == b.rank.place ==> (is_preferred(a, b)
            <==> lex_lt(a.folder, b.folder)),
        !is_preferred(a, a),
{
    lemma_lex_irreflexive(a.folder);
}

/// The song that stands for a copy is one of its songs, and none of them comes before it by track and URI.
pub proof fn law_the_first_track_stands_for_a_copy(b: BucketView)
    requires
        b.songs.len() > 0,
    ensures
        copy_in(b).folder == b.folder,
        b.songs.contains(copy_in(b).rep),
        forall|i: int|
            #![trigger b.songs[i]]
            0 <= i < b.songs.len() ==> {
                let s = b.songs[i];
                let rep = copy_in(b).rep;
                let (t, u) = (
                    if s.track is Some {
                        s.track->0
                    } else {
                        i64::MAX
                    },
                    if rep.track is Some {
                        rep.track->0
                    } else {
                        i64::MAX
                    },
                );
                u < t || u == t && !lex_lt(s.uri@, rep.uri@)
            },
{
    lemma_first_track(b.songs, b.songs.len() as int);
}

proof fn lemma_first_track(songs: Seq<SongInfo>, n: int)
    requires
        1 <= n <= songs.len(),
    ensures
        0 <= first_track(songs, n) < n,
        forall|i: int| 0 <= i < n ==> !by_track(#[trigger] songs[i], songs[first_track(songs, n)]),
    decreases n,
{
    if n == 1 {
        lemma_lex_irreflexive(songs[0].uri@);
    } else {
        lemma_first_track(songs, n - 1);
        let best = first_track(songs, n - 1);
        let next = first_track(songs, n);
        lemma_lex_irreflexive(songs[n - 1].uri@);
        assert forall|i: int| 0 <= i < n implies !by_track(#[trigger] songs[i], songs[next]) by {
            if next == n - 1 && i < n - 1 {
                lemma_lex_total(songs[i].uri@, songs[best].uri@);
                lemma_lex_total(songs[n - 1].uri@, songs[best].uri@);
                if lex_lt(songs[i].uri@, songs[n - 1].uri@) && lex_lt(
                    songs[n - 1].uri@,
                    songs[best].uri@,
                ) {
                    lemma_lex_transitive(
                        songs[i].uri@,
                        songs[n - 1].uri@,
                        songs[best].uri@,
                    );
                }
            }
        }
    }
}

/// Whether an album that is shown offers the copy in a folder: it is that copy, or that is one of its
/// alternates.
pub open spec fn offers(info: AlbumInfo, folder: Seq<char>) -> bool {
    info.folder_uri@ == folder || exists|k: int|
        0 <= k < info.alternates@.len() && (#[trigger] info.alternates@[k]).folder_uri@ == folder
}

/// Whether an album that is shown is the copy `c` with the tags of its song, no better one of its group is
/// left out, and all of the group are offered.
pub open spec fn leads_its_group(
    info: AlbumInfo,
    copies: Seq<CopyView>,
    by: RankingView,
    c: CopyView,
) -> bool {
    &&& copies.contains(c)
    &&& info.folder_uri@ == c.folder
    &&& c.rep.album is Some
    &&& info.title == c.rep.album->0.title
    &&& info.artists == c.rep.album->0.artists
    &&& info.albumartist == c.rep.album->0.albumartist
    &&& info.release_date == c.rep.album->0.release_date
    &&& info.mbid == c.rep.album->0.mbid
    &&& info.quality_grade == grade_of_folder(by.songs, c.folder)
    &&& opt_view(info.mount_name) == mount_of(by.mounts, c.folder)
    &&& forall|d: CopyView| #[trigger]
        copies.contains(d) && d.mbid == c.mbid ==> {
            let place = mount_rank(by.order, mount_of(by.mounts, c.folder));
            let other = mount_rank(by.order, mount_of(by.mounts, d.folder));
            let grade = grade_of_folder(by.songs, d.folder);
            &&& grade.level() <= info.quality_grade.level()
            &&& grade == info.quality_grade ==> place <= other
            &&& grade == info.quality_grade && place == other ==> !lex_lt(d.folder, c.folder)
            &&& offers(info, d.folder)
        }
    &&& forall|k: int|
        0 <= k < info.alternates@.len() ==> is_other_copy(
            copies,
            by,
            c,
            #[trigger] info.alternates@[k],
        )
}

/// Whether an album that is shown is the best copy of a group.
pub open spec fn leads_a_group(info: AlbumInfo, copies: Seq<CopyView>, by: RankingView) -> bool {
    exists|c: CopyView| #[trigger] leads_its_group(info, copies, by, c)
}

/// Whether an alternate is a copy of the same album as `c`, with its own grade and mount.
pub open spec fn is_other_copy(
    copies: Seq<CopyView>,
    by: RankingView,
    c: CopyView,
    a: AlbumCopy,
) -> bool {
    &&& exists|d: CopyView| #[trigger]
        copies.contains(d) && d.mbid == c.mbid && d.folder == a.folder_uri@
    &&& a.quality_grade == grade_of_folder(by.songs, a.folder_uri@)
    &&& opt_view(a.mount_name) == mount_of(by.mounts, a.folder_uri@)
}

proof fn lemma_info_leads(info: AlbumInfo, copies: Seq<CopyView>, by: RankingView, c: CopyView)
    requires
        copies.contains(c),
        c.rep.album is Some,
        is_canonical(copies, by, c),
        is_info_of(info, copies, by, c),
    ensures
        leads_its_group(info, copies, by, c),
{
    let group = sorted_group(copies, by, c.mbid);
    let others = group.drop_first();
    let alternates = info.alternates@;
    lemma_group_members(copies, by, c.mbid);
    let left = alternates.map_values(|a: AlbumCopy| a@);
    let right = others.map_values(|r: RankedView| as_alternate(r));
    assert(left == right);
    assert(left.len() == alternates.len());
    assert(right.len() == others.len());
    assert forall|k: int| 0 <= k < alternates.len() implies (#[trigger] alternates[k])@
        == as_alternate(others[k]) by {
        assert(left[k] == alternates[k]@);
        assert(right[k] == as_alternate(others[k]));
    }
    assert forall|d: CopyView| #[trigger] copies.contains(d) && d.mbid == c.mbid implies {
        let place = mount_rank(by.order, mount_of(by.mounts, c.folder));
        let other = mount_rank(by.order, mount_of(by.mounts, d.folder));
        let grade = grade_of_folder(by.songs, d.folder);
        &&& grade.level() <= info.quality_grade.level()
        &&& grade == info.quality_grade ==> place <= other
        &&& grade == info.quality_grade && place == other ==> !lex_lt(d.folder, c.folder)
        &&& offers(info, d.folder)
    } by {
        law_shown_copy_is_preferred(copies, by, c, d);
        law_every_copy_is_in_its_group(copies, by, d);
        if !is_canonical(copies, by, d) {
            let k = choose|k: int| 0 <= k < others.len() && others[k] == ranked_copy(by, d);
            assert(alternates[k]@ == as_alternate(others[k]));
            assert(alternates[k].folder_uri@ == d.folder);
        }
    }
    assert forall|k: int| 0 <= k < alternates.len() implies is_other_copy(
        copies,
        by,
        c,
        #[trigger] alternates[k],
    ) by {
        assert(others[k] == group[k + 1]);
        assert(is_member(copies, by, c.mbid, group[k + 1]));
        let d = choose|d: CopyView|
            copies.contains(d) && d.mbid == c.mbid && #[trigger] ranked_copy(by, d) == group[k + 1];
        assert(alternates[k]@ == as_alternate(ranked_copy(by, d)));
        assert(copies.contains(d) && d.mbid == c.mbid && d.folder == alternates[k].folder_uri@);
    }
}

/// Each album that is shown is the best copy of its group and offers the others; and each copy is offered by
/// one of the albums, where the songs are tagged with their albums. The albums come in the strictly ascending
/// order of their folders.
pub proof fn law_albums_show_their_best_copies(
    songs: Vec<SongInfo>,
    ranks: &CopyRanks,
    r: Vec<AlbumInfo>,
)
    requires
        call_ensures(build_dedup_album_infos, (songs, ranks), r),
    ensures
        forall|i: int|
            0 <= i < r@.len() ==> leads_a_group(
                #[trigger] r@[i],
                album_copies(songs@),
                ranks.ranking(),
            ),
        forall|i: int, j: int|
            0 <= i < j < r@.len() ==> lex_lt(
                (#[trigger] r@[i]).folder_uri@,
                (#[trigger] r@[j]).folder_uri@,
            ),
        (forall|i: int| 0 <= i < songs@.len() ==> (#[trigger] songs@[i]).album is Some)
            ==> forall|d: CopyView| #[trigger]
            album_copies(songs@).contains(d) ==> exists|i: int|
                0 <= i < r@.len() && offers(#[trigger] r@[i], d.folder),
{
    let copies = album_copies(songs@);
    let by = ranks.ranking();
    let shown = shown_copies(copies, by);
    let p = |c: CopyView| is_canonical(copies, by, c) && c.rep.album is Some;
    law_shown_albums_ascend(songs@, by);
    assert forall|i: int| 0 <= i < r@.len() implies leads_a_group(#[trigger] r@[i], copies, by) by {
        copies.lemma_filter_pred(p, i);
        assert(shown.contains(shown[i]));
        copies.lemma_filter_contains_rev(p, shown[i]);
        assert(is_info_of(r@[i], copies, by, shown[i]));
        lemma_info_leads(r@[i], copies, by, shown[i]);
    }
    assert forall|i: int, j: int| 0 <= i < j < r@.len() implies lex_lt(
        (#[trigger] r@[i]).folder_uri@,
        (#[trigger] r@[j]).folder_uri@,
    ) by {
        assert(is_info_of(r@[i], copies, by, shown[i]));
        assert(is_info_of(r@[j], copies, by, shown[j]));
        assert(lex_lt(shown[i].folder, shown[j].folder));
    }
    if forall|i: int| 0 <= i < songs@.len() ==> (#[trigger] songs@[i]).album is Some {
        lemma_copies_have_albums(songs@);
        assert forall|d: CopyView| #[trigger] copies.contains(d) implies exists|i: int|
            0 <= i < r@.len() && offers(#[trigger] r@[i], d.folder) by {
            law_every_copy_is_in_its_group(copies, by, d);
            let x = choose|x: CopyView|
                copies.contains(x) && x.mbid == d.mbid && #[trigger] is_canonical(copies, by, x);
            let k = choose|k: int| 0 <= k < copies.len() && copies[k] == x;
            assert(p(x));
            copies.lemma_filter_contains(p, k);
            let i = choose|i: int| 0 <= i < shown.len() && shown[i] == x;
            assert(is_info_of(r@[i], copies, by, shown[i]));
            lemma_info_leads(r@[i], copies, by, x);
            assert(offers(r@[i], d.folder));
        }
    }
}

proof fn lemma_copies_have_albums(songs: Seq<SongInfo>)
    requires
        forall|i: int| 0 <= i < songs.len() ==> (#[trigger] songs[i]).album is Some,
    ensures
        forall|c: CopyView| #[trigger] album_copies(songs).contains(c) ==> c.rep.album is Some,
{
    broadcast use vstd::seq_lib::group_to_multiset_ensures;

    let merged = merged_discs(buckets_of(songs));
    let filled = |b: BucketView| b.songs.len() > 0;
    let kept = merged.filter(filled);
    law_buckets_keep_songs(songs);
    law_merging_keeps_songs(buckets_of(songs));
    assert forall|c: CopyView| #[trigger] album_copies(songs).contains(c) implies c.rep.album is Some by {
        let k = choose|k: int|
            0 <= k < album_copies(songs).len() && album_copies(songs)[k] == c;
        let b = kept[k];
        assert(c == copy_in(b));
        merged.lemma_filter_pred(filled, k);
        assert(kept.contains(b));
        merged.lemma_filter_contains_rev(filled, b);
        law_the_first_track_stands_for_a_copy(b);
        let m = choose|m: int| 0 <= m < merged.len() && merged[m] == b;
        lemma_in_bag(merged, m, c.rep);
        assert(songs.to_multiset().count(c.rep) > 0);
        assert(songs.contains(c.rep));
    }
}

proof fn lemma_in_bag(buckets: Seq<BucketView>, m: int, song: SongInfo)
    requires
        0 <= m < buckets.len(),
        buckets[m].songs.contains(song),
    ensures
        song_bag(buckets).count(song) > 0,
    decreases buckets.len(),
{
    broadcast use vstd::seq_lib::group_to_multiset_ensures;

    if m == 0 {
        assert(buckets[0].songs.to_multiset().count(song) > 0);
    } else {
        let rest = buckets.drop_first();
        assert(rest[m - 1] == buckets[m]);
        lemma_in_bag(rest, m - 1, song);
    }
}

}

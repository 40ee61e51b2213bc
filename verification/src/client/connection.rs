//! One connection to the server: the order of dynamic playlists, what the connection does on errors,
//! and the sequence of requests behind the operations that need several.
use std::cmp::Ordering;
use vstd::prelude::*;

use crate::common::dynamic_playlist::SongOrder;
use crate::common::song::{SongInfo, SongStickers};
use crate::common::sticker::Stickers;
use crate::order::{is_total_preorder, TotalOrder};
use crate::text::lex_lt;

verus! {

/// The ascending order of optional values: the values among themselves, and then the absent ones.
pub open spec fn asc_nulls_last<T: TotalOrder>(a: Option<T>, b: Option<T>) -> bool {
    match (a, b) {
        (Some(x), Some(y)) => x.before(&y),
        (Some(_), None) => true,
        _ => false,
    }
}

/// The descending order of optional values: the values among themselves, and then the absent ones.
pub open spec fn desc_nulls_last<T: TotalOrder>(a: Option<T>, b: Option<T>) -> bool {
    match (a, b) {
        (Some(x), Some(y)) => y.before(&x),
        (Some(_), None) => true,
        _ => false,
    }
}

/// How two optional values compare in ascending order, absent ones last.
pub open spec fn compared_nulls_last<T: TotalOrder>(a: Option<T>, b: Option<T>) -> Ordering {
    if asc_nulls_last(a, b) {
        Ordering::Less
    } else if asc_nulls_last(b, a) {
        Ordering::Greater
    } else {
        Ordering::Equal
    }
}

/// How two optional values compare in descending order, absent ones last.
pub open spec fn reverse_compared_nulls_last<T: TotalOrder>(a: Option<T>, b: Option<T>) -> Ordering {
    if desc_nulls_last(a, b) {
        Ordering::Less
    } else if desc_nulls_last(b, a) {
        Ordering::Greater
    } else {
        Ordering::Equal
    }
}

/// Compares two optional values, absent ones last.
pub fn cmp_options_nulls_last<T: TotalOrder>(a: &Option<T>, b: &Option<T>) -> (r: Ordering)
    ensures
        r == compared_nulls_last(*a, *b),
        r == Ordering::Less <==> asc_nulls_last(*a, *b),
        r == Ordering::Greater <==> asc_nulls_last(*b, *a),
{
    match (a, b) {
        (Some(x), Some(y)) => x.compare(y),
        (Some(_), None) => Ordering::Less,
        (None, Some(_)) => Ordering::Greater,
        (None, None) => Ordering::Equal,
    }
}

/// Compares two optional values the other way round, absent ones still last.
pub fn reverse_cmp_options_nulls_last<T: TotalOrder>(a: &Option<T>, b: &Option<T>) -> (r: Ordering)
    ensures
        r == reverse_compared_nulls_last(*a, *b),
        r == Ordering::Less <==> desc_nulls_last(*a, *b),
        r == Ordering::Greater <==> desc_nulls_last(*b, *a),
{
    match (a, b) {
        (Some(x), Some(y)) => y.compare(x),
        (Some(_), None) => Ordering::Less,
        (None, Some(_)) => Ordering::Greater,
        (None, None) => Ordering::Equal,
    }
}

/// The title of the album of a song.
pub open spec fn album_title(s: SongInfo) -> Option<String> {
    match s.album {
        Some(album) => Some(album.title),
        None => None,
    }
}

/// The number of the track, where a song without one comes behind every numbered one.
pub open spec fn track_or_last(s: SongInfo) -> i64 {
    match s.track {
        Some(t) => t,
        None => i64::MAX,
    }
}

/// Whether `a` comes strictly before `b` by one criterion.
pub open spec fn key_before(key: SongOrder, a: SongStickers, b: SongStickers) -> bool {
    match key {
        SongOrder::AscAlbumTitle => asc_nulls_last(album_title(a.0), album_title(b.0)),
        SongOrder::DescAlbumTitle => desc_nulls_last(album_title(a.0), album_title(b.0)),
        SongOrder::Track => track_or_last(a.0) < track_or_last(b.0),
        SongOrder::AscReleaseDate => asc_nulls_last(a.0.release_date, b.0.release_date),
        SongOrder::DescReleaseDate => desc_nulls_last(a.0.release_date, b.0.release_date),
        SongOrder::AscArtistTag => asc_nulls_last(a.0.artist_tag, b.0.artist_tag),
        SongOrder::DescArtistTag => desc_nulls_last(a.0.artist_tag, b.0.artist_tag),
        SongOrder::AscRating => asc_nulls_last(a.1.rating, b.1.rating),
        SongOrder::DescRating => desc_nulls_last(a.1.rating, b.1.rating),
        SongOrder::AscLastModified => asc_nulls_last(a.0.last_modified, b.0.last_modified),
        SongOrder::DescLastModified => desc_nulls_last(a.0.last_modified, b.0.last_modified),
        SongOrder::AscPlayCount => asc_nulls_last(a.1.play_count, b.1.play_count),
        SongOrder::DescPlayCount => desc_nulls_last(a.1.play_count, b.1.play_count),
        SongOrder::AscSkipCount => asc_nulls_last(a.1.skip_count, b.1.skip_count),
        SongOrder::DescSkipCount => desc_nulls_last(a.1.skip_count, b.1.skip_count),
        SongOrder::Random => false,
    }
}

/// Whether `a` comes strictly before `b` by a list of criteria: by the first of them that tells the
/// two apart.
pub open spec fn song_before(keys: Seq<SongOrder>, a: SongStickers, b: SongStickers) -> bool
    decreases keys.len(),
{
    if keys.len() == 0 {
        false
    } else if key_before(keys[0], a, b) {
        true
    } else if key_before(keys[0], b, a) {
        false
    } else {
        song_before(keys.drop_first(), a, b)
    }
}

/// The order of songs by a list of criteria.
pub open spec fn song_leq(keys: Seq<SongOrder>) -> spec_fn(SongStickers, SongStickers) -> bool {
    |a: SongStickers, b: SongStickers| !song_before(keys, b, a)
}

/// Whether comparing two songs comes down to a random order, which no comparison can give: no criterion
/// in front of it tells them apart.
pub open spec fn reaches_random(keys: Seq<SongOrder>, a: SongStickers, b: SongStickers) -> bool
    decreases keys.len(),
{
    if keys.len() == 0 {
        false
    } else if keys[0] == SongOrder::Random {
        true
    } else if key_before(keys[0], a, b) || key_before(keys[0], b, a) {
        false
    } else {
        reaches_random(keys.drop_first(), a, b)
    }
}

/// Compares songs by a list of criteria.
#[derive(Debug)]
pub struct SongComparator {
    keys: Vec<SongOrder>,
}

/// A comparator by the given criteria, the first of which weighs most.
pub fn build_comparator(orderings: &[SongOrder]) -> (r: SongComparator)
    ensures
        r.criteria() == orderings@,
{
    let mut keys: Vec<SongOrder> = Vec::with_capacity(orderings.len());
    for i in 0..orderings.len()
        invariant
            keys@ == orderings@.take(i as int),
    {
        keys.push(orderings[i]);
        assert(orderings@.take(i + 1) =~= orderings@.take(i as int).push(orderings@[i as int]));
    }
    assert(keys@ =~= orderings@);
    SongComparator { keys }
}

/// Compares two songs by one criterion. A random order does not tell them apart.
fn compare_by(key: SongOrder, a: &SongStickers, b: &SongStickers) -> (r: Ordering)
    ensures
        r == Ordering::Less <==> key_before(key, *a, *b),
        r == Ordering::Greater <==> key_before(key, *b, *a),
{
    let song_a: &SongInfo = &a.0;
    let song_b: &SongInfo = &b.0;
    let stickers_a: &Stickers = &a.1;
    let stickers_b: &Stickers = &b.1;
    match key {
        SongOrder::AscAlbumTitle => match (&song_a.album, &song_b.album) {
            (Some(x), Some(y)) => x.title.compare(&y.title),
            (Some(_), None) => Ordering::Less,
            (None, Some(_)) => Ordering::Greater,
            (None, None) => Ordering::Equal,
        },
        SongOrder::DescAlbumTitle => match (&song_a.album, &song_b.album) {
            (Some(x), Some(y)) => y.title.compare(&x.title),
            (Some(_), None) => Ordering::Less,
            (None, Some(_)) => Ordering::Greater,
            (None, None) => Ordering::Equal,
        },
        SongOrder::Track => {
            let track_a: i64 = song_a.track.unwrap_or(i64::MAX);
            let track_b: i64 = song_b.track.unwrap_or(i64::MAX);
            track_a.compare(&track_b)
        },
        SongOrder::AscReleaseDate => cmp_options_nulls_last(
            &song_a.release_date,
            &song_b.release_date,
        ),
        SongOrder::DescReleaseDate => reverse_cmp_options_nulls_last(
            &song_a.release_date,
            &song_b.release_date,
        ),
        SongOrder::AscArtistTag => cmp_options_nulls_last(&song_a.artist_tag, &song_b.artist_tag),
        SongOrder::DescArtistTag => reverse_cmp_options_nulls_last(
            &song_a.artist_tag,
            &song_b.artist_tag,
        ),
        SongOrder::AscRating => cmp_options_nulls_last(&stickers_a.rating, &stickers_b.rating),
        SongOrder::DescRating => reverse_cmp_options_nulls_last(
            &stickers_a.rating,
            &stickers_b.rating,
        ),
        SongOrder::AscLastModified => cmp_options_nulls_last(
            &song_a.last_modified,
            &song_b.last_modified,
        ),
        SongOrder::DescLastModified => reverse_cmp_options_nulls_last(
            &song_a.last_modified,
            &song_b.last_modified,
        ),
        SongOrder::AscPlayCount => cmp_options_nulls_last(
            &stickers_a.play_count,
            &stickers_b.play_count,
        ),
        SongOrder::DescPlayCount => reverse_cmp_options_nulls_last(
            &stickers_a.play_count,
            &stickers_b.play_count,
        ),
        SongOrder::AscSkipCount => cmp_options_nulls_last(
            &stickers_a.skip_count,
            &stickers_b.skip_count,
        ),
        SongOrder::DescSkipCount => reverse_cmp_options_nulls_last(
            &stickers_a.skip_count,
            &stickers_b.skip_count,
        ),
        SongOrder::Random => Ordering::Equal,
    }
}

/// The criteria from the `i`-th on.
spec fn keys_from(keys: Seq<SongOrder>, i: usize) -> Seq<SongOrder> {
    keys.skip(i as int)
}

impl SongComparator {
    /// The criteria, the first of which weighs most.
    pub closed spec fn criteria(&self) -> Seq<SongOrder> {
        self.keys@
    }

    /// Compares two songs with their stickers.
    pub fn compare(&self, a: &SongStickers, b: &SongStickers) -> (r: Ordering)
        requires
            !reaches_random(self.criteria(), *a, *b),
        ensures
            r == Ordering::Less <==> song_before(self.criteria(), *a, *b),
            r == Ordering::Greater <==> song_before(self.criteria(), *b, *a),
    {
        self.weigh(a, b)
    }

    /// Compares two songs with their stickers, where a random order does not tell them apart.
    fn weigh(&self, a: &SongStickers, b: &SongStickers) -> (r: Ordering)
        ensures
            r == Ordering::Less <==> song_before(self.criteria(), *a, *b),
            r == Ordering::Greater <==> song_before(self.criteria(), *b, *a),
    {
        proof {
            lemma_song_asymmetric(self.keys@, *a, *b);
        }
        let mut i: usize = 0;
        assert(keys_from(self.keys@, i) =~= self.keys@);
        while i < self.keys.len()
            invariant
                i <= self.keys@.len(),
                song_before(self.keys@, *a, *b) == song_before(keys_from(self.keys@, i), *a, *b),
                song_before(self.keys@, *b, *a) == song_before(keys_from(self.keys@, i), *b, *a),
                !(song_before(self.keys@, *a, *b) && song_before(self.keys@, *b, *a)),
            decreases self.keys.len() - i,
        {
            let ghost rest = keys_from(self.keys@, i);
            let key: SongOrder = self.keys[i];
            assert(rest[0] == key);
            let res: Ordering = compare_by(key, a, b);
            match res {
                Ordering::Equal => {},
                _ => {
                    proof {
                        lemma_key_strict(key, *a, *b, *a);
                    }
                    return res;
                },
            }
            i = i + 1;
            assert(rest.drop_first() =~= keys_from(self.keys@, i));
        }
        Ordering::Equal
    }
}

impl SongComparator {
    /// Whether comparing two songs comes down to a random order.
    pub fn needs_chance(&self, a: &SongStickers, b: &SongStickers) -> (r: bool)
        ensures
            r == reaches_random(self.criteria(), *a, *b),
    {
        let mut i: usize = 0;
        assert(keys_from(self.keys@, i) =~= self.keys@);
        while i < self.keys.len()
            invariant
                i <= self.keys@.len(),
                reaches_random(self.keys@, *a, *b) == reaches_random(
                    keys_from(self.keys@, i),
                    *a,
                    *b,
                ),
            decreases self.keys.len() - i,
        {
            let ghost rest = keys_from(self.keys@, i);
            let key: SongOrder = self.keys[i];
            assert(rest[0] == key);
            if let SongOrder::Random = key {
                return true;
            }
            match compare_by(key, a, b) {
                Ordering::Equal => {},
                _ => {
                    return false;
                },
            }
            i = i + 1;
            assert(rest.drop_first() =~= keys_from(self.keys@, i));
        }
        false
    }

    /// Whether `a` may stand before `b`.
    pub(crate) fn not_behind(&self, a: &SongStickers, b: &SongStickers) -> (r: bool)
        ensures
            r == !song_before(self.criteria(), *b, *a),
    {
        match self.weigh(a, b) {
            Ordering::Greater => false,
            _ => true,
        }
    }
}

/// A criterion orders songs: irreflexively and transitively, with songs that it does not tell apart
/// forming classes.
proof fn lemma_key_strict(key: SongOrder, a: SongStickers, b: SongStickers, c: SongStickers)
    ensures
        !(key_before(key, a, b) && key_before(key, b, a)),
        key_before(key, a, b) && key_before(key, b, c) ==> key_before(key, a, c),
        !key_before(key, a, b) && !key_before(key, b, c) ==> !key_before(key, a, c),
{
    lemma_nulls_last_strict(album_title(a.0), album_title(b.0), album_title(c.0));
    lemma_nulls_last_strict(a.0.release_date, b.0.release_date, c.0.release_date);
    lemma_nulls_last_strict(a.0.artist_tag, b.0.artist_tag, c.0.artist_tag);
    lemma_nulls_last_strict(a.0.last_modified, b.0.last_modified, c.0.last_modified);
    lemma_nulls_last_strict(a.1.rating, b.1.rating, c.1.rating);
    lemma_nulls_last_strict(a.1.play_count, b.1.play_count, c.1.play_count);
    lemma_nulls_last_strict(a.1.skip_count, b.1.skip_count, c.1.skip_count);
}

proof fn lemma_order_strict<T: TotalOrder>(a: T, b: T, c: T)
    ensures
        !(a.before(&b) && b.before(&a)),
        a.before(&b) && b.before(&c) ==> a.before(&c),
        !a.before(&b) && !b.before(&c) ==> !a.before(&c),
{
    T::law_irreflexive(&a);
    T::law_transitive(&a, &b, &a);
    T::law_transitive(&a, &b, &c);
}

proof fn lemma_nulls_last_strict<T: TotalOrder>(a: Option<T>, b: Option<T>, c: Option<T>)
    ensures
        !(asc_nulls_last(a, b) && asc_nulls_last(b, a)),
        asc_nulls_last(a, b) && asc_nulls_last(b, c) ==> asc_nulls_last(a, c),
        !asc_nulls_last(a, b) && !asc_nulls_last(b, c) ==> !asc_nulls_last(a, c),
        !(desc_nulls_last(a, b) && desc_nulls_last(b, a)),
        desc_nulls_last(a, b) && desc_nulls_last(b, c) ==> desc_nulls_last(a, c),
        !desc_nulls_last(a, b) && !desc_nulls_last(b, c) ==> !desc_nulls_last(a, c),
{
    if a is Some && b is Some {
        lemma_order_strict(a->0, b->0, a->0);
        if c is Some {
            lemma_order_strict(a->0, b->0, c->0);
            lemma_order_strict(c->0, b->0, a->0);
        }
    }
}

proof fn lemma_song_asymmetric(keys: Seq<SongOrder>, a: SongStickers, b: SongStickers)
    ensures
        !(song_before(keys, a, b) && song_before(keys, b, a)),
    decreases keys.len(),
{
    if keys.len() > 0 {
        lemma_key_strict(keys[0], a, b, a);
        lemma_song_asymmetric(keys.drop_first(), a, b);
    }
}

proof fn lemma_song_negatively_transitive(
    keys: Seq<SongOrder>,
    a: SongStickers,
    b: SongStickers,
    c: SongStickers,
)
    requires
        !song_before(keys, a, b),
        !song_before(keys, b, c),
    ensures
        !song_before(keys, a, c),
    decreases keys.len(),
{
    if keys.len() > 0 {
        let k = keys[0];
        lemma_key_strict(k, a, b, c);
        lemma_key_strict(k, c, b, a);
        lemma_key_strict(k, b, a, c);
        lemma_key_strict(k, c, a, b);
        lemma_key_strict(k, a, c, b);
        lemma_key_strict(k, b, c, a);
        if !key_before(k, b, a) && !key_before(k, c, b) {
            lemma_song_negatively_transitive(keys.drop_first(), a, b, c);
        }
    }
}

/// Whatever the criteria, songs can be sorted by them: any two can be compared, and the comparison is
/// transitive.
pub proof fn law_songs_can_be_sorted(keys: Seq<SongOrder>)
    ensures
        is_total_preorder(song_leq(keys)),
{
    let leq = song_leq(keys);
    assert forall|a: SongStickers, b: SongStickers| #[trigger] leq(a, b) || leq(b, a) by {
        lemma_song_asymmetric(keys, a, b);
    }
    assert forall|a: SongStickers, b: SongStickers, c: SongStickers|
        #![trigger leq(a, b), leq(b, c)]
        leq(a, b) && leq(b, c) implies leq(a, c) by {
        lemma_song_negatively_transitive(keys, c, b, a);
    }
}

/// Songs without the value that is ordered by come behind those that have it, whether the order is
/// ascending or descending.
pub proof fn law_absent_values_come_last<T: TotalOrder>(value: T)
    ensures
        asc_nulls_last(Some(value), None),
        desc_nulls_last(Some(value), None),
        !asc_nulls_last(None, Some(value)),
        !desc_nulls_last(None, Some(value)),
        !asc_nulls_last(None::<T>, None),
        !desc_nulls_last(None::<T>, None),
{
}

/// Descending order is ascending order read backwards on the values that are there.
pub proof fn law_descending_reverses_ascending<T: TotalOrder>(a: T, b: T)
    ensures
        asc_nulls_last(Some(a), Some(b)) == desc_nulls_last(Some(b), Some(a)),
{
}

/// A comparison the other way round.
pub open spec fn turned_round(o: Ordering) -> Ordering {
    match o {
        Ordering::Less => Ordering::Greater,
        Ordering::Equal => Ordering::Equal,
        Ordering::Greater => Ordering::Less,
    }
}

/// Optional values compare by their values where both are there; an absent one comes behind every value
/// and is equal to an absent one. The two sides can be swapped.
pub proof fn law_comparing_with_nulls_last<T: TotalOrder>(a: Option<T>, b: Option<T>)
    ensures
        a is Some && b is Some ==> {
            &&& compared_nulls_last(a, b) == Ordering::Less <==> a->0.before(&b->0)
            &&& compared_nulls_last(a, b) == Ordering::Greater <==> b->0.before(&a->0)
        },
        a is Some && b is None ==> compared_nulls_last(a, b) == Ordering::Less,
        a is None && b is Some ==> compared_nulls_last(a, b) == Ordering::Greater,
        a is None && b is None ==> compared_nulls_last(a, b) == Ordering::Equal,
        compared_nulls_last(b, a) == turned_round(compared_nulls_last(a, b)),
{
    lemma_nulls_last_strict(a, b, a);
}

/// The reverse comparison turns the order of values round, and leaves the absent ones last.
pub proof fn law_reverse_comparison_keeps_nulls_last<T: TotalOrder>(a: Option<T>, b: Option<T>)
    ensures
        a is Some && b is Some ==> reverse_compared_nulls_last(a, b) == turned_round(
            compared_nulls_last(a, b),
        ),
        a is None || b is None ==> reverse_compared_nulls_last(a, b) == compared_nulls_last(a, b),
{
    lemma_nulls_last_strict(a, b, a);
}

/// Songs are ordered by their ratings, the lowest or the highest first, and those without one come last.
pub proof fn law_order_by_rating(c: SongComparator, a: SongStickers, b: SongStickers, r: Ordering)
    requires
        call_ensures(SongComparator::compare, (&c, &a, &b), r),
    ensures
        c.criteria() == seq![SongOrder::AscRating] && a.1.rating is Some && b.1.rating is Some ==> {
            &&& r == Ordering::Less <==> a.1.rating->0 < b.1.rating->0
            &&& r == Ordering::Greater <==> a.1.rating->0 > b.1.rating->0
        },
        c.criteria() == seq![SongOrder::DescRating] && a.1.rating is Some && b.1.rating is Some ==> {
            &&& r == Ordering::Less <==> a.1.rating->0 > b.1.rating->0
            &&& r == Ordering::Greater <==> a.1.rating->0 < b.1.rating->0
        },
        c.criteria() == seq![SongOrder::AscRating] || c.criteria() == seq![SongOrder::DescRating] ==> {
            &&& a.1.rating is Some && b.1.rating is None ==> r == Ordering::Less
            &&& a.1.rating is None && b.1.rating is Some ==> r == Ordering::Greater
            &&& a.1.rating is None && b.1.rating is None ==> r == Ordering::Equal
        },
{
    lemma_one_criterion(SongOrder::AscRating, a, b);
    lemma_one_criterion(SongOrder::DescRating, a, b);
}

/// Songs are ordered by how often they were played, the least or the most first, and those that were never
/// counted come last.
pub proof fn law_order_by_play_count(c: SongComparator, a: SongStickers, b: SongStickers, r: Ordering)
    requires
        call_ensures(SongComparator::compare, (&c, &a, &b), r),
    ensures
        c.criteria() == seq![SongOrder::AscPlayCount] && a.1.play_count is Some && b.1.play_count is Some ==> {
            &&& r == Ordering::Less <==> a.1.play_count->0 < b.1.play_count->0
            &&& r == Ordering::Greater <==> a.1.play_count->0 > b.1.play_count->0
        },
        c.criteria() == seq![SongOrder::DescPlayCount] && a.1.play_count is Some && b.1.play_count is Some ==> {
            &&& r == Ordering::Less <==> a.1.play_count->0 > b.1.play_count->0
            &&& r == Ordering::Greater <==> a.1.play_count->0 < b.1.play_count->0
        },
        c.criteria() == seq![SongOrder::AscPlayCount] || c.criteria() == seq![SongOrder::DescPlayCount] ==> {
            &&& a.1.play_count is Some && b.1.play_count is None ==> r == Ordering::Less
            &&& a.1.play_count is None && b.1.play_count is Some ==> r == Ordering::Greater
            &&& a.1.play_count is None && b.1.play_count is None ==> r == Ordering::Equal
        },
{
    lemma_one_criterion(SongOrder::AscPlayCount, a, b);
    lemma_one_criterion(SongOrder::DescPlayCount, a, b);
}

/// Songs are ordered by how often they were skipped, the least or the most first, and those that were never
/// counted come last.
pub proof fn law_order_by_skip_count(c: SongComparator, a: SongStickers, b: SongStickers, r: Ordering)
    requires
        call_ensures(SongComparator::compare, (&c, &a, &b), r),
    ensures
        c.criteria() == seq![SongOrder::AscSkipCount] && a.1.skip_count is Some && b.1.skip_count is Some ==> {
            &&& r == Ordering::Less <==> a.1.skip_count->0 < b.1.skip_count->0
            &&& r == Ordering::Greater <==> a.1.skip_count->0 > b.1.skip_count->0
        },
        c.criteria() == seq![SongOrder::DescSkipCount] && a.1.skip_count is Some && b.1.skip_count is Some ==> {
            &&& r == Ordering::Less <==> a.1.skip_count->0 > b.1.skip_count->0
            &&& r == Ordering::Greater <==> a.1.skip_count->0 < b.1.skip_count->0
        },
        c.criteria() == seq![SongOrder::AscSkipCount] || c.criteria() == seq![SongOrder::DescSkipCount] ==> {
            &&& a.1.skip_count is Some && b.1.skip_count is None ==> r == Ordering::Less
            &&& a.1.skip_count is None && b.1.skip_count is Some ==> r == Ordering::Greater
            &&& a.1.skip_count is None && b.1.skip_count is None ==> r == Ordering::Equal
        },
{
    lemma_one_criterion(SongOrder::AscSkipCount, a, b);
    lemma_one_criterion(SongOrder::DescSkipCount, a, b);
}

/// Songs are ordered by when their files changed, the oldest or the newest first, and those of which that is
/// not known come last.
pub proof fn law_order_by_last_modified(c: SongComparator, a: SongStickers, b: SongStickers, r: Ordering)
    requires
        call_ensures(SongComparator::compare, (&c, &a, &b), r),
    ensures
        c.criteria() == seq![SongOrder::AscLastModified] && a.0.last_modified is Some && b.0.last_modified is Some ==> {
            &&& r == Ordering::Less <==> a.0.last_modified->0 < b.0.last_modified->0
            &&& r == Ordering::Greater <==> a.0.last_modified->0 > b.0.last_modified->0
        },
        c.criteria() == seq![SongOrder::DescLastModified] && a.0.last_modified is Some && b.0.last_modified is Some ==> {
            &&& r == Ordering::Less <==> a.0.last_modified->0 > b.0.last_modified->0
            &&& r == Ordering::Greater <==> a.0.last_modified->0 < b.0.last_modified->0
        },
        c.criteria() == seq![SongOrder::AscLastModified] || c.criteria() == seq![SongOrder::DescLastModified] ==> {
            &&& a.0.last_modified is Some && b.0.last_modified is None ==> r == Ordering::Less
            &&& a.0.last_modified is None && b.0.last_modified is Some ==> r == Ordering::Greater
            &&& a.0.last_modified is None && b.0.last_modified is None ==> r == Ordering::Equal
        },
{
    lemma_one_criterion(SongOrder::AscLastModified, a, b);
    lemma_one_criterion(SongOrder::DescLastModified, a, b);
}

/// Songs are ordered by the titles of their albums, from either end of the dictionary, and those of no album
/// come last.
pub proof fn law_order_by_album(c: SongComparator, a: SongStickers, b: SongStickers, r: Ordering)
    requires
        call_ensures(SongComparator::compare, (&c, &a, &b), r),
    ensures
        c.criteria() == seq![SongOrder::AscAlbumTitle] && a.0.album is Some && b.0.album is Some ==> {
            &&& r == Ordering::Less <==> lex_lt(a.0.album->0.title@, b.0.album->0.title@)
            &&& r == Ordering::Greater <==> lex_lt(b.0.album->0.title@, a.0.album->0.title@)
        },
        c.criteria() == seq![SongOrder::DescAlbumTitle] && a.0.album is Some && b.0.album is Some ==> {
            &&& r == Ordering::Less <==> lex_lt(b.0.album->0.title@, a.0.album->0.title@)
            &&& r == Ordering::Greater <==> lex_lt(a.0.album->0.title@, b.0.album->0.title@)
        },
        c.criteria() == seq![SongOrder::AscAlbumTitle] || c.criteria() == seq![SongOrder::DescAlbumTitle] ==> {
            &&& a.0.album is Some && !(b.0.album is Some) ==> r == Ordering::Less
            &&& !(a.0.album is Some) && b.0.album is Some ==> r == Ordering::Greater
            &&& !(a.0.album is Some) && !(b.0.album is Some) ==> r == Ordering::Equal
        },
{
    lemma_one_criterion(SongOrder::AscAlbumTitle, a, b);
    lemma_one_criterion(SongOrder::DescAlbumTitle, a, b);
}

/// Songs are ordered by their artist tags, from either end of the dictionary, and those without one come last.
pub proof fn law_order_by_artist(c: SongComparator, a: SongStickers, b: SongStickers, r: Ordering)
    requires
        call_ensures(SongComparator::compare, (&c, &a, &b), r),
    ensures
        c.criteria() == seq![SongOrder::AscArtistTag] && a.0.artist_tag is Some && b.0.artist_tag is Some ==> {
            &&& r == Ordering::Less <==> lex_lt(a.0.artist_tag->0@, b.0.artist_tag->0@)
            &&& r == Ordering::Greater <==> lex_lt(b.0.artist_tag->0@, a.0.artist_tag->0@)
        },
        c.criteria() == seq![SongOrder::DescArtistTag] && a.0.artist_tag is Some && b.0.artist_tag is Some ==> {
            &&& r == Ordering::Less <==> lex_lt(b.0.artist_tag->0@, a.0.artist_tag->0@)
            &&& r == Ordering::Greater <==> lex_lt(a.0.artist_tag->0@, b.0.artist_tag->0@)
        },
        c.criteria() == seq![SongOrder::AscArtistTag] || c.criteria() == seq![SongOrder::DescArtistTag] ==> {
            &&& a.0.artist_tag is Some && !(b.0.artist_tag is Some) ==> r == Ordering::Less
            &&& !(a.0.artist_tag is Some) && b.0.artist_tag is Some ==> r == Ordering::Greater
            &&& !(a.0.artist_tag is Some) && !(b.0.artist_tag is Some) ==> r == Ordering::Equal
        },
{
    lemma_one_criterion(SongOrder::AscArtistTag, a, b);
    lemma_one_criterion(SongOrder::DescArtistTag, a, b);
}

/// Songs are ordered by the dates of their release, the earliest or the latest first, and those without one
/// come last.
pub proof fn law_order_by_release_date(
    c: SongComparator,
    a: SongStickers,
    b: SongStickers,
    r: Ordering,
)
    requires
        call_ensures(SongComparator::compare, (&c, &a, &b), r),
        c.criteria() == seq![SongOrder::AscReleaseDate] || c.criteria() == seq![
            SongOrder::DescReleaseDate,
        ],
    ensures
        a.0.release_date is Some && b.0.release_date is Some ==> {
            let x = a.0.release_date->0;
            let y = b.0.release_date->0;
            let ascends = c.criteria() == seq![SongOrder::AscReleaseDate];
            let earlier = if ascends {
                Ordering::Less
            } else {
                Ordering::Greater
            };
            let later = if ascends {
                Ordering::Greater
            } else {
                Ordering::Less
            };
            &&& x.year < y.year ==> r == earlier
            &&& x.year > y.year ==> r == later
            &&& x.year == y.year && x.month < y.month ==> r == earlier
            &&& x.year == y.year && x.month > y.month ==> r == later
            &&& x.year == y.year && x.month == y.month && x.day < y.day ==> r == earlier
            &&& x.year == y.year && x.month == y.month && x.day > y.day ==> r == later
            &&& x == y ==> r == Ordering::Equal
        },
        a.0.release_date is Some && b.0.release_date is None ==> r == Ordering::Less,
        a.0.release_date is None && b.0.release_date is Some ==> r == Ordering::Greater,
        a.0.release_date is None && b.0.release_date is None ==> r == Ordering::Equal,
{
    lemma_one_criterion(SongOrder::AscReleaseDate, a, b);
    lemma_one_criterion(SongOrder::DescReleaseDate, a, b);
    if c.criteria() != seq![SongOrder::AscReleaseDate] {
        assert(c.criteria()[0] == SongOrder::DescReleaseDate);
    } else {
        assert(c.criteria()[0] == SongOrder::AscReleaseDate);
    }
}

/// Songs are ordered by the numbers of their tracks, and those without one come last.
pub proof fn law_order_by_track(c: SongComparator, a: SongStickers, b: SongStickers, r: Ordering)
    requires
        call_ensures(SongComparator::compare, (&c, &a, &b), r),
        c.criteria() == seq![SongOrder::Track],
    ensures
        a.0.track is Some && b.0.track is Some ==> {
            &&& r == Ordering::Less <==> a.0.track->0 < b.0.track->0
            &&& r == Ordering::Greater <==> a.0.track->0 > b.0.track->0
        },
        a.0.track is Some && a.0.track->0 < i64::MAX && b.0.track is None ==> r == Ordering::Less,
        a.0.track is None && b.0.track is None ==> r == Ordering::Equal,
{
    lemma_one_criterion(SongOrder::Track, a, b);
}

proof fn lemma_one_criterion(key: SongOrder, a: SongStickers, b: SongStickers)
    ensures
        song_before(seq![key], a, b) <==> key_before(key, a, b),
        song_before(seq![key], b, a) <==> key_before(key, b, a),
{
    reveal_with_fuel(song_before, 2);
    lemma_key_strict(key, a, b, a);
    assert(seq![key].drop_first() =~= Seq::empty());
}

/// The first criterion weighs most: the others count only where it does not tell two songs apart. Songs that
/// no criterion tells apart are equal.
pub proof fn law_the_first_criterion_weighs_most(
    c: SongComparator,
    first: SongComparator,
    rest: SongComparator,
    a: SongStickers,
    b: SongStickers,
    r: Ordering,
    by_first: Ordering,
    by_rest: Ordering,
)
    requires
        call_ensures(SongComparator::compare, (&c, &a, &b), r),
        call_ensures(SongComparator::compare, (&first, &a, &b), by_first),
        call_ensures(SongComparator::compare, (&rest, &a, &b), by_rest),
        c.criteria() == first.criteria() + rest.criteria(),
        first.criteria().len() == 1,
    ensures
        by_first != Ordering::Equal ==> r == by_first,
        by_first == Ordering::Equal ==> r == by_rest,
{
    let keys = c.criteria();
    let key = first.criteria()[0];
    assert(first.criteria() =~= seq![key]);
    assert(keys[0] == key);
    assert(keys.drop_first() =~= rest.criteria());
    lemma_one_criterion(key, a, b);
    lemma_key_strict(key, a, b, a);
}

/// Without criteria all songs are equal.
pub proof fn law_no_criterion_tells_nothing_apart(
    c: SongComparator,
    a: SongStickers,
    b: SongStickers,
    r: Ordering,
)
    requires
        call_ensures(SongComparator::compare, (&c, &a, &b), r),
        c.criteria().len() == 0,
    ensures
        r == Ordering::Equal,
{
}

/// Comparing comes down to chance where a random order is reached: no criterion before it tells the two
/// songs apart.
pub proof fn law_when_chance_decides(keys: Seq<SongOrder>, a: SongStickers, b: SongStickers)
    ensures
        reaches_random(keys, a, b) <==> exists|k: int|
            0 <= k < keys.len() && #[trigger] keys[k] == SongOrder::Random && !song_before(
                keys.take(k),
                a,
                b,
            ) && !song_before(keys.take(k), b, a),
    decreases keys.len(),
{
    if keys.len() > 0 {
        let rest = keys.drop_first();
        let key = keys[0];
        law_when_chance_decides(rest, a, b);
        lemma_key_strict(key, a, b, a);
        assert forall|k: int| 0 < k < keys.len() implies #[trigger] keys.take(k).drop_first()
            == rest.take(k - 1) by {
            assert(keys.take(k).drop_first() =~= rest.take(k - 1));
        }
        assert(keys.take(0) =~= Seq::empty());
        assert forall|k: int|
            0 < k < keys.len() && !key_before(key, a, b) && !key_before(key, b, a) implies song_before(
            #[trigger] keys.take(k),
            a,
            b,
        ) == song_before(rest.take(k - 1), a, b) && song_before(keys.take(k), b, a) == song_before(
            rest.take(k - 1),
            b,
            a,
        ) by {
            assert(keys.take(k)[0] == key);
            assert(keys.take(k).drop_first() == rest.take(k - 1));
        }
        if reaches_random(keys, a, b) {
            if key == SongOrder::Random {
                assert(keys[0] == SongOrder::Random);
                assert(!song_before(keys.take(0), a, b));
            } else {
                let k = choose|k: int|
                    0 <= k < rest.len() && #[trigger] rest[k] == SongOrder::Random && !song_before(
                        rest.take(k),
                        a,
                        b,
                    ) && !song_before(rest.take(k), b, a);
                assert(keys[k + 1] == SongOrder::Random);
                assert(song_before(keys.take(k + 1), a, b) == song_before(rest.take(k), a, b));
            }
        }
        if exists|k: int|
            0 <= k < keys.len() && #[trigger] keys[k] == SongOrder::Random && !song_before(
                keys.take(k),
                a,
                b,
            ) && !song_before(keys.take(k), b, a) {
            let k = choose|k: int|
                0 <= k < keys.len() && #[trigger] keys[k] == SongOrder::Random && !song_before(
                    keys.take(k),
                    a,
                    b,
                ) && !song_before(keys.take(k), b, a);
            if k > 0 {
                assert(keys.take(k)[0] == key);
                assert(!key_before(key, a, b) && !key_before(key, b, a));
                assert(rest[k - 1] == SongOrder::Random);
                assert(song_before(keys.take(k), a, b) == song_before(rest.take(k - 1), a, b));
            }
        }
    }
}

/// Values come in their order, or the other way round; absent ones come last either way.
pub proof fn law_absent_values_are_compared<T: TotalOrder>(
    a: Option<T>,
    b: Option<T>,
    up: Ordering,
    down: Ordering,
)
    requires
        call_ensures(cmp_options_nulls_last::<T>, (&a, &b), up),
        call_ensures(reverse_cmp_options_nulls_last::<T>, (&a, &b), down),
    ensures
        a is Some && b is Some ==> (up == Ordering::Less <==> a->0.before(&b->0)),
        a is Some && b is Some ==> (up == Ordering::Greater <==> b->0.before(&a->0)),
        a is Some && b is Some ==> (down == Ordering::Less <==> b->0.before(&a->0)),
        a is Some && b is Some ==> (down == Ordering::Greater <==> a->0.before(&b->0)),
        a is Some && b is None ==> up == Ordering::Less && down == Ordering::Less,
        a is None && b is Some ==> up == Ordering::Greater && down == Ordering::Greater,
        a is None && b is None ==> up == Ordering::Equal && down == Ordering::Equal,
{
}

}

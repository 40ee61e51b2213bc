//! The songs of the queue that were fetched last, so that a changed queue is not fetched again as a
//! whole.
use std::hash::BuildHasherDefault;
use std::num::NonZeroUsize;

use lru::LruCache;
use nohash_hasher::NoHashHasher;
use vstd::prelude::*;

use super::error::{Error, MpdError};
use crate::common::song::{blank_song, SongInfo, SongView};
use crate::text::same;

verus! {

/// The cache type of the `lru` crate.
#[verifier::external_type_specification]
#[verifier::external_body]
#[verifier::reject_recursive_types(K)]
#[verifier::reject_recursive_types(V)]
#[verifier::reject_recursive_types(S)]
pub struct ExLruCache<K, V, S>(LruCache<K, V, S>);

/// The standard builder of hashers that have a default value.
#[verifier::external_type_specification]
#[verifier::external_body]
#[verifier::reject_recursive_types(H)]
pub struct ExBuildHasherDefault<H>(BuildHasherDefault<H>);

/// The hasher of the `nohash_hasher` crate, which takes integers for their own hashes.
#[verifier::external_type_specification]
#[verifier::external_body]
#[verifier::reject_recursive_types(T)]
pub struct ExNoHashHasher<T>(NoHashHasher<T>);

/// What a cache holds, from the entry that was used last to the one that was not used for longest.
pub uninterp spec fn entries(cache: LruCache<u32, SongInfo, BuildHasherDefault<NoHashHasher<u32>>>) -> Seq<
    (u32, SongInfo),
>;

/// How many entries a cache holds at most.
pub uninterp spec fn capacity(cache: LruCache<u32, SongInfo, BuildHasherDefault<NoHashHasher<u32>>>) -> nat;

/// `LruCache::with_hasher`: an empty cache of the given capacity.
#[verifier::external_body]
fn new_cache(cap: u32) -> (r: LruCache<u32, SongInfo, BuildHasherDefault<NoHashHasher<u32>>>)
    requires
        0 < cap <= 0x10000,
    ensures
        entries(r) == Seq::<(u32, SongInfo)>::empty(),
        capacity(r) == cap,
{
    LruCache::with_hasher(NonZeroUsize::new(cap as usize).unwrap(), BuildHasherDefault::default())
}

/// The place of the entry for a key; the number of entries where there is none.
pub open spec fn find_key<V>(s: Seq<(u32, V)>, key: u32) -> int
    decreases s.len(),
{
    if s.len() == 0 {
        0
    } else if s[0].0 == key {
        0
    } else {
        1 + find_key(s.drop_first(), key)
    }
}

/// Whether there is an entry for a key.
pub open spec fn has_key<V>(s: Seq<(u32, V)>, key: u32) -> bool {
    find_key(s, key) < s.len()
}

/// The entries after the one for a key was looked up: it comes first.
pub open spec fn after_get<V>(s: Seq<(u32, V)>, key: u32) -> Seq<(u32, V)> {
    if has_key(s, key) {
        let i = find_key(s, key);
        seq![s[i]] + s.remove(i)
    } else {
        s
    }
}

/// The entries after one was put in: it comes first, in place of one with the same key, or of the last
/// entry where the cache is full.
pub open spec fn after_put<V>(s: Seq<(u32, V)>, cap: nat, key: u32, value: V) -> Seq<(u32, V)> {
    if has_key(s, key) {
        seq![(key, value)] + s.remove(find_key(s, key))
    } else if s.len() == cap {
        seq![(key, value)] + s.drop_last()
    } else {
        seq![(key, value)] + s
    }
}

/// `LruCache::get`: the value for a key, whose entry then comes first.
#[verifier::external_body]
fn cache_get<'a>(
    cache: &'a mut LruCache<u32, SongInfo, BuildHasherDefault<NoHashHasher<u32>>>,
    key: u32,
) -> (r: Option<&'a SongInfo>)
    ensures
        entries(*final(cache)) == after_get(entries(*old(cache)), key),
        capacity(*final(cache)) == capacity(*old(cache)),
        r is Some <==> has_key(entries(*old(cache)), key),
        r is Some ==> *r->0 == entries(*old(cache))[find_key(entries(*old(cache)), key)].1,
{
    cache.get(&key)
}

/// `LruCache::put`: the entry comes first, in place of one with the same key, or of the last one where
/// the cache is full.
#[verifier::external_body]
fn cache_put(
    cache: &mut LruCache<u32, SongInfo, BuildHasherDefault<NoHashHasher<u32>>>,
    key: u32,
    song: SongInfo,
)
    ensures
        entries(*final(cache)) == after_put(
            entries(*old(cache)),
            capacity(*old(cache)),
            key,
            song,
        ),
        capacity(*final(cache)) == capacity(*old(cache)),
{
    let _ = cache.put(key, song);
}

/// `LruCache::clear`: nothing is left.
#[verifier::external_body]
fn cache_clear(cache: &mut LruCache<u32, SongInfo, BuildHasherDefault<NoHashHasher<u32>>>)
    ensures
        entries(*final(cache)) == Seq::<(u32, SongInfo)>::empty(),
        capacity(*final(cache)) == capacity(*old(cache)),
{
    cache.clear();
}

/// How many songs are kept.
pub const SONG_CACHE_SIZE: u32 = 16384;

/// The songs of the queue that were used last, by what the server calls their entries.
pub struct SongCache {
    cache: LruCache<u32, SongInfo, BuildHasherDefault<NoHashHasher<u32>>>,
}

/// What the entries say.
pub open spec fn entry_views(s: Seq<(u32, SongInfo)>) -> Seq<(u32, SongView)> {
    s.map_values(|e: (u32, SongInfo)| (e.0, e.1@))
}

/// Whether no key occurs twice.
pub open spec fn distinct_keys<V>(s: Seq<(u32, V)>) -> bool {
    forall|i: int, j: int| 0 <= i < j < s.len() ==> s[i].0 != s[j].0
}

impl View for SongCache {
    type V = Seq<(u32, SongView)>;

    /// The songs from the one that was used last to the one that was not used for longest.
    closed spec fn view(&self) -> Seq<(u32, SongView)> {
        entry_views(entries(self.cache))
    }
}

/// The entries after the songs of a page were put in; songs that the queue does not hold are left out.
pub open spec fn after_page(s: Seq<(u32, SongView)>, songs: Seq<SongView>) -> Seq<(u32, SongView)>
    decreases songs.len(),
{
    if songs.len() == 0 {
        s
    } else {
        let before = after_page(s, songs.drop_last());
        match songs.last().queue_id {
            Some(id) => after_put(before, SONG_CACHE_SIZE as nat, id, songs.last()),
            None => before,
        }
    }
}

/// What each song says.
pub open spec fn song_views(songs: Seq<SongInfo>) -> Seq<SongView> {
    songs.map_values(|s: SongInfo| s@)
}

impl SongCache {
    /// Whether the cache is as this module keeps it: no entry is there twice, and there are not too
    /// many.
    pub closed spec fn wf(&self) -> bool {
        &&& capacity(self.cache) == SONG_CACHE_SIZE
        &&& self@.len() <= SONG_CACHE_SIZE
        &&& distinct_keys(self@)
    }

    pub fn new() -> (r: Self)
        ensures
            r.wf(),
            r@ == Seq::<(u32, SongView)>::empty(),
    {
        let r: SongCache = SongCache { cache: new_cache(SONG_CACHE_SIZE) };
        assert(r@ =~= Seq::empty());
        r
    }

    /// Forgets every song.
    pub fn clear(&mut self)
        requires
            old(self).wf(),
        ensures
            final(self).wf(),
            final(self)@ == Seq::<(u32, SongView)>::empty(),
    {
        cache_clear(&mut self.cache);
        assert(self@ =~= Seq::empty());
    }

    /// Keeps a song.
    fn put(&mut self, id: u32, song: SongInfo)
        requires
            old(self).wf(),
        ensures
            final(self).wf(),
            final(self)@ == after_put(old(self)@, SONG_CACHE_SIZE as nat, id, song@),
    {
        let ghost before = entries(self.cache);
        cache_put(&mut self.cache, id, song);
        proof {
            lemma_views_after_put(before, SONG_CACHE_SIZE as nat, id, song);
            law_cache_is_bounded(entry_views(before), SONG_CACHE_SIZE as nat, id, song@);
        }
    }

    /// Keeps the songs of a page of the queue. Gives back those that the queue holds.
    pub fn store_page(&mut self, songs: Vec<SongInfo>) -> (r: Vec<SongInfo>)
        requires
            old(self).wf(),
        ensures
            final(self).wf(),
            final(self)@ == after_page(old(self)@, song_views(songs@)),
            r@ == songs@.filter(|s: SongInfo| s.queue_id is Some),
    {
        let ghost start = self@;
        let ghost all = songs@;
        let ghost queued = |s: SongInfo| s.queue_id is Some;
        let mut kept: Vec<SongInfo> = Vec::new();
        proof {
            assert(song_views(all.take(0)) =~= Seq::empty());
            assert(all.take(0) =~= Seq::empty());
            reveal(Seq::filter);
        }
        for song in it: songs
            invariant
                it.seq() == all,
                queued == (|s: SongInfo| s.queue_id is Some),
                self.wf(),
                self@ == after_page(start, song_views(all.take(it.index()))),
                kept@ == all.take(it.index()).filter(queued),
        {
            let ghost init = all.take(it.index());
            proof {
                assert(all.take(it.index() + 1) =~= init.push(song));
                init.lemma_filter_push(song, queued);
                assert(song_views(init.push(song)).drop_last() =~= song_views(init));
            }
            if let Some(id) = song.queue_id {
                self.put(id, song.clone());
                kept.push(song);
            }
        }
        assert(all.take(all.len() as int) =~= all);
        kept
    }

    /// The song of an entry that the server reports at a place, where it is kept.
    pub fn lookup(&mut self, id: u32, pos: u32) -> (r: Option<SongInfo>)
        requires
            old(self).wf(),
        ensures
            final(self).wf(),
            final(self)@ == after_get(old(self)@, id),
            r is Some <==> has_key(old(self)@, id),
            r is Some ==> r->0@ == (SongView {
                queue_pos: Some(pos),
                ..old(self)@[find_key(old(self)@, id)].1
            }),
    {
        let ghost before = entries(self.cache);
        proof {
            lemma_find_key(before, id);
            lemma_views_find(before, id);
            lemma_views_after_get(before, id);
            lemma_get_keeps_keys(entry_views(before), id);
        }
        match cache_get(&mut self.cache, id) {
            Some(song) => {
                let mut found: SongInfo = song.clone();
                found.queue_pos = Some(pos);
                Some(found)
            },
            None => None,
        }
    }

    /// Takes over what the server has sent for an entry that was not kept. Where it has sent nothing,
    /// the queue has probably changed again, and an empty song stands in until the next refresh.
    pub fn adopt(&mut self, id: u32, pos: u32, fetched: Option<SongInfo>) -> (r: SongInfo)
        requires
            old(self).wf(),
        ensures
            final(self).wf(),
            match fetched {
                Some(song) => r == song && final(self)@ == after_put(
                    old(self)@,
                    SONG_CACHE_SIZE as nat,
                    id,
                    song@,
                ),
                None => r@ == (SongView {
                    queue_id: Some(id),
                    queue_pos: Some(pos),
                    ..blank_song()
                }) && final(self)@ == old(self)@,
            },
    {
        match fetched {
            Some(song) => {
                self.put(id, song.clone());
                song
            },
            None => {
                let mut song: SongInfo = SongInfo::default();
                song.queue_id = Some(id);
                song.queue_pos = Some(pos);
                song
            },
        }
    }
}

/// Whether an error only says that the queue has ended.
pub fn is_end_of_queue(e: &Error) -> (r: bool)
    ensures
        r == (e matches Error::Mpd(MpdError::Server(_, detail)) && detail@ == "Bad song index"@),
{
    match e {
        Error::Mpd(MpdError::Server(_, detail)) => same(detail.as_str(), "Bad song index"),
        _ => false,
    }
}

/// `find_key` finds the first entry with the key.
pub proof fn lemma_find_key<V>(s: Seq<(u32, V)>, key: u32)
    ensures
        0 <= find_key(s, key) <= s.len(),
        has_key(s, key) ==> s[find_key(s, key)].0 == key,
        forall|i: int| 0 <= i < find_key(s, key) ==> (#[trigger] s[i]).0 != key,
    decreases s.len(),
{
    if s.len() > 0 && s[0].0 != key {
        let rest = s.drop_first();
        lemma_find_key(rest, key);
        assert forall|i: int| 0 <= i < find_key(s, key) implies (#[trigger] s[i]).0 != key by {
            if i > 0 {
                assert(rest[i - 1] == s[i]);
            }
        }
    }
}

/// There is an entry for a key just where some entry has it.
proof fn lemma_has_key<V>(s: Seq<(u32, V)>, key: u32)
    ensures
        has_key(s, key) <==> exists|i: int| 0 <= i < s.len() && (#[trigger] s[i]).0 == key,
{
    lemma_find_key(s, key);
    if has_key(s, key) {
        assert(s[find_key(s, key)].0 == key);
    }
}

proof fn lemma_views_find(s: Seq<(u32, SongInfo)>, key: u32)
    ensures
        find_key(entry_views(s), key) == find_key(s, key),
        has_key(entry_views(s), key) == has_key(s, key),
    decreases s.len(),
{
    if s.len() > 0 && s[0].0 != key {
        lemma_views_find(s.drop_first(), key);
        assert(entry_views(s).drop_first() =~= entry_views(s.drop_first()));
    }
}

proof fn lemma_views_after_get(s: Seq<(u32, SongInfo)>, key: u32)
    ensures
        entry_views(after_get(s, key)) == after_get(entry_views(s), key),
{
    lemma_find_key(s, key);
    lemma_views_find(s, key);
    assert(entry_views(after_get(s, key)) =~= after_get(entry_views(s), key));
}

proof fn lemma_views_after_put(s: Seq<(u32, SongInfo)>, cap: nat, key: u32, song: SongInfo)
    requires
        cap > 0,
    ensures
        entry_views(after_put(s, cap, key, song)) == after_put(entry_views(s), cap, key, song@),
{
    lemma_find_key(s, key);
    lemma_views_find(s, key);
    assert(entry_views(after_put(s, cap, key, song)) =~= after_put(
        entry_views(s),
        cap,
        key,
        song@,
    ));
}

proof fn lemma_get_keeps_keys<V>(s: Seq<(u32, V)>, key: u32)
    requires
        distinct_keys(s),
    ensures
        distinct_keys(after_get(s, key)),
        after_get(s, key).len() == s.len(),
{
    lemma_find_key(s, key);
}

/// A cache within its capacity, without an entry that is there twice, stays so.
pub proof fn law_cache_is_bounded<V>(s: Seq<(u32, V)>, cap: nat, key: u32, value: V)
    requires
        0 < cap,
        s.len() <= cap,
        distinct_keys(s),
    ensures
        after_put(s, cap, key, value).len() <= cap,
        distinct_keys(after_put(s, cap, key, value)),
{
    lemma_find_key(s, key);
}

/// What was put in is found: looked up right away, its key gives its value.
pub proof fn law_cache_remembers<V>(s: Seq<(u32, V)>, cap: nat, key: u32, value: V)
    ensures
        has_key(after_put(s, cap, key, value), key),
        find_key(after_put(s, cap, key, value), key) == 0,
        after_put(s, cap, key, value)[0] == (key, value),
{
}

/// A new entry costs at most one other: the one that was not used for longest, and only where the cache
/// is full.
pub proof fn law_cache_forgets_the_oldest<V>(
    s: Seq<(u32, V)>,
    cap: nat,
    key: u32,
    value: V,
    other: u32,
)
    requires
        0 < cap,
        s.len() <= cap,
        distinct_keys(s),
        other != key,
        has_key(s, other),
    ensures
        has_key(after_put(s, cap, key, value), other) <==> !(s.len() == cap && !has_key(s, key)
            && other == s.last().0),
{
    let t = after_put(s, cap, key, value);
    lemma_find_key(s, key);
    lemma_find_key(s, other);
    lemma_has_key(t, other);
    let i = find_key(s, other);
    let k = find_key(s, key);
    if has_key(s, key) {
        if i < k {
            assert(t[i + 1] == s[i]);
        } else {
            assert(t[i] == s[i]);
        }
    } else if s.len() == cap {
        if other == s.last().0 {
            assert forall|j: int| 0 <= j < t.len() implies (#[trigger] t[j]).0 != other by {
                if j > 0 {
                    assert(t[j] == s[j - 1]);
                }
            }
        } else {
            assert(t[i + 1] == s[i]);
        }
    } else {
        assert(t[i + 1] == s[i]);
    }
}

/// Looking an entry up saves it from being the next to go, and keeps every other.
pub proof fn law_lookup_renews<V>(s: Seq<(u32, V)>, key: u32, other: u32)
    ensures
        has_key(after_get(s, key), other) == has_key(s, other),
        has_key(s, key) ==> after_get(s, key)[0].0 == key,
{
    let t = after_get(s, key);
    lemma_find_key(s, key);
    lemma_find_key(s, other);
    lemma_has_key(t, other);
    lemma_has_key(s, other);
    if has_key(s, key) {
        let k = find_key(s, key);
        if has_key(s, other) {
            let i = find_key(s, other);
            if i == k {
                assert(t[0] == s[i]);
            } else if i < k {
                assert(t[i + 1] == s[i]);
            } else {
                assert(t[i] == s[i]);
            }
        }
        if exists|j: int| 0 <= j < t.len() && (#[trigger] t[j]).0 == other {
            let j = choose|j: int| 0 <= j < t.len() && (#[trigger] t[j]).0 == other;
            if j == 0 {
                assert(s[k].0 == other);
            } else if j - 1 < k {
                assert(t[j] == s[j - 1]);
            } else {
                assert(t[j] == s[j]);
            }
        }
    }
}

/// A song that is kept is found by its entry, with the place that it now has, and is not forgotten by that;
/// what is not kept is not found.
pub proof fn law_songs_are_looked_up(cache: &mut SongCache, id: u32, pos: u32, r: Option<SongInfo>, i: int)
    requires
        old(cache).wf(),
        call_ensures(SongCache::lookup, (cache, id, pos), r),
        0 <= i < old(cache)@.len(),
    ensures
        r is None ==> old(cache)@[i].0 != id,
        old(cache)@[i].0 == id ==> r is Some && r->0@ == (SongView {
            queue_pos: Some(pos),
            ..old(cache)@[i].1
        }),
        r is Some ==> final(cache)@.len() > 0 && final(cache)@[0].0 == id,
        final(cache)@.len() == old(cache)@.len(),
{
    let s = old(cache)@;
    lemma_find_key(s, id);
    law_lookup_renews(s, id, id);
    let k = find_key(s, id);
    if s[i].0 == id {
        if k < i {
            assert(s[k].0 != s[i].0);
        }
        if i < k {
            assert(s[i].0 != id);
        }
    }
}

/// A song that was fetched is handed on as it is, and is kept as the newest; one that could not be fetched is
/// stood for by an empty one with its entry and place.
pub proof fn law_songs_are_adopted(
    a: &mut SongCache,
    id: u32,
    pos: u32,
    song: SongInfo,
    r: SongInfo,
    b: &mut SongCache,
    empty: SongInfo,
)
    requires
        old(a).wf(),
        old(b).wf(),
        call_ensures(SongCache::adopt, (a, id, pos, Some(song)), r),
        call_ensures(SongCache::adopt, (b, id, pos, None::<SongInfo>), empty),
    ensures
        r == song,
        final(a)@.len() > 0 && final(a)@[0] == (id, song@),
        final(a)@.len() <= 16384,
        empty.queue_id == Some(id) && empty.queue_pos == Some(pos),
        empty@.uri.len() == 0 && empty@.title.len() == 0 && empty.album is None,
        final(b)@ == old(b)@,
{
    law_cache_remembers(old(a)@, SONG_CACHE_SIZE as nat, id, song@);
    law_cache_is_bounded(old(a)@, SONG_CACHE_SIZE as nat, id, song@);
    assert(empty@.queue_id == empty.queue_id && empty@.queue_pos == empty.queue_pos);
    assert((empty.album is Some) == (empty@.album is Some));
}

/// Of a page every song with an entry in the queue comes out, and no other; the last of them is the newest
/// that is kept.
pub proof fn law_pages_are_stored(cache: &mut SongCache, songs: Vec<SongInfo>, r: Vec<SongInfo>, i: int)
    requires
        old(cache).wf(),
        call_ensures(SongCache::store_page, (cache, songs), r),
        0 <= i < songs@.len(),
    ensures
        r@.contains(songs@[i]) <==> songs@[i].queue_id is Some,
        i == songs@.len() - 1 && songs@[i].queue_id is Some ==> final(cache)@.len() > 0
            && final(cache)@[0] == (songs@[i].queue_id->0, songs@[i]@),
{
    let keep = |s: SongInfo| s.queue_id is Some;
    assert(r@ == songs@.filter(keep));
    songs@.filter_lemma(keep);
    if r@.contains(songs@[i]) {
        let k = choose|k: int| 0 <= k < r@.len() && r@[k] == songs@[i];
        assert(keep(songs@.filter(keep)[k]));
    }
    let views = song_views(songs@);
    if i == songs@.len() - 1 && songs@[i].queue_id is Some {
        assert(views.last() == songs@[i]@);
        let before = after_page(old(cache)@, views.drop_last());
        law_cache_remembers(
            before,
            SONG_CACHE_SIZE as nat,
            songs@[i].queue_id->0,
            songs@[i]@,
        );
    }
}

/// The queue ends where the server says that an index is bad, and at no other error.
pub proof fn law_the_end_of_the_queue(e: Error, r: bool)
    requires
        call_ensures(is_end_of_queue, (&e,), r),
    ensures
        r <==> (e is Mpd && e->Mpd_0 is Server && e->Mpd_0->Server_1@ == "Bad song index"@),
{
}

}

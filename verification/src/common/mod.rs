//! The records that the player keeps about songs, albums, artists, genres and playlists.
use vstd::prelude::*;

pub mod album;
pub mod artist;
pub mod date;
pub mod distinct;
pub mod dynamic_playlist;
pub mod genre;
pub mod quality;
pub mod song;
pub mod sticker;

verus! {

/// What an image widget shows: nothing, a spinner while an image loads, or the image.
#[derive(Debug, Clone, Copy, PartialEq, Eq, Structural)]
pub enum ImageState {
    Empty,
    Spinner,
    Image,
}

impl Default for ImageState {
    fn default() -> (r: Self)
        ensures
            r == ImageState::Empty,
    {
        ImageState::Empty
    }
}

/// The characters of an optional string.
pub open spec fn opt_view(s: Option<String>) -> Option<Seq<char>> {
    match s {
        Some(t) => Some(t@),
        None => None,
    }
}

/// The characters of each string.
pub open spec fn str_views(s: Seq<String>) -> Seq<Seq<char>> {
    s.map_values(|t: String| t@)
}

/// Groups one after the other.
pub open spec fn joined<T>(groups: Seq<Seq<T>>) -> Seq<T>
    decreases groups.len(),
{
    if groups.len() == 0 {
        Seq::empty()
    } else {
        groups[0] + joined(groups.drop_first())
    }
}

/// A group at the end comes last.
pub proof fn lemma_joined_push<T>(groups: Seq<Seq<T>>, group: Seq<T>)
    ensures
        joined(groups.push(group)) == joined(groups) + group,
    decreases groups.len(),
{
    let all = groups.push(group);
    if groups.len() == 0 {
        reveal_with_fuel(joined, 2);
        assert(all.drop_first() =~= Seq::empty());
        assert(joined(all) =~= joined(groups) + group);
    } else {
        lemma_joined_push(groups.drop_first(), group);
        assert(all.drop_first() =~= groups.drop_first().push(group));
        assert(joined(all) =~= joined(groups) + group);
    }
}

/// An element more in one group is an element more in all.
pub proof fn lemma_joined_update<T>(groups: Seq<Seq<T>>, i: int, x: T)
    requires
        0 <= i < groups.len(),
    ensures
        joined(groups.update(i, groups[i].push(x))).to_multiset() =~= joined(
            groups,
        ).to_multiset().insert(x),
    decreases groups.len(),
{
    broadcast use vstd::seq_lib::group_to_multiset_ensures;

    let all = groups.update(i, groups[i].push(x));
    let rest = groups.drop_first();
    vstd::seq_lib::lemma_multiset_commutative(groups[0], joined(rest));
    if i == 0 {
        assert(all.drop_first() =~= rest);
        vstd::seq_lib::lemma_multiset_commutative(groups[0].push(x), joined(rest));
    } else {
        lemma_joined_update(rest, i - 1, x);
        assert(all.drop_first() =~= rest.update(i - 1, rest[i - 1].push(x)));
        vstd::seq_lib::lemma_multiset_commutative(groups[0], joined(all.drop_first()));
    }
}

/// One group and the others together hold what all of them hold.
proof fn lemma_joined_remove<T>(groups: Seq<Seq<T>>, i: int)
    requires
        0 <= i < groups.len(),
    ensures
        joined(groups).to_multiset() =~= groups[i].to_multiset().add(
            joined(groups.remove(i)).to_multiset(),
        ),
    decreases groups.len(),
{
    let rest = groups.drop_first();
    let left = groups.remove(i);
    vstd::seq_lib::lemma_multiset_commutative(groups[0], joined(rest));
    if i == 0 {
        assert(left =~= rest);
    } else {
        lemma_joined_remove(rest, i - 1);
        assert(left.drop_first() =~= rest.remove(i - 1));
        assert(left[0] == groups[0]);
        vstd::seq_lib::lemma_multiset_commutative(left[0], joined(left.drop_first()));
    }
}

/// Groups in another order hold the same elements, each as often.
pub proof fn lemma_joined_rearranged<T>(a: Seq<Seq<T>>, b: Seq<Seq<T>>)
    requires
        a.to_multiset() == b.to_multiset(),
    ensures
        joined(a).to_multiset() == joined(b).to_multiset(),
    decreases a.len(),
{
    broadcast use vstd::seq_lib::group_to_multiset_ensures;

    assert(a.len() == b.len()) by {
        assert(a.to_multiset().len() == a.len());
        assert(b.to_multiset().len() == b.len());
    }
    if a.len() == 0 {
        assert(a =~= b);
    } else {
        let x = a[0];
        assert(a.contains(x));
        assert(a.to_multiset().count(x) > 0);
        assert(b.contains(x));
        let k = choose|k: int| 0 <= k < b.len() && b[k] == x;
        a.remove_ensures(0);
        b.remove_ensures(k);
        assert(a.remove(0).to_multiset() =~= b.remove(k).to_multiset());
        lemma_joined_rearranged(a.remove(0), b.remove(k));
        lemma_joined_remove(a, 0);
        lemma_joined_remove(b, k);
        assert(joined(a).to_multiset() =~= joined(b).to_multiset());
    }
}

/// A copy of an optional string.
pub fn clone_opt(s: &Option<String>) -> (r: Option<String>)
    ensures
        r == *s,
{
    match s {
        Some(t) => Some(t.clone()),
        None => None,
    }
}

/// A copy of a list of strings.
pub fn clone_strings(s: &Vec<String>) -> (r: Vec<String>)
    ensures
        str_views(r@) == str_views(s@),
{
    let mut r: Vec<String> = Vec::new();
    let mut i: usize = 0;
    while i < s.len()
        invariant
            i <= s@.len(),
            str_views(r@) =~= str_views(s@).take(i as int),
        decreases s.len() - i,
    {
        let ghost before = r@;
        let t: String = s[i].clone();
        proof {
            assert(str_views(before.push(t)) =~= str_views(before).push(t@));
            assert(str_views(s@).take(i + 1) =~= str_views(s@).take(i as int).push(
                str_views(s@)[i as int],
            ));
        }
        r.push(t);
        i = i + 1;
    }
    assert(str_views(s@).take(i as int) =~= str_views(s@));
    r
}

}

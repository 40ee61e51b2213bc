//! Finding phrases in text, and cutting text at the places where they were found.
//!
//! Places in text are counted in bytes of its UTF-8 form, as the search reports them.
use aho_corasick::{AhoCorasick, BuildError};
use vstd::prelude::*;
use vstd::string::*;

verus! {

/// The searcher of the `aho_corasick` crate.
#[verifier::external_type_specification]
#[verifier::external_body]
pub struct ExAhoCorasick(AhoCorasick);

/// The error that the `aho_corasick` crate reports where no searcher can be built.
#[verifier::external_type_specification]
#[verifier::external_body]
pub struct ExBuildError(BuildError);

/// How many bytes a character takes.
pub open spec fn width(c: char) -> nat {
    if (c as u32) < 0x80 {
        1
    } else if (c as u32) < 0x800 {
        2
    } else if (c as u32) < 0x1_0000 {
        3
    } else {
        4
    }
}

/// How many bytes a text takes.
pub open spec fn byte_len(s: Seq<char>) -> nat
    decreases s.len(),
{
    if s.len() == 0 {
        0
    } else {
        byte_len(s.drop_last()) + width(s.last())
    }
}

/// How many characters stand before a place; nothing where the place is inside a character or behind
/// the end.
pub open spec fn char_place(s: Seq<char>, offset: int) -> Option<int>
    decreases s.len(),
{
    if offset == byte_len(s) {
        Some(s.len() as int)
    } else if s.len() == 0 {
        None
    } else {
        char_place(s.drop_last(), offset)
    }
}

/// The part of a text from one place to another, where there is one.
pub open spec fn piece(s: Seq<char>, start: int, end: int) -> Option<Seq<char>> {
    match (char_place(s, start), char_place(s, end)) {
        (Some(i), Some(j)) => if i <= j {
            Some(s.subrange(i, j))
        } else {
            None
        },
        _ => None,
    }
}

/// What a searcher looks for.
pub uninterp spec fn phrases_of(searcher: AhoCorasick) -> Seq<Seq<char>>;

/// Whether a searcher for `phrases` can be built.
pub uninterp spec fn searcher_fits(phrases: Seq<Seq<char>>) -> bool;

/// Where a searcher for `phrases` reports matches in `text`, from start to end.
pub uninterp spec fn phrase_matches(phrases: Seq<Seq<char>>, text: Seq<char>) -> Seq<(int, int)>;

/// Whether one of the phrases stands at a place.
pub open spec fn occurs(phrases: Seq<Seq<char>>, text: Seq<char>, m: (int, int)) -> bool {
    piece(text, m.0, m.1) is Some && phrases.contains(piece(text, m.0, m.1)->0)
}

/// Whether a phrase is seen first when `text` is read from the place `at` on: none ends before it, and
/// of those that end with it none starts before it.
pub open spec fn is_first_seen(
    phrases: Seq<Seq<char>>,
    text: Seq<char>,
    at: int,
    m: (int, int),
) -> bool {
    &&& occurs(phrases, text, m)
    &&& at <= m.0
    &&& forall|o: (int, int)| #[trigger]
        occurs(phrases, text, o) && at <= o.0 ==> m.1 < o.1 || m.1 == o.1 && m.0 <= o.0
}

/// Where the search for the match `i` starts: behind the match before.
pub open spec fn search_start(ms: Seq<(int, int)>, i: int) -> int {
    if i == 0 {
        0
    } else {
        ms[i - 1].1
    }
}

/// Whether `ms` are the places of phrases that are seen when `text` is read once: each is the first
/// behind the one before, and none comes behind the last.
pub open spec fn are_matches(
    phrases: Seq<Seq<char>>,
    text: Seq<char>,
    ms: Seq<(int, int)>,
) -> bool {
    &&& forall|i: int|
        0 <= i < ms.len() ==> #[trigger] is_first_seen(phrases, text, search_start(ms, i), ms[i])
    &&& forall|o: (int, int)| #[trigger]
        occurs(phrases, text, o) ==> o.0 < search_start(ms, ms.len() as int)
}

/// What each string holds.
pub open spec fn slice_views(s: Seq<&str>) -> Seq<Seq<char>> {
    s.map_values(|t: &str| t@)
}

/// The places as mathematical integers.
pub open spec fn place_views(s: Seq<(usize, usize)>) -> Seq<(int, int)> {
    s.map_values(|m: (usize, usize)| (m.0 as int, m.1 as int))
}

/// `AhoCorasick::new`: a searcher for the phrases. Whether they are too many or too long for one depends
/// on nothing else.
#[verifier::external_body]
pub(crate) fn new_searcher(phrases: &[&str]) -> (r: Result<AhoCorasick, BuildError>)
    ensures
        r is Ok <==> searcher_fits(slice_views(phrases@)),
        r is Ok ==> phrases_of(r->Ok_0) == slice_views(phrases@),
{
    AhoCorasick::new(phrases)
}

/// `AhoCorasick::find_iter` with the standard kind of matching: the matches from start to end, which do
/// not overlap. Where no phrase is empty, each of them is reported as soon as it is seen.
#[verifier::external_body]
pub(crate) fn find_phrases(searcher: &AhoCorasick, text: &str) -> (r: Vec<(usize, usize)>)
    ensures
        place_views(r@) == phrase_matches(phrases_of(*searcher), text@),
        forall|i: int| 0 <= i < r@.len() ==> (#[trigger] r@[i]).0 <= r@[i].1 <= byte_len(text@),
        forall|i: int, j: int| 0 <= i < j < r@.len() ==> (#[trigger] r@[i]).1 <= (#[trigger] r@[j]).0,
        !phrases_of(*searcher).contains(Seq::empty()) ==> are_matches(
            phrases_of(*searcher),
            text@,
            place_views(r@),
        ),
{
    searcher.find_iter(text).map(|m| (m.start(), m.end())).collect()
}

/// The searcher could not be built: the phrases are too many or too long.
#[derive(Debug, Clone, Copy, PartialEq, Eq, Structural)]
pub struct PhrasesTooLarge;

/// `char_place` counts the characters before a place.
pub proof fn lemma_char_place(s: Seq<char>, offset: int)
    ensures
        char_place(s, offset) matches Some(k) ==> 0 <= k <= s.len() && byte_len(s.take(k)) == offset,
    decreases s.len(),
{
    if offset == byte_len(s) {
        assert(s.take(s.len() as int) =~= s);
    } else if s.len() > 0 {
        lemma_char_place(s.drop_last(), offset);
        if let Some(k) = char_place(s.drop_last(), offset) {
            assert(s.drop_last().take(k) =~= s.take(k));
        }
    }
}

proof fn lemma_byte_len_grows(s: Seq<char>, i: int, j: int)
    requires
        0 <= i < j <= s.len(),
    ensures
        byte_len(s.take(i)) < byte_len(s.take(j)),
    decreases j - i,
{
    assert(s.take(j).drop_last() =~= s.take(j - 1));
    if i < j - 1 {
        lemma_byte_len_grows(s, i, j - 1);
    }
}

/// The place behind the first `k` characters has them before it.
pub proof fn lemma_place_of_chars(s: Seq<char>, k: int)
    requires
        0 <= k <= s.len(),
    ensures
        char_place(s, byte_len(s.take(k)) as int) == Some(k),
    decreases s.len(),
{
    if k == s.len() {
        assert(s.take(k) =~= s);
    } else {
        lemma_byte_len_grows(s, k, s.len() as int);
        assert(s.take(s.len() as int) =~= s);
        assert(s.drop_last().take(k) =~= s.take(k));
        lemma_place_of_chars(s.drop_last(), k);
    }
}

/// How many bytes a character takes.
fn char_width(c: char) -> (r: usize)
    ensures
        r == width(c),
{
    let n: u32 = c as u32;
    if n < 0x80 {
        1
    } else if n < 0x800 {
        2
    } else if n < 0x1_0000 {
        3
    } else {
        4
    }
}

/// How many characters stand before a place.
pub fn find_place(chars: &Vec<char>, offset: usize) -> (r: Option<usize>)
    ensures
        match char_place(chars@, offset as int) {
            Some(k) => r is Some && r->0 == k && k <= chars.len(),
            None => r is None,
        },
{
    let ghost s = chars@;
    let mut k: usize = 0;
    let mut at: usize = 0;
    assert(s.take(0) =~= Seq::empty());
    while k < chars.len() && at < offset
        invariant
            s == chars@,
            k <= chars.len(),
            at <= offset,
            at == byte_len(s.take(k as int)),
        ensures
            k <= chars.len(),
            at <= offset,
            at == byte_len(s.take(k as int)),
            at < offset ==> k == chars.len(),
        decreases chars.len() - k,
    {
        let w: usize = char_width(chars[k]);
        assert(s.take(k + 1).drop_last() =~= s.take(k as int));
        if w > offset - at {
            proof {
                if let Some(j) = char_place(s, offset as int) {
                    lemma_char_place(s, offset as int);
                    if j <= k {
                        if j < k {
                            lemma_byte_len_grows(s, j, k as int);
                        }
                    } else if j > k + 1 {
                        lemma_byte_len_grows(s, k + 1, j);
                    }
                }
            }
            return None;
        }
        at = at + w;
        k = k + 1;
    }
    if at == offset {
        proof {
            lemma_place_of_chars(s, k as int);
        }
        Some(k)
    } else {
        proof {
            if let Some(j) = char_place(s, offset as int) {
                lemma_char_place(s, offset as int);
                if j < k {
                    lemma_byte_len_grows(s, j, k as int);
                }
            }
        }
        None
    }
}

/// The part of a text from one place to another, where there is one.
pub fn cut<'a>(s: &'a str, chars: &Vec<char>, start: usize, end: usize) -> (r: Option<&'a str>)
    requires
        chars@ == s@,
    ensures
        match piece(s@, start as int, end as int) {
            Some(p) => r is Some && r->0@ == p,
            None => r is None,
        },
{
    match (find_place(chars, start), find_place(chars, end)) {
        (Some(i), Some(j)) => if i <= j {
            Some(s.substring_char(i, j))
        } else {
            None
        },
        _ => None,
    }
}

/// Two runs of the search that see the same phrases in the same text report the same places.
pub proof fn law_matches_are_determined(
    phrases: Seq<Seq<char>>,
    text: Seq<char>,
    a: Seq<(int, int)>,
    b: Seq<(int, int)>,
)
    requires
        are_matches(phrases, text, a),
        are_matches(phrases, text, b),
    ensures
        a == b,
{
    lemma_same_prefix(phrases, text, a, b, a.len() as int);
    lemma_same_prefix(phrases, text, b, a, b.len() as int);
    assert(a =~= b);
}

proof fn lemma_same_prefix(
    phrases: Seq<Seq<char>>,
    text: Seq<char>,
    a: Seq<(int, int)>,
    b: Seq<(int, int)>,
    n: int,
)
    requires
        are_matches(phrases, text, a),
        are_matches(phrases, text, b),
        0 <= n <= a.len(),
    ensures
        n <= b.len(),
        forall|i: int| 0 <= i < n ==> a[i] == b[i],
    decreases n,
{
    if n > 0 {
        lemma_same_prefix(phrases, text, a, b, n - 1);
        assert(search_start(a, n - 1) == search_start(b, n - 1));
        assert(is_first_seen(phrases, text, search_start(a, n - 1), a[n - 1]));
        assert(occurs(phrases, text, a[n - 1]));
        if b.len() > n - 1 {
            assert(is_first_seen(phrases, text, search_start(b, n - 1), b[n - 1]));
            assert(occurs(phrases, text, b[n - 1]));
        }
    }
}

}

//! Genres, and the tags that name several of them at once.
//!
//! A tag is split at delimiters. Exceptions are names that hold a delimiter themselves: they are taken
//! out first, and blanks stand in for them while the rest is split.
use aho_corasick::AhoCorasick;
use vstd::prelude::*;
use vstd::string::*;

use super::distinct::{distinct, insert_distinct, law_distinct, DistinctStrings};
use super::str_views;
use crate::phrases::{
    are_matches, byte_len, char_place, cut, find_phrases, find_place, is_first_seen,
    lemma_char_place, lemma_place_of_chars, occurs, phrase_matches, phrases_of, piece, place_views,
    search_start, slice_views,
};
use crate::text::{chars_of, contains_part, is_blank, law_trimmed, string_of, trim, trimmed};

verus! {

/// A run of blanks.
pub open spec fn blanks(n: int) -> Seq<char> {
    Seq::new(n as nat, |i: int| ' ')
}

/// A text in which blanks stand from one place to another.
pub open spec fn blanked_at(s: Seq<char>, start: int, end: int) -> Seq<char> {
    match (char_place(s, start), char_place(s, end)) {
        (Some(i), Some(j)) => if i <= j {
            s.take(i) + blanks(end - start) + s.skip(j)
        } else {
            s
        },
        _ => s,
    }
}

/// A text in which blanks stand wherever an exception was found.
pub open spec fn blanked(text: Seq<char>, exceptions: Seq<(int, int)>) -> Seq<char>
    decreases exceptions.len(),
{
    if exceptions.len() == 0 {
        text
    } else {
        let before = blanked(text, exceptions.drop_last());
        let m = exceptions.last();
        if piece(text, m.0, m.1) is Some {
            blanked_at(before, m.0, m.1)
        } else {
            before
        }
    }
}

/// The exceptions that were found in a text.
pub open spec fn exception_names(text: Seq<char>, exceptions: Seq<(int, int)>) -> Seq<Seq<char>>
    decreases exceptions.len(),
{
    if exceptions.len() == 0 {
        Seq::empty()
    } else {
        let before = exception_names(text, exceptions.drop_last());
        let m = exceptions.last();
        match piece(text, m.0, m.1) {
            Some(name) => before.push(name),
            None => before,
        }
    }
}

/// The name from one place to another, unless there is nothing but blanks and exceptions.
pub open spec fn name_between(text: Seq<char>, buffer: Seq<char>, start: int, end: int) -> Seq<
    Seq<char>,
> {
    match (piece(buffer, start, end), piece(text, start, end)) {
        (Some(rest), Some(name)) => if is_blank(rest) {
            Seq::empty()
        } else {
            seq![trimmed(name)]
        },
        _ => Seq::empty(),
    }
}

/// The name from a place on, unless there is nothing but blanks and exceptions.
pub open spec fn name_from(text: Seq<char>, buffer: Seq<char>, start: int) -> Seq<Seq<char>> {
    match (char_place(buffer, start), char_place(text, start)) {
        (Some(i), Some(j)) => if is_blank(buffer.skip(i)) {
            Seq::empty()
        } else {
            seq![trimmed(text.skip(j))]
        },
        _ => Seq::empty(),
    }
}

/// The names before the first `n` delimiters.
pub open spec fn names_before(
    text: Seq<char>,
    buffer: Seq<char>,
    delims: Seq<(int, int)>,
    n: int,
) -> Seq<Seq<char>>
    decreases n,
{
    if n <= 0 {
        Seq::empty()
    } else {
        names_before(text, buffer, delims, n - 1) + name_between(
            text,
            buffer,
            if n == 1 {
                0
            } else {
                delims[n - 2].1
            },
            delims[n - 1].0,
        )
    }
}

/// What a tag is split into, given the exceptions that were found in it, what is left of it, and where
/// delimiters stand in that.
pub open spec fn split_names(
    text: Seq<char>,
    found: Seq<Seq<char>>,
    buffer: Seq<char>,
    delims: Seq<(int, int)>,
) -> Seq<Seq<char>> {
    if delims.len() == 0 {
        if found.len() > 0 {
            found
        } else {
            seq![text]
        }
    } else {
        found + names_before(text, buffer, delims, delims.len() as int) + name_from(
            text,
            buffer,
            delims.last().1,
        )
    }
}

/// The phrases of a searcher, where there is one.
pub open spec fn phrases_in(searcher: Option<&AhoCorasick>) -> Option<Seq<Seq<char>>> {
    match searcher {
        Some(s) => Some(phrases_of(*s)),
        None => None,
    }
}

/// Where exceptions are found in a text.
pub open spec fn exceptions_in(text: Seq<char>, exceptions: Option<Seq<Seq<char>>>) -> Seq<
    (int, int),
> {
    match exceptions {
        Some(phrases) => phrase_matches(phrases, text),
        None => Seq::empty(),
    }
}

/// The genres that a tag names. Without delimiters it is not split; without exceptions it is.
pub open spec fn tag_genres(
    text: Seq<char>,
    delims: Option<Seq<Seq<char>>>,
    exceptions: Option<Seq<Seq<char>>>,
) -> Seq<Seq<char>> {
    match delims {
        None => seq![text],
        Some(phrases) => {
            let es = exceptions_in(text, exceptions);
            let buffer = blanked(text, es);
            split_names(text, exception_names(text, es), buffer, phrase_matches(phrases, buffer))
        },
    }
}

/// The genres that the tags of a song name. Of several tags each names one genre; a single tag may name
/// several. Blank names are dropped.
pub open spec fn song_genres(
    values: Seq<Seq<char>>,
    delims: Option<Seq<Seq<char>>>,
    exceptions: Option<Seq<Seq<char>>>,
) -> Seq<Seq<char>> {
    if values.len() == 0 {
        Seq::empty()
    } else if values.len() >= 2 {
        values.filter(|v: Seq<char>| !is_blank(v)).map_values(|v: Seq<char>| trimmed(v))
    } else if is_blank(values[0]) {
        Seq::empty()
    } else {
        tag_genres(values[0], delims, exceptions).filter(|v: Seq<char>| !is_blank(v))
    }
}

/// A text in which blanks stand from one place to another.
fn blank_at(s: Vec<char>, start: usize, end: usize) -> (r: Vec<char>)
    ensures
        r@ == blanked_at(s@, start as int, end as int),
{
    match (find_place(&s, start), find_place(&s, end)) {
        (Some(i), Some(j)) => {
            if i <= j {
                proof {
                    lemma_char_place(s@, start as int);
                    lemma_char_place(s@, end as int);
                    lemma_places_ascend(s@, i as int, j as int);
                }
                let ghost all = s@;
                let mut head: Vec<char> = s;
                let mut tail: Vec<char> = head.split_off(j);
                head.truncate(i);
                let n: usize = end - start;
                let mut k: usize = 0;
                assert(all.take(i as int) + blanks(0) =~= all.take(i as int));
                while k < n
                    invariant
                        k <= n,
                        head@ == all.take(i as int) + blanks(k as int),
                    decreases n - k,
                {
                    head.push(' ');
                    assert(blanks(k + 1) =~= blanks(k as int).push(' '));
                    assert(head@ =~= all.take(i as int) + blanks(k + 1));
                    k = k + 1;
                }
                head.append(&mut tail);
                assert(head@ =~= blanked_at(all, start as int, end as int));
                head
            } else {
                s
            }
        },
        _ => s,
    }
}

proof fn lemma_places_ascend(s: Seq<char>, i: int, j: int)
    requires
        0 <= i <= j <= s.len(),
    ensures
        byte_len(s.take(i)) <= byte_len(s.take(j)),
    decreases j - i,
{
    if i < j {
        lemma_places_ascend(s, i, j - 1);
        assert(s.take(j).drop_last() =~= s.take(j - 1));
    }
}

/// Takes exceptions out of a tag: gives back their names, and the tag with blanks in their places.
pub fn take_exceptions<'a>(input: &'a str, exceptions: &Vec<(usize, usize)>) -> (r: (
    Vec<&'a str>,
    String,
))
    ensures
        slice_views(r.0@) == exception_names(input@, place_views(exceptions@)),
        r.1@ == blanked(input@, place_views(exceptions@)),
{
    let ghost ms = place_views(exceptions@);
    let chars: Vec<char> = chars_of(input);
    let mut buffer: Vec<char> = chars_of(input);
    let mut found: Vec<&'a str> = Vec::new();
    assert(slice_views(found@) =~= Seq::empty());
    assert(ms.take(0) =~= Seq::empty());
    let mut k: usize = 0;
    while k < exceptions.len()
        invariant
            ms == place_views(exceptions@),
            chars@ == input@,
            k <= exceptions@.len(),
            slice_views(found@) == exception_names(input@, ms.take(k as int)),
            buffer@ == blanked(input@, ms.take(k as int)),
        decreases exceptions.len() - k,
    {
        let (start, end): (usize, usize) = exceptions[k];
        let ghost before = found@;
        proof {
            assert(ms.take(k + 1).drop_last() =~= ms.take(k as int));
            assert(ms.take(k + 1).last() == (start as int, end as int));
        }
        if let Some(name) = cut(input, &chars, start, end) {
            found.push(name);
            assert(slice_views(found@) =~= slice_views(before).push(name@));
            buffer = blank_at(buffer, start, end);
        }
        k = k + 1;
    }
    assert(ms.take(k as int) =~= ms);
    (found, string_of(&buffer))
}

/// Appends a name unless there is nothing but blanks in what is left of the tag.
fn push_name<'a>(found: &mut Vec<&'a str>, rest: Option<&str>, name: Option<&'a str>)
    ensures
        slice_views(final(found)@) == slice_views(old(found)@) + (match (rest, name) {
            (Some(b), Some(n)) => if is_blank(b@) {
                Seq::empty()
            } else {
                seq![trimmed(n@)]
            },
            _ => Seq::empty(),
        }),
{
    let ghost before = found@;
    if let (Some(b), Some(n)) = (rest, name) {
        let t: &str = trim(b);
        if t.unicode_len() > 0 {
            let trimmed_name: &'a str = trim(n);
            found.push(trimmed_name);
            assert(slice_views(found@) =~= slice_views(before) + seq![trimmed(n@)]);
            return ;
        }
    }
    assert(slice_views(found@) =~= slice_views(before) + Seq::<Seq<char>>::empty());
}

/// The rest of a text from a place on.
fn cut_from<'a>(s: &'a str, chars: &Vec<char>, start: usize) -> (r: Option<&'a str>)
    requires
        chars@ == s@,
    ensures
        match char_place(s@, start as int) {
            Some(i) => r is Some && r->0@ == s@.skip(i),
            None => r is None,
        },
{
    match find_place(chars, start) {
        Some(i) => {
            let r: &str = s.substring_char(i, chars.len());
            assert(s@.subrange(i as int, s@.len() as int) =~= s@.skip(i as int));
            Some(r)
        },
        None => None,
    }
}

/// Splits a tag, given the exceptions that were found in it, what is left of it, and where delimiters
/// stand in that.
pub fn split_tag<'a>(
    input: &'a str,
    found: Vec<&'a str>,
    buffer: &str,
    delims: &Vec<(usize, usize)>,
) -> (r: Vec<&'a str>)
    ensures
        slice_views(r@) == split_names(
            input@,
            slice_views(found@),
            buffer@,
            place_views(delims@),
        ),
{
    let ghost ms = place_views(delims@);
    let ghost start_views = slice_views(found@);
    let mut found: Vec<&'a str> = found;
    if delims.len() == 0 {
        if found.len() == 0 {
            found.push(input);
            assert(slice_views(found@) =~= seq![input@]);
        }
        return found;
    }
    let chars: Vec<char> = chars_of(input);
    let rest: Vec<char> = chars_of(buffer);
    let mut k: usize = 0;
    assert(start_views + Seq::<Seq<char>>::empty() =~= start_views);
    while k < delims.len()
        invariant
            ms == place_views(delims@),
            chars@ == input@,
            rest@ == buffer@,
            k <= delims@.len(),
            slice_views(found@) == start_views + names_before(input@, buffer@, ms, k as int),
        decreases delims.len() - k,
    {
        let from: usize = if k == 0 {
            0
        } else {
            delims[k - 1].1
        };
        let to: usize = delims[k].0;
        let ghost before = slice_views(found@);
        push_name(&mut found, cut(buffer, &rest, from, to), cut(input, &chars, from, to));
        proof {
            let more = name_between(input@, buffer@, from as int, to as int);
            assert(slice_views(found@) == before + more);
            assert(start_views + names_before(input@, buffer@, ms, k as int) + more =~= start_views
                + (names_before(input@, buffer@, ms, k as int) + more));
            if k > 0 {
                assert(ms[k - 1] == (delims@[k - 1].0 as int, delims@[k - 1].1 as int));
            }
            assert(ms[k as int].0 == to);
        }
        k = k + 1;
    }
    let last: usize = delims[delims.len() - 1].1;
    assert(ms.last().1 == last);
    push_name(&mut found, cut_from(buffer, &rest, last), cut_from(input, &chars, last));
    found
}

/// Whether a searcher finds its phrases in a text as they are seen when the text is read once, as it
/// does where none of them is empty.
pub open spec fn is_read_once(phrases: Seq<Seq<char>>, text: Seq<char>) -> bool {
    !phrases.contains(Seq::empty()) ==> are_matches(phrases, text, phrase_matches(phrases, text))
}

/// Whether the phrases that a tag is split by are found as they are seen when it is read once: the
/// exceptions in the tag, and the delimiters in what is left of it.
pub open spec fn is_tag_read_once(
    text: Seq<char>,
    delims: Option<Seq<Seq<char>>>,
    exceptions: Option<Seq<Seq<char>>>,
) -> bool {
    delims is Some ==> {
        &&& exceptions is Some ==> is_read_once(exceptions->0, text)
        &&& is_read_once(delims->0, blanked(text, exceptions_in(text, exceptions)))
    }
}

/// Splits the value of a genre tag into the genres that it names. Exceptions are looked for in the value,
/// and delimiters in what is left of it.
pub fn parse_genre_tag<'a>(
    input: &'a str,
    delims: Option<&AhoCorasick>,
    exceptions: Option<&AhoCorasick>,
) -> (r: Vec<&'a str>)
    ensures
        slice_views(r@) == tag_genres(input@, phrases_in(delims), phrases_in(exceptions)),
        is_tag_read_once(input@, phrases_in(delims), phrases_in(exceptions)),
{
    match delims {
        None => {
            let mut r: Vec<&'a str> = Vec::new();
            r.push(input);
            assert(slice_views(r@) =~= seq![input@]);
            r
        },
        Some(searcher) => {
            let es: Vec<(usize, usize)> = match exceptions {
                Some(names) => find_phrases(names, input),
                None => {
                    let none: Vec<(usize, usize)> = Vec::new();
                    assert(place_views(none@) =~= Seq::empty());
                    none
                },
            };
            let (found, buffer): (Vec<&'a str>, String) = take_exceptions(input, &es);
            let ds: Vec<(usize, usize)> = find_phrases(searcher, buffer.as_str());
            split_tag(input, found, buffer.as_str(), &ds)
        },
    }
}

/// The genres that the values of the genre tags of a song name. Several values are trusted as they are,
/// a single one is split.
pub fn parse_genre_values(
    values: &[String],
    delims: Option<&AhoCorasick>,
    exceptions: Option<&AhoCorasick>,
) -> (r: Vec<String>)
    ensures
        str_views(r@) == song_genres(str_views(values@), phrases_in(delims), phrases_in(exceptions)),
        values@.len() == 1 && !is_blank(values@[0]@) ==> is_tag_read_once(
            values@[0]@,
            phrases_in(delims),
            phrases_in(exceptions),
        ),
{
    let ghost views = str_views(values@);
    let ghost filled = |v: Seq<char>| !is_blank(v);
    let ghost cut_down = |v: Seq<char>| trimmed(v);
    let mut r: Vec<String> = Vec::new();
    assert(str_views(r@) =~= Seq::empty());
    if values.len() == 0 {
        return r;
    }
    if values.len() >= 2 {
        let mut i: usize = 0;
        proof {
            assert(views.take(0) =~= Seq::empty());
            reveal(Seq::filter);
            assert(views.take(0).filter(filled).map_values(cut_down) =~= Seq::empty());
        }
        while i < values.len()
            invariant
                views == str_views(values@),
                filled == (|v: Seq<char>| !is_blank(v)),
                cut_down == (|v: Seq<char>| trimmed(v)),
                i <= values@.len(),
                str_views(r@) == views.take(i as int).filter(filled).map_values(cut_down),
            decreases values.len() - i,
        {
            let t: &str = trim(values[i].as_str());
            let ghost init = views.take(i as int);
            let ghost v = values@[i as int]@;
            proof {
                assert(views.take(i + 1) =~= init.push(v));
                init.lemma_filter_push(v, filled);
                init.filter(filled).lemma_push_map_commute(cut_down, v);
            }
            if t.unicode_len() > 0 {
                let ghost before = r@;
                r.push(t.to_owned());
                assert(str_views(r@) =~= str_views(before).push(t@));
            }
            i = i + 1;
        }
        assert(views.take(i as int) =~= views);
        return r;
    }
    assert(views[0] == values@[0]@);
    if trim(values[0].as_str()).unicode_len() == 0 {
        return r;
    }
    let parts: Vec<&str> = parse_genre_tag(values[0].as_str(), delims, exceptions);
    let ghost part_views = slice_views(parts@);
    let mut i: usize = 0;
    proof {
        assert(part_views.take(0) =~= Seq::empty());
        reveal(Seq::filter);
        assert(part_views.take(0).filter(filled) =~= Seq::empty());
    }
    while i < parts.len()
        invariant
            part_views == slice_views(parts@),
            filled == (|v: Seq<char>| !is_blank(v)),
            i <= parts@.len(),
            str_views(r@) == part_views.take(i as int).filter(filled),
        decreases parts.len() - i,
    {
        let part: &str = parts[i];
        proof {
            assert(part_views.take(i + 1) =~= part_views.take(i as int).push(part@));
            part_views.take(i as int).lemma_filter_push(part@, filled);
        }
        if trim(part).unicode_len() > 0 {
            let ghost before = r@;
            r.push(part.to_owned());
            assert(str_views(r@) =~= str_views(before).push(part@));
        }
        i = i + 1;
    }
    assert(part_views.take(i as int) =~= part_views);
    r
}

/// A genre.
#[derive(Debug)]
pub struct Genre {
    name: String,
}

impl View for Genre {
    type V = Seq<char>;

    closed spec fn view(&self) -> Seq<char> {
        self.name@
    }
}

impl Genre {
    pub fn new(name: &str) -> (r: Self)
        ensures
            r@ == name@,
    {
        Genre { name: name.to_owned() }
    }

    pub fn get_name(&self) -> (r: &str)
        ensures
            r@ == self@,
    {
        self.name.as_str()
    }
}

impl Default for Genre {
    fn default() -> (r: Self)
        ensures
            r@ == Seq::<char>::empty(),
    {
        Genre { name: String::new() }
    }
}

/// The genres that a value of a genre tag names, without blanks around them. A blank value names none.
pub open spec fn value_genres(
    value: Seq<char>,
    delims: Option<Seq<Seq<char>>>,
    exceptions: Option<Seq<Seq<char>>>,
) -> Seq<Seq<char>> {
    if is_blank(value) {
        Seq::empty()
    } else {
        tag_genres(value, delims, exceptions).map_values(|v: Seq<char>| trimmed(v)).filter(
            |v: Seq<char>| v.len() > 0,
        )
    }
}

/// The genres that values of genre tags name, one value after the other.
pub open spec fn all_genres(
    values: Seq<Seq<char>>,
    delims: Option<Seq<Seq<char>>>,
    exceptions: Option<Seq<Seq<char>>>,
) -> Seq<Seq<char>>
    decreases values.len(),
{
    if values.len() == 0 {
        Seq::empty()
    } else {
        all_genres(values.drop_last(), delims, exceptions) + value_genres(
            values.last(),
            delims,
            exceptions,
        )
    }
}

/// Adds the genres that a value names to those that are known.
fn add_genres(
    known: DistinctStrings,
    value: &str,
    delims: Option<&AhoCorasick>,
    exceptions: Option<&AhoCorasick>,
    Ghost(names): Ghost<Seq<Seq<char>>>,
) -> (r: DistinctStrings)
    requires
        known@ == distinct(names),
    ensures
        r@ == distinct(
            names + value_genres(value@, phrases_in(delims), phrases_in(exceptions)),
        ),
        !is_blank(value@) ==> is_tag_read_once(value@, phrases_in(delims), phrases_in(exceptions)),
{
    let mut known = known;
    if trim(value).unicode_len() == 0 {
        assert(names + Seq::<Seq<char>>::empty() =~= names);
        return known;
    }
    let parts: Vec<&str> = parse_genre_tag(value, delims, exceptions);
    let ghost cut_down = |v: Seq<char>| trimmed(v);
    let ghost filled = |v: Seq<char>| v.len() > 0;
    let ghost all = slice_views(parts@).map_values(cut_down);
    let mut i: usize = 0;
    proof {
        reveal(Seq::filter);
        assert(all.take(0) =~= Seq::empty());
        assert(names + all.take(0).filter(filled) =~= names);
    }
    while i < parts.len()
        invariant
            cut_down == (|v: Seq<char>| trimmed(v)),
            filled == (|v: Seq<char>| v.len() > 0),
            all == slice_views(parts@).map_values(cut_down),
            i <= parts@.len(),
            known@ == distinct(names + all.take(i as int).filter(filled)),
        decreases parts.len() - i,
    {
        let name: &str = trim(parts[i]);
        let ghost init = all.take(i as int);
        proof {
            assert(all[i as int] == name@);
            assert(all.take(i + 1) =~= init.push(name@));
            init.lemma_filter_push(name@, filled);
        }
        if name.unicode_len() > 0 {
            proof {
                let before = names + init.filter(filled);
                assert(names + init.filter(filled).push(name@) =~= before.push(name@));
                assert(before.push(name@).drop_last() =~= before);
            }
            let (more, _): (DistinctStrings, bool) = insert_distinct(known, name.to_owned());
            known = more;
        }
        i = i + 1;
    }
    assert(all.take(i as int) =~= all);
    known
}

/// The genres that values of genre tags name, each once, in the order in which they first occur.
pub fn get_genres(
    values: &Vec<String>,
    delims: Option<&AhoCorasick>,
    exceptions: Option<&AhoCorasick>,
) -> (r: Vec<String>)
    ensures
        str_views(r@) == distinct(
            all_genres(str_views(values@), phrases_in(delims), phrases_in(exceptions)),
        ),
        forall|i: int|
            0 <= i < values@.len() && !is_blank((#[trigger] values@[i])@) ==> is_tag_read_once(
                values@[i]@,
                phrases_in(delims),
                phrases_in(exceptions),
            ),
{
    let ghost views = str_views(values@);
    let ghost ds = phrases_in(delims);
    let ghost es = phrases_in(exceptions);
    let mut known: DistinctStrings = DistinctStrings::new();
    let mut i: usize = 0;
    assert(views.take(0) =~= Seq::empty());
    while i < values.len()
        invariant
            views == str_views(values@),
            ds == phrases_in(delims),
            es == phrases_in(exceptions),
            i <= values@.len(),
            known@ == distinct(all_genres(views.take(i as int), ds, es)),
            forall|j: int|
                0 <= j < i && !is_blank((#[trigger] values@[j])@) ==> is_tag_read_once(
                    values@[j]@,
                    ds,
                    es,
                ),
        decreases values.len() - i,
    {
        proof {
            assert(views.take(i + 1).drop_last() =~= views.take(i as int));
            assert(views.take(i + 1).last() == values@[i as int]@);
        }
        known = add_genres(
            known,
            values[i].as_str(),
            delims,
            exceptions,
            Ghost(all_genres(views.take(i as int), ds, es)),
        );
        i = i + 1;
    }
    assert(views.take(i as int) =~= views);
    known.into_strings()
}

/// A tag in which no delimiter stands names one genre, and is left as it is.
pub proof fn law_simple_tags_are_unchanged(
    text: Seq<char>,
    phrases: Seq<Seq<char>>,
    delims: Seq<(int, int)>,
)
    requires
        are_matches(phrases, text, delims),
        forall|i: int| 0 <= i < phrases.len() ==> !contains_part(text, #[trigger] phrases[i]),
    ensures
        split_names(text, Seq::empty(), text, delims) == seq![text],
{
    if delims.len() > 0 {
        let m = delims[0];
        assert(is_first_seen(phrases, text, search_start(delims, 0), delims[0]));
        assert(occurs(phrases, text, m));
        let p = piece(text, m.0, m.1)->0;
        let k = choose|k: int| 0 <= k < phrases.len() && phrases[k] == p;
        lemma_char_place(text, m.0);
        lemma_char_place(text, m.1);
        let i = char_place(text, m.0)->0;
        let j = char_place(text, m.1)->0;
        assert(text.subrange(i, i + p.len()) =~= p);
        assert(contains_part(text, phrases[k]));
    }
}

/// A tag without exceptions is split at its delimiters all the same.
pub proof fn law_exceptions_are_optional(text: Seq<char>, phrases: Seq<Seq<char>>)
    ensures
        tag_genres(text, Some(phrases), None) == split_names(
            text,
            Seq::empty(),
            text,
            phrase_matches(phrases, text),
        ),
{
}

/// Exceptions are kept whole: those that stand in a tag are the first of the genres that it names.
pub proof fn law_exceptions_are_kept(
    text: Seq<char>,
    phrases: Seq<Seq<char>>,
    exceptions: Option<Seq<Seq<char>>>,
)
    ensures
        ({
            let kept = exception_names(text, exceptions_in(text, exceptions));
            &&& kept.len() <= tag_genres(text, Some(phrases), exceptions).len()
            &&& tag_genres(text, Some(phrases), exceptions).take(kept.len() as int) == kept
        }),
{
    let kept = exception_names(text, exceptions_in(text, exceptions));
    assert(tag_genres(text, Some(phrases), exceptions).take(kept.len() as int) =~= kept);
}

/// A phrase that stands in a part of a text stands at a place of the text.
proof fn lemma_part_occurs(
    text: Seq<char>,
    phrases: Seq<Seq<char>>,
    p: Seq<char>,
    i: int,
    j: int,
)
    requires
        0 <= i <= j <= text.len(),
        phrases.contains(p),
        p.len() > 0,
        contains_part(text.subrange(i, j), p),
    ensures
        exists|o: (int, int)|
            #![trigger occurs(phrases, text, o)]
            occurs(phrases, text, o) && byte_len(text.take(i)) <= o.0 < o.1 <= byte_len(
                text.take(j),
            ),
{
    let part = text.subrange(i, j);
    let k = choose|k: int|
        0 <= k <= part.len() - p.len() && #[trigger] part.subrange(k, k + p.len()) == p;
    let a = i + k;
    let b = a + p.len();
    let o = (byte_len(text.take(a)) as int, byte_len(text.take(b)) as int);
    lemma_place_of_chars(text, a);
    lemma_place_of_chars(text, b);
    assert(text.subrange(a, b) =~= part.subrange(k, k + p.len()));
    assert(occurs(phrases, text, o));
    lemma_places_ascend(text, i, a);
    lemma_places_ascend(text, b, j);
    lemma_places_ascend(text, a, b - 1);
    assert(text.take(b).drop_last() =~= text.take(b - 1));
}

/// What stands in a trimmed text stands in the text.
proof fn lemma_in_trimmed(s: Seq<char>, p: Seq<char>)
    requires
        contains_part(trimmed(s), p),
    ensures
        contains_part(s, p),
{
    law_trimmed(s);
    let t = trimmed(s);
    let i = choose|i: int|
        0 <= i <= s.len() - t.len() && #[trigger] s.subrange(i, i + t.len()) == t;
    let k = choose|k: int|
        0 <= k <= t.len() - p.len() && #[trigger] t.subrange(k, k + p.len()) == p;
    assert(s.subrange(i + k, i + k + p.len()) =~= t.subrange(k, k + p.len()));
}

/// No delimiter stands between the end of one match and the start of the next, nor behind the last.
proof fn lemma_gap_holds_no_phrase(
    text: Seq<char>,
    phrases: Seq<Seq<char>>,
    ms: Seq<(int, int)>,
    n: int,
    i: int,
    j: int,
    p: Seq<char>,
)
    requires
        are_matches(phrases, text, ms),
        phrases.contains(p),
        p.len() > 0,
        0 <= n <= ms.len(),
        0 <= i <= j <= text.len(),
        search_start(ms, n) <= byte_len(text.take(i)),
        n < ms.len() ==> byte_len(text.take(j)) <= ms[n].0,
    ensures
        !contains_part(text.subrange(i, j), p),
{
    if contains_part(text.subrange(i, j), p) {
        lemma_part_occurs(text, phrases, p, i, j);
        let o = choose|o: (int, int)|
            #![trigger occurs(phrases, text, o)]
            occurs(phrases, text, o) && byte_len(text.take(i)) <= o.0 < o.1 <= byte_len(
                text.take(j),
            );
        if n < ms.len() {
            let m = ms[n];
            assert(is_first_seen(phrases, text, search_start(ms, n), ms[n]));
            lemma_char_place(text, m.0);
            lemma_char_place(text, m.1);
            lemma_places_ascend(text, char_place(text, m.0)->0, char_place(text, m.1)->0);
        }
    }
}

/// Where a tag holds no exceptions, no genre that it names holds a delimiter: it is split at each.
pub proof fn law_genres_hold_no_delimiter(
    text: Seq<char>,
    phrases: Seq<Seq<char>>,
    delims: Seq<(int, int)>,
    k: int,
    p: Seq<char>,
)
    requires
        are_matches(phrases, text, delims),
        phrases.contains(p),
        p.len() > 0,
        0 <= k < split_names(text, Seq::empty(), text, delims).len(),
    ensures
        !contains_part(split_names(text, Seq::empty(), text, delims)[k], p),
{
    assert(text.take(0) =~= Seq::empty());
    assert(text.take(text.len() as int) =~= text);
    if delims.len() == 0 {
        assert(text.subrange(0, text.len() as int) =~= text);
        lemma_gap_holds_no_phrase(text, phrases, delims, 0, 0, text.len() as int, p);
    } else {
        let n = delims.len() as int;
        let before = names_before(text, text, delims, n);
        let names = Seq::<Seq<char>>::empty() + before + name_from(text, text, delims.last().1);
        assert(names =~= before + name_from(text, text, delims.last().1));
        if k < before.len() {
            lemma_names_before(text, phrases, delims, n, k, p);
        } else {
            lemma_char_place(text, delims.last().1);
            let i = char_place(text, delims.last().1)->0;
            let rest = text.skip(i);
            assert(rest =~= text.subrange(i, text.len() as int));
            lemma_gap_holds_no_phrase(text, phrases, delims, n, i, text.len() as int, p);
            if contains_part(trimmed(rest), p) {
                lemma_in_trimmed(rest, p);
            }
        }
    }
}

proof fn lemma_names_before(
    text: Seq<char>,
    phrases: Seq<Seq<char>>,
    delims: Seq<(int, int)>,
    n: int,
    k: int,
    p: Seq<char>,
)
    requires
        are_matches(phrases, text, delims),
        phrases.contains(p),
        p.len() > 0,
        0 <= n <= delims.len(),
        0 <= k < names_before(text, text, delims, n).len(),
    ensures
        !contains_part(names_before(text, text, delims, n)[k], p),
    decreases n,
{
    let init = names_before(text, text, delims, n - 1);
    if k < init.len() {
        lemma_names_before(text, phrases, delims, n - 1, k, p);
    } else {
        let start = search_start(delims, n - 1);
        let end = delims[n - 1].0;
        lemma_char_place(text, start);
        lemma_char_place(text, end);
        let i = char_place(text, start)->0;
        let j = char_place(text, end)->0;
        let name = text.subrange(i, j);
        lemma_gap_holds_no_phrase(text, phrases, delims, n - 1, i, j, p);
        if contains_part(trimmed(name), p) {
            lemma_in_trimmed(name, p);
        }
    }
}

/// Several values are trusted as they are, whatever the delimiters and the exceptions.
pub proof fn law_several_values_are_trusted(
    values: Seq<Seq<char>>,
    delims: Option<Seq<Seq<char>>>,
    exceptions: Option<Seq<Seq<char>>>,
)
    requires
        values.len() >= 2,
    ensures
        song_genres(values, delims, exceptions) == song_genres(values, None, None),
{
}

/// No genre of a song is blank.
pub proof fn law_no_genre_is_blank(
    values: Seq<Seq<char>>,
    delims: Option<Seq<Seq<char>>>,
    exceptions: Option<Seq<Seq<char>>>,
)
    ensures
        forall|i: int|
            0 <= i < song_genres(values, delims, exceptions).len() ==> !is_blank(
                #[trigger] song_genres(values, delims, exceptions)[i],
            ),
{
    let filled = |v: Seq<char>| !is_blank(v);
    let r = song_genres(values, delims, exceptions);
    assert forall|i: int| 0 <= i < r.len() implies !is_blank(#[trigger] r[i]) by {
        if values.len() >= 2 {
            let kept = values.filter(filled);
            values.lemma_filter_pred(filled, i);
            assert(r[i] == trimmed(kept[i]));
            law_trimmed(kept[i]);
        } else {
            tag_genres(values[0], delims, exceptions).lemma_filter_pred(filled, i);
        }
    }
}

proof fn lemma_byte_len_concat(a: Seq<char>, b: Seq<char>)
    ensures
        byte_len(a + b) == byte_len(a) + byte_len(b),
    decreases b.len(),
{
    if b.len() == 0 {
        assert(a + b =~= a);
    } else {
        lemma_byte_len_concat(a, b.drop_last());
        assert((a + b).drop_last() =~= a + b.drop_last());
    }
}

proof fn lemma_byte_len_blanks(n: nat)
    ensures
        byte_len(blanks(n as int)) == n,
    decreases n,
{
    if n > 0 {
        lemma_byte_len_blanks((n - 1) as nat);
        assert(blanks(n as int).drop_last() =~= blanks(n - 1));
    }
}

/// Blanks take as much room as the exceptions that they stand in for, so that places in what is left of
/// a tag are places in the tag.
pub proof fn law_blanks_keep_places(text: Seq<char>, exceptions: Seq<(int, int)>)
    ensures
        byte_len(blanked(text, exceptions)) == byte_len(text),
    decreases exceptions.len(),
{
    if exceptions.len() > 0 {
        law_blanks_keep_places(text, exceptions.drop_last());
        let s = blanked(text, exceptions.drop_last());
        let m = exceptions.last();
        lemma_char_place(s, m.0);
        lemma_char_place(s, m.1);
        if let (Some(i), Some(j)) = (char_place(s, m.0), char_place(s, m.1)) {
            if i <= j {
                lemma_places_ascend(s, i, j);
                lemma_byte_len_blanks((m.1 - m.0) as nat);
                lemma_byte_len_concat(s.take(i), blanks(m.1 - m.0));
                lemma_byte_len_concat(s.take(i) + blanks(m.1 - m.0), s.skip(j));
                lemma_byte_len_concat(s.take(j), s.skip(j));
                assert(s.take(j) + s.skip(j) =~= s);
            }
        }
    }
}

/// Whether every character of what is left of a tag that is no blank stands at the same place in the tag.
spec fn keeps_characters(text: Seq<char>, buffer: Seq<char>) -> bool {
    forall|k: int|
        0 <= k < buffer.len() && #[trigger] buffer[k] != ' ' ==> stands_in(
            text,
            buffer[k],
            byte_len(buffer.take(k)) as int,
        )
}

/// Whether a character stands at a place.
spec fn stands_in(text: Seq<char>, c: char, offset: int) -> bool {
    exists|i: int|
        0 <= i < text.len() && #[trigger] text[i] == c && byte_len(text.take(i)) == offset
}

/// Blanks in place of a part of a text leave the other characters at their places.
proof fn lemma_blanked_character(s: Seq<char>, i: int, j: int, n: nat, k: int)
    requires
        0 <= i <= j <= s.len(),
        byte_len(s.take(j)) == byte_len(s.take(i)) + n,
        0 <= k < i + n + (s.len() - j),
        (s.take(i) + blanks(n as int) + s.skip(j))[k] != ' ',
    ensures
        ({
            let t = s.take(i) + blanks(n as int) + s.skip(j);
            stands_in(s, t[k], byte_len(t.take(k)) as int)
        }),
{
    let head = s.take(i) + blanks(n as int);
    let t = head + s.skip(j);
    if k < i {
        assert(t.take(k) =~= s.take(k));
        assert(t[k] == s[k]);
    } else {
        assert(k >= i + n) by {
            if k < i + n {
                assert(head[k] == ' ');
            }
        }
        let l = j + (k - i - n);
        let mid = s.subrange(j, l);
        assert(t[k] == s[l]);
        assert(t.take(k) =~= head + mid);
        assert(s.take(l) =~= s.take(j) + mid);
        lemma_byte_len_blanks(n);
        lemma_byte_len_concat(s.take(i), blanks(n as int));
        lemma_byte_len_concat(head, mid);
        lemma_byte_len_concat(s.take(j), mid);
    }
}

proof fn lemma_blanks_keep_characters(text: Seq<char>, exceptions: Seq<(int, int)>)
    ensures
        keeps_characters(text, blanked(text, exceptions)),
    decreases exceptions.len(),
{
    if exceptions.len() > 0 {
        let s = blanked(text, exceptions.drop_last());
        let m = exceptions.last();
        let t = blanked(text, exceptions);
        lemma_blanks_keep_characters(text, exceptions.drop_last());
        lemma_char_place(s, m.0);
        lemma_char_place(s, m.1);
        if t != s {
            let i = char_place(s, m.0)->0;
            let j = char_place(s, m.1)->0;
            lemma_places_ascend(s, i, j);
            let n = (m.1 - m.0) as nat;
            assert(t == s.take(i) + blanks(n as int) + s.skip(j));
            assert forall|k: int| 0 <= k < t.len() && #[trigger] t[k] != ' ' implies stands_in(
                text,
                t[k],
                byte_len(t.take(k)) as int,
            ) by {
                lemma_blanked_character(s, i, j, n, k);
                let l = choose|l: int|
                    0 <= l < s.len() && #[trigger] s[l] == t[k] && byte_len(s.take(l)) == byte_len(
                        t.take(k),
                    );
                assert(stands_in(text, s[l], byte_len(s.take(l)) as int));
            }
        }
    }
}

/// A character of what is left of a tag that is no blank starts and ends between characters of the tag.
proof fn lemma_place_in_tag(text: Seq<char>, buffer: Seq<char>, a: int)
    requires
        keeps_characters(text, buffer),
        0 <= a < buffer.len(),
        buffer[a] != ' ',
    ensures
        char_place(text, byte_len(buffer.take(a)) as int) is Some,
        char_place(text, byte_len(buffer.take(a + 1)) as int) is Some,
{
    assert(stands_in(text, buffer[a], byte_len(buffer.take(a)) as int));
    let k = choose|k: int|
        0 <= k < text.len() && #[trigger] text[k] == buffer[a] && byte_len(text.take(k))
            == byte_len(buffer.take(a));
    assert(text.take(k + 1).drop_last() =~= text.take(k));
    assert(buffer.take(a + 1).drop_last() =~= buffer.take(a));
    lemma_place_of_chars(text, k);
    lemma_place_of_chars(text, k + 1);
}

/// Where no delimiter holds a blank, exceptions do not get in the way of splitting: each place at which
/// a delimiter starts or ends in what is left of a tag is a place between two characters of the tag.
pub proof fn law_delimiters_stand_in_the_tag(
    text: Seq<char>,
    exceptions: Seq<(int, int)>,
    phrases: Seq<Seq<char>>,
    delims: Seq<(int, int)>,
    i: int,
)
    requires
        are_matches(phrases, blanked(text, exceptions), delims),
        forall|p: Seq<char>| #[trigger]
            phrases.contains(p) ==> p.len() > 0 && !p.contains(' '),
        0 <= i < delims.len(),
    ensures
        char_place(text, delims[i].0) is Some,
        char_place(text, delims[i].1) is Some,
{
    let buffer = blanked(text, exceptions);
    let m = delims[i];
    lemma_blanks_keep_characters(text, exceptions);
    assert(is_first_seen(phrases, buffer, search_start(delims, i), delims[i]));
    assert(occurs(phrases, buffer, m));
    let p = piece(buffer, m.0, m.1)->0;
    assert(phrases.contains(p));
    lemma_char_place(buffer, m.0);
    lemma_char_place(buffer, m.1);
    let a = char_place(buffer, m.0)->0;
    let b = char_place(buffer, m.1)->0;
    assert(p == buffer.subrange(a, b));
    assert(p[0] == buffer[a] && p.last() == buffer[b - 1]);
    assert(p.contains(p[0]) && p.contains(p.last()));
    lemma_place_in_tag(text, buffer, a);
    lemma_place_in_tag(text, buffer, b - 1);
}

proof fn lemma_filtered<T>(s: Seq<T>, p: spec_fn(T) -> bool, x: T)
    ensures
        s.filter(p).contains(x) <==> s.contains(x) && p(x),
{
    if s.filter(p).contains(x) {
        s.lemma_filter_contains_rev(p, x);
        let i = choose|i: int| 0 <= i < s.filter(p).len() && s.filter(p)[i] == x;
        s.lemma_filter_pred(p, i);
    }
    if s.contains(x) && p(x) {
        let i = choose|i: int| 0 <= i < s.len() && s[i] == x;
        s.lemma_filter_contains(p, i);
    }
}

/// Whether one of the names that a tag names is `g`, without blanks around it.
pub open spec fn names_genre(
    value: Seq<char>,
    delims: Option<Seq<Seq<char>>>,
    exceptions: Option<Seq<Seq<char>>>,
    g: Seq<char>,
) -> bool {
    exists|j: int|
        0 <= j < tag_genres(value, delims, exceptions).len() && trimmed(
            #[trigger] tag_genres(value, delims, exceptions)[j],
        ) == g
}

proof fn lemma_value_genres(
    value: Seq<char>,
    delims: Option<Seq<Seq<char>>>,
    exceptions: Option<Seq<Seq<char>>>,
    g: Seq<char>,
)
    ensures
        value_genres(value, delims, exceptions).contains(g) <==> !is_blank(value) && g.len() > 0
            && exists|j: int|
            0 <= j < tag_genres(value, delims, exceptions).len() && trimmed(
                #[trigger] tag_genres(value, delims, exceptions)[j],
            ) == g,
{
    if !is_blank(value) {
        let cut_down = |v: Seq<char>| trimmed(v);
        let parts = tag_genres(value, delims, exceptions);
        let names = parts.map_values(cut_down);
        lemma_filtered(names, |v: Seq<char>| v.len() > 0, g);
        if names.contains(g) {
            let j = choose|j: int| 0 <= j < names.len() && names[j] == g;
            assert(trimmed(parts[j]) == g);
        }
        if exists|j: int| 0 <= j < parts.len() && trimmed(#[trigger] parts[j]) == g {
            let j = choose|j: int| 0 <= j < parts.len() && trimmed(#[trigger] parts[j]) == g;
            assert(names[j] == g);
        }
    }
}

proof fn lemma_all_genres(
    values: Seq<Seq<char>>,
    delims: Option<Seq<Seq<char>>>,
    exceptions: Option<Seq<Seq<char>>>,
    g: Seq<char>,
)
    ensures
        all_genres(values, delims, exceptions).contains(g) <==> exists|i: int|
            0 <= i < values.len() && value_genres(
                #[trigger] values[i],
                delims,
                exceptions,
            ).contains(g),
    decreases values.len(),
{
    if values.len() > 0 {
        let init = values.drop_last();
        let front = all_genres(init, delims, exceptions);
        let back = value_genres(values.last(), delims, exceptions);
        lemma_all_genres(init, delims, exceptions, g);
        assert((front + back).contains(g) <==> front.contains(g) || back.contains(g)) by {
            if front.contains(g) {
                let k = choose|k: int| 0 <= k < front.len() && front[k] == g;
                assert((front + back)[k] == g);
            }
            if back.contains(g) {
                let k = choose|k: int| 0 <= k < back.len() && back[k] == g;
                assert((front + back)[front.len() + k] == g);
            }
        }
        if front.contains(g) {
            let i = choose|i: int|
                0 <= i < init.len() && value_genres(
                    #[trigger] init[i],
                    delims,
                    exceptions,
                ).contains(g);
            assert(values[i] == init[i]);
        }
        if exists|i: int|
            0 <= i < values.len() && value_genres(
                #[trigger] values[i],
                delims,
                exceptions,
            ).contains(g) {
            let i = choose|i: int|
                0 <= i < values.len() && value_genres(
                    #[trigger] values[i],
                    delims,
                    exceptions,
                ).contains(g);
            if i < init.len() {
                assert(init[i] == values[i]);
            }
        }
    }
}

/// The library lists every genre that one of its tags names, without blanks around it, and no other, and
/// each of them once.
pub proof fn law_every_genre_is_listed(
    values: Vec<String>,
    delims: Option<&AhoCorasick>,
    exceptions: Option<&AhoCorasick>,
    r: Vec<String>,
)
    requires
        call_ensures(get_genres, (&values, delims, exceptions), r),
    ensures
        str_views(r@).no_duplicates(),
        forall|g: Seq<char>| #[trigger]
            str_views(r@).contains(g) <==> g.len() > 0 && exists|i: int|
                0 <= i < values@.len() && !is_blank((#[trigger] values@[i])@) && names_genre(
                    values@[i]@,
                    phrases_in(delims),
                    phrases_in(exceptions),
                    g,
                ),
{
    let ds = phrases_in(delims);
    let es = phrases_in(exceptions);
    let views = str_views(values@);
    let all = all_genres(views, ds, es);
    law_distinct(all);
    assert forall|g: Seq<char>| #[trigger] str_views(r@).contains(g) <==> g.len() > 0 && exists|
        i: int,
    |
        0 <= i < values@.len() && !is_blank((#[trigger] values@[i])@) && names_genre(
            values@[i]@,
            ds,
            es,
            g,
        ) by {
        lemma_all_genres(views, ds, es, g);
        assert(distinct(all).contains(g) <==> all.contains(g));
        if all.contains(g) {
            let i = choose|i: int|
                0 <= i < views.len() && value_genres(#[trigger] views[i], ds, es).contains(g);
            lemma_value_genres(views[i], ds, es, g);
            assert(values@[i]@ == views[i]);
        }
        if g.len() > 0 && exists|i: int|
            0 <= i < values@.len() && !is_blank((#[trigger] values@[i])@) && names_genre(
                values@[i]@,
                ds,
                es,
                g,
            ) {
            let i = choose|i: int|
                0 <= i < values@.len() && !is_blank((#[trigger] values@[i])@) && names_genre(
                    values@[i]@,
                    ds,
                    es,
                    g,
                );
            lemma_value_genres(views[i], ds, es, g);
            assert(value_genres(views[i], ds, es).contains(g));
        }
    }
}

/// A song has every genre that its tags name and no other. Of several tags each names one, which is taken
/// without the blanks around it; a single one is split.
pub proof fn law_songs_have_the_genres_of_their_tags(
    values: &[String],
    delims: Option<&AhoCorasick>,
    exceptions: Option<&AhoCorasick>,
    r: Vec<String>,
)
    requires
        call_ensures(parse_genre_values, (values, delims, exceptions), r),
    ensures
        values@.len() == 0 ==> r@.len() == 0,
        values@.len() >= 2 ==> forall|g: Seq<char>| #[trigger]
            str_views(r@).contains(g) <==> exists|i: int|
                0 <= i < values@.len() && !is_blank((#[trigger] values@[i])@) && trimmed(
                    values@[i]@,
                ) == g,
        values@.len() == 1 && is_blank(values@[0]@) ==> r@.len() == 0,
        values@.len() == 1 && !is_blank(values@[0]@) ==> forall|g: Seq<char>| #[trigger]
            str_views(r@).contains(g) <==> !is_blank(g) && tag_genres(
                values@[0]@,
                phrases_in(delims),
                phrases_in(exceptions),
            ).contains(g),
{
    let views = str_views(values@);
    let filled = |v: Seq<char>| !is_blank(v);
    let got = str_views(r@);
    assert(got.len() == r@.len());
    if values@.len() >= 2 {
        let kept = views.filter(filled);
        assert forall|g: Seq<char>| #[trigger] got.contains(g) <==> exists|i: int|
            0 <= i < values@.len() && !is_blank((#[trigger] values@[i])@) && trimmed(values@[i]@)
                == g by {
            if got.contains(g) {
                let k = choose|k: int| 0 <= k < got.len() && got[k] == g;
                assert(g == trimmed(kept[k]));
                lemma_filtered(views, filled, kept[k]);
                assert(kept.contains(kept[k]));
                let i = choose|i: int| 0 <= i < views.len() && views[i] == kept[k];
                assert(values@[i]@ == views[i]);
            }
            if exists|i: int|
                0 <= i < values@.len() && !is_blank((#[trigger] values@[i])@) && trimmed(
                    values@[i]@,
                ) == g {
                let i = choose|i: int|
                    0 <= i < values@.len() && !is_blank((#[trigger] values@[i])@) && trimmed(
                        values@[i]@,
                    ) == g;
                assert(views[i] == values@[i]@);
                lemma_filtered(views, filled, views[i]);
                assert(views.contains(views[i]));
                let k = choose|k: int| 0 <= k < kept.len() && kept[k] == views[i];
                assert(got[k] == g);
            }
        }
    } else if values@.len() == 1 && !is_blank(values@[0]@) {
        assert(views[0] == values@[0]@);
        assert forall|g: Seq<char>| #[trigger] got.contains(g) <==> !is_blank(g) && tag_genres(
            values@[0]@,
            phrases_in(delims),
            phrases_in(exceptions),
        ).contains(g) by {
            lemma_filtered(
                tag_genres(values@[0]@, phrases_in(delims), phrases_in(exceptions)),
                filled,
                g,
            );
        }
    }
}

/// Without delimiters a tag is left whole.
pub proof fn law_tags_are_whole_without_delimiters<'a>(
    input: &'a str,
    exceptions: Option<&AhoCorasick>,
    r: Vec<&'a str>,
)
    requires
        call_ensures(parse_genre_tag, (input, None::<&AhoCorasick>, exceptions), r),
    ensures
        r@.len() == 1,
        r@[0]@ == input@,
{
    assert(slice_views(r@).len() == r@.len());
    assert(slice_views(r@) == seq![input@]);
    assert(slice_views(r@)[0] == r@[0]@);
}

/// Where the part of a text before the delimiter `k` starts, or the one behind the last.
pub open spec fn gap_start(text: Seq<char>, delims: Seq<(int, int)>, k: int) -> int {
    if k == 0 {
        0
    } else {
        char_place(text, delims[k - 1].1)->0
    }
}

/// Where the part of a text before the delimiter `k` ends, or the one behind the last.
pub open spec fn gap_end(text: Seq<char>, delims: Seq<(int, int)>, k: int) -> int {
    if k == delims.len() {
        text.len() as int
    } else {
        char_place(text, delims[k].0)->0
    }
}

proof fn lemma_gap(text: Seq<char>, phrases: Seq<Seq<char>>, delims: Seq<(int, int)>, k: int)
    requires
        are_matches(phrases, text, delims),
        0 <= k < delims.len(),
    ensures
        0 <= gap_start(text, delims, k) <= gap_end(text, delims, k) <= text.len(),
        piece(text, search_start(delims, k), delims[k].0) == Some(
            text.subrange(gap_start(text, delims, k), gap_end(text, delims, k)),
        ),
        char_place(text, delims[k].1) is Some,
        char_place(text, delims[k].0) is Some,
{
    assert(is_first_seen(phrases, text, search_start(delims, k), delims[k]));
    assert(occurs(phrases, text, delims[k]));
    let start = search_start(delims, k);
    if k > 0 {
        assert(is_first_seen(phrases, text, search_start(delims, k - 1), delims[k - 1]));
        assert(occurs(phrases, text, delims[k - 1]));
    } else {
        lemma_place_of_chars(text, 0);
        assert(text.take(0) =~= Seq::empty());
    }
    lemma_char_place(text, start);
    lemma_char_place(text, delims[k].0);
    let i = char_place(text, start)->0;
    let j = char_place(text, delims[k].0)->0;
    if j < i {
        lemma_places_strictly_ascend(text, j, i);
    }
}

proof fn lemma_places_strictly_ascend(s: Seq<char>, i: int, j: int)
    requires
        0 <= i < j <= s.len(),
    ensures
        byte_len(s.take(i)) < byte_len(s.take(j)),
{
    lemma_places_ascend(s, i, j - 1);
    assert(s.take(j).drop_last() =~= s.take(j - 1));
}

proof fn lemma_gaps_named(
    text: Seq<char>,
    phrases: Seq<Seq<char>>,
    delims: Seq<(int, int)>,
    n: int,
    name: Seq<char>,
)
    requires
        are_matches(phrases, text, delims),
        0 <= n <= delims.len(),
    ensures
        names_before(text, text, delims, n).contains(name) <==> exists|k: int|
            0 <= k < n && is_gap_name(text, delims, #[trigger] gap_start(text, delims, k), k, name),
    decreases n,
{
    if n > 0 {
        let front = names_before(text, text, delims, n - 1);
        let start = search_start(delims, n - 1);
        let back = name_between(text, text, start, delims[n - 1].0);
        let all = names_before(text, text, delims, n);
        lemma_gaps_named(text, phrases, delims, n - 1, name);
        lemma_gap(text, phrases, delims, n - 1);
        assert(all == front + back);
        assert(all.contains(name) <==> front.contains(name) || back.contains(name)) by {
            if front.contains(name) {
                let k = choose|k: int| 0 <= k < front.len() && front[k] == name;
                assert(all[k] == name);
            }
            if back.contains(name) {
                let k = choose|k: int| 0 <= k < back.len() && back[k] == name;
                assert(all[front.len() + k] == name);
            }
        }
        let gap = text.subrange(
            gap_start(text, delims, n - 1),
            gap_end(text, delims, n - 1),
        );
        assert(back.contains(name) <==> !is_blank(gap) && trimmed(gap) == name) by {
            if !is_blank(gap) {
                assert(back[0] == trimmed(gap));
            }
        }
        if all.contains(name) {
            if back.contains(name) {
                assert(is_gap_name(
                    text,
                    delims,
                    gap_start(text, delims, n - 1),
                    n - 1,
                    name,
                ));
            }
        }
    }
}

/// Whether the part of a text that starts at `start` and ends before the delimiter `k`, or at the end, is
/// more than blanks and is called `name` without those around it.
pub open spec fn is_gap_name(
    text: Seq<char>,
    delims: Seq<(int, int)>,
    start: int,
    k: int,
    name: Seq<char>,
) -> bool {
    let gap = text.subrange(start, gap_end(text, delims, k));
    !is_blank(gap) && trimmed(gap) == name
}

/// A tag without exceptions names what stands between its delimiters, before the first and behind the last,
/// without the blanks around it: each of these parts that is more than blanks, and nothing else.
pub proof fn law_tags_are_split_at_delimiters(
    text: Seq<char>,
    phrases: Seq<Seq<char>>,
    delims: Seq<(int, int)>,
    name: Seq<char>,
)
    requires
        are_matches(phrases, text, delims),
        delims.len() > 0,
    ensures
        split_names(text, Seq::empty(), text, delims).contains(name) <==> exists|k: int|
            0 <= k <= delims.len() && is_gap_name(
                text,
                delims,
                #[trigger] gap_start(text, delims, k),
                k,
                name,
            ),
{
    let n = delims.len() as int;
    let front = names_before(text, text, delims, n);
    let back = name_from(text, text, delims.last().1);
    let none = Seq::<Seq<char>>::empty();
    let all = split_names(text, none, text, delims);
    lemma_gaps_named(text, phrases, delims, n, name);
    lemma_gap(text, phrases, delims, n - 1);
    assert(all =~= front + back);
    lemma_char_place(text, delims[n - 1].1);
    let i = char_place(text, delims[n - 1].1)->0;
    let gap = text.subrange(i, text.len() as int);
    assert(gap =~= text.skip(i));
    assert(gap_start(text, delims, n) == i);
    assert(back.contains(name) <==> !is_blank(gap) && trimmed(gap) == name) by {
        if !is_blank(gap) {
            assert(back[0] == trimmed(gap));
        }
    }
    assert(all.contains(name) <==> front.contains(name) || back.contains(name)) by {
        if front.contains(name) {
            let k = choose|k: int| 0 <= k < front.len() && front[k] == name;
            assert(all[k] == name);
        }
        if back.contains(name) {
            let k = choose|k: int| 0 <= k < back.len() && back[k] == name;
            assert(all[front.len() + k] == name);
        }
    }
    if back.contains(name) {
        assert(is_gap_name(text, delims, gap_start(text, delims, n), n, name));
    }
}

/// A genre is called what it was made with.
pub proof fn law_genres_keep_their_names(name: &str, g: Genre, r: &str)
    requires
        call_ensures(Genre::new, (name,), g),
        call_ensures(Genre::get_name, (&g,), r),
    ensures
        r@ == name@,
{
}

}

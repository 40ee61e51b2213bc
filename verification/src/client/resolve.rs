//! Resolving a dynamic playlist to its songs.
//!
//! The database conditions select URIs, each sticker condition narrows them down, and what is left is
//! looked up, sorted and cut to the length of the playlist.
use vstd::prelude::*;

use super::connection::{
    build_comparator, law_songs_can_be_sorted, reaches_random, song_before, song_leq, SongComparator,
};
use super::query::{FilterView, Operation, Query, Term, TermView};
use super::sticker_search::{
    accept_reply, after_reply, kind_of, new_search, search_request, SearchPhase, SearchRequest,
    SearchView, StickerSearch,
};
use super::{clock_seconds, past_timestamp, BATCH_SIZE, FETCH_LIMIT};
use crate::common::distinct::{
    extend_distinct, insert_all, law_extend_distinct, retain_common, DistinctStrings,
};
use crate::common::dynamic_playlist::{
    QueryClause, QueryLhs, Rule, SongOrder, StickerClause,
};
use crate::common::song::{SongInfo, SongStickers};
use crate::common::sticker::{Stickers, LAST_PLAYED_KEY, LAST_SKIPPED_KEY};
use crate::common::str_views;
use crate::order::{sort_stable, stable_sorted};
use crate::text::{
    decimal, decimal_string, integer_of, law_decimal_round_trip, parse_i64, same,
};
use crate::utils::CLOCK_RANGE;

verus! {

/// The condition that a database clause stands for.
pub open spec fn clause_filter(c: QueryClause) -> FilterView {
    match c.lhs {
        QueryLhs::LastMod => FilterView {
            term: TermView::LastModified,
            op: Operation::Equals,
            value: c.rhs@,
        },
        QueryLhs::Other(term, op) => FilterView { term: term@, op, value: c.rhs@ },
    }
}

/// The condition that a rule puts on the database, where it does, with `now` as the current time.
pub open spec fn rule_filter(rule: Rule, now: int) -> Option<FilterView> {
    match rule {
        Rule::Sticker(_) => None,
        Rule::Query(c) => Some(clause_filter(c)),
        Rule::LastModified(secs) => Some(
            FilterView {
                term: TermView::LastModified,
                op: Operation::Equals,
                value: decimal(now - secs),
            },
        ),
    }
}

/// The condition that a rule puts on stickers, where it does.
pub open spec fn rule_clause(rule: Rule) -> Option<StickerClause> {
    match rule {
        Rule::Sticker(c) => Some(c),
        _ => None,
    }
}

/// The conditions that the rules put on the database.
pub open spec fn rule_filters(rules: Seq<Rule>, now: int) -> Seq<FilterView> {
    rules.filter_map(|r: Rule| rule_filter(r, now))
}

/// The conditions that the rules put on stickers.
pub open spec fn rule_clauses(rules: Seq<Rule>) -> Seq<StickerClause> {
    rules.filter_map(|r: Rule| rule_clause(r))
}

/// A condition that every song meets.
pub open spec fn any_song() -> FilterView {
    FilterView {
        term: TermView::AddedSince,
        op: Operation::Equals,
        value: decimal(i64::MIN as int),
    }
}

/// The query that the rules make, which selects every song where no rule is about the database.
pub open spec fn rules_query(rules: Seq<Rule>, now: int) -> Seq<FilterView> {
    let filters = rule_filters(rules, now);
    if filters.len() == 0 {
        seq![any_song()]
    } else {
        filters
    }
}

/// Whether every moment that the rules are relative to can be given in 64 bits.
pub open spec fn moments_fit(rules: Seq<Rule>, now: int) -> bool {
    forall|i: int|
        0 <= i < rules.len() ==> ((#[trigger] rules[i]) matches Rule::LastModified(secs)
            ==> i64::MIN <= now - secs <= i64::MAX)
}

/// Splits the rules into a query to the database and conditions on stickers.
pub fn split_rules(rules: Vec<Rule>, now: i64) -> (r: Option<(Query, Vec<StickerClause>)>)
    ensures
        r is Some <==> moments_fit(rules@, now as int),
        r is Some ==> (r->0).0@ == rules_query(rules@, now as int),
        r is Some ==> (r->0).1@ == rule_clauses(rules@),
{
    let ghost filter = |r: Rule| rule_filter(r, now as int);
    let ghost clause = |r: Rule| rule_clause(r);
    let mut query: Query = Query::new();
    let mut clauses: Vec<StickerClause> = Vec::new();
    assert(rules@.take(0) =~= Seq::empty());
    for rule in it: rules
        invariant
            it.seq() == rules@,
            filter == (|r: Rule| rule_filter(r, now as int)),
            clause == (|r: Rule| rule_clause(r)),
            query@ == rules@.take(it.index()).filter_map(filter),
            clauses@ == rules@.take(it.index()).filter_map(clause),
            moments_fit(rules@.take(it.index()), now as int),
    {
        let ghost init = rules@.take(it.index());
        let ghost next = rules@.take(it.index() + 1);
        proof {
            assert(next =~= init.push(rule));
            assert(next.drop_last() =~= init);
            rules@.lemma_filter_map_take_succ(filter, it.index());
            rules@.lemma_filter_map_take_succ(clause, it.index());
            assert(rules@[it.index()] == rule);
        }
        match rule {
            Rule::Sticker(c) => {
                clauses.push(c);
            },
            Rule::Query(c) => match c.lhs {
                QueryLhs::LastMod => query.and(Term::LastModified, Operation::Equals, c.rhs),
                QueryLhs::Other(term, op) => query.and(term, op, c.rhs),
            },
            Rule::LastModified(secs) => match past_timestamp(now, secs) {
                Some(t) => query.and(Term::LastModified, Operation::Equals, decimal_string(t)),
                None => {
                    return None;
                },
            },
        }
        assert forall|i: int| 0 <= i < next.len() implies ((#[trigger] next[i]) matches
            Rule::LastModified(secs) ==> i64::MIN <= now - secs <= i64::MAX) by {
            if i < init.len() {
                assert(next[i] == init[i]);
            }
        }
    }
    assert(rules@.take(rules@.len() as int) =~= rules@);
    if query.filters.len() == 0 {
        assert(query@.len() == 0);
        query.and(Term::AddedSince, Operation::Equals, decimal_string(i64::MIN));
        assert(query@ =~= seq![any_song()]);
    } else {
        assert(query@.len() > 0);
    }
    Some((query, clauses))
}

/// Splits the rules into a query to the database and conditions on stickers, with the clock of the
/// machine as the current time.
pub fn split_rules_now(rules: Vec<Rule>) -> (r: Option<(Query, Vec<StickerClause>)>)
    ensures
        exists|now: i64|
            #![trigger moments_fit(rules@, now as int)]
            {
                &&& -CLOCK_RANGE <= now <= CLOCK_RANGE
                &&& r is Some <==> moments_fit(rules@, now as int)
                &&& r is Some ==> (r->0).0@ == rules_query(rules@, now as int)
            },
        r is Some ==> (r->0).1@ == rule_clauses(rules@),
{
    let now: i64 = clock_seconds();
    split_rules(rules, now)
}

/// Whether a sticker holds a moment, so that a condition on it is relative to the current time.
pub open spec fn is_moment(key: Seq<char>) -> bool {
    key == LAST_PLAYED_KEY@ || key == LAST_SKIPPED_KEY@
}

/// Whether a sticker holds a moment.
fn holds_moment(key: &str) -> (r: bool)
    ensures
        r == is_moment(key@),
{
    same(key, LAST_PLAYED_KEY) || same(key, LAST_SKIPPED_KEY)
}

/// The value that a relative condition compares with: the moment as many seconds before `now` as the
/// rule says.
pub open spec fn moment_value(rhs: Seq<char>, now: int) -> Option<Seq<char>> {
    match integer_of(rhs) {
        Some(secs) => if i64::MIN <= secs <= i64::MAX && i64::MIN <= now - secs <= i64::MAX {
            Some(decimal(now - secs))
        } else {
            None
        },
        None => None,
    }
}

/// The value that a relative condition compares with, where the rule gives a number of seconds that can
/// be subtracted from `now`.
pub fn relative_value(rhs: &str, now: i64) -> (r: Option<String>)
    ensures
        match moment_value(rhs@, now as int) {
            Some(v) => r is Some && r->0@ == v,
            None => r is None,
        },
{
    match parse_i64(rhs) {
        Some(secs) => match past_timestamp(now, secs) {
            Some(t) => Some(decimal_string(t)),
            None => None,
        },
        None => None,
    }
}

/// The tags that are needed to show the songs and to sort them.
pub open spec fn needed_tags(keys: Seq<SongOrder>) -> Seq<Seq<char>>
    decreases keys.len(),
{
    if keys.len() == 0 {
        seq!["title"@, "album"@, "artist"@, "albumartist"@]
    } else {
        let init = needed_tags(keys.drop_last());
        match keys.last() {
            SongOrder::Track => init.push("track"@),
            SongOrder::AscReleaseDate | SongOrder::DescReleaseDate => init.push("originaldate"@),
            _ => init,
        }
    }
}

/// The characters of each tag name.
pub open spec fn tag_names(s: Seq<&'static str>) -> Seq<Seq<char>> {
    s.map_values(|t: &'static str| t@)
}

/// The tags that are needed to show the songs and to sort them.
pub fn tag_types(ordering: &Vec<SongOrder>) -> (r: Vec<&'static str>)
    ensures
        tag_names(r@) == needed_tags(ordering@),
{
    let mut tags: Vec<&'static str> = Vec::new();
    tags.push("title");
    tags.push("album");
    tags.push("artist");
    tags.push("albumartist");
    assert(ordering@.take(0) =~= Seq::empty());
    assert(tag_names(tags@) =~= seq!["title"@, "album"@, "artist"@, "albumartist"@]);
    for i in 0..ordering.len()
        invariant
            tag_names(tags@) == needed_tags(ordering@.take(i as int)),
    {
        let ghost had = tag_names(tags@);
        assert(ordering@.take(i + 1).drop_last() =~= ordering@.take(i as int));
        match ordering[i] {
            SongOrder::Track => {
                tags.push("track");
                assert(tag_names(tags@) =~= had.push("track"@));
            },
            SongOrder::AscReleaseDate | SongOrder::DescReleaseDate => {
                tags.push("originaldate");
                assert(tag_names(tags@) =~= had.push("originaldate"@));
            },
            _ => {},
        }
    }
    assert(ordering@.take(ordering@.len() as int) =~= ordering@);
    tags
}

/// What is to be done next.
#[derive(Debug, Clone, Copy, PartialEq, Eq, Structural)]
pub enum ResolvePhase {
    /// Have the server send no tags.
    ClearTags,
    /// Fetch a page of the songs that the query selects.
    Find,
    /// Read the clock, for a condition that is relative to the current time.
    Clock,
    /// Fetch what the current sticker condition selects.
    Search,
    /// Have the server send the needed tags.
    EnableTags,
    /// Look up a song by its URI.
    Song,
    /// Fetch the stickers of the song that was looked up.
    Stickers,
    /// The songs are there.
    Collected,
    /// A sticker condition has left nothing.
    Empty,
}

/// Where resolving a dynamic playlist stands.
pub struct Resolution {
    paged: bool,
    phase: ResolvePhase,
    cursor: u32,
    uris: DistinctStrings,
    /// The sticker conditions that are left, the current one last.
    clauses: Vec<StickerClause>,
    rhs: String,
    search: Option<StickerSearch>,
    place: usize,
    pending: Option<SongInfo>,
    songs: Vec<SongStickers>,
}

/// What a `Resolution` stands for; here the current condition comes first.
#[verifier::ext_equal]
pub struct ResolveView {
    pub paged: bool,
    pub phase: ResolvePhase,
    pub cursor: int,
    pub uris: Seq<Seq<char>>,
    pub clauses: Seq<StickerClause>,
    pub rhs: Seq<char>,
    /// The search for the current condition, while there is one.
    pub search: Option<SearchView>,
    pub place: int,
    pub pending: Option<SongInfo>,
    pub songs: Seq<SongStickers>,
}

impl View for Resolution {
    type V = ResolveView;

    closed spec fn view(&self) -> ResolveView {
        ResolveView {
            paged: self.paged,
            phase: self.phase,
            cursor: self.cursor as int,
            uris: self.uris@,
            clauses: self.clauses@.reverse(),
            rhs: self.rhs@,
            search: match self.search {
                Some(search) => Some(search@),
                None => None,
            },
            place: self.place as int,
            pending: self.pending,
            songs: self.songs@,
        }
    }
}

/// The next condition on stickers is taken up, or the songs are looked up where there is none.
pub open spec fn next_clause(v: ResolveView) -> ResolveView {
    if v.clauses.len() == 0 {
        ResolveView { phase: ResolvePhase::EnableTags, ..v }
    } else {
        let fresh = ResolveView {
            search: Some(new_search(kind_of(v.clauses[0].object), v.paged)),
            rhs: v.clauses[0].rhs@,
            ..v
        };
        if is_moment(v.clauses[0].key@) {
            ResolveView { phase: ResolvePhase::Clock, ..fresh }
        } else {
            ResolveView { phase: ResolvePhase::Search, ..fresh }
        }
    }
}

/// The next song is looked up, or the songs are complete.
pub open spec fn next_song(v: ResolveView) -> ResolveView {
    ResolveView {
        phase: if v.place < v.uris.len() {
            ResolvePhase::Song
        } else {
            ResolvePhase::Collected
        },
        ..v
    }
}

/// The server has done what it was told about tags.
pub open spec fn after_tags(v: ResolveView) -> ResolveView {
    match v.phase {
        ResolvePhase::ClearTags => ResolveView { phase: ResolvePhase::Find, ..v },
        ResolvePhase::EnableTags => next_song(v),
        _ => v,
    }
}

/// The clock was read.
pub open spec fn after_clock(v: ResolveView, value: Seq<char>) -> ResolveView {
    ResolveView { rhs: value, phase: ResolvePhase::Search, ..v }
}

/// URIs or names have come in.
pub open spec fn after_strings(v: ResolveView, reply: Seq<Seq<char>>) -> ResolveView {
    match v.phase {
        ResolvePhase::Find => if reply.len() == 0 {
            next_clause(v)
        } else {
            let more = ResolveView {
                uris: extend_distinct(v.uris, reply),
                cursor: v.cursor + BATCH_SIZE,
                ..v
            };
            if more.cursor < FETCH_LIMIT {
                more
            } else {
                next_clause(more)
            }
        },
        ResolvePhase::Search => {
            let search = after_reply(v.search->0, reply);
            if search.phase != SearchPhase::Done {
                ResolveView { search: Some(search), ..v }
            } else {
                let matching = extend_distinct(Seq::empty(), search.found);
                let uris = v.uris.filter(|u: Seq<char>| matching.contains(u));
                let rest = ResolveView { uris, search: None, clauses: v.clauses.drop_first(), ..v };
                if uris.len() == 0 {
                    ResolveView { phase: ResolvePhase::Empty, ..rest }
                } else {
                    next_clause(rest)
                }
            }
        },
        _ => v,
    }
}

/// A song was looked up, or not found.
pub open spec fn after_song(v: ResolveView, song: Option<SongInfo>) -> ResolveView {
    match song {
        Some(s) => ResolveView { phase: ResolvePhase::Stickers, pending: song, ..v },
        None => next_song(ResolveView { place: v.place + 1, ..v }),
    }
}

/// The stickers of the song that was looked up have come in.
pub open spec fn after_stickers(v: ResolveView, stickers: Stickers) -> ResolveView {
    next_song(
        ResolveView {
            place: v.place + 1,
            pending: None,
            songs: v.songs.push((v.pending->0, stickers)),
            ..v
        },
    )
}

/// Whether resolving is in one of the states that it can be in.
pub open spec fn resolve_ok(v: ResolveView) -> bool {
    &&& 0 <= v.cursor < FETCH_LIMIT + BATCH_SIZE
    &&& v.phase == ResolvePhase::Find ==> v.cursor < FETCH_LIMIT
    &&& v.phase == ResolvePhase::ClearTags ==> v.cursor == 0
    &&& v.phase == ResolvePhase::Clock || v.phase == ResolvePhase::Search ==> v.clauses.len() > 0
    &&& v.phase == ResolvePhase::Clock || v.phase == ResolvePhase::Search <==> v.search is Some
    &&& v.search is Some ==> (v.search->0).phase != SearchPhase::Done
    &&& 0 <= v.place <= v.uris.len()
    &&& v.phase != ResolvePhase::Song && v.phase != ResolvePhase::Stickers && v.phase
        != ResolvePhase::Collected ==> v.place == 0
    &&& v.phase == ResolvePhase::Song || v.phase == ResolvePhase::Stickers ==> v.place
        < v.uris.len()
    &&& v.phase == ResolvePhase::Stickers <==> v.pending is Some
}

/// What resolving a dynamic playlist asks for.
pub enum ResolveRequest<'a> {
    /// Have the server send no tags.
    ClearTags,
    /// The URIs of the songs that the query selects, from one place up to another.
    Find(u32, u32),
    /// The current time.
    Clock,
    /// A request of the search for a sticker condition, and the value to compare with.
    Search(&'a StickerClause, &'a str, SearchRequest<'a>),
    /// Have the server send the needed tags.
    EnableTags,
    /// The song with a URI.
    Song(&'a str),
    /// The stickers of the song with a URI.
    Stickers(&'a str),
    /// Sort the songs that were collected and have the server send all tags again.
    Collected,
    /// Nothing more; the playlist is empty.
    Empty,
}

/// Whether `r` is what resolving asks for next.
pub open spec fn is_request_of(r: ResolveRequest, v: ResolveView) -> bool {
    match v.phase {
        ResolvePhase::ClearTags => r is ClearTags,
        ResolvePhase::Find => r matches ResolveRequest::Find(a, b) && a == v.cursor && b == v.cursor
            + BATCH_SIZE,
        ResolvePhase::Clock => r is Clock,
        ResolvePhase::Search => r matches ResolveRequest::Search(clause, rhs, request) && *clause
            == v.clauses[0] && rhs@ == v.rhs && request@ == search_request(v.search->0),
        ResolvePhase::EnableTags => r is EnableTags,
        ResolvePhase::Song => r matches ResolveRequest::Song(uri) && uri@ == v.uris[v.place],
        ResolvePhase::Stickers => r matches ResolveRequest::Stickers(uri) && uri@
            == v.uris[v.place],
        ResolvePhase::Collected => r is Collected,
        ResolvePhase::Empty => r is Empty,
    }
}

/// The conditions from the last to the first.
fn turned(v: Vec<StickerClause>) -> (r: Vec<StickerClause>)
    ensures
        r@.reverse() == v@,
{
    let ghost all = v@;
    let mut v = v;
    let mut r: Vec<StickerClause> = Vec::new();
    while v.len() > 0
        invariant
            all.reverse() =~= r@ + v@.reverse(),
        decreases v@.len(),
    {
        if let Some(x) = v.pop() {
            r.push(x);
        }
    }
    assert(r@ =~= all.reverse());
    assert(r@.reverse() =~= all);
    r
}

/// Starts resolving with the conditions on stickers; `paged` says whether the server can give playlists
/// in pages.
pub fn start_resolving(clauses: Vec<StickerClause>, paged: bool) -> (r: Resolution)
    ensures
        r@ == (ResolveView {
            paged,
            phase: ResolvePhase::ClearTags,
            cursor: 0,
            uris: Seq::empty(),
            clauses: clauses@,
            rhs: Seq::empty(),
            search: None,
            place: 0,
            pending: None,
            songs: Seq::empty(),
        }),
{
    Resolution {
        paged,
        phase: ResolvePhase::ClearTags,
        cursor: 0,
        uris: DistinctStrings::new(),
        clauses: turned(clauses),
        rhs: String::new(),
        search: None,
        place: 0,
        pending: None,
        songs: Vec::new(),
    }
}

/// Takes up the next condition on stickers.
fn take_next_clause(
    paged: bool,
    cursor: u32,
    uris: DistinctStrings,
    clauses: Vec<StickerClause>,
    rhs: String,
    songs: Vec<SongStickers>,
) -> (r: Resolution)
    requires
        cursor < FETCH_LIMIT + BATCH_SIZE,
    ensures
        forall|phase: ResolvePhase|
            r@ == #[trigger] next_clause(
                ResolveView {
                    paged,
                    phase,
                    cursor: cursor as int,
                    uris: uris@,
                    clauses: clauses@.reverse(),
                    rhs: rhs@,
                    search: None,
                    place: 0,
                    pending: None,
                    songs: songs@,
                },
            ),
{
    let n: usize = clauses.len();
    if n == 0 {
        return Resolution {
            paged,
            phase: ResolvePhase::EnableTags,
            cursor,
            uris,
            clauses,
            rhs,
            search: None,
            place: 0,
            pending: None,
            songs,
        };
    }
    assert(clauses@.reverse()[0] == clauses@[n - 1]);
    let search: StickerSearch = StickerSearch::new(&clauses[n - 1].object, paged);
    let value: String = clauses[n - 1].rhs.clone();
    let phase: ResolvePhase = if holds_moment(clauses[n - 1].key.as_str()) {
        ResolvePhase::Clock
    } else {
        ResolvePhase::Search
    };
    Resolution {
        paged,
        phase,
        cursor,
        uris,
        clauses,
        rhs: value,
        search: Some(search),
        place: 0,
        pending: None,
        songs,
    }
}

impl Resolution {
    #[verifier::type_invariant]
    spec fn is_ok(&self) -> bool {
        resolve_ok(self@)
    }

    /// What resolving asks for next.
    pub fn request(&self) -> (r: ResolveRequest<'_>)
        ensures
            is_request_of(r, self@),
    {
        proof {
            use_type_invariant(self);
        }
        match self.phase {
            ResolvePhase::ClearTags => ResolveRequest::ClearTags,
            ResolvePhase::Find => ResolveRequest::Find(
                self.cursor,
                self.cursor + BATCH_SIZE as u32,
            ),
            ResolvePhase::Clock => ResolveRequest::Clock,
            ResolvePhase::Search => {
                let n: usize = self.clauses.len();
                assert(self@.clauses.len() == n);
                assert(self.clauses@.reverse()[0] == self.clauses@[n - 1]);
                match &self.search {
                    Some(search) => ResolveRequest::Search(
                        &self.clauses[n - 1],
                        self.rhs.as_str(),
                        search.request(),
                    ),
                    None => ResolveRequest::Empty,
                }
            },
            ResolvePhase::EnableTags => ResolveRequest::EnableTags,
            ResolvePhase::Song => {
                let uris: &Vec<String> = self.uris.strings();
                assert(str_views(uris@)[self.place as int] == uris@[self.place as int]@);
                ResolveRequest::Song(uris[self.place].as_str())
            },
            ResolvePhase::Stickers => {
                let uris: &Vec<String> = self.uris.strings();
                assert(str_views(uris@)[self.place as int] == uris@[self.place as int]@);
                ResolveRequest::Stickers(uris[self.place].as_str())
            },
            ResolvePhase::Collected => ResolveRequest::Collected,
            ResolvePhase::Empty => ResolveRequest::Empty,
        }
    }

    /// The songs that were collected, with their stickers.
    pub fn into_songs(self) -> (r: Vec<SongStickers>)
        ensures
            r@ == self@.songs,
    {
        self.songs
    }
}

/// The phase in which the next song is looked up, or none is left.
fn song_phase(uris: &DistinctStrings, place: usize) -> (r: ResolvePhase)
    ensures
        r == (if place < uris@.len() {
            ResolvePhase::Song
        } else {
            ResolvePhase::Collected
        }),
{
    let strings: &Vec<String> = uris.strings();
    assert(str_views(strings@).len() == strings@.len());
    if place < strings.len() {
        ResolvePhase::Song
    } else {
        ResolvePhase::Collected
    }
}

/// Takes note that the server has done what it was told about tags.
pub fn accept_tags(state: Resolution) -> (r: Resolution)
    ensures
        r@ == after_tags(state@),
{
    proof {
        use_type_invariant(&state);
    }
    let phase: ResolvePhase = match state.phase {
        ResolvePhase::ClearTags => ResolvePhase::Find,
        ResolvePhase::EnableTags => song_phase(&state.uris, state.place),
        _ => state.phase,
    };
    Resolution {
        paged: state.paged,
        phase,
        cursor: state.cursor,
        uris: state.uris,
        clauses: state.clauses,
        rhs: state.rhs,
        search: state.search,
        place: state.place,
        pending: state.pending,
        songs: state.songs,
    }
}

/// Takes note of the current time, which was asked for. Nothing comes back where the condition does not
/// give a number of seconds that can be subtracted from it.
pub fn accept_clock(state: Resolution, now: i64) -> (r: Option<Resolution>)
    requires
        state@.phase == ResolvePhase::Clock,
    ensures
        match moment_value(state@.rhs, now as int) {
            Some(value) => r is Some && r->0@ == after_clock(state@, value),
            None => r is None,
        },
{
    proof {
        use_type_invariant(&state);
    }
    match relative_value(state.rhs.as_str(), now) {
        Some(rhs) => Some(
            Resolution {
                paged: state.paged,
                phase: ResolvePhase::Search,
                cursor: state.cursor,
                uris: state.uris,
                clauses: state.clauses,
                rhs,
                search: state.search,
                place: state.place,
                pending: state.pending,
                songs: state.songs,
            },
        ),
        None => None,
    }
}

/// Takes note of what the clock of the machine shows, which was asked for. Nothing comes back where the
/// condition does not give a number of seconds that can be subtracted from it.
pub fn read_clock(state: Resolution) -> (r: Option<Resolution>)
    requires
        state@.phase == ResolvePhase::Clock,
    ensures
        exists|now: i64|
            -CLOCK_RANGE <= now <= CLOCK_RANGE && match #[trigger] moment_value(
                state@.rhs,
                now as int,
            ) {
                Some(value) => r is Some && r->0@ == after_clock(state@, value),
                None => r is None,
            },
{
    let now: i64 = clock_seconds();
    accept_clock(state, now)
}

/// Takes the URIs or names that were asked for.
pub fn accept_strings(state: Resolution, reply: Vec<String>) -> (r: Resolution)
    requires
        state@.phase == ResolvePhase::Find || state@.phase == ResolvePhase::Search,
    ensures
        r@ == after_strings(state@, str_views(reply@)),
{
    proof {
        use_type_invariant(&state);
    }
    let ghost v = state@;
    let ghost answer = str_views(reply@);
    assert(answer.len() == reply@.len());
    match state.phase {
        ResolvePhase::Find => {
            if reply.len() == 0 {
                let r: Resolution = take_next_clause(
                    state.paged,
                    state.cursor,
                    state.uris,
                    state.clauses,
                    state.rhs,
                    state.songs,
                );
                assert(r@ == next_clause(ResolveView { phase: ResolvePhase::Find, ..v }));
                r
            } else {
                let uris: DistinctStrings = insert_all(state.uris, reply);
                let cursor: u32 = state.cursor + BATCH_SIZE as u32;
                if cursor < FETCH_LIMIT as u32 {
                    Resolution {
                        paged: state.paged,
                        phase: ResolvePhase::Find,
                        cursor,
                        uris,
                        clauses: state.clauses,
                        rhs: state.rhs,
                        search: None,
                        place: 0,
                        pending: None,
                        songs: state.songs,
                    }
                } else {
                    let r: Resolution = take_next_clause(
                        state.paged,
                        cursor,
                        uris,
                        state.clauses,
                        state.rhs,
                        state.songs,
                    );
                    assert(r@ == next_clause(
                        ResolveView {
                            phase: ResolvePhase::Find,
                            uris: uris@,
                            cursor: cursor as int,
                            ..v
                        },
                    ));
                    r
                }
            }
        },
        _ => match state.search {
            Some(old_search) => {
                let search: StickerSearch = accept_reply(old_search, reply);
                if !search.is_done() {
                    return Resolution {
                        paged: state.paged,
                        phase: ResolvePhase::Search,
                        cursor: state.cursor,
                        uris: state.uris,
                        clauses: state.clauses,
                        rhs: state.rhs,
                        search: Some(search),
                        place: 0,
                        pending: None,
                        songs: state.songs,
                    };
                }
                let matching: DistinctStrings = insert_all(
                    DistinctStrings::new(),
                    search.into_found(),
                );
                let uris: DistinctStrings = retain_common(state.uris, &matching);
                let mut clauses: Vec<StickerClause> = state.clauses;
                let ghost had = clauses@;
                let _ = clauses.pop();
                assert(clauses@.reverse() =~= had.reverse().drop_first());
                if uris.is_empty() {
                    return Resolution {
                        paged: state.paged,
                        phase: ResolvePhase::Empty,
                        cursor: state.cursor,
                        uris,
                        clauses,
                        rhs: state.rhs,
                        search: None,
                        place: 0,
                        pending: None,
                        songs: state.songs,
                    };
                }
                let r: Resolution = take_next_clause(
                    state.paged,
                    state.cursor,
                    uris,
                    clauses,
                    state.rhs,
                    state.songs,
                );
                assert(r@ == next_clause(
                    ResolveView {
                        phase: ResolvePhase::Search,
                        uris: uris@,
                        clauses: v.clauses.drop_first(),
                        search: None,
                        ..v
                    },
                ));
                r
            },
            None => {
                assert(false);
                state
            },
        },
    }
}

/// Takes the song that was looked up, if there is one with the URI.
pub fn accept_song(state: Resolution, song: Option<SongInfo>) -> (r: Resolution)
    requires
        state@.phase == ResolvePhase::Song,
    ensures
        r@ == after_song(state@, song),
{
    proof {
        use_type_invariant(&state);
    }
    let uris: DistinctStrings = state.uris;
    let place: usize = state.place;
    let strings: usize = uris.strings().len();
    assert(uris@.len() == strings);
    match song {
        Some(s) => Resolution {
            paged: state.paged,
            phase: ResolvePhase::Stickers,
            cursor: state.cursor,
            uris,
            clauses: state.clauses,
            rhs: state.rhs,
            search: state.search,
            place,
            pending: Some(s),
            songs: state.songs,
        },
        None => {
            let phase: ResolvePhase = song_phase(&uris, place + 1);
            Resolution {
                paged: state.paged,
                phase,
                cursor: state.cursor,
                uris,
                clauses: state.clauses,
                rhs: state.rhs,
                search: state.search,
                place: place + 1,
                pending: state.pending,
                songs: state.songs,
            }
        },
    }
}

/// Takes the stickers of the song that was looked up.
pub fn accept_stickers(state: Resolution, stickers: Stickers) -> (r: Resolution)
    requires
        state@.phase == ResolvePhase::Stickers,
    ensures
        r@ == after_stickers(state@, stickers),
{
    proof {
        use_type_invariant(&state);
    }
    let uris: DistinctStrings = state.uris;
    let place: usize = state.place;
    let strings: usize = uris.strings().len();
    assert(uris@.len() == strings);
    let phase: ResolvePhase = song_phase(&uris, place + 1);
    let mut songs: Vec<SongStickers> = state.songs;
    if let Some(song) = state.pending {
        songs.push((song, stickers));
    }
    Resolution {
        paged: state.paged,
        phase,
        cursor: state.cursor,
        uris,
        clauses: state.clauses,
        rhs: state.rhs,
        search: state.search,
        place: place + 1,
        pending: None,
        songs,
    }
}

/// A condition on stickers only narrows the songs down: once its search is over, those are left that it
/// has found.
pub proof fn law_conditions_narrow(v: ResolveView, reply: Seq<Seq<char>>)
    requires
        v.phase == ResolvePhase::Search,
        after_reply(v.search->0, reply).phase == SearchPhase::Done,
    ensures
        forall|u: Seq<char>| #[trigger]
            after_strings(v, reply).uris.contains(u) <==> v.uris.contains(u) && after_reply(
                v.search->0,
                reply,
            ).found.contains(u),
{
    let found = after_reply(v.search->0, reply).found;
    let matching = extend_distinct(Seq::empty(), found);
    let keep = |u: Seq<char>| matching.contains(u);
    law_extend_distinct(Seq::empty(), found);
    assert forall|u: Seq<char>| #[trigger]
        after_strings(v, reply).uris.contains(u) <==> v.uris.contains(u) && found.contains(u) by {
        assert(after_strings(v, reply).uris == v.uris.filter(keep));
        assert(matching.contains(u) <==> found.contains(u)) by {
            assert(!Seq::<Seq<char>>::empty().contains(u));
        }
        if v.uris.filter(keep).contains(u) {
            v.uris.lemma_filter_contains_rev(keep, u);
            let i = choose|i: int|
                0 <= i < v.uris.filter(keep).len() && v.uris.filter(keep)[i] == u;
            v.uris.lemma_filter_pred(keep, i);
        }
        if v.uris.contains(u) && keep(u) {
            let i = choose|i: int| 0 <= i < v.uris.len() && v.uris[i] == u;
            v.uris.lemma_filter_contains(keep, i);
        }
    }
}

/// No song is taken twice while the database is asked for them.
pub proof fn law_songs_are_taken_once(v: ResolveView, reply: Seq<Seq<char>>)
    requires
        v.phase == ResolvePhase::Find,
        v.uris.no_duplicates(),
    ensures
        after_strings(v, reply).uris.no_duplicates(),
        forall|u: Seq<char>| #[trigger]
            after_strings(v, reply).uris.contains(u) <==> v.uris.contains(u) || reply.contains(u),
{
    law_extend_distinct(v.uris, reply);
    if reply.len() == 0 {
        assert forall|u: Seq<char>| !reply.contains(u) by {}
    }
}

/// `rand::seq::SliceRandom::shuffle` with `rand::rng`: puts the elements in a random order. Which one
/// is left to chance; each element is there as often as before.
#[verifier::external_body]
pub(crate) fn shuffle<T>(v: &mut Vec<T>)
    ensures
        final(v)@.to_multiset() == old(v)@.to_multiset(),
        final(v)@.len() == old(v)@.len(),
{
    rand::seq::SliceRandom::shuffle(v.as_mut_slice(), &mut rand::rng());
}

/// At most `limit` of the songs, from the first on, without their stickers.
pub open spec fn cut_off(songs: Seq<SongStickers>, limit: Option<u32>) -> Seq<SongInfo> {
    let kept = match limit {
        Some(n) => if n < songs.len() {
            songs.take(n as int)
        } else {
            songs
        },
        None => songs,
    };
    kept.map_values(|s: SongStickers| s.0)
}

/// At most `limit` of the songs, from the first on, without their stickers.
pub fn take_first(songs: Vec<SongStickers>, limit: Option<u32>) -> (r: Vec<SongInfo>)
    ensures
        r@ == cut_off(songs@, limit),
{
    let mut songs = songs;
    if let Some(n) = limit {
        songs.truncate(n as usize);
    }
    let ghost kept = songs@;
    let mut r: Vec<SongInfo> = Vec::new();
    for s in it: songs
        invariant
            it.seq() == kept,
            r@ == kept.take(it.index()).map_values(|s: SongStickers| s.0),
    {
        let ghost had = r@;
        r.push(s.0);
        assert(kept.take(it.index() + 1).map_values(|s: SongStickers| s.0) =~= had.push(s.0));
    }
    assert(kept.take(kept.len() as int) =~= kept);
    r
}

/// Whether the only criterion is a random order.
pub open spec fn is_random(keys: Seq<SongOrder>) -> bool {
    keys.len() == 1 && keys[0] == SongOrder::Random
}

/// Whether songs can be put in order: the only criterion is a random order, or no two songs are told
/// apart by nothing but one.
pub open spec fn can_be_arranged(songs: Seq<SongStickers>, keys: Seq<SongOrder>) -> bool {
    is_random(keys) || forall|i: int, j: int|
        #![trigger songs[i], songs[j]]
        0 <= i < j < songs.len() ==> !reaches_random(keys, songs[i], songs[j])
}

/// Whether songs can be put in order.
pub fn can_arrange(songs: &Vec<SongStickers>, ordering: &Vec<SongOrder>) -> (r: bool)
    ensures
        r == can_be_arranged(songs@, ordering@),
{
    if ordering.len() == 1 {
        if let SongOrder::Random = ordering[0] {
            return true;
        }
    }
    let comparator: SongComparator = build_comparator(ordering.as_slice());
    for j in 0..songs.len()
        invariant
            comparator.criteria() == ordering@,
            !is_random(ordering@),
            forall|a: int, b: int|
                #![trigger songs@[a], songs@[b]]
                0 <= a < b < j ==> !reaches_random(ordering@, songs@[a], songs@[b]),
    {
        for i in 0..j
            invariant
                j < songs@.len(),
                comparator.criteria() == ordering@,
                !is_random(ordering@),
                forall|a: int, b: int|
                    #![trigger songs@[a], songs@[b]]
                    0 <= a < b < j ==> !reaches_random(ordering@, songs@[a], songs@[b]),
                forall|a: int|
                    #![trigger songs@[a]]
                    0 <= a < i ==> !reaches_random(ordering@, songs@[a], songs@[j as int]),
        {
            if comparator.needs_chance(&songs[i], &songs[j]) {
                return false;
            }
        }
    }
    true
}

/// The songs of a dynamic playlist in its order and up to its length. Where the order is random every
/// outcome is a rearrangement of the songs.
pub fn arrange_songs(
    songs: Vec<SongStickers>,
    ordering: &Vec<SongOrder>,
    limit: Option<u32>,
) -> (r: Vec<SongInfo>)
    requires
        can_be_arranged(songs@, ordering@),
    ensures
        !is_random(ordering@) ==> r@ == cut_off(
            stable_sorted(songs@, song_leq(ordering@)),
            limit,
        ),
        exists|arranged: Seq<SongStickers>|
            arranged.to_multiset() == songs@.to_multiset() && arranged.len() == songs@.len() && r@
                == #[trigger] cut_off(arranged, limit),
{
    let is_shuffled: bool = ordering.len() == 1 && match ordering[0] {
        SongOrder::Random => true,
        _ => false,
    };
    let ghost before = songs@;
    let mut songs = songs;
    if is_shuffled {
        shuffle(&mut songs);
        let ghost arranged = songs@;
        let r: Vec<SongInfo> = take_first(songs, limit);
        assert(r@ == cut_off(arranged, limit));
        r
    } else {
        let comparator: SongComparator = build_comparator(ordering.as_slice());
        sort_songs(songs, &comparator, limit)
    }
}

/// The songs in the order of a comparator and up to a length.
fn sort_songs(songs: Vec<SongStickers>, comparator: &SongComparator, limit: Option<u32>) -> (r: Vec<
    SongInfo,
>)
    ensures
        r@ == cut_off(stable_sorted(songs@, song_leq(comparator.criteria())), limit),
        exists|arranged: Seq<SongStickers>|
            arranged.to_multiset() == songs@.to_multiset() && arranged.len() == songs@.len() && r@
                == #[trigger] cut_off(arranged, limit),
{
    let ghost keys = comparator.criteria();
    let leq = |a: &SongStickers, b: &SongStickers| -> (o: bool)
        ensures
            o == !song_before(comparator.criteria(), *b, *a),
        {
            comparator.not_behind(a, b)
        };
    proof {
        law_songs_can_be_sorted(keys);
        crate::order::law_stable_sorted(songs@, song_leq(keys));
    }
    let sorted: Vec<SongStickers> = sort_stable(songs, &leq, Ghost(song_leq(keys)));
    let ghost arranged = sorted@;
    let r: Vec<SongInfo> = take_first(sorted, limit);
    assert(r@ == cut_off(arranged, limit));
    r
}

/// The songs of a dynamic playlist come in its order: none stands behind one that the criteria put behind
/// it. They are the songs that were collected, and where the playlist has a length the first ones up to it.
pub proof fn law_playlists_are_sorted(
    songs: Vec<SongStickers>,
    ordering: Vec<SongOrder>,
    limit: Option<u32>,
    r: Vec<SongInfo>,
)
    requires
        can_be_arranged(songs@, ordering@),
        call_ensures(arrange_songs, (songs, &ordering, limit), r),
        !(ordering@.len() == 1 && ordering@[0] == SongOrder::Random),
    ensures
        exists|all: Seq<SongStickers>|
            {
                &&& #[trigger] all.to_multiset() == songs@.to_multiset()
                &&& all.len() == songs@.len()
                &&& forall|i: int, j: int|
                    0 <= i < j < all.len() ==> !song_before(
                        ordering@,
                        #[trigger] all[j],
                        #[trigger] all[i],
                    )
                &&& limit is None ==> r@.len() == all.len()
                &&& limit is Some && limit->0 < all.len() ==> r@.len() == limit->0
                &&& limit is Some && limit->0 >= all.len() ==> r@.len() == all.len()
                &&& forall|i: int| 0 <= i < r@.len() ==> #[trigger] r@[i] == all[i].0
            },
{
    let leq = song_leq(ordering@);
    let all = stable_sorted(songs@, leq);
    law_songs_can_be_sorted(ordering@);
    crate::order::law_stable_sorted(songs@, leq);
    assert forall|i: int, j: int| 0 <= i < j < all.len() implies !song_before(
        ordering@,
        #[trigger] all[j],
        #[trigger] all[i],
    ) by {
        assert(leq(all[i], all[j]));
    }
    assert(r@ == cut_off(all, limit));
    assert(all.to_multiset() == songs@.to_multiset());
}

/// Whether a song is one of those that were collected.
pub open spec fn is_song_of(songs: Seq<SongStickers>, song: SongInfo) -> bool {
    exists|k: int| 0 <= k < songs.len() && (#[trigger] songs[k]).0 == song
}

/// In a random order every song is there as often as before, up to the length of the playlist.
pub proof fn law_random_playlists_keep_songs(
    songs: Vec<SongStickers>,
    ordering: Vec<SongOrder>,
    limit: Option<u32>,
    r: Vec<SongInfo>,
)
    requires
        can_be_arranged(songs@, ordering@),
        call_ensures(arrange_songs, (songs, &ordering, limit), r),
    ensures
        limit is None ==> r@.len() == songs@.len(),
        limit is Some && limit->0 < songs@.len() ==> r@.len() == limit->0,
        limit is Some && limit->0 >= songs@.len() ==> r@.len() == songs@.len(),
        forall|i: int| 0 <= i < r@.len() ==> is_song_of(songs@, #[trigger] r@[i]),
{
    broadcast use vstd::seq_lib::group_to_multiset_ensures;

    let all = choose|all: Seq<SongStickers>|
        all.to_multiset() == songs@.to_multiset() && all.len() == songs@.len() && r@
            == #[trigger] cut_off(all, limit);
    assert forall|i: int| 0 <= i < r@.len() implies is_song_of(songs@, #[trigger] r@[i]) by {
        assert(r@[i] == all[i].0);
        assert(all.contains(all[i]));
        assert(songs@.to_multiset().count(all[i]) > 0);
        assert(songs@.contains(all[i]));
        let k = choose|k: int| 0 <= k < songs@.len() && songs@[k] == all[i];
        assert(songs@[k].0 == r@[i]);
    }
}

proof fn lemma_mapped<A, B>(s: Seq<A>, f: spec_fn(A) -> Option<B>, i: int)
    requires
        0 <= i < s.len(),
        f(s[i]) is Some,
    ensures
        s.filter_map(f).contains(f(s[i])->0),
    decreases s.len(),
{
    let init = s.drop_last();
    s.lemma_filter_map_take_succ(f, s.len() - 1);
    assert(s.take(s.len() as int) =~= s);
    assert(s.take(s.len() - 1) =~= init);
    let front = init.filter_map(f);
    let all = s.filter_map(f);
    if i == s.len() - 1 {
        assert(all[front.len() as int] == f(s[i])->0);
    } else {
        lemma_mapped(init, f, i);
        let k = choose|k: int| 0 <= k < front.len() && front[k] == f(init[i])->0;
        assert(all[k] == front[k]);
    }
}

/// No rule is lost or made up. A rule on a sticker becomes a condition on stickers, a rule on the database a
/// condition of the query, and a rule on the age of files the condition that they changed since that many
/// seconds ago. Where no rule is about the database the query selects every song.
pub proof fn law_rules_become_conditions(
    rules: Vec<Rule>,
    now: i64,
    r: Option<(Query, Vec<StickerClause>)>,
)
    requires
        call_ensures(split_rules, (rules, now), r),
        r is Some,
    ensures
        forall|i: int|
            0 <= i < rules@.len() ==> (#[trigger] rules@[i] matches Rule::Sticker(c)
                ==> (r->0).1@.contains(c)),
        forall|c: StickerClause| #[trigger]
            (r->0).1@.contains(c) ==> rules@.contains(Rule::Sticker(c)),
        forall|i: int|
            0 <= i < rules@.len() ==> (#[trigger] rules@[i] matches Rule::LastModified(secs)
                ==> (r->0).0@.contains(
                (FilterView {
                    term: TermView::LastModified,
                    op: Operation::Equals,
                    value: decimal(now - secs),
                }),
            )),
        forall|i: int|
            0 <= i < rules@.len() ==> (#[trigger] rules@[i] matches Rule::Query(c) ==> match c.lhs {
                QueryLhs::LastMod => (r->0).0@.contains(
                    (FilterView {
                        term: TermView::LastModified,
                        op: Operation::Equals,
                        value: c.rhs@,
                    }),
                ),
                QueryLhs::Other(term, op) => (r->0).0@.contains(
                    (FilterView { term: term@, op, value: c.rhs@ }),
                ),
            }),
        (forall|i: int| 0 <= i < rules@.len() ==> #[trigger] rules@[i] is Sticker) ==> (r->0).0@
            == seq![
            FilterView {
                term: TermView::AddedSince,
                op: Operation::Equals,
                value: decimal(i64::MIN as int),
            },
        ],
{
    let filter = |x: Rule| rule_filter(x, now as int);
    let clause = |x: Rule| rule_clause(x);
    assert forall|i: int| 0 <= i < rules@.len() && rule_filter(rules@[i], now as int) is Some implies (
    r->0).0@.contains(#[trigger] rule_filter(rules@[i], now as int)->0) by {
        lemma_mapped(rules@, filter, i);
    }
    assert forall|i: int| 0 <= i < rules@.len() implies (#[trigger] rules@[i] matches Rule::Sticker(c)
        ==> (r->0).1@.contains(c)) by {
        if rules@[i] is Sticker {
            lemma_mapped(rules@, clause, i);
        }
    }
    assert forall|c: StickerClause| #[trigger] (r->0).1@.contains(c) implies rules@.contains(
        Rule::Sticker(c),
    ) by {
        rules@.lemma_filter_map_contains(clause, c);
    }
    assert forall|i: int| 0 <= i < rules@.len() implies (#[trigger] rules@[i] matches
        Rule::LastModified(secs) ==> (r->0).0@.contains(
        (FilterView {
            term: TermView::LastModified,
            op: Operation::Equals,
            value: decimal(now - secs),
        }),
    )) by {
        if rules@[i] is LastModified {
            assert(rule_filter(rules@[i], now as int) is Some);
            assert((r->0).0@.contains(rule_filter(rules@[i], now as int)->0));
        }
    }
    assert forall|i: int| 0 <= i < rules@.len() implies (#[trigger] rules@[i] matches Rule::Query(c)
        ==> match c.lhs {
        QueryLhs::LastMod => (r->0).0@.contains(
            (FilterView {
                term: TermView::LastModified,
                op: Operation::Equals,
                value: c.rhs@,
            }),
        ),
        QueryLhs::Other(term, op) => (r->0).0@.contains(
            (FilterView { term: term@, op, value: c.rhs@ }),
        ),
    }) by {
        if rules@[i] is Query {
            assert(rule_filter(rules@[i], now as int) is Some);
            assert((r->0).0@.contains(rule_filter(rules@[i], now as int)->0));
        }
    }
    if forall|i: int| 0 <= i < rules@.len() ==> #[trigger] rules@[i] is Sticker {
        let filters = rules@.filter_map(filter);
        if filters.len() > 0 {
            assert(filters.contains(filters[0]));
            rules@.lemma_filter_map_contains(filter, filters[0]);
        }
    }
}

/// A condition that is relative to the current time compares with a moment that lies as many seconds back as
/// the rule says.
pub proof fn law_relative_values_lie_back(rhs: &str, now: i64, r: Option<String>)
    requires
        call_ensures(relative_value, (rhs, now), r),
    ensures
        r is Some ==> integer_of(rhs@) is Some && integer_of(r->0@) == Some(
            now - integer_of(rhs@)->0,
        ),
        integer_of(rhs@) is None ==> r is None,
        integer_of(rhs@) matches Some(secs) ==> i64::MIN <= secs <= i64::MAX && i64::MIN <= now
            - secs <= i64::MAX ==> r is Some,
{
    if let Some(secs) = integer_of(rhs@) {
        law_decimal_round_trip(now - secs);
    }
}

/// A moment in the past lies as many seconds before the present as is asked for.
pub proof fn law_past_moments(now: i64, backoff: i64, r: Option<i64>)
    requires
        call_ensures(past_timestamp, (now, backoff), r),
    ensures
        r is Some ==> r->0 + backoff == now,
        r is Some && backoff > 0 ==> r->0 < now,
{
}

proof fn lemma_needed_tags(keys: Seq<SongOrder>)
    ensures
        needed_tags(keys).contains("title"@),
        needed_tags(keys).contains("album"@),
        needed_tags(keys).contains("artist"@),
        needed_tags(keys).contains("albumartist"@),
        keys.contains(SongOrder::Track) ==> needed_tags(keys).contains("track"@),
        keys.contains(SongOrder::AscReleaseDate) || keys.contains(SongOrder::DescReleaseDate)
            ==> needed_tags(keys).contains("originaldate"@),
    decreases keys.len(),
{
    if keys.len() == 0 {
        let base = seq!["title"@, "album"@, "artist"@, "albumartist"@];
        assert(base[0] == "title"@ && base[1] == "album"@ && base[2] == "artist"@ && base[3]
            == "albumartist"@);
    } else {
        let init = keys.drop_last();
        let tags = needed_tags(init);
        let all = needed_tags(keys);
        lemma_needed_tags(init);
        assert forall|t: Seq<char>| #[trigger] tags.contains(t) implies all.contains(t) by {
            let k = choose|k: int| 0 <= k < tags.len() && tags[k] == t;
            assert(all[k] == t);
        }
        assert forall|key: SongOrder| #[trigger] keys.contains(key) implies key == keys.last()
            || init.contains(key) by {
            let k = choose|k: int| 0 <= k < keys.len() && keys[k] == key;
            if k < init.len() {
                assert(init[k] == key);
            }
        }
        if all.len() > tags.len() {
            assert(all[tags.len() as int] == all.last());
        }
    }
}

/// The server sends what songs are shown with, and what they are sorted by: the track where that is a
/// criterion, and the date of release where that is one.
pub proof fn law_needed_tags_are_sent(ordering: Vec<SongOrder>, r: Vec<&'static str>)
    requires
        call_ensures(tag_types, (&ordering,), r),
    ensures
        tag_names(r@).contains("title"@),
        tag_names(r@).contains("album"@),
        tag_names(r@).contains("artist"@),
        tag_names(r@).contains("albumartist"@),
        ordering@.contains(SongOrder::Track) ==> tag_names(r@).contains("track"@),
        ordering@.contains(SongOrder::AscReleaseDate) || ordering@.contains(
            SongOrder::DescReleaseDate,
        ) ==> tag_names(r@).contains("originaldate"@),
{
    lemma_needed_tags(ordering@);
}

/// While the database is asked, each song of a page is taken in, and those that are there stay. The next
/// page starts behind it. An empty page ends the list: the conditions on stickers follow, one by one, or the
/// songs are looked up.
pub proof fn law_songs_are_collected(state: Resolution, reply: Vec<String>, r: Resolution)
    requires
        state@.phase == ResolvePhase::Find,
        call_ensures(accept_strings, (state, reply), r),
    ensures
        forall|u: Seq<char>| #[trigger]
            r@.uris.contains(u) <==> state@.uris.contains(u) || str_views(reply@).contains(u),
        reply@.len() > 0 ==> r@.cursor == state@.cursor + 128,
        reply@.len() > 0 && state@.cursor + 128 < 10_000_000 ==> r@.phase == ResolvePhase::Find,
        reply@.len() == 0 ==> r@.phase != ResolvePhase::Find,
        r@.phase != ResolvePhase::Find && state@.clauses.len() == 0 ==> r@.phase
            == ResolvePhase::EnableTags,
        r@.phase != ResolvePhase::Find && state@.clauses.len() > 0 ==> r@.phase
            == ResolvePhase::Search || r@.phase == ResolvePhase::Clock,
        r@.phase == ResolvePhase::Clock ==> state@.clauses[0].key@ == "lastPlayed"@
            || state@.clauses[0].key@ == "lastSkipped"@,
        r@.phase == ResolvePhase::Search ==> state@.clauses[0].key@ != "lastPlayed"@
            && state@.clauses[0].key@ != "lastSkipped"@ && r@.rhs == state@.clauses[0].rhs@,
        r@.songs == state@.songs,
        r@.clauses == state@.clauses,
{
    let answer = str_views(reply@);
    law_extend_distinct(state@.uris, answer);
    assert(answer.len() == reply@.len());
    if reply@.len() == 0 {
        assert forall|u: Seq<char>| !answer.contains(u) by {}
    }
}

/// What is asked of the server follows from where resolving stands: pages of the database, the clock, the
/// songs by their URIs and then their stickers.
pub proof fn law_what_resolving_asks(state: &Resolution, r: ResolveRequest)
    requires
        call_ensures(Resolution::request, (state,), r),
    ensures
        state@.phase == ResolvePhase::Find ==> r is Find && r->Find_0 == state@.cursor && r->Find_1
            == state@.cursor + 128,
        state@.phase == ResolvePhase::Song ==> r is Song && r->Song_0@ == state@.uris[state@.place],
        state@.phase == ResolvePhase::Stickers ==> r is Stickers && r->Stickers_0@
            == state@.uris[state@.place],
        state@.phase == ResolvePhase::Clock ==> r is Clock,
        state@.phase == ResolvePhase::ClearTags ==> r is ClearTags,
        state@.phase == ResolvePhase::EnableTags ==> r is EnableTags,
        state@.phase == ResolvePhase::Collected ==> r is Collected,
        state@.phase == ResolvePhase::Empty ==> r is Empty,
        state@.phase == ResolvePhase::Search ==> r is Search && *r->Search_0 == state@.clauses[0]
            && r->Search_1@ == state@.rhs,
{
}

/// A song that was found is collected with its stickers, behind those before it; one that was not found is
/// passed over. Every URI is looked up, one after the other.
pub proof fn law_songs_get_their_stickers(
    state: Resolution,
    song: Option<SongInfo>,
    r: Resolution,
    next: Resolution,
    stickers: Stickers,
    s: Resolution,
)
    requires
        state@.phase == ResolvePhase::Song,
        call_ensures(accept_song, (state, song), r),
        next@.phase == ResolvePhase::Stickers,
        call_ensures(accept_stickers, (next, stickers), s),
    ensures
        song is Some ==> r@.phase == ResolvePhase::Stickers && r@.pending == song && r@.place
            == state@.place && r@.songs == state@.songs,
        song is None ==> r@.place == state@.place + 1 && r@.songs == state@.songs,
        song is None ==> (r@.phase == ResolvePhase::Song <==> state@.place + 1 < state@.uris.len()),
        s@.songs == next@.songs.push((next@.pending->0, stickers)),
        s@.place == next@.place + 1,
        s@.phase == ResolvePhase::Song <==> next@.place + 1 < next@.uris.len(),
        s@.phase == ResolvePhase::Song || s@.phase == ResolvePhase::Collected,
        s@.uris == next@.uris && r@.uris == state@.uris,
{
}

/// The first songs are taken, up to the limit, and all of them where there is none.
pub proof fn law_the_first_songs_are_taken(
    songs: Vec<SongStickers>,
    n: u32,
    r: Vec<SongInfo>,
    all: Vec<SongInfo>,
)
    requires
        call_ensures(take_first, (songs, Some(n)), r),
        call_ensures(take_first, (songs, None::<u32>), all),
    ensures
        all@.len() == songs@.len(),
        n < songs@.len() ==> r@.len() == n,
        n >= songs@.len() ==> r@.len() == songs@.len(),
        forall|i: int| 0 <= i < r@.len() ==> #[trigger] r@[i] == songs@[i].0,
        forall|i: int| 0 <= i < all@.len() ==> #[trigger] all@[i] == songs@[i].0,
{
}

}

//! What the list of queued songs shows, and what its buttons do.
use vstd::prelude::*;

use crate::client::error::{server_code, Error, ErrorCode};
use crate::client::SaveMode;
use crate::text::{append, digits, numbered, same};
use crate::utils::{g_search_substr, search_matches};

verus! {

/// What a search in the queue looks at, as its menu numbers it: 0 for the title and the artists, 1 for
/// the title, 2 for the artists.
pub open spec fn queue_search(
    title: Seq<char>,
    artists: Option<Seq<char>>,
    term: Seq<char>,
    mode: int,
    case_sensitive: bool,
) -> bool {
    let in_title = search_matches(Some(title), term, case_sensitive);
    let in_artists = search_matches(artists, term, case_sensitive);
    if term.len() == 0 {
        true
    } else if mode == 0 {
        in_title || in_artists
    } else if mode == 1 {
        in_title
    } else if mode == 2 {
        in_artists
    } else {
        true
    }
}

/// Whether a search finds a song of the queue.
pub fn is_song_found(
    title: &str,
    artists: Option<&str>,
    term: &str,
    mode: u32,
    case_sensitive: bool,
) -> (r: bool)
    ensures
        r == queue_search(
            title@,
            match artists {
                Some(a) => Some(a@),
                None => None,
            },
            term@,
            mode as int,
            case_sensitive,
        ),
{
    if term.is_empty() {
        return true;
    }
    match mode {
        0 => g_search_substr(Some(title), term, case_sensitive) || g_search_substr(
            artists,
            term,
            case_sensitive,
        ),
        1 => g_search_substr(Some(title), term, case_sensitive),
        2 => g_search_substr(artists, term, case_sensitive),
        _ => true,
    }
}

/// How many songs there are, in words.
pub open spec fn song_count_text(n: nat) -> Seq<char> {
    if n == 0 {
        "Empty"@
    } else if n == 1 {
        "1 song"@
    } else {
        ""@ + digits(n) + " songs"@
    }
}

/// How many songs there are, in words.
pub fn format_song_count(n: u32) -> (r: String)
    ensures
        r@ == song_count_text(n as nat),
{
    match n {
        0 => "Empty".to_string(),
        1 => "1 song".to_string(),
        _ => numbered("", n as u64, " songs"),
    }
}

/// The hint of the shuffle button, which names what is shuffled.
pub fn shuffle_tooltip(mode: &str) -> (r: &'static str)
    ensures
        r@ == (if mode@ == "album"@ {
            "Shuffle queue \u{00b7} by album"@
        } else {
            "Shuffle queue \u{00b7} tracks"@
        }),
{
    if same(mode, "album") {
        "Shuffle queue \u{00b7} by album"
    } else {
        "Shuffle queue \u{00b7} tracks"
    }
}

/// The icon and the hint of the switch that has songs leave the queue once played.
pub fn consume_label(consume: bool) -> (r: (&'static str, &'static str))
    ensures
        r.0@ == (if consume {
            "consume-on-symbolic"@
        } else {
            "consume-off-symbolic"@
        }),
        r.1@ == (if consume {
            "Consume mode: on. Songs will be removed from the queue once played."@
        } else {
            "Consume mode: off"@
        }),
{
    if consume {
        (
            "consume-on-symbolic",
            "Consume mode: on. Songs will be removed from the queue once played.",
        )
    } else {
        ("consume-off-symbolic", "Consume mode: off")
    }
}

/// What the view shows when it comes up.
#[derive(Debug, Clone, Copy, PartialEq, Eq, Structural)]
pub enum QueueContent {
    /// The queue is being fetched, by this call or by one before it.
    Spinner,
    Empty,
    Songs,
}

/// What the view shows, and whether the queue must be fetched first.
///
/// `initialized` says that the queue was fetched, `initializing` that it is being fetched.
pub fn populate(initialized: bool, initializing: bool, n_songs: u32) -> (r: (QueueContent, bool))
    ensures
        r.1 == (!initialized && !initializing),
        r.0 == (if !initialized {
            QueueContent::Spinner
        } else if n_songs > 0 {
            QueueContent::Songs
        } else {
            QueueContent::Empty
        }),
{
    if !initialized {
        (QueueContent::Spinner, !initializing)
    } else if n_songs > 0 {
        (QueueContent::Songs, false)
    } else {
        (QueueContent::Empty, false)
    }
}

/// The row to scroll to, where the song that plays has one.
///
/// `asked` says that the user wants to see it; else it is shown where the settings say so.
pub fn row_to_show(queue_pos: u32, n_songs: u32, asked: bool, follows: bool) -> (r: Option<u32>)
    ensures
        r == (if queue_pos < n_songs && (asked || follows) {
            Some(queue_pos)
        } else {
            None
        }),
{
    if queue_pos < n_songs && (asked || follows) {
        Some(queue_pos)
    } else {
        None
    }
}

/// Where a song goes that is dropped on the row at `pos`: before it, or behind it where it is dropped
/// on the lower half.
pub fn drop_position(pos: u32, lower_half: bool) -> (r: u32)
    requires
        pos < u32::MAX,
    ensures
        r == pos + (if lower_half {
            1int
        } else {
            0
        }),
{
    if lower_half {
        pos + 1
    } else {
        pos
    }
}

/// What follows an attempt to save the queue as a playlist.
#[derive(Debug, Clone, Copy, PartialEq, Eq, Structural)]
pub enum SaveOutcome {
    Saved,
    /// There is one of that name: ask whether to append to it or to replace it.
    Ask,
    Failed,
}

/// What follows an attempt to save the queue as a new playlist.
pub fn save_outcome(failure: Option<&Error>) -> (r: SaveOutcome)
    ensures
        r == (match failure {
            None => SaveOutcome::Saved,
            Some(e) => if server_code(*e) == Some(ErrorCode::Exist) {
                SaveOutcome::Ask
            } else {
                SaveOutcome::Failed
            },
        }),
{
    match failure {
        None => SaveOutcome::Saved,
        Some(e) => match e.code() {
            Some(ErrorCode::Exist) => SaveOutcome::Ask,
            _ => SaveOutcome::Failed,
        },
    }
}

/// How the playlist is written that is there already, going by the answer of the user.
pub fn save_answer(response: &str) -> (r: Option<SaveMode>)
    ensures
        r == (if response@ == "append"@ {
            Some(SaveMode::Append)
        } else if response@ == "overwrite"@ {
            Some(SaveMode::Replace)
        } else {
            None
        }),
{
    if same(response, "append") {
        Some(SaveMode::Append)
    } else if same(response, "overwrite") {
        Some(SaveMode::Replace)
    } else {
        None
    }
}

/// What the user is asked where a playlist of that name is there already.
pub fn save_question(name: &str) -> (r: String)
    ensures
        r@ == "A playlist named \""@ + name@
            + "\" already exists. Would you like to overwrite or append to it?"@,
{
    let mut s: String = "A playlist named \"".to_string();
    append(&mut s, name);
    append(&mut s, "\" already exists. Would you like to overwrite or append to it?");
    s
}

/// How many changes of the place are watched after the list was filled.
pub const SCROLL_CHECKS: u32 = 2;

/// How many changes of the place are still watched after one more. Those to the top do not count.
pub open spec fn checks_after(checks_left: int, at_top: bool) -> int {
    if checks_left > 0 && !at_top {
        checks_left - 1
    } else {
        checks_left
    }
}

/// Keeps the place of the list over the moments in which a new list jumps to its top.
#[derive(Debug, Clone, Copy, PartialEq, Eq, Structural)]
pub struct ScrollKeeper {
    /// How many changes of the place are still watched.
    pub checks_left: u32,
}

impl ScrollKeeper {
    /// The list was filled: watch what becomes of its place.
    pub fn watch(&mut self)
        ensures
            final(self).checks_left == SCROLL_CHECKS,
    {
        self.checks_left = SCROLL_CHECKS;
    }

    /// The place of the list has changed. Whether the one that was kept must be taken again: the list
    /// is at its top while it is still watched.
    pub fn place_changed(&mut self, at_top: bool) -> (r: bool)
        ensures
            r == (old(self).checks_left > 0 && at_top),
            final(self).checks_left == checks_after(old(self).checks_left as int, at_top),
    {
        if self.checks_left == 0 {
            false
        } else if at_top {
            true
        } else {
            self.checks_left = self.checks_left - 1;
            false
        }
    }
}

/// How many changes of the place are still watched after several.
pub open spec fn checks_after_all(checks_left: int, at_top: Seq<bool>) -> int
    decreases at_top.len(),
{
    if at_top.len() == 0 {
        checks_left
    } else {
        checks_after(checks_after_all(checks_left, at_top.drop_last()), at_top.last())
    }
}

/// Jumps to the top never end the watch, and once the place has changed twice otherwise it is left
/// alone.
pub proof fn law_scrolling_ends_the_watch(at_top: Seq<bool>)
    ensures
        ({
            let elsewhere = at_top.filter(|top: bool| !top).len();
            checks_after_all(SCROLL_CHECKS as int, at_top) == (if elsewhere < 2 {
                2 - elsewhere
            } else {
                0
            })
        }),
    decreases at_top.len(),
{
    reveal(Seq::filter);
    if at_top.len() > 0 {
        law_scrolling_ends_the_watch(at_top.drop_last());
    }
}

/// A song of the queue is found by its title, by its artists or by either, as the menu says; an empty term
/// finds every song.
pub proof fn law_searching_the_queue(
    title: &str,
    artists: Option<&str>,
    term: &str,
    mode: u32,
    case_sensitive: bool,
    r: bool,
    in_title: bool,
    in_artists: bool,
)
    requires
        call_ensures(is_song_found, (title, artists, term, mode, case_sensitive), r),
        call_ensures(
            crate::utils::g_search_substr,
            (Some(title), term, case_sensitive),
            in_title,
        ),
        call_ensures(crate::utils::g_search_substr, (artists, term, case_sensitive), in_artists),
    ensures
        term@.len() == 0 ==> r,
        term@.len() > 0 && mode == 0 ==> (r <==> in_title || in_artists),
        term@.len() > 0 && mode == 1 ==> (r <==> in_title),
        term@.len() > 0 && mode == 2 ==> (r <==> in_artists),
{
}

/// The queue is fetched once, and a spinner is shown until it is there; then its songs are, or that there are
/// none.
pub proof fn law_populating_the_queue(
    initialized: bool,
    initializing: bool,
    n_songs: u32,
    r: (QueueContent, bool),
)
    requires
        call_ensures(populate, (initialized, initializing, n_songs), r),
    ensures
        initialized || initializing ==> !r.1,
        !initialized && !initializing ==> r.1,
        !initialized ==> r.0 == QueueContent::Spinner,
        initialized && n_songs == 0 ==> r.0 == QueueContent::Empty,
        initialized && n_songs > 0 ==> r.0 == QueueContent::Songs,
{
}

/// The row of the current song is shown where that was asked for or is followed, and where there is such a
/// row.
pub proof fn law_showing_the_current_row(
    queue_pos: u32,
    n_songs: u32,
    asked: bool,
    follows: bool,
    r: Option<u32>,
)
    requires
        call_ensures(row_to_show, (queue_pos, n_songs, asked, follows), r),
    ensures
        !asked && !follows ==> r is None,
        queue_pos >= n_songs ==> r is None,
        queue_pos < n_songs && (asked || follows) ==> r == Some(queue_pos),
{
}

/// A row that is dropped on the upper half of another comes before it, and on the lower half behind it.
pub proof fn law_dropping_a_row(pos: u32, upper: u32, lower: u32)
    requires
        pos < u32::MAX,
        call_ensures(drop_position, (pos, false), upper),
        call_ensures(drop_position, (pos, true), lower),
    ensures
        upper == pos,
        lower == pos + 1,
{
}

/// The user is asked about a playlist that exists already, and about no other failure. The answer is to
/// append to it or to replace it, and anything else leaves it.
pub proof fn law_saving_a_playlist(e: Error, r: SaveOutcome, saved: SaveOutcome, answer: &str, mode: Option<SaveMode>)
    requires
        call_ensures(save_outcome, (Some(&e),), r),
        call_ensures(save_outcome, (None::<&Error>,), saved),
        call_ensures(save_answer, (answer,), mode),
    ensures
        saved == SaveOutcome::Saved,
        r == SaveOutcome::Ask <==> (e is Mpd && e->Mpd_0 is Server && e->Mpd_0->Server_0
            == ErrorCode::Exist),
        r != SaveOutcome::Saved,
        mode == Some(SaveMode::Append) <==> answer@ == "append"@,
        mode == Some(SaveMode::Replace) <==> answer@ == "overwrite"@,
        mode != Some(SaveMode::Create),
{
    reveal_strlit("append");
    reveal_strlit("overwrite");
    assert("append"@.len() != "overwrite"@.len());
}

/// Scrolling back is undone at the top while it is watched, and each other place uses up a check.
pub proof fn law_keeping_the_place(
    k: &mut ScrollKeeper,
    w: &mut ScrollKeeper,
    at_top: bool,
    r: bool,
)
    requires
        call_ensures(ScrollKeeper::place_changed, (k, at_top), r),
        call_ensures(ScrollKeeper::watch, (w,), ()),
    ensures
        final(w).checks_left == 2,
        r <==> at_top && old(k).checks_left > 0,
        at_top ==> final(k).checks_left == old(k).checks_left,
        !at_top && old(k).checks_left > 0 ==> final(k).checks_left == old(k).checks_left - 1,
        old(k).checks_left == 0 ==> final(k).checks_left == 0,
{
}

/// Songs are counted in words, and the modes of the queue are named.
pub proof fn law_words_over_the_queue(
    n: u32,
    count: String,
    mode: &str,
    shuffle: &'static str,
    on: (&'static str, &'static str),
    off: (&'static str, &'static str),
    name: &str,
    question: String,
)
    requires
        call_ensures(format_song_count, (n,), count),
        call_ensures(shuffle_tooltip, (mode,), shuffle),
        call_ensures(consume_label, (true,), on),
        call_ensures(consume_label, (false,), off),
        call_ensures(save_question, (name,), question),
    ensures
        n == 0 ==> count@ == "Empty"@,
        n == 1 ==> count@ == "1 song"@,
        n > 1 ==> count@ == digits(n as nat) + " songs"@,
        mode@ == "album"@ ==> shuffle@ == "Shuffle queue \u{00b7} by album"@,
        mode@ != "album"@ ==> shuffle@ == "Shuffle queue \u{00b7} tracks"@,
        on.0@ == "consume-on-symbolic"@ && off.0@ == "consume-off-symbolic"@,
        on.1@ == "Consume mode: on. Songs will be removed from the queue once played."@,
        off.1@ == "Consume mode: off"@,
        question@ == "A playlist named \""@ + name@
            + "\" already exists. Would you like to overwrite or append to it?"@,
{
    reveal_strlit("");
    assert(""@ + digits(n as nat) =~= digits(n as nat));
}

}

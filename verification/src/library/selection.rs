//! Lists of songs of which some are selected.
use vstd::prelude::*;

use crate::common::song::SongInfo;
use crate::common::str_views;
use crate::text::{digits, numbered};

verus! {

/// What the buttons over a list of songs say.
#[derive(Debug)]
pub struct SelectionLabels {
    /// Whether they act on all songs.
    pub selecting_all: bool,
    pub play: String,
    pub queue: String,
    pub queue_next: String,
}

/// Whether the buttons act on all songs: none is selected, or all are.
pub open spec fn acts_on_all(n_selected: int, n_items: int) -> bool {
    n_selected == 0 || n_selected == n_items
}

/// Whether `r` is what the buttons over a list of `n_items` songs say, of which `n_selected` are
/// selected.
pub open spec fn are_labels(r: SelectionLabels, n_selected: nat, n_items: nat) -> bool {
    let n = digits(n_selected);
    &&& r.selecting_all == acts_on_all(n_selected as int, n_items as int)
    &&& r.play@ == (if r.selecting_all {
        "Play all"@
    } else {
        "Play "@ + n + ""@
    })
    &&& r.queue@ == (if r.selecting_all {
        "Queue all"@
    } else {
        "Queue "@ + n + ""@
    })
    &&& r.queue_next@ == (if r.selecting_all {
        "Queue all next"@
    } else {
        "Queue "@ + n + " next"@
    })
}

/// What the buttons over a list of `n_items` songs say, of which `n_selected` are selected.
pub fn selection_labels(n_selected: u32, n_items: u32) -> (r: SelectionLabels)
    ensures
        are_labels(r, n_selected as nat, n_items as nat),
{
    if n_selected == 0 || n_selected == n_items {
        SelectionLabels {
            selecting_all: true,
            play: "Play all".to_string(),
            queue: "Queue all".to_string(),
            queue_next: "Queue all next".to_string(),
        }
    } else {
        let n: u64 = n_selected as u64;
        SelectionLabels {
            selecting_all: false,
            play: numbered("Play ", n, ""),
            queue: numbered("Queue ", n, ""),
            queue_next: numbered("Queue ", n, " next"),
        }
    }
}

/// The URI of each song.
pub open spec fn song_uris(songs: Seq<SongInfo>) -> Seq<Seq<char>> {
    songs.map_values(|s: SongInfo| s.uri@)
}

/// The URIs of the songs that the buttons act on: all of them, or those at the selected places.
pub open spec fn chosen_uris(songs: Seq<SongInfo>, selecting_all: bool, places: Seq<u32>) -> Seq<
    Seq<char>,
> {
    if selecting_all {
        song_uris(songs)
    } else {
        places.map_values(|p: u32| songs[p as int].uri@)
    }
}

/// The URIs of the songs that the buttons act on.
pub fn choose_songs(songs: &Vec<SongInfo>, selecting_all: bool, places: &Vec<u32>) -> (r: Vec<String>)
    requires
        forall|i: int| 0 <= i < places@.len() ==> (#[trigger] places@[i]) < songs@.len(),
    ensures
        str_views(r@) == chosen_uris(songs@, selecting_all, places@),
{
    let ghost wanted = chosen_uris(songs@, selecting_all, places@);
    let mut r: Vec<String> = Vec::new();
    let n: usize = if selecting_all {
        songs.len()
    } else {
        places.len()
    };
    let mut i: usize = 0;
    assert(str_views(r@) =~= wanted.take(0));
    while i < n
        invariant
            wanted == chosen_uris(songs@, selecting_all, places@),
            forall|i: int| 0 <= i < places@.len() ==> (#[trigger] places@[i]) < songs@.len(),
            i <= n,
            n == wanted.len(),
            str_views(r@) == wanted.take(i as int),
        decreases n - i,
    {
        let ghost before = r@;
        let place: usize = if selecting_all {
            i
        } else {
            places[i] as usize
        };
        r.push(songs[place].uri.clone());
        proof {
            assert(wanted[i as int] == songs@[place as int].uri@);
            assert(str_views(r@) =~= str_views(before).push(wanted[i as int]));
            assert(wanted.take(i + 1) =~= wanted.take(i as int).push(wanted[i as int]));
        }
        i = i + 1;
    }
    assert(wanted.take(n as int) =~= wanted);
    r
}

/// What a place for a list shows.
#[derive(Debug, Clone, Copy, PartialEq, Eq, Structural)]
pub enum ContentState {
    Placeholder,
    Spinner,
    Content,
}

/// What a place for a list shows once the list was fetched.
pub fn fetched_state(n_items: usize) -> (r: ContentState)
    ensures
        r == (if n_items > 0 {
            ContentState::Content
        } else {
            ContentState::Placeholder
        }),
{
    if n_items > 0 {
        ContentState::Content
    } else {
        ContentState::Placeholder
    }
}

/// The time that songs take together, in seconds.
pub open spec fn total_duration(songs: Seq<SongInfo>) -> int
    decreases songs.len(),
{
    if songs.len() == 0 {
        0
    } else {
        total_duration(songs.drop_last()) + (match songs.last().duration {
            Some(d) => d as int,
            None => 0,
        })
    }
}

proof fn lemma_total_grows(songs: Seq<SongInfo>, i: int)
    requires
        0 <= i <= songs.len(),
    ensures
        0 <= total_duration(songs.take(i)) <= total_duration(songs),
    decreases songs.len(),
{
    if i == songs.len() {
        assert(songs.take(i) =~= songs);
        if i > 0 {
            lemma_total_grows(songs.drop_last(), i - 1);
        }
    } else {
        lemma_total_grows(songs.drop_last(), i);
        assert(songs.drop_last().take(i) =~= songs.take(i));
    }
}

/// The time that songs take together, in seconds; nothing where it is too long for the type.
pub fn runtime(songs: &Vec<SongInfo>) -> (r: Option<u64>)
    ensures
        r is Some <==> total_duration(songs@) <= u64::MAX,
        r is Some ==> r->0 == total_duration(songs@),
{
    let mut sum: u64 = 0;
    let mut i: usize = 0;
    assert(songs@.take(0) =~= Seq::empty());
    while i < songs.len()
        invariant
            i <= songs@.len(),
            sum == total_duration(songs@.take(i as int)),
        decreases songs.len() - i,
    {
        assert(songs@.take(i + 1).drop_last() =~= songs@.take(i as int));
        let d: u64 = songs[i].duration.unwrap_or(0);
        match sum.checked_add(d) {
            Some(s) => {
                sum = s;
            },
            None => {
                proof {
                    lemma_total_grows(songs@, i + 1);
                }
                return None;
            },
        }
        i = i + 1;
    }
    assert(songs@.take(i as int) =~= songs@);
    Some(sum)
}

/// The buttons act on everything where nothing or everything is selected, and say so; else they act on what
/// is selected, and say how much that is.
pub proof fn law_what_buttons_act_on(n_selected: u32, n_items: u32, r: SelectionLabels)
    requires
        call_ensures(selection_labels, (n_selected, n_items), r),
    ensures
        r.selecting_all <==> n_selected == 0 || n_selected == n_items,
{
}

/// The songs at the selected places are chosen, in the order of the places, or all songs in their order.
pub proof fn law_chosen_songs(
    songs: Vec<SongInfo>,
    selecting_all: bool,
    places: Vec<u32>,
    r: Vec<String>,
)
    requires
        forall|i: int| 0 <= i < places@.len() ==> (#[trigger] places@[i]) < songs@.len(),
        call_ensures(choose_songs, (&songs, selecting_all, &places), r),
    ensures
        selecting_all ==> r@.len() == songs@.len(),
        selecting_all ==> forall|i: int|
            0 <= i < songs@.len() ==> (#[trigger] r@[i])@ == songs@[i].uri@,
        !selecting_all ==> r@.len() == places@.len(),
        !selecting_all ==> forall|i: int|
            0 <= i < places@.len() ==> (#[trigger] r@[i])@ == songs@[places@[i] as int].uri@,
{
    let views = str_views(r@);
    let wanted = chosen_uris(songs@, selecting_all, places@);
    assert(views.len() == r@.len());
    assert forall|i: int| 0 <= i < r@.len() implies (#[trigger] r@[i])@ == wanted[i] by {
        assert(views[i] == r@[i]@);
    }
}

/// The runtime of songs is the sum of their durations: no song has none, and one more song adds its own.
pub proof fn law_runtime(songs: Vec<SongInfo>, more: Vec<SongInfo>, r: Option<u64>, s: Option<u64>)
    requires
        call_ensures(runtime, (&songs,), r),
        call_ensures(runtime, (&more,), s),
        more@.len() == songs@.len() + 1,
        more@.drop_last() == songs@,
    ensures
        songs@.len() == 0 ==> r == Some(0u64),
        s is Some ==> r is Some && s->0 == r->0 + (if more@.last().duration is Some {
            more@.last().duration->0
        } else {
            0
        }),
{
}

/// A list that was fetched shows its content, or that there is none.
pub proof fn law_fetched_lists(n_items: usize, r: ContentState)
    requires
        call_ensures(fetched_state, (n_items,), r),
    ensures
        n_items == 0 ==> r == ContentState::Placeholder,
        n_items > 0 ==> r == ContentState::Content,
{
}

/// The buttons say that they act on everything, or on how many songs.
pub proof fn law_buttons_say_what_they_act_on(n_selected: u32, n_items: u32, r: SelectionLabels)
    requires
        call_ensures(selection_labels, (n_selected, n_items), r),
    ensures
        n_selected == 0 || n_selected == n_items ==> r.play@ == "Play all"@ && r.queue@
            == "Queue all"@ && r.queue_next@ == "Queue all next"@,
        0 < n_selected && n_selected != n_items ==> {
            let n = crate::text::digits(n_selected as nat);
            &&& r.play@ == "Play "@ + n
            &&& r.queue@ == "Queue "@ + n
            &&& r.queue_next@ == "Queue "@ + n + " next"@
        },
{
    reveal_strlit("");
    let n = crate::text::digits(n_selected as nat);
    assert("Play "@ + n + ""@ =~= "Play "@ + n);
    assert("Queue "@ + n + ""@ =~= "Queue "@ + n);
}

}

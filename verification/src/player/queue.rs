//! The queue: applying the server's changes to it, and the edits that are applied locally first.
use vstd::prelude::*;

use super::flow::{ShuffleMode, SwapDirection};
use crate::client::resolve::shuffle;
use crate::common::{joined, lemma_joined_rearranged, str_views};
use crate::text::same;

verus! {

/// The smallest position among the changes.
pub open spec fn min_pos<T>(changes: Seq<(u32, T)>) -> int
    decreases changes.len(),
{
    if changes.len() == 0 {
        u32::MAX as int
    } else {
        let rest = min_pos(changes.drop_last());
        if changes.last().0 < rest {
            changes.last().0 as int
        } else {
            rest
        }
    }
}

/// The largest position among the changes.
pub open spec fn max_pos<T>(changes: Seq<(u32, T)>) -> int
    decreases changes.len(),
{
    if changes.len() == 0 {
        0
    } else {
        let rest = max_pos(changes.drop_last());
        if changes.last().0 > rest {
            changes.last().0 as int
        } else {
            rest
        }
    }
}

/// The entries from `pos` up to `last`: the next change where it is about that place, and the old entry
/// elsewhere. Nothing where a place that the queue does not reach is left out.
pub open spec fn rebuilt<T>(
    queue: Seq<T>,
    changes: Seq<(u32, T)>,
    pos: int,
    last: int,
) -> Option<Seq<T>>
    decreases last - pos + 1,
{
    if pos > last {
        Some(Seq::empty())
    } else if changes.len() > 0 && changes[0].0 == pos {
        match rebuilt(queue, changes.drop_first(), pos + 1, last) {
            Some(rest) => Some(seq![changes[0].1] + rest),
            None => None,
        }
    } else if 0 <= pos < queue.len() {
        match rebuilt(queue, changes, pos + 1, last) {
            Some(rest) => Some(seq![queue[pos]] + rest),
            None => None,
        }
    } else {
        None
    }
}

/// The queue after changes that the server has sent: the range that they span is rebuilt. Nothing where
/// they leave out a place behind the end of the queue.
pub open spec fn changed_queue<T>(queue: Seq<T>, changes: Seq<(u32, T)>) -> Option<Seq<T>> {
    if changes.len() == 0 {
        Some(queue)
    } else {
        let low = min_pos(changes);
        let high = max_pos(changes);
        match rebuilt(queue, changes, low, high) {
            None => None,
            Some(segment) => if low < queue.len() {
                Some(
                    queue.take(low) + segment + (if high + 1 < queue.len() {
                        queue.skip(high + 1)
                    } else {
                        Seq::empty()
                    }),
                )
            } else {
                Some(queue + segment)
            },
        }
    }
}

proof fn lemma_pos_bounds<T>(changes: Seq<(u32, T)>)
    requires
        changes.len() > 0,
    ensures
        0 <= min_pos(changes) <= max_pos(changes) <= u32::MAX,
        forall|i: int|
            0 <= i < changes.len() ==> min_pos(changes) <= (#[trigger] changes[i]).0 <= max_pos(
                changes,
            ),
    decreases changes.len(),
{
    let init = changes.drop_last();
    if init.len() == 0 {
        assert(min_pos(init) == u32::MAX as int);
        assert(max_pos(init) == 0);
    } else {
        lemma_pos_bounds(init);
        assert forall|i: int| 0 <= i < changes.len() implies min_pos(changes) <= (
        #[trigger] changes[i]).0 <= max_pos(changes) by {
            if i < init.len() {
                assert(init[i] == changes[i]);
            }
        }
    }
}

/// The elements of `v` from the last to the first.
fn reversed<T>(v: Vec<T>) -> (r: Vec<T>)
    ensures
        r@ == v@.reverse(),
{
    let ghost all = v@;
    let mut v = v;
    let mut r: Vec<T> = Vec::new();
    while v.len() > 0
        invariant
            all.reverse() =~= r@ + v@.reverse(),
        decreases v@.len(),
    {
        if let Some(x) = v.pop() {
            r.push(x);
        }
    }
    r
}

/// Applies changes that the server has sent to the queue. Nothing comes back where they leave out a
/// place behind the end of the queue.
pub fn update_queue_internal<T>(queue: Vec<T>, changes: Vec<(u32, T)>) -> (r: Option<Vec<T>>)
    ensures
        match changed_queue(queue@, changes@) {
            Some(q) => r is Some && r->0@ == q,
            None => r is None,
        },
{
    if changes.len() == 0 {
        return Some(queue);
    }
    let ghost old = queue@;
    let ghost all = changes@;
    let mut low: u32 = u32::MAX;
    let mut high: u32 = 0;
    let mut i: usize = 0;
    assert(all.take(0) =~= Seq::empty());
    while i < changes.len()
        invariant
            all == changes@,
            i <= changes@.len(),
            low == min_pos(all.take(i as int)),
            high == max_pos(all.take(i as int)),
        decreases changes.len() - i,
    {
        assert(all.take(i + 1).drop_last() =~= all.take(i as int));
        if changes[i].0 < low {
            low = changes[i].0;
        }
        if changes[i].0 > high {
            high = changes[i].0;
        }
        i = i + 1;
    }
    assert(all.take(i as int) =~= all);
    proof {
        lemma_pos_bounds(all);
    }
    // Both stacks have what comes next on top.
    let mut left: Vec<T> = reversed(queue);
    let mut todo: Vec<(u32, T)> = reversed(changes);
    let mut out: Vec<T> = Vec::new();
    let mut n: u32 = 0;
    assert(old.skip(0) =~= old);
    assert(old.take(0) =~= Seq::<T>::empty());
    while n < low && left.len() > 0
        invariant
            n <= low,
            n <= old.len(),
            left@ == old.skip(n as int).reverse(),
            out@ == old.take(n as int),
        decreases left@.len(),
    {
        let ghost top = left@.last();
        if let Some(x) = left.pop() {
            assert(x == old[n as int]);
            out.push(x);
            assert(old.take(n + 1) =~= old.take(n as int).push(old[n as int]));
            assert(left@ =~= old.skip(n + 1).reverse());
        }
        n = n + 1;
    }
    let ghost head = out@;
    let ghost whole = rebuilt(old, all, low as int, high as int);
    let mut pos: u64 = low as u64;
    proof {
        assert(todo@.reverse() =~= all);
        if low < old.len() {
            assert(n == low);
        } else {
            assert(left@ =~= Seq::<T>::empty());
            assert(old.take(n as int) =~= old);
        }
        assert(left@ =~= tail_from(old, low as int).reverse());
        if let Some(s) = whole {
            assert(head + s =~= head + s);
        }
    }
    while pos <= high as u64
        invariant
            low <= pos <= high + 1,
            all.len() > 0,
            changes@ == all,
            queue@ == old,
            low == min_pos(all),
            high == max_pos(all),
            whole == rebuilt(old, all, low as int, high as int),
            left@ == tail_from(old, pos as int).reverse(),
            whole is Some <==> rebuilt(old, todo@.reverse(), pos as int, high as int) is Some,
            whole is Some ==> head + whole->0 == out@ + rebuilt(
                old,
                todo@.reverse(),
                pos as int,
                high as int,
            )->0,
        decreases high + 1 - pos,
    {
        let ghost changes_left = todo@.reverse();
        let ghost had = out@;
        let ghost now = rebuilt(old, changes_left, pos as int, high as int);
        let old_item: Option<T> = left.pop();
        proof {
            if pos < old.len() {
                assert(tail_from(old, pos as int).reverse().last() == old[pos as int]);
                assert(left@ =~= tail_from(old, pos + 1).reverse());
            } else {
                assert(left@ =~= tail_from(old, pos + 1).reverse());
            }
        }
        let is_change: bool = todo.len() > 0 && todo[todo.len() - 1].0 as u64 == pos;
        if is_change {
            assert(changes_left[0] == todo@.last());
            if let Some((_p, item)) = todo.pop() {
                assert(todo@.reverse() =~= changes_left.drop_first());
                out.push(item);
                proof {
                    let rest = rebuilt(old, changes_left.drop_first(), pos + 1, high as int);
                    if rest is Some {
                        assert(had + (seq![item] + rest->0) =~= had.push(item) + rest->0);
                    }
                }
            }
        } else {
            if todo.len() > 0 {
                assert(changes_left[0] == todo@.last());
            }
            match old_item {
                Some(item) => {
                    out.push(item);
                    proof {
                        let rest = rebuilt(old, changes_left, pos + 1, high as int);
                        if rest is Some {
                            assert(had + (seq![item] + rest->0) =~= had.push(item) + rest->0);
                        }
                    }
                },
                None => {
                    return None;
                },
            }
        }
        pos = pos + 1;
    }
    let ghost rebuilt_part = out@;
    assert(out@ + Seq::<T>::empty() =~= out@);
    let mut rest: Vec<T> = reversed(left);
    assert(rest@ =~= tail_from(old, high + 1));
    out.append(&mut rest);
    proof {
        if low < old.len() {
            assert(out@ =~= old.take(low as int) + whole->0 + tail_from(old, high + 1));
        } else {
            assert(out@ =~= old + whole->0);
        }
    }
    Some(out)
}

/// What the queue holds from a place on; nothing where it ends before.
pub open spec fn tail_from<T>(queue: Seq<T>, pos: int) -> Seq<T> {
    if pos < queue.len() {
        queue.skip(pos)
    } else {
        Seq::empty()
    }
}

/// Whether the changes are in the strictly ascending order of their positions.
pub open spec fn ascending<T>(changes: Seq<(u32, T)>) -> bool {
    forall|i: int, j: int|
        0 <= i < j < changes.len() ==> (#[trigger] changes[i]).0 < (#[trigger] changes[j]).0
}

/// Whether one of the changes is about the position `p`.
pub open spec fn is_changed<T>(changes: Seq<(u32, T)>, p: int) -> bool {
    exists|i: int| 0 <= i < changes.len() && (#[trigger] changes[i]).0 == p
}

proof fn lemma_rebuilt<T>(queue: Seq<T>, changes: Seq<(u32, T)>, pos: int, last: int)
    requires
        0 <= pos <= last + 1,
        ascending(changes),
        forall|i: int| 0 <= i < changes.len() ==> pos <= (#[trigger] changes[i]).0 <= last,
        forall|p: int| queue.len() <= p && pos <= p <= last ==> #[trigger] is_changed(changes, p),
    ensures
        rebuilt(queue, changes, pos, last) is Some,
        rebuilt(queue, changes, pos, last)->0.len() == last - pos + 1,
        forall|i: int|
            0 <= i < changes.len() ==> rebuilt(queue, changes, pos, last)->0[(
            #[trigger] changes[i]).0 - pos] == changes[i].1,
        forall|p: int|
            pos <= p <= last && !(#[trigger] is_changed(changes, p)) ==> rebuilt(
                queue,
                changes,
                pos,
                last,
            )->0[p - pos] == queue[p],
    decreases last - pos + 1,
{
    if pos <= last {
        let r = rebuilt(queue, changes, pos, last);
        if changes.len() > 0 && changes[0].0 == pos {
            let rest = changes.drop_first();
            assert forall|i: int, j: int| 0 <= i < j < rest.len() implies (#[trigger] rest[i]).0 < (
            #[trigger] rest[j]).0 by {
                assert(rest[i] == changes[i + 1] && rest[j] == changes[j + 1]);
            }
            assert forall|i: int| 0 <= i < rest.len() implies pos + 1 <= (#[trigger] rest[i]).0
                <= last by {
                assert(rest[i] == changes[i + 1]);
                assert(changes[0].0 < changes[i + 1].0);
            }
            assert forall|p: int| queue.len() <= p && pos + 1 <= p <= last implies #[trigger]
                is_changed(rest, p) by {
                assert(is_changed(changes, p));
                let i = choose|i: int| 0 <= i < changes.len() && (#[trigger] changes[i]).0 == p;
                assert(rest[i - 1] == changes[i]);
            }
            lemma_rebuilt(queue, rest, pos + 1, last);
            let tail = rebuilt(queue, rest, pos + 1, last)->0;
            assert(r->0 == seq![changes[0].1] + tail);
            assert forall|i: int| 0 <= i < changes.len() implies r->0[(#[trigger] changes[i]).0
                - pos] == changes[i].1 by {
                if i > 0 {
                    assert(rest[i - 1] == changes[i]);
                    assert(changes[0].0 < changes[i].0);
                    assert(tail[rest[i - 1].0 - (pos + 1)] == changes[i].1);
                }
            }
            assert forall|p: int| pos <= p <= last && !(#[trigger] is_changed(changes, p)) implies r->0[p
                - pos] == queue[p] by {
                assert(p != pos) by {
                    assert(changes[0].0 == pos);
                }
                assert(!is_changed(rest, p)) by {
                    if is_changed(rest, p) {
                        let i = choose|i: int| 0 <= i < rest.len() && (#[trigger] rest[i]).0 == p;
                        assert(changes[i + 1].0 == p);
                    }
                }
                assert(tail[p - (pos + 1)] == queue[p]);
            }
        } else {
            assert(!is_changed(changes, pos)) by {
                if is_changed(changes, pos) {
                    let i = choose|i: int|
                        0 <= i < changes.len() && (#[trigger] changes[i]).0 == pos;
                    if i > 0 {
                        assert(changes[0].0 < changes[i].0);
                    }
                }
            }
            assert forall|i: int| 0 <= i < changes.len() implies pos + 1 <= (
            #[trigger] changes[i]).0 <= last by {
                if changes[i].0 == pos {
                    assert(is_changed(changes, pos));
                }
            }
            lemma_rebuilt(queue, changes, pos + 1, last);
            let tail = rebuilt(queue, changes, pos + 1, last)->0;
            assert(r->0 == seq![queue[pos]] + tail);
            assert forall|i: int| 0 <= i < changes.len() implies r->0[(#[trigger] changes[i]).0
                - pos] == changes[i].1 by {
                assert(tail[changes[i].0 - (pos + 1)] == changes[i].1);
            }
            assert forall|p: int| pos <= p <= last && !(#[trigger] is_changed(changes, p)) implies r->0[p
                - pos] == queue[p] by {
                if p > pos {
                    assert(tail[p - (pos + 1)] == queue[p]);
                }
            }
        }
    }
}

/// Changes in ascending order that leave out no place behind the end of the queue all take effect: the
/// queue then holds the new entries at their positions and the old ones everywhere else, and it is
/// longer only where entries were added at its end.
pub proof fn law_changes_take_effect<T>(queue: Seq<T>, changes: Seq<(u32, T)>)
    requires
        changes.len() > 0,
        ascending(changes),
        forall|p: int|
            queue.len() <= p <= max_pos(changes) ==> #[trigger] is_changed(changes, p),
    ensures
        changed_queue(queue, changes) is Some,
        changed_queue(queue, changes)->0.len() == (if max_pos(changes) < queue.len() {
            queue.len() as int
        } else {
            max_pos(changes) + 1
        }),
        forall|i: int|
            0 <= i < changes.len() ==> changed_queue(queue, changes)->0[(
            #[trigger] changes[i]).0 as int] == changes[i].1,
        forall|p: int|
            0 <= p < queue.len() && !(#[trigger] is_changed(changes, p)) ==> changed_queue(
                queue,
                changes,
            )->0[p] == queue[p],
{
    lemma_pos_bounds(changes);
    let low = min_pos(changes);
    let high = max_pos(changes);
    lemma_rebuilt(queue, changes, low, high);
    let segment = rebuilt(queue, changes, low, high)->0;
    let q = changed_queue(queue, changes)->0;
    if low >= queue.len() {
        assert(low == queue.len()) by {
            assert(is_changed(changes, queue.len() as int));
            let i = choose|i: int|
                0 <= i < changes.len() && (#[trigger] changes[i]).0 == queue.len();
        }
    }
    assert forall|i: int| 0 <= i < changes.len() implies q[(#[trigger] changes[i]).0 as int]
        == changes[i].1 by {
        assert(segment[changes[i].0 - low] == changes[i].1);
    }
    assert forall|p: int| 0 <= p < queue.len() && !(#[trigger] is_changed(changes, p)) implies q[p]
        == queue[p] by {
        if low <= p <= high {
            assert(segment[p - low] == queue[p]);
        }
    }
}

/// The queue without the entry at `pos`.
pub fn remove_pos<T>(queue: &mut Vec<T>, pos: u32)
    requires
        pos < old(queue)@.len(),
    ensures
        final(queue)@ == old(queue)@.remove(pos as int),
{
    let _ = queue.remove(pos as usize);
}

/// Where an entry goes when it is swapped with its neighbour; nothing at the end of the queue.
pub open spec fn swap_partner(pos: int, direction: SwapDirection, len: int) -> Option<int> {
    match direction {
        SwapDirection::Up => if pos > 0 {
            Some(pos - 1)
        } else {
            None
        },
        SwapDirection::Down => if pos < len - 1 {
            Some(pos + 1)
        } else {
            None
        },
    }
}

/// A sequence with two of its elements swapped.
pub open spec fn swapped<T>(s: Seq<T>, i: int, j: int) -> Seq<T> {
    s.update(i, s[j]).update(j, s[i])
}

/// Swaps an entry with its neighbour and says which one that is, so that the server can do the same.
pub fn swap_dir<T>(queue: &mut Vec<T>, pos: u32, direction: SwapDirection) -> (r: Option<u32>)
    requires
        pos < old(queue)@.len() <= u32::MAX,
    ensures
        match swap_partner(pos as int, direction, old(queue)@.len() as int) {
            Some(other) => {
                &&& r is Some && r->0 == other
                &&& final(queue)@ == swapped(old(queue)@, pos as int, other)
            },
            None => r is None && final(queue)@ == old(queue)@,
        },
{
    let n: usize = queue.len();
    match direction {
        SwapDirection::Up => {
            if pos > 0 {
                let ghost before = queue@;
                let target: T = queue.remove(pos as usize);
                queue.insert((pos - 1) as usize, target);
                assert(queue@ =~= swapped(before, pos as int, pos - 1));
                Some(pos - 1)
            } else {
                None
            }
        },
        SwapDirection::Down => {
            if (pos as usize) < n - 1 {
                let ghost before = queue@;
                let target: T = queue.remove(pos as usize);
                queue.insert((pos + 1) as usize, target);
                assert(queue@ =~= swapped(before, pos as int, pos + 1));
                Some(pos + 1)
            } else {
                None
            }
        },
    }
}

/// Swapping an entry up and the entry that is then in its place down again restores the queue.
pub proof fn law_swap_back<T>(queue: Seq<T>, pos: int)
    requires
        0 < pos < queue.len(),
    ensures
        swap_partner(pos, SwapDirection::Up, queue.len() as int) == Some(pos - 1),
        swap_partner(pos - 1, SwapDirection::Down, queue.len() as int) == Some(pos),
        swapped(swapped(queue, pos, pos - 1), pos - 1, pos) == queue,
{
    assert(swapped(swapped(queue, pos, pos - 1), pos - 1, pos) =~= queue);
}

/// Where an entry stands after it was taken out and is to stand before the entry that was at `to`.
pub open spec fn landing(from: int, to: int) -> int {
    if from < to {
        to - 1
    } else {
        to
    }
}

/// The queue with the entry at `from` moved before the entry that was at `to`.
pub open spec fn moved<T>(queue: Seq<T>, from: int, to: int) -> Seq<T> {
    queue.remove(from).insert(landing(from, to), queue[from])
}

/// Moves the entry at `from` before the entry that is at `to`, or to the end.
pub fn move_to<T>(queue: &mut Vec<T>, from: u32, to: u32)
    requires
        from < old(queue)@.len(),
        to <= old(queue)@.len(),
    ensures
        final(queue)@ == moved(old(queue)@, from as int, to as int),
{
    let item: T = queue.remove(from as usize);
    let place: u32 = if from < to {
        to - 1
    } else {
        to
    };
    queue.insert(place as usize, item);
}

/// Moving an entry neither loses nor repeats one, keeps the order of the others, and puts the entry
/// right before the one that was at its goal.
pub proof fn law_move_keeps_entries<T>(queue: Seq<T>, from: int, to: int)
    requires
        0 <= from < queue.len(),
        0 <= to <= queue.len(),
    ensures
        moved(queue, from, to).to_multiset() == queue.to_multiset(),
        moved(queue, from, to).remove(landing(from, to)) == queue.remove(from),
        moved(queue, from, to)[landing(from, to)] == queue[from],
        to < queue.len() && to != from ==> moved(queue, from, to)[landing(from, to) + 1]
            == queue[to],
{
    broadcast use vstd::seq_lib::group_to_multiset_ensures;

    let rest = queue.remove(from);
    let at = landing(from, to);
    queue.remove_ensures(from);
    rest.insert_ensures(at, queue[from]);
    assert(moved(queue, from, to).remove(at) =~= rest);
    assert(rest.insert(at, queue[from]).to_multiset() =~= rest.to_multiset().insert(queue[from]));
    assert(queue.remove(from).to_multiset() =~= queue.to_multiset().remove(queue[from]));
    assert(queue.to_multiset().count(queue[from]) > 0) by {
        assert(queue.contains(queue[from]));
    }
    assert(moved(queue, from, to).to_multiset() =~= queue.to_multiset());
}

/// Where the run of entries of one album ends that starts at or goes through `pos`.
pub open spec fn run_end(ids: Seq<Seq<char>>, pos: int) -> int
    decreases ids.len() - pos,
{
    if 0 <= pos && pos + 1 < ids.len() && ids[pos + 1] == ids[pos] {
        run_end(ids, pos + 1)
    } else {
        pos
    }
}

/// How much of the queue is left alone when it is shuffled: everything up to the end of the album that
/// is playing.
pub open spec fn shuffle_boundary(ids: Seq<Seq<char>>, current: Option<u32>) -> int {
    match current {
        Some(pos) => if pos < ids.len() {
            run_end(ids, pos as int) + 1
        } else {
            0
        },
        None => 0,
    }
}

/// The songs of a run end within the queue, and all songs of the run are of one album.
pub proof fn law_run_end(ids: Seq<Seq<char>>, pos: int)
    requires
        0 <= pos < ids.len(),
    ensures
        pos <= run_end(ids, pos) < ids.len(),
        forall|i: int| pos <= i <= run_end(ids, pos) ==> #[trigger] ids[i] == ids[pos],
        run_end(ids, pos) + 1 < ids.len() ==> ids[run_end(ids, pos) + 1] != ids[pos],
    decreases ids.len() - pos,
{
    if pos + 1 < ids.len() && ids[pos + 1] == ids[pos] {
        law_run_end(ids, pos + 1);
    }
}

/// The URIs from `pos` on, grouped by runs of one album.
pub open spec fn runs_from(ids: Seq<Seq<char>>, uris: Seq<Seq<char>>, pos: int) -> Seq<
    Seq<Seq<char>>,
>
    decreases ids.len() - pos,
{
    if pos < 0 || pos >= ids.len() {
        Seq::empty()
    } else {
        let rest = runs_from(ids, uris, pos + 1);
        if rest.len() > 0 && pos + 1 < ids.len() && ids[pos + 1] == ids[pos] {
            seq![seq![uris[pos]] + rest[0]] + rest.drop_first()
        } else {
            seq![seq![uris[pos]]] + rest
        }
    }
}

/// The groups hold the URIs, one after the other.
pub proof fn law_runs_hold_the_uris(ids: Seq<Seq<char>>, uris: Seq<Seq<char>>, pos: int)
    requires
        0 <= pos <= ids.len(),
        ids.len() == uris.len(),
    ensures
        joined(runs_from(ids, uris, pos)) == uris.skip(pos),
        pos < ids.len() ==> runs_from(ids, uris, pos).len() > 0,
    decreases ids.len() - pos,
{
    if pos < ids.len() {
        law_runs_hold_the_uris(ids, uris, pos + 1);
        let rest = runs_from(ids, uris, pos + 1);
        let r = runs_from(ids, uris, pos);
        assert(uris.skip(pos) =~= seq![uris[pos]] + uris.skip(pos + 1));
        if rest.len() > 0 && pos + 1 < ids.len() && ids[pos + 1] == ids[pos] {
            assert(r.drop_first() =~= rest.drop_first());
            assert((seq![uris[pos]] + rest[0]) + joined(rest.drop_first()) =~= seq![uris[pos]] + (
            rest[0] + joined(rest.drop_first())));
        } else {
            assert(r.drop_first() =~= rest);
        }
    } else {
        assert(uris.skip(pos) =~= Seq::empty());
    }
}

/// What is sent to the server to shuffle the queue.
#[derive(Debug)]
pub enum ShufflePlan {
    /// Nothing.
    Nothing,
    /// Have the server shuffle the queue from a place on.
    Range(u32),
    /// Delete the queue from one place up to another, and append URIs.
    Replace(u32, u32, Vec<String>),
}

/// Where the run of entries of one album ends that goes through `pos`.
fn find_run_end(ids: &Vec<String>, pos: usize) -> (r: usize)
    requires
        pos < ids@.len(),
    ensures
        r == run_end(str_views(ids@), pos as int),
        r < ids@.len(),
{
    let ghost views = str_views(ids@);
    let mut i: usize = pos;
    while i + 1 < ids.len() && same(ids[i + 1].as_str(), ids[i].as_str())
        invariant
            views == str_views(ids@),
            pos <= i < ids@.len(),
            run_end(views, pos as int) == run_end(views, i as int),
        ensures
            pos <= i < ids@.len(),
            i == run_end(views, pos as int),
        decreases ids.len() - i,
    {
        assert(views[i + 1] == ids@[i + 1]@);
        i = i + 1;
    }
    i
}

/// What each group holds.
pub open spec fn group_views(groups: Seq<Vec<String>>) -> Seq<Seq<Seq<char>>> {
    groups.map_values(|g: Vec<String>| str_views(g@))
}

/// The URIs from `pos` on, grouped by runs of one album.
fn group_runs(ids: &Vec<String>, uris: &Vec<String>, pos: usize) -> (r: Vec<Vec<String>>)
    requires
        pos <= ids@.len(),
        ids@.len() == uris@.len(),
    ensures
        group_views(r@) == runs_from(str_views(ids@), str_views(uris@), pos as int),
{
    let ghost a = str_views(ids@);
    let ghost b = str_views(uris@);
    // Groups and the songs of the first group are built from the end, the latest last.
    let mut groups: Vec<Vec<String>> = Vec::new();
    let mut i: usize = ids.len();
    assert(group_views(groups@).reverse() =~= runs_from(a, b, i as int));
    while i > pos
        invariant
            a == str_views(ids@),
            b == str_views(uris@),
            ids@.len() == uris@.len(),
            pos <= i <= ids@.len(),
            group_views(groups@).reverse() == runs_from(a, b, i as int),
        decreases i,
    {
        let k: usize = i - 1;
        let ghost rest = runs_from(a, b, i as int);
        let ghost uri = b[k as int];
        let n: usize = groups.len();
        assert(a[k as int] == ids@[k as int]@ && uri == uris@[k as int]@);
        assert(rest.len() == n) by {
            assert(group_views(groups@).len() == n);
        }
        if n > 0 && i < ids.len() && same(ids[i].as_str(), ids[k].as_str()) {
            assert(a[i as int] == ids@[i as int]@);
            let ghost had = groups@;
            proof {
                lemma_group_on_top(had.drop_last(), had.last());
                assert(had.drop_last().push(had.last()) =~= had);
            }
            if let Some(mut first) = groups.pop() {
                assert(groups@ =~= had.drop_last());
                let ghost first_views = str_views(first@);
                assert(rest[0] == first_views);
                assert(rest.drop_first() =~= group_views(groups@).reverse());
                first.insert(0, uris[k].clone());
                assert(str_views(first@) =~= seq![uri] + first_views);
                proof {
                    lemma_group_on_top(groups@, first);
                }
                groups.push(first);
            }
        } else {
            if i < ids.len() {
                assert(a[i as int] == ids@[i as int]@);
            }
            let mut first: Vec<String> = Vec::new();
            first.push(uris[k].clone());
            assert(str_views(first@) =~= seq![uri]);
            proof {
                lemma_group_on_top(groups@, first);
            }
            groups.push(first);
        }
        i = k;
    }
    turn_groups(groups)
}

proof fn lemma_group_on_top(groups: Seq<Vec<String>>, first: Vec<String>)
    ensures
        group_views(groups.push(first)).reverse() == seq![str_views(first@)] + group_views(
            groups,
        ).reverse(),
{
    assert(group_views(groups.push(first)).reverse() =~= seq![str_views(first@)] + group_views(
        groups,
    ).reverse());
}

fn turn_groups(groups: Vec<Vec<String>>) -> (r: Vec<Vec<String>>)
    ensures
        group_views(r@) == group_views(groups@).reverse(),
{
    let r: Vec<Vec<String>> = reversed(groups);
    assert(group_views(r@) =~= group_views(groups@).reverse());
    r
}

/// The strings of all groups, one after the other.
pub fn flatten(groups: Vec<Vec<String>>) -> (r: Vec<String>)
    ensures
        str_views(r@) == joined(group_views(groups@)),
{
    let ghost all = group_views(groups@);
    let ghost vecs = groups@;
    let mut r: Vec<String> = Vec::new();
    assert(all.skip(0) =~= all);
    assert(str_views(r@) + joined(all) =~= joined(all));
    for g in it: groups
        invariant
            it.seq() == vecs,
            all == group_views(vecs),
            joined(all) == str_views(r@) + joined(all.skip(it.index())),
    {
        let ghost now = all.skip(it.index());
        let ghost had = str_views(r@);
        assert(now[0] == str_views(g@));
        assert(now.drop_first() =~= all.skip(it.index() + 1));
        let ghost added = str_views(g@);
        let mut more: Vec<String> = g;
        r.append(&mut more);
        assert(str_views(r@) =~= had + added);
        assert(had + (added + joined(now.drop_first())) =~= (had + added) + joined(
            now.drop_first(),
        ));
    }
    assert(all.skip(all.len() as int) =~= Seq::empty());
    assert(str_views(r@) + Seq::<Seq<char>>::empty() =~= str_views(r@));
    r
}

/// Whether a plan shuffles a queue whose entries belong to the albums `ids` and have the URIs `uris`:
/// the album that is playing is left to finish, and where whole albums are shuffled each of those behind
/// it stays together.
pub open spec fn is_shuffle_plan(
    ids: Seq<Seq<char>>,
    uris: Seq<Seq<char>>,
    current: Option<u32>,
    mode: ShuffleMode,
    plan: ShufflePlan,
) -> bool {
    let boundary = shuffle_boundary(ids, current);
    let groups = runs_from(ids, uris, boundary);
    if boundary >= ids.len() {
        plan is Nothing
    } else if mode == ShuffleMode::Tracks {
        plan matches ShufflePlan::Range(from) && from == boundary
    } else if groups.len() <= 1 {
        plan is Nothing
    } else {
        plan matches ShufflePlan::Replace(from, to, new_uris) && from == boundary && to == ids.len()
            && exists|order: Seq<Seq<Seq<char>>>|
            #![trigger joined(order)]
            order.to_multiset() == groups.to_multiset() && str_views(new_uris@) == joined(order)
    }
}

/// Plans a shuffle of the queue, given for each entry the album that it belongs to and its URI. The
/// album that is playing is left to finish. The order of the albums behind it is left to chance; each of
/// them stays together.
pub fn shuffle_queue(
    ids: &Vec<String>,
    uris: &Vec<String>,
    current: Option<u32>,
    mode: ShuffleMode,
) -> (r: ShufflePlan)
    requires
        ids@.len() == uris@.len(),
        ids@.len() <= u32::MAX,
    ensures
        is_shuffle_plan(str_views(ids@), str_views(uris@), current, mode, r),
{
    let ghost views = str_views(ids@);
    let n: usize = ids.len();
    assert(views.len() == n);
    let boundary: usize = match current {
        Some(pos) => if (pos as usize) < n {
            find_run_end(ids, pos as usize) + 1
        } else {
            0
        },
        None => 0,
    };
    if boundary >= n {
        return ShufflePlan::Nothing;
    }
    match mode {
        ShuffleMode::Tracks => ShufflePlan::Range(boundary as u32),
        ShuffleMode::Album => {
            let mut groups: Vec<Vec<String>> = group_runs(ids, uris, boundary);
            let ghost before = groups@;
            assert(group_views(before).len() == before.len());
            if groups.len() <= 1 {
                return ShufflePlan::Nothing;
            }
            shuffle(&mut groups);
            let ghost order = group_views(groups@);
            proof {
                lemma_views_multiset(before, groups@);
            }
            let new_uris: Vec<String> = flatten(groups);
            assert(str_views(new_uris@) == joined(order));
            ShufflePlan::Replace(boundary as u32, n as u32, new_uris)
        },
    }
}

/// Shuffling whole albums neither loses nor repeats a song: the songs that are appended are those that
/// were deleted, and none of the album that is playing is among them.
pub proof fn law_shuffle_keeps_songs(
    ids: Seq<Seq<char>>,
    uris: Seq<Seq<char>>,
    current: Option<u32>,
    mode: ShuffleMode,
    plan: ShufflePlan,
)
    requires
        ids.len() == uris.len(),
        is_shuffle_plan(ids, uris, current, mode, plan),
    ensures
        plan matches ShufflePlan::Replace(from, to, new_uris) ==> str_views(
            new_uris@,
        ).to_multiset() == uris.subrange(from as int, to as int).to_multiset(),
        current is Some && current->0 < ids.len() ==> (plan matches ShufflePlan::Replace(from, _, _)
            ==> current->0 < from),
        current is Some && current->0 < ids.len() ==> (plan matches ShufflePlan::Range(from)
            ==> current->0 < from),
{
    let boundary = shuffle_boundary(ids, current);
    if let Some(pos) = current {
        if pos < ids.len() {
            law_run_end(ids, pos as int);
        }
    }
    if let ShufflePlan::Replace(from, to, new_uris) = plan {
        let groups = runs_from(ids, uris, boundary);
        let order = choose|order: Seq<Seq<Seq<char>>>|
            #![trigger joined(order)]
            order.to_multiset() == groups.to_multiset() && str_views(new_uris@) == joined(order);
        law_runs_hold_the_uris(ids, uris, boundary);
        lemma_joined_rearranged(order, groups);
        assert(uris.skip(boundary) =~= uris.subrange(from as int, to as int));
    }
}

/// Rearranged values stand for a rearrangement of what they stood for.
proof fn lemma_views_multiset(a: Seq<Vec<String>>, b: Seq<Vec<String>>)
    requires
        a.to_multiset() == b.to_multiset(),
    ensures
        group_views(a).to_multiset() == group_views(b).to_multiset(),
    decreases a.len(),
{
    broadcast use vstd::seq_lib::group_to_multiset_ensures;

    let f = |g: Vec<String>| str_views(g@);
    assert(a.len() == b.len()) by {
        assert(a.to_multiset().len() == a.len());
        assert(b.to_multiset().len() == b.len());
    }
    if a.len() == 0 {
        assert(group_views(a) =~= group_views(b));
    } else {
        let x = a.last();
        assert(a.to_multiset().count(x) > 0) by {
            assert(a.contains(x));
        }
        assert(b.contains(x));
        let k = choose|k: int| 0 <= k < b.len() && b[k] == x;
        let b1 = b.remove(k);
        let a1 = a.drop_last();
        assert(a =~= a1.push(x));
        b.remove_ensures(k);
        assert(b1.to_multiset() =~= b.to_multiset().remove(x));
        assert(a1.to_multiset() =~= a.to_multiset().remove(x)) by {
            assert(a.to_multiset() =~= a1.to_multiset().insert(x));
        }
        lemma_views_multiset(a1, b1);
        assert(group_views(a) =~= group_views(a1).push(f(x)));
        assert(group_views(b1) =~= group_views(b).remove(k));
        group_views(b).remove_ensures(k);
        assert(group_views(b)[k] == f(x));
        assert(group_views(b).to_multiset().count(f(x)) > 0) by {
            assert(group_views(b).contains(f(x)));
        }
        assert(group_views(b1).to_multiset() =~= group_views(b).to_multiset().remove(f(x)));
        assert(group_views(a).to_multiset() =~= group_views(b).to_multiset());
    }
}

/// The URIs from a place on are grouped by albums: the first group reaches as far as the album of that place
/// does, and the others are those of the rest.
pub proof fn law_runs_are_of_one_album(ids: Seq<Seq<char>>, uris: Seq<Seq<char>>, pos: int)
    requires
        0 <= pos < ids.len(),
        ids.len() == uris.len(),
    ensures
        ({
            let end = run_end(ids, pos) + 1;
            &&& runs_from(ids, uris, pos).len() > 0
            &&& runs_from(ids, uris, pos)[0] == uris.subrange(pos, end)
            &&& runs_from(ids, uris, pos).drop_first() == runs_from(ids, uris, end)
        }),
    decreases ids.len() - pos,
{
    law_run_end(ids, pos);
    let rest = runs_from(ids, uris, pos + 1);
    let all = runs_from(ids, uris, pos);
    if pos + 1 < ids.len() && ids[pos + 1] == ids[pos] {
        law_runs_are_of_one_album(ids, uris, pos + 1);
        let end = run_end(ids, pos) + 1;
        assert(seq![uris[pos]] + uris.subrange(pos + 1, end) =~= uris.subrange(pos, end));
        assert(all.drop_first() =~= rest.drop_first());
    } else {
        assert(seq![uris[pos]] =~= uris.subrange(pos, pos + 1));
        assert(all.drop_first() =~= rest);
    }
}

/// A shuffle leaves what plays to finish: it starts behind the last entry of the album that plays, or at the
/// first entry where nothing plays, and reaches to the end. Tracks are shuffled by the server. Albums are put
/// into a new order where there are at least two of them.
pub proof fn law_shuffles_start_behind_what_plays(
    ids: Vec<String>,
    uris: Vec<String>,
    current: Option<u32>,
    mode: ShuffleMode,
    plan: ShufflePlan,
)
    requires
        ids@.len() == uris@.len(),
        ids@.len() <= u32::MAX,
        call_ensures(shuffle_queue, (&ids, &uris, current, mode), plan),
    ensures
        mode == ShuffleMode::Tracks ==> !(plan is Replace),
        mode == ShuffleMode::Album ==> !(plan is Range),
        plan matches ShufflePlan::Replace(_, to, new) ==> to == ids@.len(),
        current is None && ids@.len() > 0 && mode == ShuffleMode::Tracks ==> plan == ShufflePlan::Range(
            0,
        ),
        ids@.len() == 0 ==> plan is Nothing,
        current matches Some(pos) ==> pos < ids@.len() ==> {
            let from = if plan is Range {
                plan->Range_0 as int
            } else if plan is Replace {
                plan->Replace_0 as int
            } else {
                ids@.len() as int
            };
            &&& !(plan is Nothing) ==> pos < from < ids@.len()
            &&& !(plan is Nothing) ==> forall|i: int|
                pos <= i < from ==> (#[trigger] ids@[i])@ == ids@[pos as int]@
            &&& !(plan is Nothing) ==> ids@[from]@ != ids@[pos as int]@
            &&& mode == ShuffleMode::Tracks && plan is Nothing ==> forall|i: int|
                pos <= i < ids@.len() ==> (#[trigger] ids@[i])@ == ids@[pos as int]@
        },
{
    let names = str_views(ids@);
    assert(names.len() == ids@.len());
    if let Some(pos) = current {
        if pos < ids@.len() {
            law_run_end(names, pos as int);
            let end = run_end(names, pos as int);
            assert forall|i: int| pos <= i <= end implies (#[trigger] ids@[i])@ == ids@[pos as int]@ by {
                assert(names[i] == names[pos as int]);
            }
        }
    }
}

/// Changes that the server sends stand where they belong, what is not changed stays, and the queue ends with
/// the last change where that lies behind it.
pub proof fn law_changed_entries_stand_where_they_belong<T>(
    queue: Vec<T>,
    changes: Vec<(u32, T)>,
    r: Option<Vec<T>>,
)
    requires
        call_ensures(update_queue_internal::<T>, (queue, changes), r),
        ascending(changes@),
        forall|p: int|
            queue@.len() <= p <= max_pos(changes@) ==> #[trigger] is_changed(changes@, p),
    ensures
        r is Some,
        changes@.len() == 0 ==> r->0@ == queue@,
        r->0@.len() >= queue@.len(),
        forall|i: int|
            0 <= i < changes@.len() ==> (#[trigger] changes@[i]).0 < r->0@.len()
                && r->0@[changes@[i].0 as int] == changes@[i].1,
        forall|p: int|
            0 <= p < queue@.len() && !(#[trigger] is_changed(changes@, p)) ==> r->0@[p]
                == queue@[p],
{
    if changes@.len() > 0 {
        law_changes_take_effect(queue@, changes@);
        lemma_below_max(changes@);
    }
}

proof fn lemma_below_max<T>(changes: Seq<(u32, T)>)
    ensures
        forall|i: int| 0 <= i < changes.len() ==> (#[trigger] changes[i]).0 <= max_pos(changes),
    decreases changes.len(),
{
    if changes.len() > 0 {
        let init = changes.drop_last();
        lemma_below_max(init);
        assert forall|i: int| 0 <= i < changes.len() implies (#[trigger] changes[i]).0 <= max_pos(
            changes,
        ) by {
            if i < init.len() {
                assert(init[i] == changes[i]);
            }
        }
    }
}

/// Whether one string comes right behind another somewhere.
pub open spec fn are_neighbours(s: Seq<Seq<char>>, a: Seq<char>, b: Seq<char>) -> bool {
    exists|q: int| 0 <= q < s.len() - 1 && #[trigger] s[q] == a && s[q + 1] == b
}

/// In a shuffle by albums the entries behind what plays are put into another order where there are two albums
/// among them. None is lost, and two that follow each other in one album still do.
pub proof fn law_albums_are_shuffled(
    ids: Vec<String>,
    uris: Vec<String>,
    current: Option<u32>,
    plan: ShufflePlan,
    p: int,
)
    requires
        ids@.len() == uris@.len(),
        ids@.len() <= u32::MAX,
        current matches Some(pos) ==> pos < ids@.len(),
        call_ensures(shuffle_queue, (&ids, &uris, current, ShuffleMode::Album), plan),
        current matches Some(pos) ==> pos <= p && exists|i: int|
            pos <= i <= p && (#[trigger] ids@[i])@ != ids@[pos as int]@,
        0 <= p < ids@.len() - 1,
    ensures
        ids@[p]@ != ids@[p + 1]@ ==> plan is Replace,
        plan matches ShufflePlan::Replace(from, to, new) ==> {
            &&& from <= p && to == ids@.len()
            &&& current is None ==> from == 0
            &&& new@.len() == to - from
            &&& str_views(new@).to_multiset() == str_views(uris@).subrange(
                from as int,
                to as int,
            ).to_multiset()
            &&& ids@[p]@ == ids@[p + 1]@ ==> are_neighbours(
                str_views(new@),
                uris@[p]@,
                uris@[p + 1]@,
            )
        },
{
    broadcast use vstd::seq_lib::group_to_multiset_ensures;

    let names = str_views(ids@);
    let songs = str_views(uris@);
    let boundary = shuffle_boundary(names, current);
    let groups = runs_from(names, songs, boundary);
    assert(names[p] == ids@[p]@ && names[p + 1] == ids@[p + 1]@);
    assert(songs[p] == uris@[p]@ && songs[p + 1] == uris@[p + 1]@);
    if let Some(pos) = current {
        law_run_end(names, pos as int);
        let i = choose|i: int| pos <= i <= p && (#[trigger] ids@[i])@ != ids@[pos as int]@;
        assert(names[i] == ids@[i]@ && names[pos as int] == ids@[pos as int]@);
        assert(boundary <= p);
    }
    law_run_end(names, boundary);
    law_runs_are_of_one_album(names, songs, boundary);
    let end = run_end(names, boundary) + 1;
    if names[p] != names[p + 1] {
        if end == names.len() {
            assert(names[p] == names[boundary] && names[p + 1] == names[boundary]);
        }
        law_runs_hold_the_uris(names, songs, end);
        assert(groups.drop_first().len() > 0);
    }
    law_shuffle_keeps_songs(names, songs, current, ShuffleMode::Album, plan);
    if let ShufflePlan::Replace(from, to, new) = plan {
        let views = str_views(new@);
        let part = songs.subrange(from as int, to as int);
        assert(views.len() == new@.len());
        assert(views.to_multiset().len() == views.len());
        assert(part.to_multiset().len() == part.len());
        let order = choose|order: Seq<Seq<Seq<char>>>|
            #![trigger joined(order)]
            order.to_multiset() == groups.to_multiset() && views == joined(order);
        if names[p] == names[p + 1] {
            lemma_neighbours_in_runs(names, songs, boundary, p);
            let g = choose|g: int|
                0 <= g < groups.len() && are_neighbours(#[trigger] groups[g], songs[p], songs[p + 1]);
            assert(groups.to_multiset().contains(groups[g]));
            assert(order.contains(groups[g]));
            let k = choose|k: int| 0 <= k < order.len() && order[k] == groups[g];
            lemma_neighbours_joined(order, k, songs[p], songs[p + 1]);
        }
    }
}

proof fn lemma_neighbours_in_runs(ids: Seq<Seq<char>>, uris: Seq<Seq<char>>, pos: int, p: int)
    requires
        0 <= pos <= p < ids.len() - 1,
        ids.len() == uris.len(),
        ids[p] == ids[p + 1],
    ensures
        exists|g: int|
            0 <= g < runs_from(ids, uris, pos).len() && are_neighbours(
                #[trigger] runs_from(ids, uris, pos)[g],
                uris[p],
                uris[p + 1],
            ),
    decreases ids.len() - pos,
{
    law_run_end(ids, pos);
    law_runs_are_of_one_album(ids, uris, pos);
    let end = run_end(ids, pos) + 1;
    let groups = runs_from(ids, uris, pos);
    if p + 1 < end {
        let run = uris.subrange(pos, end);
        assert(run[p - pos] == uris[p] && run[p - pos + 1] == uris[p + 1]);
        assert(are_neighbours(groups[0], uris[p], uris[p + 1]));
    } else {
        if p < end {
            assert(ids[end] != ids[pos]);
            assert(ids[p] == ids[pos]);
        }
        lemma_neighbours_in_runs(ids, uris, end, p);
        let rest = runs_from(ids, uris, end);
        let g = choose|g: int|
            0 <= g < rest.len() && are_neighbours(#[trigger] rest[g], uris[p], uris[p + 1]);
        assert(groups.drop_first()[g] == rest[g]);
        assert(are_neighbours(groups[g + 1], uris[p], uris[p + 1]));
    }
}

proof fn lemma_neighbours_joined(groups: Seq<Seq<Seq<char>>>, k: int, a: Seq<char>, b: Seq<char>)
    requires
        0 <= k < groups.len(),
        are_neighbours(groups[k], a, b),
    ensures
        are_neighbours(joined(groups), a, b),
    decreases groups.len(),
{
    let rest = joined(groups.drop_first());
    let all = joined(groups);
    if k == 0 {
        let q = choose|q: int|
            0 <= q < groups[0].len() - 1 && #[trigger] groups[0][q] == a && groups[0][q + 1] == b;
        assert(all[q] == a && all[q + 1] == b);
    } else {
        assert(groups.drop_first()[k - 1] == groups[k]);
        lemma_neighbours_joined(groups.drop_first(), k - 1, a, b);
        let q = choose|q: int| 0 <= q < rest.len() - 1 && #[trigger] rest[q] == a && rest[q + 1] == b;
        assert(all[groups[0].len() + q] == a && all[groups[0].len() + q + 1] == b);
    }
}

}

//! Appending songs to the queue of the server, and inserting them into it.
use vstd::prelude::*;

use super::query::{FilterView, Operation, Query, Term, TermView};
use super::BATCH_SIZE;
use crate::common::{joined, lemma_joined_push, str_views};

verus! {

/// One request of those that put songs into the queue.
#[derive(Debug)]
pub enum AddStep {
    /// Append URIs.
    AddMultiple(Vec<String>),
    /// Insert URIs at a place.
    InsertMultiple(Vec<String>, usize),
    /// Append everything that a query finds.
    FindAdd(Query),
    /// Insert one URI at a place.
    Insert(String, usize),
    /// Append one URI.
    Add(String),
}

/// What an `AddStep` says.
pub enum AddStepView {
    AddMultiple(Seq<Seq<char>>),
    InsertMultiple(Seq<Seq<char>>, int),
    FindAdd(Seq<FilterView>),
    Insert(Seq<char>, int),
    Add(Seq<char>),
}

impl View for AddStep {
    type V = AddStepView;

    open spec fn view(&self) -> AddStepView {
        match *self {
            AddStep::AddMultiple(uris) => AddStepView::AddMultiple(str_views(uris@)),
            AddStep::InsertMultiple(uris, pos) => AddStepView::InsertMultiple(
                str_views(uris@),
                pos as int,
            ),
            AddStep::FindAdd(query) => AddStepView::FindAdd(query@),
            AddStep::Insert(uri, pos) => AddStepView::Insert(uri@, pos as int),
            AddStep::Add(uri) => AddStepView::Add(uri@),
        }
    }
}

/// What each step says.
pub open spec fn step_views(steps: Seq<AddStep>) -> Seq<AddStepView> {
    steps.map_values(|s: AddStep| s@)
}

/// URIs in batches of limited size, so that none of them keeps the server busy for long.
pub open spec fn batches(uris: Seq<Seq<char>>) -> Seq<Seq<Seq<char>>>
    decreases uris.len(),
{
    if uris.len() == 0 {
        Seq::empty()
    } else if uris.len() <= BATCH_SIZE {
        seq![uris]
    } else {
        seq![uris.take(BATCH_SIZE as int)] + batches(uris.skip(BATCH_SIZE as int))
    }
}

/// The request that a batch of URIs is put into the queue with.
pub open spec fn batch_step(batch: Seq<Seq<char>>, insert_pos: Option<usize>) -> AddStepView {
    match insert_pos {
        Some(pos) => AddStepView::InsertMultiple(batch, pos as int),
        None => AddStepView::AddMultiple(batch),
    }
}

/// The condition that a song lies in a folder, at any depth.
pub open spec fn in_folder(folder: Seq<char>) -> FilterView {
    FilterView { term: TermView::Base, op: Operation::Equals, value: folder }
}

/// The requests that batches of URIs are put into the queue with. Batches are inserted from the last to the
/// first, all at one place, so that they come to stand in order.
pub open spec fn batch_steps(bs: Seq<Seq<Seq<char>>>, insert_pos: Option<usize>) -> Seq<AddStepView> {
    let steps = bs.map_values(|b: Seq<Seq<char>>| batch_step(b, insert_pos));
    if insert_pos is Some {
        steps.reverse()
    } else {
        steps
    }
}

/// The requests that URIs are put into the queue with.
pub open spec fn add_plan(
    uris: Seq<Seq<char>>,
    recursive: bool,
    insert_pos: Option<usize>,
) -> Seq<AddStepView> {
    if uris.len() == 0 {
        Seq::empty()
    } else if uris.len() > 1 {
        batch_steps(batches(uris), insert_pos)
    } else if recursive {
        seq![AddStepView::FindAdd(seq![in_folder(uris[0])])]
    } else {
        match insert_pos {
            Some(pos) => seq![AddStepView::Insert(uris[0], pos as int)],
            None => seq![AddStepView::Add(uris[0])],
        }
    }
}

/// The request that a batch of URIs is put into the queue with.
fn make_batch(batch: Vec<String>, insert_pos: Option<usize>) -> (r: AddStep)
    ensures
        r@ == batch_step(str_views(batch@), insert_pos),
{
    match insert_pos {
        Some(pos) => AddStep::InsertMultiple(batch, pos),
        None => AddStep::AddMultiple(batch),
    }
}

/// The steps from the last to the first.
fn turned(steps: Vec<AddStep>) -> (r: Vec<AddStep>)
    ensures
        step_views(r@) == step_views(steps@).reverse(),
{
    let ghost all = steps@;
    let mut steps = steps;
    let mut r: Vec<AddStep> = Vec::new();
    while steps.len() > 0
        invariant
            all.reverse() =~= r@ + steps@.reverse(),
        decreases steps@.len(),
    {
        if let Some(step) = steps.pop() {
            r.push(step);
        }
    }
    assert(r@ =~= all.reverse());
    assert(step_views(r@) =~= step_views(all).reverse());
    r
}

/// Plans how URIs are put into the queue: appended, or inserted at a place. A single one may be a
/// folder, everything in which is then appended.
pub fn add_multi(uris: Vec<String>, recursive: bool, insert_pos: Option<usize>) -> (r: Vec<AddStep>)
    ensures
        step_views(r@) == add_plan(str_views(uris@), recursive, insert_pos),
{
    let ghost all = str_views(uris@);
    let mut steps: Vec<AddStep> = Vec::new();
    assert(step_views(steps@) =~= Seq::empty());
    if uris.len() == 0 {
        return steps;
    }
    let ghost f = |b: Seq<Seq<char>>| batch_step(b, insert_pos);
    let mut uris = uris;
    if uris.len() > 1 {
        assert(Seq::<AddStepView>::empty() + batches(all).map_values(f) =~= batches(
            all,
        ).map_values(f));
        while uris.len() > BATCH_SIZE
            invariant
                f == (|b: Seq<Seq<char>>| batch_step(b, insert_pos)),
                uris@.len() > 0,
                batches(all).map_values(f) == step_views(steps@) + batches(
                    str_views(uris@),
                ).map_values(f),
            decreases uris.len(),
        {
            let ghost left = str_views(uris@);
            let ghost done = step_views(steps@);
            let rest: Vec<String> = uris.split_off(BATCH_SIZE);
            let step: AddStep = make_batch(uris, insert_pos);
            proof {
                let first = left.take(BATCH_SIZE as int);
                assert(str_views(uris@) =~= first);
                assert(str_views(rest@) =~= left.skip(BATCH_SIZE as int));
                assert(batches(left).map_values(f) =~= seq![f(first)] + batches(
                    str_views(rest@),
                ).map_values(f));
                assert(step_views(steps@.push(step)) =~= done.push(f(first)));
                assert(done + batches(left).map_values(f) =~= done.push(f(first)) + batches(
                    str_views(rest@),
                ).map_values(f));
            }
            steps.push(step);
            uris = rest;
        }
        let ghost left = str_views(uris@);
        let ghost done = step_views(steps@);
        let step: AddStep = make_batch(uris, insert_pos);
        proof {
            assert(batches(left).map_values(f) =~= seq![f(left)]);
            assert(step_views(steps@.push(step)) =~= done + seq![f(left)]);
        }
        steps.push(step);
        return if insert_pos.is_some() {
            turned(steps)
        } else {
            steps
        };
    }
    let uri: String = uris.remove(0);
    assert(all[0] == uri@);
    let step: AddStep = if recursive {
        let mut query: Query = Query::new();
        query.and(Term::Base, Operation::Equals, uri);
        assert(query@ =~= seq![in_folder(all[0])]);
        AddStep::FindAdd(query)
    } else {
        match insert_pos {
            Some(pos) => AddStep::Insert(uri, pos),
            None => AddStep::Add(uri),
        }
    };
    steps.push(step);
    assert(step_views(steps@) =~= seq![step@]);
    steps
}

/// Batches lose, repeat and rearrange nothing, and none of them is empty or too large.
pub proof fn law_batches_hold_the_uris(uris: Seq<Seq<char>>)
    ensures
        joined(batches(uris)) == uris,
        forall|i: int|
            0 <= i < batches(uris).len() ==> 0 < (#[trigger] batches(uris)[i]).len() <= BATCH_SIZE,
    decreases uris.len(),
{
    reveal_with_fuel(joined, 2);
    let bs = batches(uris);
    if uris.len() == 0 {
        assert(joined(bs) =~= uris);
    } else if uris.len() <= BATCH_SIZE {
        assert(bs.drop_first() =~= Seq::empty());
        assert(joined(bs) =~= uris);
    } else {
        let first = uris.take(BATCH_SIZE as int);
        let rest = uris.skip(BATCH_SIZE as int);
        law_batches_hold_the_uris(rest);
        assert(bs.drop_first() =~= batches(rest));
        assert(joined(bs) =~= uris);
        assert forall|i: int| 0 <= i < bs.len() implies 0 < (#[trigger] bs[i]).len()
            <= BATCH_SIZE by {
            if i > 0 {
                assert(bs[i] == batches(rest)[i - 1]);
            }
        }
    }
}

/// The URIs of a queue after a request. What a query finds is not known here.
pub open spec fn put(queue: Seq<Seq<char>>, step: AddStepView) -> Seq<Seq<char>> {
    match step {
        AddStepView::AddMultiple(uris) => queue + uris,
        AddStepView::InsertMultiple(uris, pos) => queue.take(pos) + uris + queue.skip(pos),
        AddStepView::FindAdd(_) => queue,
        AddStepView::Insert(uri, pos) => queue.take(pos) + seq![uri] + queue.skip(pos),
        AddStepView::Add(uri) => queue + seq![uri],
    }
}

/// The URIs of a queue after requests, one after the other.
pub open spec fn put_all(queue: Seq<Seq<char>>, steps: Seq<AddStepView>) -> Seq<Seq<char>>
    decreases steps.len(),
{
    if steps.len() == 0 {
        queue
    } else {
        put_all(put(queue, steps[0]), steps.drop_first())
    }
}

/// Batches are appended in order.
proof fn lemma_batches_appended(queue: Seq<Seq<char>>, bs: Seq<Seq<Seq<char>>>)
    ensures
        put_all(queue, batch_steps(bs, None)) == queue + joined(bs),
    decreases bs.len(),
{
    let steps = batch_steps(bs, None);
    if bs.len() == 0 {
        assert(queue + joined(bs) =~= queue);
    } else {
        lemma_batches_appended(queue + bs[0], bs.drop_first());
        assert(steps.drop_first() =~= batch_steps(bs.drop_first(), None));
        assert((queue + bs[0]) + joined(bs.drop_first()) =~= queue + joined(bs));
    }
}

/// Batches are inserted in order.
proof fn lemma_batches_inserted(queue: Seq<Seq<char>>, bs: Seq<Seq<Seq<char>>>, pos: usize)
    requires
        pos <= queue.len(),
    ensures
        put_all(queue, batch_steps(bs, Some(pos))) == queue.take(pos as int) + joined(bs)
            + queue.skip(pos as int),
    decreases bs.len(),
{
    let steps = batch_steps(bs, Some(pos));
    let head = queue.take(pos as int);
    let tail = queue.skip(pos as int);
    if bs.len() == 0 {
        assert(head + joined(bs) + tail =~= queue);
    } else {
        let init = bs.drop_last();
        let last = bs.last();
        let next = head + last + tail;
        assert(steps[0] == batch_step(last, Some(pos)));
        assert(steps.drop_first() =~= batch_steps(init, Some(pos)));
        lemma_batches_inserted(next, init, pos);
        lemma_joined_push(init, last);
        assert(init.push(last) =~= bs);
        assert(next.take(pos as int) =~= head);
        assert(next.skip(pos as int) =~= last + tail);
        assert(head + joined(init) + (last + tail) =~= head + joined(bs) + tail);
    }
}

/// URIs come to stand in the queue in their order: at its end, or at the place where they are inserted.
/// Everything else keeps its order.
pub proof fn law_uris_keep_their_order(
    queue: Seq<Seq<char>>,
    uris: Seq<Seq<char>>,
    insert_pos: Option<usize>,
)
    requires
        insert_pos is Some ==> insert_pos->0 <= queue.len(),
    ensures
        put_all(queue, add_plan(uris, false, insert_pos)) == (match insert_pos {
            Some(pos) => queue.take(pos as int) + uris + queue.skip(pos as int),
            None => queue + uris,
        }),
{
    let plan = add_plan(uris, false, insert_pos);
    if uris.len() > 1 {
        law_batches_hold_the_uris(uris);
        match insert_pos {
            Some(pos) => lemma_batches_inserted(queue, batches(uris), pos),
            None => lemma_batches_appended(queue, batches(uris)),
        }
    } else if uris.len() == 1 {
        reveal_with_fuel(put_all, 2);
        assert(uris =~= seq![uris[0]]);
    } else {
        match insert_pos {
            Some(pos) => {
                assert(queue.take(pos as int) + uris + queue.skip(pos as int) =~= queue);
            },
            None => {
                assert(queue + uris =~= queue);
            },
        }
    }
}

/// Several URIs are sent 128 at a time. One is sent by itself, and a folder by everything in it.
pub proof fn law_uris_are_sent_in_batches(
    uris: Vec<String>,
    recursive: bool,
    pos: Option<usize>,
    r: Vec<AddStep>,
    i: int,
)
    requires
        call_ensures(add_multi, (uris, recursive, pos), r),
        0 <= i < r@.len(),
    ensures
        uris@.len() > 1 && pos is None ==> r@[i]@ is AddMultiple && 0
            < r@[i]@->AddMultiple_0.len() <= 128,
        uris@.len() > 1 && pos is Some ==> r@[i]@ is InsertMultiple && 0
            < r@[i]@->InsertMultiple_0.len() <= 128 && r@[i]@->InsertMultiple_1 == pos->0,
        uris@.len() == 1 && recursive ==> r@.len() == 1 && r@[i]@ == AddStepView::FindAdd(
            seq![
                FilterView { term: TermView::Base, op: Operation::Equals, value: uris@[0]@ },
            ],
        ),
        uris@.len() == 1 && !recursive && pos is None ==> r@.len() == 1 && r@[i]@
            == AddStepView::Add(uris@[0]@),
        uris@.len() == 1 && !recursive && pos is Some ==> r@.len() == 1 && r@[i]@
            == AddStepView::Insert(uris@[0]@, pos->0 as int),
        uris@.len() > 0,
{
    let names = str_views(uris@);
    let steps = step_views(r@);
    assert(steps.len() == r@.len());
    assert(steps[i] == r@[i]@);
    assert(names.len() == uris@.len());
    if uris@.len() == 1 {
        assert(names[0] == uris@[0]@);
    }
    if uris@.len() > 1 {
        let bs = batches(names);
        law_batches_hold_the_uris(names);
        let made = bs.map_values(|b: Seq<Seq<char>>| batch_step(b, pos));
        let k = if pos is Some {
            bs.len() - 1 - i
        } else {
            i
        };
        assert(steps == batch_steps(bs, pos));
        assert(steps[i] == made[k]);
        assert(0 < bs[k].len() <= 128);
    }
}

}

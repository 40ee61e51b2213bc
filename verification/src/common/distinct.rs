//! Lists without repetitions, in the order in which their elements came.
use vstd::hash_set::StringHashSet;
use vstd::prelude::*;

use super::str_views;

verus! {

/// `s` with what was there before left out: each string once, where it first occurs.
pub open spec fn distinct(s: Seq<Seq<char>>) -> Seq<Seq<char>>
    decreases s.len(),
{
    if s.len() == 0 {
        s
    } else {
        add_distinct(distinct(s.drop_last()), s.last())
    }
}

/// `s` with `x` at its end, unless `s` holds it.
pub open spec fn add_distinct(s: Seq<Seq<char>>, x: Seq<char>) -> Seq<Seq<char>> {
    if s.contains(x) {
        s
    } else {
        s.push(x)
    }
}

/// `s` with those of `xs` at its end that are new, each once.
pub open spec fn extend_distinct(s: Seq<Seq<char>>, xs: Seq<Seq<char>>) -> Seq<Seq<char>>
    decreases xs.len(),
{
    if xs.len() == 0 {
        s
    } else {
        add_distinct(extend_distinct(s, xs.drop_last()), xs.last())
    }
}

/// `distinct` repeats nothing, and holds what the sequence holds.
pub proof fn law_distinct(s: Seq<Seq<char>>)
    ensures
        distinct(s).no_duplicates(),
        forall|x: Seq<char>| #[trigger] distinct(s).contains(x) <==> s.contains(x),
    decreases s.len(),
{
    if s.len() > 0 {
        let init = s.drop_last();
        let d = distinct(init);
        law_distinct(init);
        assert forall|x: Seq<char>| #[trigger] distinct(s).contains(x) <==> s.contains(x) by {
            assert(s =~= init.push(s.last()));
            if s.contains(x) {
                let k = choose|k: int| 0 <= k < s.len() && s[k] == x;
                if k < init.len() {
                    assert(init[k] == x);
                    assert(d.contains(x));
                    let j = choose|j: int| 0 <= j < d.len() && d[j] == x;
                    assert(distinct(s)[j] == x);
                } else if !d.contains(s.last()) {
                    assert(distinct(s)[d.len() as int] == x);
                }
            }
            if distinct(s).contains(x) {
                if d.contains(x) {
                    assert(init.contains(x));
                    let k = choose|k: int| 0 <= k < init.len() && init[k] == x;
                    assert(s[k] == x);
                } else {
                    assert(x == s.last()) by {
                        let j = choose|j: int| 0 <= j < distinct(s).len() && distinct(s)[j] == x;
                        if j < d.len() {
                            assert(d[j] == x);
                        }
                    }
                    assert(s[s.len() - 1] == x);
                }
            }
        }
    }
}

/// Extending a list without repetitions repeats nothing, and adds what the other sequence holds.
pub proof fn law_extend_distinct(s: Seq<Seq<char>>, xs: Seq<Seq<char>>)
    ensures
        s.no_duplicates() ==> extend_distinct(s, xs).no_duplicates(),
        forall|x: Seq<char>| #[trigger]
            extend_distinct(s, xs).contains(x) <==> s.contains(x) || xs.contains(x),
    decreases xs.len(),
{
    if xs.len() > 0 {
        let init = xs.drop_last();
        let d = extend_distinct(s, init);
        let e = extend_distinct(s, xs);
        law_extend_distinct(s, init);
        assert(xs =~= init.push(xs.last()));
        assert forall|x: Seq<char>| #[trigger] e.contains(x) <==> s.contains(x) || xs.contains(
            x,
        ) by {
            assert(xs.contains(x) <==> init.contains(x) || x == xs.last()) by {
                if init.contains(x) {
                    let k = choose|k: int| 0 <= k < init.len() && init[k] == x;
                    assert(xs[k] == x);
                }
                assert(xs[xs.len() - 1] == xs.last());
                if xs.contains(x) {
                    let k = choose|k: int| 0 <= k < xs.len() && xs[k] == x;
                    if k < init.len() {
                        assert(init[k] == x);
                    }
                }
            }
            assert(e.contains(x) <==> d.contains(x) || x == xs.last()) by {
                if d.contains(x) {
                    let k = choose|k: int| 0 <= k < d.len() && d[k] == x;
                    assert(e[k] == x);
                }
                if !d.contains(xs.last()) {
                    assert(e[d.len() as int] == xs.last());
                }
                if e.contains(x) {
                    let k = choose|k: int| 0 <= k < e.len() && e[k] == x;
                    if k < d.len() {
                        assert(d[k] == x);
                    }
                }
            }
            assert(d.contains(x) <==> s.contains(x) || init.contains(x));
        }
    }
}

/// Those of `items` whose IDs are neither among `seen` nor among those of earlier items.
pub open spec fn fresh<T>(seen: Seq<Seq<char>>, items: Seq<T>, id: spec_fn(T) -> Seq<char>) -> Seq<T>
    decreases items.len(),
{
    if items.len() == 0 {
        Seq::empty()
    } else {
        let init = items.drop_last();
        let before = fresh(seen, init, id);
        if extend_distinct(seen, init.map_values(id)).contains(id(items.last())) {
            before
        } else {
            before.push(items.last())
        }
    }
}

/// The IDs of the fresh items are just those that the seen ones grow by: none is left out, and none is
/// there twice.
pub proof fn law_fresh<T>(seen: Seq<Seq<char>>, items: Seq<T>, id: spec_fn(T) -> Seq<char>)
    ensures
        extend_distinct(seen, items.map_values(id)) == seen + fresh(seen, items, id).map_values(id),
    decreases items.len(),
{
    if items.len() == 0 {
        assert(items.map_values(id) =~= Seq::empty());
        assert(seen + fresh(seen, items, id).map_values(id) =~= seen);
    } else {
        let init = items.drop_last();
        law_fresh(seen, init, id);
        assert(items.map_values(id).drop_last() =~= init.map_values(id));
        let before = fresh(seen, init, id);
        assert(before.push(items.last()).map_values(id) =~= before.map_values(id).push(
            id(items.last()),
        ));
        assert(seen + before.map_values(id).push(id(items.last())) =~= (seen + before.map_values(
            id,
        )).push(id(items.last())));
    }
}

/// Strings in the order in which they came, each once.
pub struct DistinctStrings {
    order: Vec<String>,
    seen: StringHashSet,
}

impl View for DistinctStrings {
    type V = Seq<Seq<char>>;

    closed spec fn view(&self) -> Seq<Seq<char>> {
        str_views(self.order@)
    }
}

impl DistinctStrings {
    #[verifier::type_invariant]
    spec fn agrees(&self) -> bool {
        &&& self@.no_duplicates()
        &&& forall|x: Seq<char>| #[trigger] self.seen@.contains(x) <==> self@.contains(x)
    }

    pub fn new() -> (r: Self)
        ensures
            r@ == Seq::<Seq<char>>::empty(),
    {
        let order: Vec<String> = Vec::new();
        assert(str_views(order@) =~= Seq::empty());
        DistinctStrings { order, seen: StringHashSet::new() }
    }

    pub fn contains(&self, s: &str) -> (r: bool)
        ensures
            r == self@.contains(s@),
    {
        proof {
            use_type_invariant(self);
        }
        self.seen.contains(s)
    }

    pub fn is_empty(&self) -> (r: bool)
        ensures
            r == (self@.len() == 0),
    {
        self.order.len() == 0
    }

    /// The strings in order; nothing is there twice.
    pub fn strings(&self) -> (r: &Vec<String>)
        ensures
            str_views(r@) == self@,
            self@.no_duplicates(),
    {
        proof {
            use_type_invariant(self);
        }
        &self.order
    }

    /// The strings in order; nothing is there twice.
    pub fn into_strings(self) -> (r: Vec<String>)
        ensures
            str_views(r@) == self@,
            self@.no_duplicates(),
    {
        proof {
            use_type_invariant(&self);
        }
        self.order
    }
}

/// Adds `s` to the list, unless it is there; says whether it was new.
pub fn insert_distinct(list: DistinctStrings, s: String) -> (r: (DistinctStrings, bool))
    ensures
        r.0@ == add_distinct(list@, s@),
        r.1 == !list@.contains(s@),
{
    proof {
        use_type_invariant(&list);
    }
    let ghost before = list@;
    let mut order: Vec<String> = list.order;
    let mut seen: StringHashSet = list.seen;
    let is_new: bool = seen.insert(s.clone());
    if is_new {
        order.push(s);
        assert(str_views(order@) =~= before.push(s@));
        assert forall|x: Seq<char>| #[trigger] seen@.contains(x) <==> before.push(s@).contains(x) by {
            if before.contains(x) {
                let k = choose|k: int| 0 <= k < before.len() && before[k] == x;
                assert(before.push(s@)[k] == x);
            }
            assert(before.push(s@)[before.len() as int] == s@);
            if before.push(s@).contains(x) && x != s@ {
                let k = choose|k: int| 0 <= k < before.push(s@).len() && before.push(s@)[k] == x;
                assert(before[k] == x);
            }
        }
    } else {
        assert(seen@ =~= list.seen@);
    }
    (DistinctStrings { order, seen }, is_new)
}

/// Adds those of `strings` to the list that are new.
pub fn insert_all(list: DistinctStrings, strings: Vec<String>) -> (r: DistinctStrings)
    ensures
        r@ == extend_distinct(list@, str_views(strings@)),
{
    let ghost start = list@;
    let ghost all = str_views(strings@);
    let mut list = list;
    assert(all.take(0) =~= Seq::empty());
    for s in it: strings
        invariant
            it.seq() == strings@,
            all == str_views(strings@),
            list@ == extend_distinct(start, all.take(it.index())),
    {
        let ghost next = all.take(it.index() + 1);
        assert(next.drop_last() =~= all.take(it.index()));
        assert(next.last() == s@);
        let (more, _): (DistinctStrings, bool) = insert_distinct(list, s);
        list = more;
    }
    assert(all.take(all.len() as int) =~= all);
    list
}

/// Keeps of the list what `other` holds too, in order.
pub fn retain_common(list: DistinctStrings, other: &DistinctStrings) -> (r: DistinctStrings)
    ensures
        r@ == list@.filter(|s: Seq<char>| other@.contains(s)),
{
    let ghost all = list@;
    let ghost common = |s: Seq<char>| other@.contains(s);
    proof {
        use_type_invariant(&list);
    }
    let mut kept: DistinctStrings = DistinctStrings::new();
    let ghost order = list.order@;
    let strings: Vec<String> = list.order;
    assert(all.take(0) =~= Seq::empty());
    assert(all.take(0).filter(common) =~= Seq::empty()) by {
        reveal(Seq::filter);
    }
    for s in it: strings
        invariant
            it.seq() == order,
            all == str_views(order),
            all.no_duplicates(),
            common == (|s: Seq<char>| other@.contains(s)),
            kept@ == all.take(it.index()).filter(common),
    {
        let ghost init = all.take(it.index());
        proof {
            assert(all.take(it.index() + 1) =~= init.push(s@));
            init.lemma_filter_push(s@, common);
            if init.filter(common).contains(s@) {
                init.lemma_filter_contains_rev(common, s@);
                let k = choose|k: int| 0 <= k < init.len() && init[k] == s@;
                assert(all[k] == all[it.index()]);
            }
        }
        if other.contains(s.as_str()) {
            let (more, _): (DistinctStrings, bool) = insert_distinct(kept, s);
            kept = more;
        }
    }
    assert(all.take(all.len() as int) =~= all);
    kept
}

/// A string is put into a list once, at its end, and is told to be new exactly then.
pub proof fn law_strings_are_listed_once(
    list: DistinctStrings,
    s: String,
    r: (DistinctStrings, bool),
)
    requires
        call_ensures(insert_distinct, (list, s), r),
    ensures
        r.1 <==> !list@.contains(s@),
        r.1 ==> r.0@ == list@.push(s@),
        !r.1 ==> r.0@ == list@,
        r.0@.contains(s@),
{
    if r.1 {
        assert(r.0@[list@.len() as int] == s@);
    }
}

/// A list that takes in strings holds its own first, and then each of the others, none of them twice.
pub proof fn law_strings_are_taken_in(
    list: DistinctStrings,
    strings: Vec<String>,
    r: DistinctStrings,
    x: Seq<char>,
)
    requires
        list@.no_duplicates(),
        call_ensures(insert_all, (list, strings), r),
    ensures
        r@.no_duplicates(),
        r@.contains(x) <==> list@.contains(x) || str_views(strings@).contains(x),
        list@.is_prefix_of(r@),
{
    law_extend_distinct(list@, str_views(strings@));
    lemma_extend_prefix(list@, str_views(strings@));
}

proof fn lemma_extend_prefix(s: Seq<Seq<char>>, xs: Seq<Seq<char>>)
    ensures
        s.is_prefix_of(extend_distinct(s, xs)),
    decreases xs.len(),
{
    if xs.len() > 0 {
        lemma_extend_prefix(s, xs.drop_last());
    }
}

/// What two lists have in common is kept, in the order of the first.
pub proof fn law_common_strings_are_kept(
    list: DistinctStrings,
    other: DistinctStrings,
    r: DistinctStrings,
    x: Seq<char>,
)
    requires
        call_ensures(retain_common, (list, &other), r),
    ensures
        r@.contains(x) <==> list@.contains(x) && other@.contains(x),
        list@.no_duplicates() ==> r@.len() <= list@.len(),
{
    let keep = |s: Seq<char>| other@.contains(s);
    assert(r@ == list@.filter(keep));
    list@.filter_lemma(keep);
    list@.lemma_filter_len(keep);
    if r@.contains(x) {
        list@.lemma_filter_contains_rev(keep, x);
        let i = choose|i: int| 0 <= i < r@.len() && r@[i] == x;
        assert(keep(list@.filter(keep)[i]));
    }
}

}

//! Fetching long lists page by page.
use vstd::prelude::*;

use super::{BATCH_SIZE, FETCH_LIMIT};

verus! {

/// When a list that is fetched in pages is at its end.
#[derive(Debug, Clone, Copy, PartialEq, Eq, Structural)]
pub enum PageRule {
    /// At the first empty page. Pages are asked for at fixed distances.
    UntilEmpty,
    /// At the first page that is not full. The next page starts behind the items that came.
    UntilShort,
    /// At a length that is known beforehand. Pages may be empty on the way.
    UpTo(u32),
}

/// Where the fetching of a list stands.
#[derive(Debug, Clone, Copy, PartialEq, Eq, Structural)]
pub struct Pager {
    rule: PageRule,
    cursor: u32,
    more: bool,
}

/// What a `Pager` stands for.
pub struct PagerView {
    pub rule: PageRule,
    pub cursor: int,
    pub more: bool,
}

/// Where fetching stops at the latest.
pub open spec fn page_limit(rule: PageRule) -> int {
    match rule {
        PageRule::UpTo(total) => total as int,
        _ => FETCH_LIMIT as int,
    }
}

/// The page to ask for next: from the first place up to, and without, the second.
pub open spec fn next_page(p: PagerView) -> Option<(int, int)> {
    if p.more && p.cursor < page_limit(p.rule) {
        Some((p.cursor, p.cursor + BATCH_SIZE))
    } else {
        None
    }
}

/// Where the fetching stands after a page with `n` items.
pub open spec fn after_page(p: PagerView, n: int) -> PagerView {
    match p.rule {
        PageRule::UntilEmpty => if n == 0 {
            PagerView { more: false, ..p }
        } else {
            PagerView { cursor: p.cursor + BATCH_SIZE, ..p }
        },
        PageRule::UntilShort => PagerView { more: n >= BATCH_SIZE, cursor: p.cursor + n, ..p },
        PageRule::UpTo(_) => PagerView { cursor: p.cursor + BATCH_SIZE, ..p },
    }
}

impl View for Pager {
    type V = PagerView;

    closed spec fn view(&self) -> PagerView {
        PagerView { rule: self.rule, cursor: self.cursor as int, more: self.more }
    }
}

impl Pager {
    pub fn new(rule: PageRule) -> (r: Self)
        ensures
            r@ == (PagerView { rule, cursor: 0, more: true }),
    {
        Pager { rule, cursor: 0, more: true }
    }

    /// The page to ask for next, or nothing at the end of the list.
    pub fn request(&self) -> (r: Option<(u32, u32)>)
        requires
            page_limit(self@.rule) + BATCH_SIZE <= u32::MAX,
        ensures
            match next_page(self@) {
                Some((start, end)) => r is Some && (r->0).0 == start && (r->0).1 == end,
                None => r is None,
            },
    {
        let limit: u32 = match self.rule {
            PageRule::UpTo(total) => total,
            _ => FETCH_LIMIT as u32,
        };
        if self.more && self.cursor < limit {
            Some((self.cursor, self.cursor + BATCH_SIZE as u32))
        } else {
            None
        }
    }

    /// Takes note of the page that was asked for last, which came with `n` items.
    pub fn accept(&mut self, n: usize)
        requires
            next_page(old(self)@) is Some,
            page_limit(old(self)@.rule) + BATCH_SIZE <= u32::MAX,
            old(self)@.rule == PageRule::UntilShort ==> old(self)@.cursor + n <= u32::MAX,
        ensures
            final(self)@ == after_page(old(self)@, n as int),
    {
        match self.rule {
            PageRule::UntilEmpty => if n == 0 {
                self.more = false;
            } else {
                self.cursor = self.cursor + BATCH_SIZE as u32;
            },
            PageRule::UntilShort => {
                self.more = n >= BATCH_SIZE;
                self.cursor = self.cursor + n as u32;
            },
            PageRule::UpTo(_) => {
                self.cursor = self.cursor + BATCH_SIZE as u32;
            },
        }
    }

    /// Takes note that the server has no more to give.
    pub fn finish(&mut self)
        ensures
            final(self)@ == (PagerView { more: false, ..old(self)@ }),
            next_page(final(self)@) is None,
    {
        self.more = false;
    }
}

/// Pages of a list that is fetched at fixed distances meet without gap or overlap: each starts where
/// the page before it ended.
pub proof fn law_pages_are_adjacent(p: PagerView, n: int)
    requires
        next_page(p) is Some,
        p.rule != PageRule::UntilShort,
        next_page(after_page(p, n)) is Some,
    ensures
        (next_page(after_page(p, n))->0).0 == (next_page(p)->0).1,
{
}

/// A list that is fetched until a page is not full skips nothing: the next page starts behind the items
/// that came, and there is one only where the page was full.
pub proof fn law_short_pages_end_the_list(p: PagerView, n: int)
    requires
        next_page(p) is Some,
        p.rule == PageRule::UntilShort,
        n >= 0,
    ensures
        next_page(after_page(p, n)) is Some ==> n >= BATCH_SIZE && (next_page(
            after_page(p, n),
        )->0).0 == p.cursor + n,
        n < BATCH_SIZE ==> next_page(after_page(p, n)) is None,
{
}

/// Fetching comes to an end: every page moves the start of the next one on by as much as a page holds,
/// or is the last.
pub proof fn law_paging_ends(p: PagerView, n: int)
    requires
        next_page(p) is Some,
    ensures
        next_page(after_page(p, n)) is Some ==> after_page(p, n).cursor >= p.cursor + BATCH_SIZE,
{
}

/// A list is asked for from its start. A page holds 128 items, from where the last one ended or, where
/// pages may be short, from behind the items that came.
pub proof fn law_pages(
    rule: PageRule,
    new: Pager,
    p: &Pager,
    r: Option<(u32, u32)>,
)
    requires
        call_ensures(Pager::new, (rule,), new),
        call_ensures(Pager::request, (p,), r),
    ensures
        new@.cursor == 0 && new@.more && new@.rule == rule,
        r is Some ==> (r->0).0 == p@.cursor && (r->0).1 == (r->0).0 + 128,
        !p@.more ==> r is None,
        p@.rule matches PageRule::UpTo(total) ==> p@.more ==> (r is Some <==> p@.cursor < total),
        !(p@.rule is UpTo) && p@.more ==> (r is Some <==> p@.cursor < 10_000_000),
{
}

/// A list whose length is not known ends with an empty page, or with one that is not full, by its rule; the
/// next page lies behind the last otherwise.
pub proof fn law_the_end_of_a_list(p: &mut Pager, n: usize)
    requires
        call_ensures(Pager::accept, (p, n), ()),
    ensures
        final(p)@.rule == old(p)@.rule,
        old(p)@.rule == PageRule::UntilEmpty ==> {
            &&& n == 0 ==> !final(p)@.more
            &&& n > 0 ==> final(p)@.cursor == old(p)@.cursor + 128 && final(p)@.more
                == old(p)@.more
        },
        old(p)@.rule == PageRule::UntilShort ==> {
            &&& final(p)@.more <==> n >= 128
            &&& final(p)@.cursor == old(p)@.cursor + n
        },
        old(p)@.rule is UpTo ==> final(p)@.cursor == old(p)@.cursor + 128 && final(p)@.more
            == old(p)@.more,
{
}

}

//! Lists that are sorted and searched, and filled when they are first shown.
use vstd::prelude::*;

use super::selection::ContentState;
use crate::text::same;
use crate::utils::{
    folded, g_cmp_str_options, g_search_substr, search_matches, str_order, ListOrder,
};

verus! {

/// Which way a list is sorted, as the settings say it.
pub open spec fn flipped(direction: Seq<char>) -> Seq<char> {
    if direction == "asc"@ {
        "desc"@
    } else {
        "asc"@
    }
}

/// The other way to sort a list.
pub fn flip_direction(direction: &str) -> (r: &'static str)
    ensures
        r@ == flipped(direction@),
{
    if same(direction, "asc") {
        "desc"
    } else {
        "asc"
    }
}

/// The icon for the way a list is sorted.
pub fn direction_icon(direction: &str) -> (r: &'static str)
    ensures
        r@ == (if direction@ == "asc"@ {
            "view-sort-ascending-symbolic"@
        } else {
            "view-sort-descending-symbolic"@
        }),
{
    if same(direction, "asc") {
        "view-sort-ascending-symbolic"
    } else {
        "view-sort-descending-symbolic"
    }
}

/// How two names of a list are ordered. The settings number the ways to sort: the way up is above 0.
pub fn order_names(
    a: &str,
    b: &str,
    direction: i32,
    nulls_first: bool,
    case_sensitive: bool,
) -> (r: ListOrder)
    ensures
        r == (if direction > 0 {
            str_order(folded(a@, case_sensitive), folded(b@, case_sensitive))
        } else {
            str_order(folded(b@, case_sensitive), folded(a@, case_sensitive))
        }),
{
    g_cmp_str_options(Some(a), Some(b), nulls_first, direction > 0, case_sensitive)
}

/// How a search changes when its term does.
#[derive(Debug, Clone, Copy, PartialEq, Eq, Structural)]
pub enum FilterChange {
    Different,
    LessStrict,
    MoreStrict,
}

/// How a search changes when its term gets another length: a longer term is stricter.
pub fn search_change(old_len: usize, new_len: usize) -> (r: FilterChange)
    ensures
        r == (if new_len > old_len {
            FilterChange::MoreStrict
        } else if new_len < old_len {
            FilterChange::LessStrict
        } else {
            FilterChange::Different
        }),
{
    if new_len > old_len {
        FilterChange::MoreStrict
    } else if new_len < old_len {
        FilterChange::LessStrict
    } else {
        FilterChange::Different
    }
}

/// Whether an item of a list is found: without a term every item is.
pub fn is_found(name: &str, term: &str, case_sensitive: bool) -> (r: bool)
    ensures
        r == (term@.len() == 0 || search_matches(Some(name@), term@, case_sensitive)),
{
    if term.is_empty() {
        true
    } else {
        g_search_substr(Some(name), term, case_sensitive)
    }
}

/// Whether the page of one item is to be shown over the list: unless it is shown already.
pub fn should_push_content(visible_page: Option<&str>) -> (r: bool)
    ensures
        r == !(visible_page is Some && visible_page->0@ == "content"@),
{
    match visible_page {
        Some(tag) => !same(tag, "content"),
        None => true,
    }
}

/// A list that is filled when it is first shown.
#[derive(Debug, Clone, Copy, PartialEq, Eq, Structural)]
pub struct LazyList {
    pub initializing: bool,
    pub content: ContentState,
}

impl LazyList {
    pub fn new() -> (r: Self)
        ensures
            !r.initializing,
            r.content == ContentState::Placeholder,
    {
        LazyList { initializing: false, content: ContentState::Placeholder }
    }

    /// Whether the list is to be filled now: it is, unless that is going on already.
    pub fn populate(&mut self) -> (r: bool)
        ensures
            r == !old(self).initializing,
            *final(self) == (if r {
                LazyList { initializing: true, content: ContentState::Spinner }
            } else {
                *old(self)
            }),
    {
        if self.initializing {
            false
        } else {
            self.initializing = true;
            self.content = ContentState::Spinner;
            true
        }
    }

    /// Takes note that the list has been filled.
    pub fn finish(&mut self, n_items: usize)
        ensures
            *final(self) == (LazyList {
                initializing: false,
                content: if n_items > 0 {
                    ContentState::Content
                } else {
                    ContentState::Placeholder
                },
            }),
    {
        self.initializing = false;
        self.content = super::selection::fetched_state(n_items);
    }
}

/// Flipping the way a list is sorted twice changes nothing.
pub proof fn law_flipping_twice(direction: Seq<char>)
    requires
        direction == "asc"@ || direction == "desc"@,
    ensures
        flipped(flipped(direction)) == direction,
        flipped(direction) != direction,
{
    reveal_strlit("asc");
    reveal_strlit("desc");
    assert("asc"@.len() != "desc"@.len());
}

/// The button flips the direction of sorting, and shows it.
pub proof fn law_directions(direction: &str, r: &'static str, icon: &'static str)
    requires
        call_ensures(flip_direction, (direction,), r),
        call_ensures(direction_icon, (direction,), icon),
    ensures
        direction@ == "asc"@ ==> r@ == "desc"@ && icon@ == "view-sort-ascending-symbolic"@,
        direction@ == "desc"@ ==> r@ == "asc"@ && icon@ == "view-sort-descending-symbolic"@,
{
    reveal_strlit("asc");
    reveal_strlit("desc");
    assert("asc"@.len() != "desc"@.len());
}

/// Names come in the order of the dictionary, or the other way round where sorting descends.
pub proof fn law_order_of_names(
    a: &str,
    b: &str,
    nulls_first: bool,
    up: ListOrder,
    down: ListOrder,
)
    requires
        call_ensures(order_names, (a, b, 1i32, nulls_first, true), up),
        call_ensures(order_names, (a, b, -1i32, nulls_first, true), down),
    ensures
        up == ListOrder::Smaller <==> crate::text::lex_lt(a@, b@),
        up == ListOrder::Larger <==> crate::text::lex_lt(b@, a@),
        down == ListOrder::Smaller <==> crate::text::lex_lt(b@, a@),
        down == ListOrder::Larger <==> crate::text::lex_lt(a@, b@),
{
    crate::text::lemma_lex_total(a@, b@);
}

/// A term that grows narrows the search, one that shrinks widens it, and any other change searches anew.
pub proof fn law_search_changes(old_len: usize, new_len: usize, r: FilterChange)
    requires
        call_ensures(search_change, (old_len, new_len), r),
    ensures
        r == FilterChange::MoreStrict <==> new_len > old_len,
        r == FilterChange::LessStrict <==> new_len < old_len,
        r == FilterChange::Different <==> new_len == old_len,
{
}

/// An empty term finds everything, and a name that holds the term is found.
pub proof fn law_finding_names(name: &str, term: &str, r: bool)
    requires
        call_ensures(is_found, (name, term, true), r),
    ensures
        term@.len() == 0 ==> r,
        term@.len() > 0 ==> (r <==> crate::text::contains_part(name@, term@)),
{
}

/// A list is fetched once at a time: while it is, nothing is fetched and the spinner turns; when it is there
/// its content is shown, and it can be fetched again.
pub proof fn law_lazy_lists(
    new: LazyList,
    l: &mut LazyList,
    r: bool,
    m: &mut LazyList,
    n_items: usize,
)
    requires
        call_ensures(LazyList::new, (), new),
        call_ensures(LazyList::populate, (l,), r),
        call_ensures(LazyList::finish, (m, n_items), ()),
    ensures
        !new.initializing,
        r <==> !old(l).initializing,
        r ==> final(l).content == ContentState::Spinner,
        final(l).initializing,
        !final(m).initializing,
        final(m).content == ContentState::Content <==> n_items > 0,
        final(m).content == ContentState::Placeholder <==> n_items == 0,
{
}

/// The page of an item is pushed unless it is shown already.
pub proof fn law_pages_are_pushed_once(page: &str, hidden: bool, shown: bool)
    requires
        call_ensures(should_push_content, (None::<&str>,), hidden),
        call_ensures(should_push_content, (Some(page),), shown),
    ensures
        hidden,
        shown <==> page@ != "content"@,
{
}

}

//! Requests to the database of the server.
use vstd::prelude::*;

verus! {

/// What a filter looks at.
#[derive(Debug)]
pub enum Term {
    /// The URI of a song.
    File,
    /// The folder that a song lies in, at any depth.
    Base,
    /// When a song was added to the database.
    AddedSince,
    /// When the file of a song last changed.
    LastModified,
    /// A tag, by its name.
    Tag(String),
}

/// What a `Term` says.
pub enum TermView {
    File,
    Base,
    AddedSince,
    LastModified,
    Tag(Seq<char>),
}

impl View for Term {
    type V = TermView;

    open spec fn view(&self) -> TermView {
        match *self {
            Term::File => TermView::File,
            Term::Base => TermView::Base,
            Term::AddedSince => TermView::AddedSince,
            Term::LastModified => TermView::LastModified,
            Term::Tag(name) => TermView::Tag(name@),
        }
    }
}

/// How a filter compares.
#[derive(Debug, Clone, Copy, PartialEq, Eq, Structural)]
pub enum Operation {
    Equals,
    Contains,
}

/// One condition of a query.
#[derive(Debug)]
pub struct Filter {
    pub term: Term,
    pub op: Operation,
    pub value: String,
}

/// What a `Filter` says.
pub struct FilterView {
    pub term: TermView,
    pub op: Operation,
    pub value: Seq<char>,
}

impl View for Filter {
    type V = FilterView;

    open spec fn view(&self) -> FilterView {
        FilterView { term: self.term@, op: self.op, value: self.value@ }
    }
}

/// A conjunction of conditions.
#[derive(Debug)]
pub struct Query {
    pub filters: Vec<Filter>,
}

impl View for Query {
    type V = Seq<FilterView>;

    open spec fn view(&self) -> Seq<FilterView> {
        self.filters@.map_values(|f: Filter| f@)
    }
}

/// The condition that a tag has a value.
pub open spec fn tag_is(tag: Seq<char>, value: Seq<char>) -> FilterView {
    FilterView { term: TermView::Tag(tag), op: Operation::Equals, value }
}

/// The condition that a value is part of a tag.
pub open spec fn tag_contains(tag: Seq<char>, value: Seq<char>) -> FilterView {
    FilterView { term: TermView::Tag(tag), op: Operation::Contains, value }
}

impl Query {
    pub fn new() -> (r: Self)
        ensures
            r@ == Seq::<FilterView>::empty(),
    {
        let r: Query = Query { filters: Vec::new() };
        assert(r@ =~= Seq::<FilterView>::empty());
        r
    }

    /// Adds a condition.
    pub fn and(&mut self, term: Term, op: Operation, value: String)
        ensures
            final(self)@ == old(self)@.push((FilterView { term: term@, op, value: value@ })),
    {
        let ghost before = self@;
        self.filters.push(Filter { term, op, value });
        assert(self@ =~= before.push(FilterView { term: term@, op, value: value@ }));
    }

    /// Adds the condition that a tag has a value.
    pub fn and_tag(&mut self, tag: &str, value: &str)
        ensures
            final(self)@ == old(self)@.push(tag_is(tag@, value@)),
    {
        self.and(Term::Tag(tag.to_owned()), Operation::Equals, value.to_owned());
    }

    /// Adds the condition that a value is part of a tag.
    pub fn and_tag_contains(&mut self, tag: &str, value: &str)
        ensures
            final(self)@ == old(self)@.push(tag_contains(tag@, value@)),
    {
        self.and(Term::Tag(tag.to_owned()), Operation::Contains, value.to_owned());
    }
}

}

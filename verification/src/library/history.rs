//! The folders that the user has gone through.
use vstd::prelude::*;

use crate::common::str_views;
use crate::text::append;

verus! {

/// Names with slashes between them.
pub open spec fn path_of(names: Seq<Seq<char>>) -> Seq<char>
    decreases names.len(),
{
    if names.len() == 0 {
        Seq::empty()
    } else if names.len() == 1 {
        names[0]
    } else {
        path_of(names.drop_last()) + seq!['/'] + names.last()
    }
}

/// The folders that the user has gone through, one in the other, and how many of them lead to the one
/// that is shown.
#[derive(Debug)]
pub struct FolderHistory {
    names: Vec<String>,
    current: usize,
}

/// What a `FolderHistory` says.
pub struct HistoryView {
    pub names: Seq<Seq<char>>,
    pub current: int,
}

impl View for FolderHistory {
    type V = HistoryView;

    closed spec fn view(&self) -> HistoryView {
        HistoryView { names: str_views(self.names@), current: self.current as int }
    }
}

/// Whether the folder that is shown is one of those that were gone through.
pub open spec fn is_valid(h: HistoryView) -> bool {
    0 <= h.current <= h.names.len()
}

/// The path of the folder that is shown; the root has an empty one.
pub open spec fn shown_path(h: HistoryView) -> Seq<char> {
    path_of(h.names.take(h.current))
}

/// One folder up.
pub open spec fn back(h: HistoryView) -> HistoryView {
    if h.current > 0 {
        HistoryView { current: h.current - 1, ..h }
    } else {
        h
    }
}

/// One folder down again.
pub open spec fn forth(h: HistoryView) -> HistoryView {
    if h.current < h.names.len() {
        HistoryView { current: h.current + 1, ..h }
    } else {
        h
    }
}

/// Into a folder of the one that is shown; what lay ahead is forgotten.
pub open spec fn into(h: HistoryView, name: Seq<char>) -> HistoryView {
    HistoryView { names: h.names.take(h.current).push(name), current: h.current + 1 }
}

impl FolderHistory {
    pub fn new() -> (r: Self)
        ensures
            is_valid(r@),
            r@.names == Seq::<Seq<char>>::empty(),
            r@.current == 0,
    {
        let names: Vec<String> = Vec::new();
        assert(str_views(names@) =~= Seq::empty());
        FolderHistory { names, current: 0 }
    }

    /// How many folders lead to the one that is shown.
    pub fn folder_curr_idx(&self) -> (r: usize)
        ensures
            r == self@.current,
    {
        self.current
    }

    /// How many folders were gone through.
    pub fn folder_history_len(&self) -> (r: usize)
        ensures
            r == self@.names.len(),
    {
        self.names.len()
    }

    /// The path of the folder that is shown.
    pub fn folder_path(&self) -> (r: String)
        requires
            is_valid(self@),
        ensures
            r@ == shown_path(self@),
    {
        let ghost views = str_views(self.names@);
        let mut path: String = String::new();
        let mut i: usize = 0;
        assert(views.take(0) =~= Seq::empty());
        while i < self.current
            invariant
                views == str_views(self.names@),
                i <= self.current <= self.names@.len(),
                path@ == path_of(views.take(i as int)),
            decreases self.current - i,
        {
            let ghost before = path@;
            if i > 0 {
                path.push('/');
            }
            append(&mut path, self.names[i].as_str());
            proof {
                assert(views.take(i + 1).drop_last() =~= views.take(i as int));
                assert(views.take(i + 1).last() == self.names@[i as int]@);
                if i == 0 {
                    assert(before =~= Seq::empty());
                    assert(path@ =~= self.names@[0]@);
                } else {
                    assert(path@ =~= before + seq!['/'] + self.names@[i as int]@);
                }
            }
            i = i + 1;
        }
        path
    }

    /// Goes one folder up. Says whether another folder is then shown.
    pub fn folder_backward(&mut self) -> (r: bool)
        requires
            is_valid(old(self)@),
        ensures
            is_valid(final(self)@),
            final(self)@ == back(old(self)@),
            r == (old(self)@.current > 0),
    {
        if self.current > 0 {
            self.current = self.current - 1;
            true
        } else {
            false
        }
    }

    /// Goes one folder down again. Says whether another folder is then shown.
    pub fn folder_forward(&mut self) -> (r: bool)
        requires
            is_valid(old(self)@),
        ensures
            is_valid(final(self)@),
            final(self)@ == forth(old(self)@),
            r == (old(self)@.current < old(self)@.names.len()),
    {
        if self.current < self.names.len() {
            self.current = self.current + 1;
            true
        } else {
            false
        }
    }

    /// Goes into a folder of the one that is shown.
    pub fn navigate_to(&mut self, name: &str)
        requires
            is_valid(old(self)@),
        ensures
            is_valid(final(self)@),
            final(self)@ == into(old(self)@, name@),
    {
        let ghost before = self@;
        self.names.truncate(self.current);
        self.names.push(name.to_owned());
        self.current = self.names.len();
        proof {
            assert(self@.names =~= before.names.take(before.current).push(name@));
        }
    }

    /// Goes back to the root and forgets every folder.
    pub fn clear(&mut self)
        ensures
            is_valid(final(self)@),
            final(self)@.names == Seq::<Seq<char>>::empty(),
            final(self)@.current == 0,
    {
        self.names.clear();
        self.current = 0;
        assert(str_views(self.names@) =~= Seq::empty());
    }
}

/// Going up from a folder that was gone into shows the folder before, and going down shows it again.
pub proof fn law_up_undoes_into(h: HistoryView, name: Seq<char>)
    requires
        is_valid(h),
    ensures
        shown_path(back(into(h, name))) == shown_path(h),
        forth(back(into(h, name))) == into(h, name),
        is_valid(into(h, name)),
{
    assert(into(h, name).names.take(h.current) =~= h.names.take(h.current));
}

/// Up and down undo each other, wherever there is a way.
pub proof fn law_up_and_down(h: HistoryView)
    requires
        is_valid(h),
    ensures
        h.current > 0 ==> forth(back(h)) == h,
        h.current < h.names.len() ==> back(forth(h)) == h,
        is_valid(back(h)),
        is_valid(forth(h)),
{
}

/// The path of a folder is that of the one around it, a slash, and its name; right under the root it is
/// its name alone.
pub proof fn law_paths_grow(h: HistoryView, name: Seq<char>)
    requires
        is_valid(h),
    ensures
        shown_path(into(h, name)) == (if h.current == 0 {
            name
        } else {
            shown_path(h) + seq!['/'] + name
        }),
{
    let names = into(h, name).names;
    assert(names.take(h.current + 1) =~= names);
    assert(names.drop_last() =~= h.names.take(h.current));
}

/// Going into a folder shows it, and forgets what lay ahead; going up leaves it ahead; going down again shows
/// it. Nothing lies above the root, and nothing ahead of the last folder.
pub proof fn law_walking(
    a: &mut FolderHistory,
    name: &str,
    b: &mut FolderHistory,
    up: bool,
    c: &mut FolderHistory,
    down: bool,
)
    requires
        is_valid(old(a)@),
        is_valid(old(b)@),
        is_valid(old(c)@),
        call_ensures(FolderHistory::navigate_to, (a, name), ()),
        call_ensures(FolderHistory::folder_backward, (b,), up),
        call_ensures(FolderHistory::folder_forward, (c,), down),
    ensures
        final(a)@.current == old(a)@.current + 1,
        final(a)@.names.len() == old(a)@.current + 1,
        final(a)@.names.last() == name@,
        forall|i: int| 0 <= i < old(a)@.current ==> final(a)@.names[i] == old(a)@.names[i],
        up <==> old(b)@.current > 0,
        up ==> final(b)@.current == old(b)@.current - 1,
        !up ==> final(b)@.current == old(b)@.current,
        final(b)@.names == old(b)@.names,
        down <==> old(c)@.current < old(c)@.names.len(),
        down ==> final(c)@.current == old(c)@.current + 1,
        !down ==> final(c)@.current == old(c)@.current,
        final(c)@.names == old(c)@.names,
{
}

/// The path of the root is empty, that of a folder in it is its name, and that of any other is the path of the
/// folder above it, a slash and its name.
pub proof fn law_paths(h: FolderHistory, r: String)
    requires
        is_valid(h@),
        call_ensures(FolderHistory::folder_path, (&h,), r),
    ensures
        h@.current == 0 ==> r@.len() == 0,
        h@.current == 1 ==> r@ == h@.names[0],
        h@.current > 1 ==> r@ == path_of(h@.names.take(h@.current - 1)) + seq!['/']
            + h@.names[h@.current - 1],
{
    let names = h@.names.take(h@.current);
    if h@.current > 1 {
        assert(names.drop_last() =~= h@.names.take(h@.current - 1));
    }
}

}

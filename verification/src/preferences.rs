//! The page of the settings for the library: the order of the mounts, the words that separate names,
//! and the sizes of the caches.
use vstd::prelude::*;

use crate::client::mounts::{is_mounted, lemma_position, position, Mount};
use crate::common::str_views;
use crate::text::{
    append, chars_of, digits, index_of_char, lemma_index_of_char, numbered, same, string_of,
};

verus! {

/// Where the first mount of a name stands, or how many mounts there are where none has it.
pub open spec fn mount_index(mounts: Seq<Mount>, name: Seq<char>) -> int
    decreases mounts.len(),
{
    if mounts.len() == 0 || mounts[0].name@ == name {
        0
    } else {
        1 + mount_index(mounts.drop_first(), name)
    }
}

/// `mount_index` is the first place that holds a mount of the name.
pub proof fn lemma_mount_index(mounts: Seq<Mount>, name: Seq<char>)
    ensures
        0 <= mount_index(mounts, name) <= mounts.len(),
        mount_index(mounts, name) < mounts.len() ==> mounts[mount_index(mounts, name)].name@ == name,
        forall|i: int|
            0 <= i < mount_index(mounts, name) ==> (#[trigger] mounts[i]).name@ != name,
        mount_index(mounts, name) < mounts.len() <==> is_mounted(mounts, name),
    decreases mounts.len(),
{
    if mounts.len() != 0 && mounts[0].name@ != name {
        let rest = mounts.drop_first();
        lemma_mount_index(rest, name);
        assert forall|i: int| 0 <= i < mount_index(mounts, name) implies (
        #[trigger] mounts[i]).name@ != name by {
            if i > 0 {
                assert(rest[i - 1] == mounts[i]);
            }
        }
        if is_mounted(mounts, name) {
            let i = choose|i: int| 0 <= i < mounts.len() && (#[trigger] mounts[i]).name@ == name;
            assert(rest[i - 1] == mounts[i]);
        }
    }
}

/// The known mounts that the user has put in order, in that order.
pub open spec fn preferred(known: Seq<Mount>, priority: Seq<String>) -> Seq<Mount>
    decreases priority.len(),
{
    if priority.len() == 0 {
        Seq::empty()
    } else {
        let listed = preferred(known, priority.drop_last());
        let i = mount_index(known, priority.last()@);
        if i < known.len() {
            listed.push(known[i])
        } else {
            listed
        }
    }
}

/// `listed`, and behind it the known mounts whose names it lacks.
pub open spec fn with_others(listed: Seq<Mount>, known: Seq<Mount>) -> Seq<Mount>
    decreases known.len(),
{
    if known.len() == 0 {
        listed
    } else {
        let so_far = with_others(listed, known.drop_last());
        if is_mounted(so_far, known.last().name@) {
            so_far
        } else {
            so_far.push(known.last())
        }
    }
}

fn find_mount(mounts: &[Mount], name: &str) -> (r: usize)
    ensures
        r == mount_index(mounts@, name@),
{
    let mut i: usize = 0;
    while i < mounts.len() && !same(mounts[i].name.as_str(), name)
        invariant
            i <= mounts@.len(),
            forall|j: int| 0 <= j < i ==> (#[trigger] mounts@[j]).name@ != name@,
        decreases mounts.len() - i,
    {
        i = i + 1;
    }
    proof {
        lemma_mount_index(mounts@, name@);
        let k = mount_index(mounts@, name@);
        if k < i {
            assert(mounts@[k].name@ != name@);
        }
    }
    i
}

/// The mounts as the list shows them: those that the user has put in order, then the others.
pub fn mount_list(known: &[Mount], priority: &Vec<String>) -> (r: Vec<Mount>)
    ensures
        r@ == with_others(preferred(known@, priority@), known@),
{
    let mut list: Vec<Mount> = Vec::new();
    let mut i: usize = 0;
    while i < priority.len()
        invariant
            i <= priority@.len(),
            list@ == preferred(known@, priority@.take(i as int)),
        decreases priority.len() - i,
    {
        proof {
            assert(priority@.take(i + 1).drop_last() =~= priority@.take(i as int));
            lemma_mount_index(known@, priority@[i as int]@);
        }
        let k: usize = find_mount(known, priority[i].as_str());
        if k < known.len() {
            list.push(known[k].clone());
        }
        i = i + 1;
    }
    assert(priority@.take(i as int) =~= priority@);
    let ghost listed = list@;
    let mut j: usize = 0;
    assert(known@.take(0) =~= Seq::empty());
    while j < known.len()
        invariant
            j <= known@.len(),
            list@ == with_others(listed, known@.take(j as int)),
        decreases known.len() - j,
    {
        proof {
            assert(known@.take(j + 1).drop_last() =~= known@.take(j as int));
            lemma_mount_index(list@, known@[j as int].name@);
        }
        let k: usize = find_mount(list.as_slice(), known[j].name.as_str());
        if k == list.len() {
            list.push(known[j].clone());
        }
        j = j + 1;
    }
    assert(known@.take(j as int) =~= known@);
    list
}

proof fn lemma_preferred_are_known(known: Seq<Mount>, priority: Seq<String>)
    ensures
        forall|i: int|
            0 <= i < preferred(known, priority).len() ==> known.contains(
                #[trigger] preferred(known, priority)[i],
            ),
    decreases priority.len(),
{
    if priority.len() > 0 {
        let listed = preferred(known, priority.drop_last());
        lemma_preferred_are_known(known, priority.drop_last());
        lemma_mount_index(known, priority.last()@);
        assert forall|i: int| 0 <= i < preferred(known, priority).len() implies known.contains(
            #[trigger] preferred(known, priority)[i],
        ) by {
            if i < listed.len() {
                assert(listed[i] == preferred(known, priority)[i]);
            }
        }
    }
}

proof fn lemma_with_others(listed: Seq<Mount>, known: Seq<Mount>)
    ensures
        ({
            let all = with_others(listed, known);
            &&& all.len() >= listed.len()
            &&& all.take(listed.len() as int) =~= listed
            &&& forall|i: int|
                listed.len() <= i < all.len() ==> known.contains(#[trigger] all[i]) && !is_mounted(
                    listed,
                    all[i].name@,
                )
            &&& forall|i: int| 0 <= i < known.len() ==> is_mounted(all, (#[trigger] known[i]).name@)
        }),
    decreases known.len(),
{
    if known.len() > 0 {
        let front = known.drop_last();
        let so_far = with_others(listed, front);
        let all = with_others(listed, known);
        lemma_with_others(listed, front);
        assert forall|i: int| listed.len() <= i < all.len() implies known.contains(
            #[trigger] all[i],
        ) && !is_mounted(listed, all[i].name@) by {
            if i < so_far.len() {
                let k = choose|k: int| 0 <= k < front.len() && front[k] == so_far[i];
                assert(known[k] == all[i]);
            } else {
                assert(known[known.len() - 1] == all[i]);
                if is_mounted(listed, all[i].name@) {
                    let k = choose|k: int|
                        0 <= k < listed.len() && (#[trigger] listed[k]).name@ == all[i].name@;
                    assert(so_far.take(listed.len() as int)[k] == so_far[k]);
                    assert(is_mounted(so_far, all[i].name@));
                }
            }
        }
        assert forall|i: int| 0 <= i < known.len() implies is_mounted(
            all,
            (#[trigger] known[i]).name@,
        ) by {
            if i < front.len() {
                assert(front[i] == known[i]);
                let k = choose|k: int|
                    0 <= k < so_far.len() && (#[trigger] so_far[k]).name@ == known[i].name@;
                assert(all[k] == so_far[k]);
            } else if !is_mounted(so_far, known.last().name@) {
                assert(all[so_far.len() as int] == known[i]);
            }
        }
    }
}

/// The list of mounts holds known mounts only and misses none; those that the user has put in order
/// come first.
pub proof fn law_mount_list_is_complete(known: Seq<Mount>, priority: Seq<String>)
    ensures
        ({
            let listed = preferred(known, priority);
            let all = with_others(listed, known);
            &&& forall|i: int| 0 <= i < all.len() ==> known.contains(#[trigger] all[i])
            &&& forall|i: int| 0 <= i < known.len() ==> is_mounted(all, (#[trigger] known[i]).name@)
            &&& listed.len() <= all.len()
            &&& all.take(listed.len() as int) == listed
        }),
{
    let listed = preferred(known, priority);
    let all = with_others(listed, known);
    lemma_preferred_are_known(known, priority);
    lemma_with_others(listed, known);
    assert forall|i: int| 0 <= i < all.len() implies known.contains(#[trigger] all[i]) by {
        if i < listed.len() {
            assert(all.take(listed.len() as int)[i] == listed[i]);
        }
    }
}

/// The list after the row at `source` was dropped on the one at `target`: it stands before that one.
pub open spec fn moved_before(names: Seq<String>, source: int, target: int) -> Seq<String> {
    names.remove(source).insert(
        if source < target {
            target - 1
        } else {
            target
        },
        names[source],
    )
}

/// Drops the first row called `name` on the row at `target`. Whether anything changed: it does not
/// where no row is called so, or where the row is dropped on itself.
pub fn drop_row(names: &mut Vec<String>, name: &str, target: usize) -> (r: bool)
    requires
        target < old(names)@.len(),
    ensures
        ({
            let source = position(old(names)@, name@);
            &&& r == (source < old(names)@.len() && source != target)
            &&& final(names)@ == (if r {
                moved_before(old(names)@, source, target as int)
            } else {
                old(names)@
            })
        }),
{
    let mut i: usize = 0;
    while i < names.len() && !same(names[i].as_str(), name)
        invariant
            names@ == old(names)@,
            i <= names@.len(),
            forall|j: int| 0 <= j < i ==> (#[trigger] names@[j])@ != name@,
        decreases names.len() - i,
    {
        i = i + 1;
    }
    proof {
        lemma_position(names@, name@);
        let k = position(names@, name@);
        if k < i {
            assert(names@[k]@ != name@);
        }
    }
    if i == names.len() || i == target {
        return false;
    }
    let row: String = names.remove(i);
    let place: usize = if i < target {
        target - 1
    } else {
        target
    };
    names.insert(place, row);
    true
}

/// Dropping a row elsewhere keeps all rows.
pub proof fn law_dropping_keeps_rows(names: Seq<String>, source: int, target: int)
    requires
        0 <= source < names.len(),
        0 <= target < names.len(),
        source != target,
    ensures
        moved_before(names, source, target).to_multiset() == names.to_multiset(),
        ({
            let place = if source < target {
                target - 1
            } else {
                target
            };
            &&& moved_before(names, source, target)[place] == names[source]
            &&& moved_before(names, source, target)[place + 1] == names[target]
        }),
{
    let place = if source < target {
        target - 1
    } else {
        target
    };
    let rest = names.remove(source);
    names.to_multiset_ensures();
    vstd::seq_lib::to_multiset_insert(rest, place, names[source]);
    assert(rest.to_multiset() == names.to_multiset().remove(names[source]));
    assert(moved_before(names, source, target).to_multiset() =~= names.to_multiset());
}

/// A line as text files end it: without a carriage return before the line feed.
pub open spec fn without_return(line: Seq<char>) -> Seq<char> {
    if line.len() > 0 && line.last() == '\r' {
        line.drop_last()
    } else {
        line
    }
}

/// The lines of a text. A line feed ends a line, so that none stands behind the last one.
pub open spec fn lines_of(text: Seq<char>) -> Seq<Seq<char>>
    decreases text.len(),
    via lines_end
{
    let end = index_of_char(text, '\n');
    if text.len() == 0 {
        Seq::empty()
    } else if end >= text.len() {
        seq![text]
    } else {
        seq![without_return(text.take(end))] + lines_of(text.skip(end + 1))
    }
}

#[via_fn]
proof fn lines_end(text: Seq<char>) {
    lemma_index_of_char(text, '\n');
}

/// Some lines as one text.
pub open spec fn text_of(lines: Seq<Seq<char>>) -> Seq<char>
    decreases lines.len(),
{
    if lines.len() == 0 {
        Seq::empty()
    } else if lines.len() == 1 {
        lines[0]
    } else {
        lines[0] + seq!['\n'] + text_of(lines.drop_first())
    }
}

/// The words that a page of the settings lists, one on each line.
pub fn split_lines(text: &str) -> (r: Vec<String>)
    ensures
        str_views(r@) == lines_of(text@),
{
    let x: Vec<char> = chars_of(text);
    let mut lines: Vec<String> = Vec::new();
    let mut line: Vec<char> = Vec::new();
    let mut i: usize = 0;
    let ghost mut start: int = 0;
    assert(x@.skip(0) =~= text@);
    assert(str_views(lines@) + lines_of(text@) =~= lines_of(text@));
    while i < x.len()
        invariant
            x@ == text@,
            0 <= start <= i <= x@.len(),
            line@ == x@.subrange(start, i as int),
            forall|j: int| start <= j < i ==> x@[j] != '\n',
            str_views(lines@) + lines_of(x@.skip(start)) == lines_of(text@),
        decreases x.len() - i,
    {
        if x[i] == '\n' {
            let ghost rest = x@.skip(start);
            let ghost before = lines@;
            proof {
                lemma_index_of_char(rest, '\n');
                let k = index_of_char(rest, '\n');
                assert(rest[i - start] == '\n');
                if k < i - start {
                    assert(rest[k] == x@[start + k]);
                }
                assert(k == i - start);
                assert(rest.take(k) =~= line@);
                assert(rest.skip(k + 1) =~= x@.skip(i + 1));
            }
            if line.len() > 0 && line[line.len() - 1] == '\r' {
                let ghost whole = line@;
                line.pop();
                assert(line@ =~= whole.drop_last());
            }
            lines.push(string_of(&line));
            line = Vec::new();
            proof {
                start = i + 1;
                assert(str_views(lines@) =~= str_views(before).push(lines@.last()@));
                assert(str_views(lines@) + lines_of(x@.skip(start)) =~= str_views(before)
                    + lines_of(rest));
            }
        } else {
            assert(x@.subrange(start, i + 1) =~= x@.subrange(start, i as int).push(x@[i as int]));
            line.push(x[i]);
        }
        i = i + 1;
    }
    proof {
        let rest = x@.skip(start);
        lemma_index_of_char(rest, '\n');
        let k = index_of_char(rest, '\n');
        if k < rest.len() {
            assert(rest[k] == x@[start + k]);
        }
        assert(rest =~= line@);
    }
    if line.len() > 0 {
        let ghost before = lines@;
        lines.push(string_of(&line));
        assert(str_views(lines@) =~= str_views(before) + seq![line@]);
    } else {
        assert(str_views(lines@) + Seq::<Seq<char>>::empty() =~= str_views(lines@));
    }
    lines
}

/// Some words as a page of the settings shows them, one on each line.
pub fn join_lines(lines: &Vec<String>) -> (r: String)
    ensures
        r@ == text_of(str_views(lines@)),
{
    let ghost all = str_views(lines@);
    let mut s: String = String::new();
    let mut i: usize = 0;
    assert(all.skip(0) =~= all);
    assert(s@ + text_of(all) =~= text_of(all));
    while i < lines.len()
        invariant
            all == str_views(lines@),
            i <= lines@.len(),
            s@ + text_of(all.skip(i as int)) == text_of(all),
        decreases lines.len() - i,
    {
        let ghost before = s@;
        let ghost rest = all.skip(i as int);
        assert(rest[0] == lines@[i as int]@);
        assert(rest.drop_first() =~= all.skip(i + 1));
        append(&mut s, lines[i].as_str());
        if i + 1 < lines.len() {
            append(&mut s, "\n");
            proof {
                reveal_strlit("\n");
                assert("\n"@ =~= seq!['\n']);
                assert(s@ + text_of(all.skip(i + 1)) =~= before + text_of(rest));
            }
        } else {
            assert(s@ + text_of(all.skip(i + 1)) =~= before + text_of(rest));
        }
        i = i + 1;
    }
    assert(s@ + text_of(all.skip(i as int)) =~= s@);
    s
}

/// Whether a text can hold some lines: no line feed in them, no carriage return at their ends, and
/// something on the last.
pub open spec fn are_lines(lines: Seq<Seq<char>>) -> bool {
    &&& forall|i: int|
        0 <= i < lines.len() ==> !(#[trigger] lines[i]).contains('\n') && without_return(lines[i])
            == lines[i]
    &&& lines.len() > 0 ==> lines.last().len() > 0
}

/// Words that were shown one on each line are read back. An empty word at the end is not, nor is one
/// that holds a line feed.
pub proof fn law_lines_are_read_back(lines: Seq<Seq<char>>)
    requires
        are_lines(lines),
    ensures
        lines_of(text_of(lines)) == lines,
    decreases lines.len(),
{
    if lines.len() > 0 {
        let text = text_of(lines);
        let first = lines[0];
        assert(!first.contains('\n'));
        lemma_index_of_char(text, '\n');
        let k = index_of_char(text, '\n');
        if lines.len() == 1 {
            if k < text.len() {
                assert(first.contains(first[k]));
            }
            assert(lines =~= seq![first]);
        } else {
            let rest = lines.drop_first();
            assert(are_lines(rest)) by {
                assert forall|i: int| 0 <= i < rest.len() implies !(
                #[trigger] rest[i]).contains('\n') && without_return(rest[i]) == rest[i] by {
                    assert(rest[i] == lines[i + 1]);
                }
            }
            law_lines_are_read_back(rest);
            assert(text[first.len() as int] == '\n');
            if k < first.len() {
                assert(text[k] == first[k]);
                assert(first.contains(first[k]));
            }
            assert(k == first.len());
            assert(text.take(k) =~= first);
            assert(text.skip(k + 1) =~= text_of(rest));
            assert(lines =~= seq![first] + rest);
        }
    }
}

/// Measures the caches, and not again while that goes on.
#[derive(Debug, Clone, Copy, PartialEq, Eq, Structural)]
pub struct CacheStats {
    pub n_async_in_progress: u8,
}

/// How many caches are measured: that of images and that of metadata.
pub const MEASURES_BEGUN: u8 = 2;

impl CacheStats {
    pub fn new() -> (r: Self)
        ensures
            r.n_async_in_progress == 0,
    {
        CacheStats { n_async_in_progress: 0 }
    }

    /// Whether the caches are to be measured now.
    pub fn refresh_cache_stats(&mut self) -> (r: bool)
        ensures
            r == (old(self).n_async_in_progress == 0),
            final(self).n_async_in_progress == (if r {
                MEASURES_BEGUN
            } else {
                old(self).n_async_in_progress
            }),
    {
        if self.n_async_in_progress == 0 {
            self.n_async_in_progress = MEASURES_BEGUN;
            true
        } else {
            false
        }
    }

    /// A cache has been measured.
    pub fn measured(&mut self)
        requires
            old(self).n_async_in_progress > 0,
        ensures
            final(self).n_async_in_progress == old(self).n_async_in_progress - 1,
    {
        self.n_async_in_progress = self.n_async_in_progress - 1;
    }
}

/// What is said of the cache of images: how many there are, and their size in words.
pub fn image_cache_label(n_files: u64, size: &str) -> (r: String)
    ensures
        r@ == ""@ + digits(n_files as nat) + " file(s) ("@ + size@ + ")"@,
{
    let mut s: String = numbered("", n_files, " file(s) (");
    append(&mut s, size);
    append(&mut s, ")");
    s
}

/// A row that is dropped on another comes to stand before it; the other rows keep their order. Nothing changes
/// where it is dropped on itself or is not in the list.
pub proof fn law_rows_are_dropped(names: &mut Vec<String>, name: &str, target: usize, r: bool)
    requires
        target < old(names)@.len(),
        call_ensures(drop_row, (names, name, target), r),
    ensures
        !r ==> final(names)@ == old(names)@,
        final(names)@.len() == old(names)@.len(),
        old(names)@[target as int]@ == name@ && (forall|i: int|
            0 <= i < target ==> (#[trigger] old(names)@[i])@ != name@) ==> !r,
        r ==> exists|place: int|
            0 <= place < final(names)@.len() - 1 && (#[trigger] final(names)@[place])@ == name@
                && final(names)@[place + 1] == old(names)@[target as int],
        final(names)@.to_multiset() == old(names)@.to_multiset(),
{
    let source = position(old(names)@, name@);
    lemma_position(old(names)@, name@);
    if r {
        law_dropping_keeps_rows(old(names)@, source, target as int);
        let place = if source < target {
            target - 1
        } else {
            target as int
        };
        let moved = final(names)@;
        assert(moved[place] == old(names)@[source]);
        assert(moved[place]@ == name@ && moved[place + 1] == old(names)@[target as int]);
    }
    if old(names)@[target as int]@ == name@ && (forall|i: int|
        0 <= i < target ==> (#[trigger] old(names)@[i])@ != name@) {
        if source < target {
            assert(old(names)@[source]@ == name@);
        }
        assert(source == target);
    }
}

/// The caches are measured once at a time: both measures must be there before they are taken anew.
pub proof fn law_caches_are_measured(
    new: CacheStats,
    a: &mut CacheStats,
    r: bool,
    b: &mut CacheStats,
)
    requires
        call_ensures(CacheStats::new, (), new),
        call_ensures(CacheStats::refresh_cache_stats, (a,), r),
        old(b).n_async_in_progress > 0,
        call_ensures(CacheStats::measured, (b,), ()),
    ensures
        new.n_async_in_progress == 0,
        r <==> old(a).n_async_in_progress == 0,
        r ==> final(a).n_async_in_progress == 2,
        !r ==> final(a).n_async_in_progress == old(a).n_async_in_progress,
        final(b).n_async_in_progress + 1 == old(b).n_async_in_progress,
{
}

/// Lines are joined by breaks, and are split again at them: what is split holds no break, and a text without
/// one is a single line.
pub proof fn law_lines_are_split(text: &str, r: Vec<String>, joined: String, again: Vec<String>, t: &str)
    requires
        call_ensures(split_lines, (text,), r),
        are_lines(str_views(r@)),
        call_ensures(join_lines, (&r,), joined),
        t@ == joined@,
        call_ensures(split_lines, (t,), again),
    ensures
        str_views(again@) == str_views(r@),
        text@.len() == 0 ==> r@.len() == 0,
        text@.len() > 0 && !text@.contains('\n') ==> r@.len() == 1 && r@[0]@ == text@,
{
    law_lines_are_read_back(str_views(r@));
    let views = str_views(r@);
    assert(views.len() == r@.len());
    lemma_index_of_char(text@, '\n');
    if text@.len() > 0 && !text@.contains('\n') {
        let end = index_of_char(text@, '\n');
        if end < text@.len() {
            assert(text@[end] == '\n');
        }
        assert(views[0] == r@[0]@);
    }
}

/// A cache is shown by how many files it holds and how large they are.
pub proof fn law_caches_are_shown(n: u64, size: &str, r: String)
    requires
        call_ensures(image_cache_label, (n, size), r),
    ensures
        r@ == digits(n as nat) + " file(s) ("@ + size@ + ")"@,
{
    reveal_strlit("");
    assert(""@ + digits(n as nat) =~= digits(n as nat));
}

/// Mounts that the user has put first come first, in the order that was chosen; each name that is known is
/// listed, and the others come behind.
pub proof fn law_chosen_mounts_come_first(
    known: &[Mount],
    priority: Vec<String>,
    r: Vec<Mount>,
    n: nat,
)
    requires
        call_ensures(mount_list, (known, &priority), r),
        n <= priority@.len(),
        forall|i: int| 0 <= i < n ==> is_mounted(known@, (#[trigger] priority@[i])@),
    ensures
        r@.len() >= n,
        forall|i: int| 0 <= i < n ==> (#[trigger] r@[i]).name@ == priority@[i]@,
        forall|i: int| 0 <= i < known@.len() ==> is_mounted(r@, (#[trigger] known@[i]).name@),
        forall|i: int| 0 <= i < r@.len() ==> known@.contains(#[trigger] r@[i]),
{
    law_mount_list_is_complete(known@, priority@);
    let listed = preferred(known@, priority@);
    lemma_preferred(known@, priority@, n);
    assert forall|i: int| 0 <= i < n implies (#[trigger] r@[i]).name@ == priority@[i]@ by {
        assert(r@.take(listed.len() as int)[i] == listed[i]);
    }
}

proof fn lemma_preferred(known: Seq<Mount>, priority: Seq<String>, n: nat)
    requires
        n <= priority.len(),
        forall|i: int| 0 <= i < n ==> is_mounted(known, (#[trigger] priority[i])@),
    ensures
        preferred(known, priority).len() >= n,
        forall|i: int|
            0 <= i < n ==> (#[trigger] preferred(known, priority)[i]).name@ == priority[i]@,
    decreases priority.len(),
{
    if priority.len() > 0 {
        let init = priority.drop_last();
        let m: nat = if n == priority.len() {
            (n - 1) as nat
        } else {
            n
        };
        assert forall|i: int| 0 <= i < m implies is_mounted(known, (#[trigger] init[i])@) by {
            assert(init[i] == priority[i]);
        }
        lemma_preferred(known, init, m);
        lemma_preferred_len(known, init);
        lemma_mount_index(known, priority.last()@);
        if n == priority.len() {
            assert(is_mounted(known, priority[n - 1]@));
        }
        assert forall|i: int| 0 <= i < n implies (#[trigger] preferred(known, priority)[i]).name@
            == priority[i]@ by {
            if i < m {
                assert(preferred(known, init)[i].name@ == init[i]@);
            }
        }
    }
}

proof fn lemma_preferred_len(known: Seq<Mount>, priority: Seq<String>)
    ensures
        preferred(known, priority).len() <= priority.len(),
    decreases priority.len(),
{
    if priority.len() > 0 {
        lemma_preferred_len(known, priority.drop_last());
    }
}

}

//! The storages that an MPD server has mounted, and the order in which the user prefers them.
//!
//! `classify` maps the URI of a folder to the mount that holds it, which is the one with the longest name
//! that the URI starts with, and `rank` orders mounts for the choice of one copy of an album among several.
use vstd::prelude::*;
use vstd::string::*;

use crate::text::{before_first, chars_of, lemma_index_of_char, same};

verus! {

#[derive(Debug)]
pub struct Mount {
    pub name: String,
    pub storage: String,
}

impl Clone for Mount {
    fn clone(&self) -> (r: Self)
        ensures
            r == *self,
    {
        Mount { name: self.name.clone(), storage: self.storage.clone() }
    }
}

impl PartialEq for Mount {
    fn eq(&self, other: &Self) -> (r: bool) {
        self.name == other.name && self.storage == other.storage
    }
}

impl vstd::std_specs::cmp::PartialEqSpecImpl for Mount {
    open spec fn obeys_eq_spec() -> bool {
        true
    }

    open spec fn eq_spec(&self, other: &Self) -> bool {
        self.name@ == other.name@ && self.storage@ == other.storage@
    }
}

impl Eq for Mount {

}

/// The mounts last reported by the server, without the implicit root storage, and the names that
/// the user has put in order.
#[derive(Debug)]
pub struct MountRegistry {
    known: Vec<Mount>,
    priority: Vec<String>,
}

/// Where `name` first stands in `names`, or the length of `names` where it does not.
pub open spec fn position(names: Seq<String>, name: Seq<char>) -> int
    decreases names.len(),
{
    if names.len() == 0 || names[0]@ == name {
        0
    } else {
        1 + position(names.drop_first(), name)
    }
}

/// `position` is the first place that holds `name`, and the length where none does.
pub proof fn lemma_position(names: Seq<String>, name: Seq<char>)
    ensures
        0 <= position(names, name) <= names.len(),
        position(names, name) < names.len() ==> names[position(names, name)]@ == name,
        forall|i: int| 0 <= i < position(names, name) ==> names[i]@ != name,
    decreases names.len(),
{
    if names.len() != 0 && names[0]@ != name {
        lemma_position(names.drop_first(), name);
        assert forall|i: int| 0 <= i < position(names, name) implies names[i]@ != name by {
            if i > 0 {
                assert(names.drop_first()[i - 1] == names[i]);
            }
        }
    }
}

/// Whether one of `mounts` is called `name`.
pub open spec fn is_mounted(mounts: Seq<Mount>, name: Seq<char>) -> bool {
    exists|i: int| 0 <= i < mounts.len() && (#[trigger] mounts[i]).name@ == name
}

/// Whether `uri` is `name` or lies below it: the whole of `name` is the start of its path.
pub open spec fn holds(uri: Seq<char>, name: Seq<char>) -> bool {
    name.is_prefix_of(uri) && (uri.len() == name.len() || uri[name.len() as int] == '/')
}

/// The name of the mount that holds `uri`: the longest one that `uri` is or lies below.
pub open spec fn mount_of(mounts: Seq<Mount>, uri: Seq<char>) -> Option<Seq<char>>
    decreases mounts.len(),
{
    if mounts.len() == 0 {
        None
    } else {
        let best = mount_of(mounts.drop_last(), uri);
        let name = mounts.last().name@;
        if holds(uri, name) && (best is None || best->0.len() < name.len()) {
            Some(name)
        } else {
            best
        }
    }
}

/// Whether `uri`, whose characters are `chars`, is `name` or lies below it.
fn lies_in(uri: &str, chars: &Vec<char>, name: &str) -> (r: bool)
    requires
        chars@ == uri@,
    ensures
        r == holds(uri@, name@),
{
    let n: usize = name.unicode_len();
    if n > chars.len() {
        return false;
    }
    let start: &str = uri.substring_char(0, n);
    assert(start@ =~= uri@.take(n as int));
    assert(name@.is_prefix_of(uri@) <==> start@ == name@);
    same(start, name) && (n == chars.len() || chars[n] == '/')
}

/// The place of a mount in the user's order: the lower the better, and `usize::MAX` for a mount that
/// is not listed and for the root storage.
pub open spec fn mount_rank(priority: Seq<String>, name: Option<Seq<char>>) -> int {
    match name {
        Some(n) => if position(priority, n) < priority.len() {
            position(priority, n)
        } else {
            usize::MAX as int
        },
        None => usize::MAX as int,
    }
}

impl MountRegistry {
    /// The mounts last reported by the server.
    pub closed spec fn mounts(&self) -> Seq<Mount> {
        self.known@
    }

    /// The user's order of mount names.
    pub closed spec fn order(&self) -> Seq<String> {
        self.priority@
    }

    #[verifier::type_invariant]
    spec fn has_no_root(&self) -> bool {
        forall|i: int| 0 <= i < self.known@.len() ==> (#[trigger] self.known@[i]).name@.len() > 0
    }

    pub fn new() -> (r: Self)
        ensures
            r.mounts() == Seq::<Mount>::empty(),
            r.order() == Seq::<String>::empty(),
    {
        MountRegistry { known: Vec::new(), priority: Vec::new() }
    }

    /// Replaces the known mounts. The implicit root mount, whose name is empty, is left out: a URI
    /// under it is a URI under no mount.
    pub fn set_known(&mut self, mounts: Vec<Mount>)
        ensures
            final(self).mounts() == mounts@.filter(|m: Mount| m.name@.len() > 0),
            final(self).order() == old(self).order(),
    {
        let ghost named = |m: Mount| m.name@.len() > 0;
        let mut kept: Vec<Mount> = Vec::new();
        for m in it: mounts
            invariant
                it.seq() == mounts@,
                named == (|m: Mount| m.name@.len() > 0),
                kept@ == mounts@.take(it.index()).filter(named),
                forall|i: int| 0 <= i < kept@.len() ==> (#[trigger] kept@[i]).name@.len() > 0,
        {
            proof {
                assert(mounts@.take(it.index() + 1) =~= mounts@.take(it.index()).push(m));
                mounts@.take(it.index()).lemma_filter_push(m, named);
            }
            if !m.name.as_str().is_empty() {
                kept.push(m);
            }
        }
        assert(mounts@.take(mounts@.len() as int) =~= mounts@);
        self.known = kept;
    }

    pub fn known(&self) -> (r: &[Mount])
        ensures
            r@ == self.mounts(),
    {
        self.known.as_slice()
    }

    /// Replaces the user's order. Names that no known mount has are kept, so that the order survives
    /// a mount that is gone for a while.
    pub fn set_priority(&mut self, priority: Vec<String>)
        ensures
            final(self).order() == priority@,
            final(self).mounts() == old(self).mounts(),
    {
        proof {
            use_type_invariant(&*self);
        }
        self.priority = priority;
    }

    pub fn priority(&self) -> (r: &[String])
        ensures
            r@ == self.order(),
    {
        self.priority.as_slice()
    }

    /// The name of the mount that holds `folder_uri`. The server prefixes the URIs of a mounted storage
    /// with the name of the mount, so the longest name that the URI starts with decides. `None` for a URI
    /// in the root storage.
    pub fn classify(&self, folder_uri: &str) -> (r: Option<&str>)
        ensures
            match mount_of(self.mounts(), folder_uri@) {
                Some(name) => r is Some && r->0@ == name,
                None => r is None,
            },
            match r {
                Some(n) => {
                    &&& is_mounted(self.mounts(), n@)
                    &&& holds(folder_uri@, n@)
                    &&& forall|i: int|
                        0 <= i < self.mounts().len() && holds(
                            folder_uri@,
                            #[trigger] self.mounts()[i].name@,
                        ) ==> self.mounts()[i].name@.len() <= n@.len()
                },
                None => forall|i: int|
                    0 <= i < self.mounts().len() ==> !holds(
                        folder_uri@,
                        #[trigger] self.mounts()[i].name@,
                    ),
            },
    {
        let chars: Vec<char> = chars_of(folder_uri);
        let mut best: Option<&str> = None;
        let mut i: usize = 0;
        assert(self.known@.take(0) =~= Seq::empty());
        while i < self.known.len()
            invariant
                i <= self.known@.len(),
                chars@ == folder_uri@,
                match mount_of(self.known@.take(i as int), folder_uri@) {
                    Some(name) => best is Some && best->0@ == name,
                    None => best is None,
                },
            decreases self.known.len() - i,
        {
            let name: &str = self.known[i].name.as_str();
            proof {
                assert(self.known@.take(i + 1).drop_last() =~= self.known@.take(i as int));
                assert(self.known@.take(i + 1).last() == self.known@[i as int]);
            }
            let longer: bool = match best {
                Some(b) => b.unicode_len() < name.unicode_len(),
                None => true,
            };
            if longer && lies_in(folder_uri, &chars, name) {
                best = Some(name);
            }
            i = i + 1;
        }
        proof {
            assert(self.known@.take(i as int) =~= self.known@);
            law_the_longest_name_decides(self.mounts(), folder_uri@);
        }
        best
    }

    /// The place of a mount in the user's order, the lower the better. Mounts that are not listed and
    /// the root storage come after every listed one and share `usize::MAX`.
    pub fn rank(&self, mount_name: Option<&str>) -> (r: usize)
        ensures
            r == mount_rank(
                self.order(),
                match mount_name {
                    Some(n) => Some(n@),
                    None => None,
                },
            ),
    {
        match mount_name {
            Some(name) => {
                let mut i: usize = 0;
                while i < self.priority.len()
                    invariant
                        mount_name == Some(name),
                        i <= self.priority@.len(),
                        forall|j: int| 0 <= j < i ==> (#[trigger] self.priority@[j])@ != name@,
                    decreases self.priority.len() - i,
                {
                    if same(self.priority[i].as_str(), name) {
                        proof {
                            lemma_position(self.priority@, name@);
                            let k = position(self.priority@, name@);
                            assert(self.priority@[i as int]@ == name@);
                            if k < i {
                                assert(self.priority@[k]@ != name@);
                            }
                        }
                        return i;
                    }
                    i = i + 1;
                }
                proof {
                    lemma_position(self.priority@, name@);
                }
                usize::MAX
            },
            None => usize::MAX,
        }
    }
}

impl Default for MountRegistry {
    fn default() -> (r: Self)
        ensures
            r.mounts() == Seq::<Mount>::empty(),
            r.order() == Seq::<String>::empty(),
    {
        MountRegistry::new()
    }
}

/// The implicit root mount is never among the known mounts, whatever the server reports.
pub proof fn law_root_is_not_known(reported: Seq<Mount>)
    ensures
        !is_mounted(reported.filter(|m: Mount| m.name@.len() > 0), Seq::<char>::empty()),
{
    let named = |m: Mount| m.name@.len() > 0;
    let kept = reported.filter(named);
    assert forall|i: int| 0 <= i < kept.len() implies (#[trigger] kept[i]).name@ != Seq::<
        char,
    >::empty() by {
        reported.lemma_filter_pred(named, i);
    }
}

/// A URI is classified under a mount exactly where it is the name of a known mount or starts with one and a
/// slash. Of several such names the longest one decides.
pub proof fn law_the_longest_name_decides(mounts: Seq<Mount>, uri: Seq<char>)
    ensures
        match mount_of(mounts, uri) {
            Some(name) => {
                &&& is_mounted(mounts, name)
                &&& holds(uri, name)
                &&& forall|i: int|
                    0 <= i < mounts.len() && holds(uri, #[trigger] mounts[i].name@)
                        ==> mounts[i].name@.len() <= name.len()
            },
            None => forall|i: int|
                0 <= i < mounts.len() ==> !holds(uri, #[trigger] mounts[i].name@),
        },
    decreases mounts.len(),
{
    if mounts.len() > 0 {
        let init = mounts.drop_last();
        law_the_longest_name_decides(init, uri);
        assert forall|i: int| 0 <= i < init.len() implies #[trigger] init[i] == mounts[i] by {}
        if mount_of(mounts, uri) == mount_of(init, uri) {
            if let Some(name) = mount_of(init, uri) {
                let k = choose|k: int| 0 <= k < init.len() && (#[trigger] init[k]).name@ == name;
                assert(mounts[k].name@ == name);
            }
        } else {
            assert(mounts[mounts.len() - 1].name@ == mount_of(mounts, uri)->0);
        }
        assert forall|i: int|
            0 <= i < mounts.len() && holds(uri, #[trigger] mounts[i].name@) implies mount_of(
            mounts,
            uri,
        ) is Some && mounts[i].name@.len() <= mount_of(mounts, uri)->0.len() by {
            if i < init.len() {
                assert(init[i].name@ == mounts[i].name@);
            }
        }
    }
}

/// Where no name of a mount holds a slash, the first component of the path decides.
pub proof fn law_plain_names_are_first_components(mounts: Seq<Mount>, uri: Seq<char>)
    requires
        forall|i: int|
            0 <= i < mounts.len() ==> (#[trigger] mounts[i]).name@.len() > 0
                && !mounts[i].name@.contains('/'),
    ensures
        mount_of(mounts, uri) == (if is_mounted(mounts, before_first(uri, '/')) {
            Some(before_first(uri, '/'))
        } else {
            None
        }),
{
    let first = before_first(uri, '/');
    lemma_index_of_char(uri, '/');
    law_the_longest_name_decides(mounts, uri);
    assert(holds(uri, first));
    if let Some(name) = mount_of(mounts, uri) {
        let k = choose|k: int| 0 <= k < mounts.len() && (#[trigger] mounts[k]).name@ == name;
        assert(!mounts[k].name@.contains('/'));
        if first.len() < name.len() {
            assert(name[first.len() as int] == uri[first.len() as int]);
            assert(name.contains('/'));
        } else if name.len() < first.len() {
            assert(uri[name.len() as int] == '/');
        }
        assert(name =~= first);
    }
    if is_mounted(mounts, first) {
        let k = choose|k: int| 0 <= k < mounts.len() && (#[trigger] mounts[k]).name@ == first;
        assert(holds(uri, mounts[k].name@));
    }
}

/// Every listed mount ranks before every mount that is not listed and before the root storage; of two
/// listed mounts the one that stands first in the list ranks first.
pub proof fn law_listed_mounts_rank_first(priority: Seq<String>, a: Seq<char>, b: Option<Seq<char>>)
    requires
        priority.len() <= usize::MAX,
        exists|i: int| 0 <= i < priority.len() && (#[trigger] priority[i])@ == a,
    ensures
        b is None ==> mount_rank(priority, Some(a)) < mount_rank(priority, b),
        b matches Some(n) ==> position(priority, a) < position(priority, n) ==> mount_rank(
            priority,
            Some(a),
        ) < mount_rank(priority, b),
{
    lemma_position(priority, a);
    let i = choose|i: int| 0 <= i < priority.len() && (#[trigger] priority[i])@ == a;
    assert(position(priority, a) <= i);
    if let Some(n) = b {
        lemma_position(priority, n);
    }
}

/// A folder lies in the mount whose name is the start of its path, up to a slash or to the end, and in the one
/// with the longest name where several are; where no name is, in none.
pub proof fn law_folders_lie_in_mounts(registry: MountRegistry, uri: &str, r: Option<&str>, i: int)
    requires
        call_ensures(MountRegistry::classify, (&registry, uri), r),
        0 <= i < registry.mounts().len(),
    ensures
        r matches Some(n) ==> n@.len() <= uri@.len() && n@ == uri@.take(n@.len() as int) && (
        uri@.len() == n@.len() || uri@[n@.len() as int] == '/'),
        r matches Some(n) ==> exists|j: int|
            0 <= j < registry.mounts().len() && (#[trigger] registry.mounts()[j]).name@ == n@,
        ({
            let name = registry.mounts()[i].name@;
            name.len() <= uri@.len() && name == uri@.take(name.len() as int) && (uri@.len()
                == name.len() || uri@[name.len() as int] == '/') ==> r is Some && r->0@.len()
                >= name.len()
        }),
{
    let name = registry.mounts()[i].name@;
    if name.len() <= uri@.len() && name == uri@.take(name.len() as int) {
        assert(name.is_prefix_of(uri@));
    }
    if let Some(n) = r {
        assert(n@ =~= uri@.take(n@.len() as int));
    }
}

/// Mounts rank by where the user has put them; what is not listed ranks behind all that is.
pub proof fn law_ranks_of_mounts(registry: MountRegistry, name: &str, r: usize, nowhere: usize, i: int)
    requires
        call_ensures(MountRegistry::rank, (&registry, Some(name)), r),
        call_ensures(MountRegistry::rank, (&registry, None::<&str>), nowhere),
        registry.order().len() <= usize::MAX,
    ensures
        nowhere == usize::MAX,
        0 <= i < registry.order().len() && registry.order()[i]@ == name@ && (forall|j: int|
            0 <= j < i ==> (#[trigger] registry.order()[j])@ != name@) ==> r == i,
        (forall|j: int|
            0 <= j < registry.order().len() ==> (#[trigger] registry.order()[j])@ != name@) ==> r
            == usize::MAX,
{
    let order = registry.order();
    lemma_position(order, name@);
    let p = position(order, name@);
    if p < order.len() {
        assert(order[p]@ == name@);
    }
    if 0 <= i < order.len() && order[i]@ == name@ && (forall|j: int|
        0 <= j < i ==> (#[trigger] order[j])@ != name@) {
        if p > i {
            assert(order[i]@ != name@);
        }
        assert(p == i);
    }
}

/// Every mount that a server reports is known, but for the root, which has no name.
pub proof fn law_reported_mounts_are_known(registry: &mut MountRegistry, mounts: Vec<Mount>, i: int)
    requires
        call_ensures(MountRegistry::set_known, (registry, mounts), ()),
        0 <= i < mounts@.len(),
    ensures
        final(registry).mounts().contains(mounts@[i]) <==> mounts@[i].name@.len() > 0,
        final(registry).order() == old(registry).order(),
{
    let keep = |m: Mount| m.name@.len() > 0;
    let kept = mounts@.filter(keep);
    assert(final(registry).mounts() == kept);
    mounts@.filter_lemma(keep);
    if kept.contains(mounts@[i]) {
        let k = choose|k: int| 0 <= k < kept.len() && kept[k] == mounts@[i];
        assert(keep(mounts@.filter(keep)[k]));
    }
}

}

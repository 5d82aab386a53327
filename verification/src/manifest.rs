//! The manifest: the durable record of installed packages. An
//! insertion-ordered list of entries, unique by name, with lookup, upsert
//! and removal.

use vstd::prelude::*;
use vstd::pervasive::VecAdditionalExecFns;
use crate::text::str_eq;
use crate::version::{Version, VersionV};

verus! {

/// One installed package: its catalog name and the version recorded at
/// install time.
#[derive(Debug)]
pub struct Entry {
    pub name: String,
    pub version: Version,
}

/// The mathematical value of an `Entry`.
#[verifier::ext_equal]
pub struct EntryV {
    pub name: Seq<char>,
    pub version: VersionV,
}

impl View for Entry {
    type V = EntryV;

    open spec fn view(&self) -> EntryV {
        EntryV { name: self.name@, version: self.version@ }
    }
}

impl Entry {
    pub fn new(name: String, version: Version) -> (e: Self)
        ensures
            e@.name == name@,
            e@.version == version@,
    {
        Self { name, version }
    }
}

impl Clone for Entry {
    fn clone(&self) -> (res: Self)
        ensures
            res@ == self@,
    {
        let res = Entry { name: self.name.clone(), version: self.version.clone() };
        proof {
            assert(res@ =~= self@);
        }
        res
    }
}

/// Some entry of `m` bears `name`.
pub open spec fn has_name(m: Seq<EntryV>, name: Seq<char>) -> bool {
    exists|i: int| 0 <= i < m.len() && #[trigger] m[i].name == name
}

/// `i` is the first position of `m` whose entry bears `name`.
pub open spec fn is_first_name(m: Seq<EntryV>, name: Seq<char>, i: int) -> bool {
    &&& 0 <= i < m.len()
    &&& m[i].name == name
    &&& forall|j: int| 0 <= j < i ==> m[j].name != name
}

/// The first position of `m` whose entry bears `name`.
pub open spec fn first_name_index(m: Seq<EntryV>, name: Seq<char>) -> int {
    choose|i: int| is_first_name(m, name, i)
}

/// No two entries bear the same name.
pub open spec fn unique_names(m: Seq<EntryV>) -> bool {
    forall|i: int, j: int| 0 <= i < j < m.len() ==> (#[trigger] m[i].name) != (#[trigger] m[j].name)
}

/// What `upsert` yields: the first entry of the same name replaced in
/// place, or the entry appended.
pub open spec fn upsert_spec(m: Seq<EntryV>, e: EntryV) -> Seq<EntryV> {
    if has_name(m, e.name) {
        m.update(first_name_index(m, e.name), e)
    } else {
        m.push(e)
    }
}

/// What `remove` yields: `m` without the entries bearing `name`, the rest
/// kept in order.
pub open spec fn remove_spec(m: Seq<EntryV>, name: Seq<char>) -> Seq<EntryV>
    decreases m.len(),
{
    if m.len() == 0 {
        m
    } else {
        let rest = remove_spec(m.drop_last(), name);
        if m.last().name == name {
            rest
        } else {
            rest.push(m.last())
        }
    }
}

/// A name with an occurrence has a first occurrence.
pub proof fn lemma_exists_first_name(m: Seq<EntryV>, name: Seq<char>)
    requires
        has_name(m, name),
    ensures
        is_first_name(m, name, first_name_index(m, name)),
{
    let w = choose|i: int| 0 <= i < m.len() && #[trigger] m[i].name == name;
    lemma_first_name_from(m, name, w);
    let i = choose|i: int| is_first_name(m, name, i);
    assert(is_first_name(m, name, i));
}

proof fn lemma_first_name_from(m: Seq<EntryV>, name: Seq<char>, w: int)
    requires
        0 <= w < m.len(),
        m[w].name == name,
    ensures
        exists|i: int| is_first_name(m, name, i),
    decreases w,
{
    if forall|j: int| 0 <= j < w ==> m[j].name != name {
        assert(is_first_name(m, name, w));
    } else {
        let j = choose|j: int| 0 <= j < w && m[j].name == name;
        lemma_first_name_from(m, name, j);
    }
}

/// Two first occurrences are the same occurrence.
pub proof fn lemma_first_name_unique(m: Seq<EntryV>, name: Seq<char>, i: int, j: int)
    requires
        is_first_name(m, name, i),
        is_first_name(m, name, j),
    ensures
        i == j,
{
}

/// After removal no entry bears the name, and every other entry is kept.
pub proof fn lemma_remove_spec_props(m: Seq<EntryV>, name: Seq<char>)
    ensures
        !has_name(remove_spec(m, name), name),
        forall|nm: Seq<char>|
            nm != name ==> (#[trigger] has_name(remove_spec(m, name), nm)) == has_name(m, nm),
        unique_names(m) ==> unique_names(remove_spec(m, name)),
        remove_spec(m, name).len() <= m.len(),
    decreases m.len(),
{
    if m.len() > 0 {
        lemma_remove_spec_props(m.drop_last(), name);
        let rest = remove_spec(m.drop_last(), name);
        let out = remove_spec(m, name);
        if m.last().name == name {
            assert forall|nm: Seq<char>| nm != name implies (#[trigger] has_name(out, nm))
                == has_name(m, nm) by {
                if has_name(m, nm) {
                    let i = choose|i: int| 0 <= i < m.len() && #[trigger] m[i].name == nm;
                    assert(m[i] == m.drop_last()[i]);
                    assert(has_name(m.drop_last(), nm));
                }
            }
        } else {
            assert forall|nm: Seq<char>| nm != name implies (#[trigger] has_name(out, nm))
                == has_name(m, nm) by {
                if has_name(m, nm) {
                    let i = choose|i: int| 0 <= i < m.len() && #[trigger] m[i].name == nm;
                    if i < m.len() - 1 {
                        assert(m[i] == m.drop_last()[i]);
                        assert(has_name(m.drop_last(), nm));
                        assert(has_name(rest, nm));
                        let k = choose|k: int|
                            0 <= k < rest.len() && #[trigger] rest[k].name == nm;
                        assert(out[k] == rest[k]);
                        assert(has_name(out, nm)) by {
                            assert(out[k].name == nm);
                        }
                    } else {
                        assert(out.last().name == nm);
                        assert(has_name(out, nm)) by {
                            assert(out[out.len() - 1].name == nm);
                        }
                    }
                }
                if has_name(out, nm) {
                    let k = choose|k: int| 0 <= k < out.len() && #[trigger] out[k].name == nm;
                    if k < out.len() - 1 {
                        assert(out[k] == rest[k]);
                        assert(has_name(rest, nm)) by {
                            assert(rest[k].name == nm);
                        }
                        assert(has_name(m.drop_last(), nm));
                        let i = choose|i: int|
                            0 <= i < m.drop_last().len() && #[trigger] m.drop_last()[i].name == nm;
                        assert(m.drop_last()[i] == m[i]);
                        assert(has_name(m, nm)) by {
                            assert(m[i].name == nm);
                        }
                    } else {
                        assert(m.last().name == nm);
                        assert(has_name(m, nm)) by {
                            assert(m[m.len() - 1].name == nm);
                        }
                    }
                }
            }
            if unique_names(m) {
                assert(unique_names(m.drop_last())) by {
                    assert(forall|i: int, j: int|
                        0 <= i < j < m.drop_last().len() ==> (#[trigger] m.drop_last()[i].name)
                            != (#[trigger] m.drop_last()[j].name)) by {
                        assert(forall|i: int|
                            0 <= i < m.drop_last().len() ==> #[trigger] m.drop_last()[i]
                                == m[i]);
                    }
                }
                assert(!has_name(m.drop_last(), m.last().name)) by {
                    if has_name(m.drop_last(), m.last().name) {
                        let i = choose|i: int|
                            0 <= i < m.drop_last().len() && #[trigger] m.drop_last()[i].name
                                == m.last().name;
                        assert(m[i].name == m[m.len() - 1].name);
                    }
                }
                assert(!has_name(rest, m.last().name));
                assert(unique_names(out)) by {
                    assert forall|i: int, j: int| 0 <= i < j < out.len() implies (
                    #[trigger] out[i].name) != (#[trigger] out[j].name) by {
                        if j < out.len() - 1 {
                            assert(out[i] == rest[i] && out[j] == rest[j]);
                        } else {
                            assert(out[i] == rest[i]);
                            if out[i].name == m.last().name {
                                assert(has_name(rest, m.last().name));
                            }
                        }
                    }
                }
            }
        }
        if unique_names(m) && m.last().name == name {
            assert(unique_names(m.drop_last())) by {
                assert(forall|i: int|
                    0 <= i < m.drop_last().len() ==> #[trigger] m.drop_last()[i] == m[i]);
            }
        }
    }
}

/// The manifest: what is installed, in insertion order, unique by name.
#[derive(Debug)]
pub struct Manifest {
    pub packages: Vec<Entry>,
}

impl View for Manifest {
    type V = Seq<EntryV>;

    open spec fn view(&self) -> Seq<EntryV> {
        self.packages@.map_values(|e: Entry| e@)
    }
}

impl Default for Manifest {
    fn default() -> (m: Self)
        ensures
            m@ =~= Seq::<EntryV>::empty(),
            m.wf(),
    {
        let m = Manifest { packages: Vec::new() };
        proof {
            assert(m@ =~= Seq::<EntryV>::empty());
        }
        m
    }
}

impl Manifest {
    /// The manifest invariant: at most one entry per name.
    pub open spec fn wf(&self) -> bool {
        unique_names(self@)
    }

    /// The first entry bearing `name`, if any.
    pub fn get(&self, name: &str) -> (r: Option<&Entry>)
        ensures
            match r {
                Some(e) => is_first_name(self@, name@, first_name_index(self@, name@)) && e@
                    == self@[first_name_index(self@, name@)],
                None => !has_name(self@, name@),
            },
    {
        let n = self.packages.len();
        let mut i: usize = 0;
        while i < n
            invariant
                n == self.packages.len(),
                i <= n,
                forall|j: int| 0 <= j < i ==> self@[j].name != name@,
            decreases n - i,
        {
            if str_eq(self.packages[i].name.as_str(), name) {
                proof {
                    assert(self@[i as int].name == name@);
                    assert(is_first_name(self@, name@, i as int));
                    lemma_exists_first_name(self@, name@);
                    lemma_first_name_unique(
                        self@,
                        name@,
                        first_name_index(self@, name@),
                        i as int,
                    );
                }
                return Some(&self.packages[i]);
            }
            i = i + 1;
        }
        proof {
            if has_name(self@, name@) {
                let k = choose|k: int| 0 <= k < self@.len() && #[trigger] self@[k].name == name@;
            }
        }
        None
    }

    /// How many packages are installed.
    pub fn installed_count(&self) -> (r: usize)
        ensures
            r == self@.len(),
    {
        self.packages.len()
    }

    /// Is a package of this name installed?
    pub fn installed(&self, pkg_name: &str) -> (r: bool)
        ensures
            r == has_name(self@, pkg_name@),
    {
        let n = self.packages.len();
        let mut i: usize = 0;
        while i < n
            invariant
                n == self.packages.len(),
                i <= n,
                forall|j: int| 0 <= j < i ==> self@[j].name != pkg_name@,
            decreases n - i,
        {
            if str_eq(self.packages[i].name.as_str(), pkg_name) {
                proof {
                    assert(self@[i as int].name == pkg_name@);
                }
                return true;
            }
            i = i + 1;
        }
        proof {
            if has_name(self@, pkg_name@) {
                let k = choose|k: int|
                    0 <= k < self@.len() && #[trigger] self@[k].name == pkg_name@;
            }
        }
        false
    }

    /// Removes every entry bearing `pkg_name`, keeping the rest in order.
    pub fn remove(&mut self, pkg_name: &str)
        ensures
            final(self)@ == remove_spec(old(self)@, pkg_name@),
            !has_name(final(self)@, pkg_name@),
            old(self).wf() ==> final(self).wf(),
    {
        let ghost orig = self@;
        let n = self.packages.len();
        let mut out: Vec<Entry> = Vec::new();
        let mut i: usize = 0;
        while i < n
            invariant
                n == self.packages.len(),
                orig == self@,
                i <= n,
                out@.map_values(|e: Entry| e@) == remove_spec(
                    orig.subrange(0, i as int),
                    pkg_name@,
                ),
            decreases n - i,
        {
            let keep = !str_eq(self.packages[i].name.as_str(), pkg_name);
            proof {
                let pre = orig.subrange(0, i as int);
                let post = orig.subrange(0, i + 1);
                assert(post.drop_last() =~= pre);
                assert(post.last() == orig[i as int]);
            }
            if keep {
                let e = self.packages[i].clone();
                out.push(e);
                proof {
                    assert(out@.map_values(|e: Entry| e@) =~= remove_spec(
                        orig.subrange(0, i + 1),
                        pkg_name@,
                    ));
                }
            } else {
                proof {
                    assert(out@.map_values(|e: Entry| e@) =~= remove_spec(
                        orig.subrange(0, i + 1),
                        pkg_name@,
                    ));
                }
            }
            i = i + 1;
        }
        proof {
            assert(orig.subrange(0, n as int) =~= orig);
        }
        self.packages = out;
        proof {
            lemma_remove_spec_props(orig, pkg_name@);
        }
    }

    /// Replaces the first entry of the same name in place, or appends.
    pub fn upsert(&mut self, entry: Entry)
        ensures
            final(self)@ == upsert_spec(old(self)@, entry@),
            has_name(final(self)@, entry@.name),
            old(self).wf() ==> final(self).wf(),
    {
        let ghost orig = self@;
        let n = self.packages.len();
        let mut i: usize = 0;
        while i < n
            invariant
                n == self.packages.len(),
                orig == self@,
                orig == old(self)@,
                i <= n,
                forall|j: int| 0 <= j < i ==> self@[j].name != entry@.name,
            decreases n - i,
        {
            if str_eq(self.packages[i].name.as_str(), entry.name.as_str()) {
                proof {
                    assert(self@[i as int].name == entry@.name);
                    assert(is_first_name(orig, entry@.name, i as int));
                    assert(has_name(orig, entry@.name)) by {
                        assert(orig[i as int].name == entry@.name);
                    }
                    lemma_exists_first_name(orig, entry@.name);
                    lemma_first_name_unique(
                        orig,
                        entry@.name,
                        first_name_index(orig, entry@.name),
                        i as int,
                    );
                }
                self.packages.set(i, entry);
                proof {
                    assert(self@ =~= orig.update(i as int, entry@));
                    assert(orig == old(self)@);
                    assert(first_name_index(orig, entry@.name) == i as int);
                    assert(upsert_spec(orig, entry@) == orig.update(i as int, entry@));
                    assert(self@ == upsert_spec(old(self)@, entry@));
                    assert(has_name(self@, entry@.name)) by {
                        assert(self@[i as int].name == entry@.name);
                    }
                    if unique_names(orig) {
                        assert(unique_names(self@)) by {
                            assert forall|p: int, q: int| 0 <= p < q < self@.len() implies (
                            #[trigger] self@[p].name) != (#[trigger] self@[q].name) by {
                                if p != i as int && q != i as int {
                                    assert(self@[p] == orig[p] && self@[q] == orig[q]);
                                } else if p == i as int {
                                    assert(self@[q] == orig[q]);
                                    assert(orig[i as int].name == entry@.name);
                                } else {
                                    assert(self@[p] == orig[p]);
                                    assert(orig[i as int].name == entry@.name);
                                }
                            }
                        }
                    }
                }
                return ;
            }
            i = i + 1;
        }
        proof {
            if has_name(orig, entry@.name) {
                let k = choose|k: int|
                    0 <= k < orig.len() && #[trigger] orig[k].name == entry@.name;
            }
            assert(!has_name(orig, entry@.name));
        }
        self.packages.push(entry);
        proof {
            assert(self@ =~= orig.push(entry@));
            assert(has_name(self@, entry@.name)) by {
                assert(self@[orig.len() as int].name == entry@.name);
            }
            if unique_names(orig) {
                assert(unique_names(self@)) by {
                    assert forall|p: int, q: int| 0 <= p < q < self@.len() implies (
                    #[trigger] self@[p].name) != (#[trigger] self@[q].name) by {
                        if q < orig.len() {
                            assert(self@[p] == orig[p] && self@[q] == orig[q]);
                        } else {
                            assert(self@[p] == orig[p]);
                            if orig[p].name == entry@.name {
                                assert(has_name(orig, entry@.name));
                            }
                        }
                    }
                }
            }
        }
    }
}

/// Upserting the same entry twice changes nothing more than upserting it
/// once: upsert is idempotent.
pub proof fn lemma_upsert_idempotent(m: Seq<EntryV>, e: EntryV)
    ensures
        upsert_spec(upsert_spec(m, e), e) == upsert_spec(m, e),
{
    let m1 = upsert_spec(m, e);
    if has_name(m, e.name) {
        lemma_exists_first_name(m, e.name);
        let i = first_name_index(m, e.name);
        assert(m1 == m.update(i, e));
        assert(m1[i].name == e.name);
        assert(has_name(m1, e.name));
        assert(is_first_name(m1, e.name, i)) by {
            assert(forall|j: int| 0 <= j < i ==> m1[j] == m[j]);
        }
        lemma_exists_first_name(m1, e.name);
        lemma_first_name_unique(m1, e.name, first_name_index(m1, e.name), i);
        assert(upsert_spec(m1, e) == m1.update(i, e));
        assert(m1.update(i, e) =~= m1);
    } else {
        assert(m1 == m.push(e));
        assert(m1[m.len() as int].name == e.name);
        assert(has_name(m1, e.name));
        assert(is_first_name(m1, e.name, m.len() as int)) by {
            assert forall|j: int| 0 <= j < m.len() implies m1[j].name != e.name by {
                assert(m1[j] == m[j]);
                if m[j].name == e.name {
                    assert(has_name(m, e.name));
                }
            }
        }
        lemma_exists_first_name(m1, e.name);
        lemma_first_name_unique(m1, e.name, first_name_index(m1, e.name), m.len() as int);
        assert(upsert_spec(m1, e) == m1.update(m.len() as int, e));
        assert(m1.update(m.len() as int, e) =~= m1);
    }
}

/// After upserting `e` into a well-formed manifest, exactly one entry bears
/// `e.name`, and it equals `e`.
pub proof fn lemma_upsert_one_entry(m: Seq<EntryV>, e: EntryV)
    requires
        unique_names(m),
    ensures
        unique_names(upsert_spec(m, e)),
        has_name(upsert_spec(m, e), e.name),
        upsert_spec(m, e)[first_name_index(upsert_spec(m, e), e.name)] == e,
{
    let m1 = upsert_spec(m, e);
    if has_name(m, e.name) {
        lemma_exists_first_name(m, e.name);
        let i = first_name_index(m, e.name);
        assert(m1[i] == e);
        assert(has_name(m1, e.name)) by {
            assert(m1[i].name == e.name);
        }
        assert(is_first_name(m1, e.name, i)) by {
            assert(forall|j: int| 0 <= j < i ==> m1[j] == m[j]);
        }
        lemma_exists_first_name(m1, e.name);
        lemma_first_name_unique(m1, e.name, first_name_index(m1, e.name), i);
        assert(unique_names(m1)) by {
            assert forall|p: int, q: int| 0 <= p < q < m1.len() implies (#[trigger] m1[p].name)
                != (#[trigger] m1[q].name) by {
                if p != i && q != i {
                    assert(m1[p] == m[p] && m1[q] == m[q]);
                } else if p == i {
                    assert(m1[q] == m[q]);
                    assert(m[i].name == e.name);
                } else {
                    assert(m1[p] == m[p]);
                    assert(m[i].name == e.name);
                }
            }
        }
    } else {
        let i = m.len() as int;
        assert(m1 == m.push(e));
        assert(m1[i] == e);
        assert(has_name(m1, e.name)) by {
            assert(m1[i].name == e.name);
        }
        assert(is_first_name(m1, e.name, i)) by {
            assert forall|j: int| 0 <= j < i implies m1[j].name != e.name by {
                assert(m1[j] == m[j]);
                if m[j].name == e.name {
                    assert(has_name(m, e.name));
                }
            }
        }
        lemma_exists_first_name(m1, e.name);
        lemma_first_name_unique(m1, e.name, first_name_index(m1, e.name), i);
        assert(unique_names(m1)) by {
            assert forall|p: int, q: int| 0 <= p < q < m1.len() implies (#[trigger] m1[p].name)
                != (#[trigger] m1[q].name) by {
                if q < m.len() {
                    assert(m1[p] == m[p] && m1[q] == m[q]);
                } else {
                    assert(m1[p] == m[p]);
                    if m[p].name == e.name {
                        assert(has_name(m, e.name));
                    }
                }
            }
        }
    }
}

/// Removing a name and then upserting an entry of that name appends it at
/// the end.
pub proof fn lemma_upsert_after_remove_appends(m: Seq<EntryV>, e: EntryV)
    ensures
        upsert_spec(remove_spec(m, e.name), e) == remove_spec(m, e.name).push(e),
{
    lemma_remove_spec_props(m, e.name);
}

} // verus!

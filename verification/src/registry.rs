//! The package registry: the catalog as built for one run, mapping package
//! names to packages, unique by name and kept in insertion order.

use vstd::prelude::*;
use crate::pkg::Package;
use crate::text::str_eq;

verus! {

/// Some package in the list bears `name`.
pub open spec fn reg_has(ps: Seq<Package>, name: Seq<char>) -> bool {
    exists|i: int| 0 <= i < ps.len() && (#[trigger] ps[i].info_spec().name) == name
}

/// `i` is the first position bearing `name`.
pub open spec fn reg_is_first(ps: Seq<Package>, name: Seq<char>, i: int) -> bool {
    &&& 0 <= i < ps.len()
    &&& ps[i].info_spec().name == name
    &&& forall|j: int| 0 <= j < i ==> (#[trigger] ps[j].info_spec().name) != name
}

/// The first position bearing `name`.
pub open spec fn reg_index(ps: Seq<Package>, name: Seq<char>) -> int {
    choose|i: int| reg_is_first(ps, name, i)
}

/// Two first positions bearing one name are the same position.
pub proof fn lemma_reg_first_unique(ps: Seq<Package>, name: Seq<char>, i: int, j: int)
    requires
        reg_is_first(ps, name, i),
        reg_is_first(ps, name, j),
    ensures
        i == j,
{
}

/// No two packages bear the same name.
pub open spec fn reg_unique(ps: Seq<Package>) -> bool {
    forall|i: int, j: int|
        0 <= i < j < ps.len() ==> (#[trigger] ps[i].info_spec().name) != (
        #[trigger] ps[j].info_spec().name)
}

/// The catalog: package name to package, built once per run from static
/// configuration, never persisted.
pub struct PackageRegistry {
    packages: Vec<Package>,
}

impl PackageRegistry {
    /// The packages, in insertion order.
    pub closed spec fn packages_spec(&self) -> Seq<Package> {
        self.packages@
    }

    /// The registry invariant: names are unique.
    pub open spec fn wf(&self) -> bool {
        reg_unique(self.packages_spec())
    }

    pub fn new() -> (r: Self)
        ensures
            r.packages_spec() =~= Seq::<Package>::empty(),
            r.wf(),
    {
        PackageRegistry { packages: Vec::new() }
    }

    /// How many packages the catalog holds.
    pub fn len(&self) -> (r: usize)
        ensures
            r == self.packages_spec().len(),
    {
        self.packages.len()
    }

    /// The package at a position, in insertion order.
    pub fn at(&self, i: usize) -> (r: &Package)
        requires
            i < self.packages_spec().len(),
        ensures
            *r == self.packages_spec()[i as int],
    {
        &self.packages[i]
    }

    /// Adds a package; one bearing the same name is replaced in place.
    pub fn insert(&mut self, pkg: Package)
        ensures
            reg_has(final(self).packages_spec(), pkg.info_spec().name),
            old(self).wf() ==> final(self).wf(),
            final(self).packages_spec().len() <= old(self).packages_spec().len() + 1,
            forall|nm: Seq<char>|
                reg_has(final(self).packages_spec(), nm) == (reg_has(
                    old(self).packages_spec(),
                    nm,
                ) || nm == pkg.info_spec().name),
            !reg_has(old(self).packages_spec(), pkg.info_spec().name)
                ==> final(self).packages_spec() == old(self).packages_spec().push(pkg),
            reg_has(old(self).packages_spec(), pkg.info_spec().name) ==> reg_is_first(
                old(self).packages_spec(),
                pkg.info_spec().name,
                reg_index(old(self).packages_spec(), pkg.info_spec().name),
            ) && final(self).packages_spec() == old(self).packages_spec().update(
                reg_index(old(self).packages_spec(), pkg.info_spec().name),
                pkg,
            ),
    {
        let ghost orig = self.packages@;
        let n = self.packages.len();
        let mut i: usize = 0;
        while i < n
            invariant
                n == self.packages.len(),
                orig == self.packages@,
                orig == old(self).packages_spec(),
                i <= n,
                forall|j: int| 0 <= j < i ==> (#[trigger] orig[j].info_spec().name)
                    != pkg.info_spec().name,
            decreases n - i,
        {
            if str_eq(self.packages[i].name().as_str(), pkg.name().as_str()) {
                proof {
                    assert(orig[i as int].info_spec().name == pkg.info_spec().name);
                    assert(reg_is_first(orig, pkg.info_spec().name, i as int));
                    assert(reg_has(orig, pkg.info_spec().name));
                    lemma_reg_first_unique(
                        orig,
                        pkg.info_spec().name,
                        reg_index(orig, pkg.info_spec().name),
                        i as int,
                    );
                }
                self.packages.set(i, pkg);
                proof {
                    let ps = self.packages@;
                    assert(ps =~= orig.update(i as int, pkg));
                    assert(reg_has(ps, pkg.info_spec().name)) by {
                        assert(ps[i as int].info_spec().name == pkg.info_spec().name);
                    }
                    assert forall|nm: Seq<char>| reg_has(ps, nm) == (reg_has(orig, nm) || nm
                        == pkg.info_spec().name) by {
                        if reg_has(ps, nm) {
                            let k = choose|k: int|
                                0 <= k < ps.len() && (#[trigger] ps[k].info_spec().name) == nm;
                            if k != i as int {
                                assert(orig[k].info_spec().name == nm);
                            }
                        }
                        if reg_has(orig, nm) {
                            let k = choose|k: int|
                                0 <= k < orig.len() && (#[trigger] orig[k].info_spec().name)
                                    == nm;
                            if k != i as int {
                                assert(ps[k].info_spec().name == nm);
                            } else {
                                assert(nm == pkg.info_spec().name);
                                assert(ps[i as int].info_spec().name == nm);
                            }
                        }
                        if nm == pkg.info_spec().name {
                            assert(ps[i as int].info_spec().name == nm);
                        }
                    }
                    if reg_unique(orig) {
                        assert(reg_unique(ps)) by {
                            assert forall|p: int, q: int| 0 <= p < q < ps.len() implies (
                            #[trigger] ps[p].info_spec().name) != (
                            #[trigger] ps[q].info_spec().name) by {
                                if p != i as int && q != i as int {
                                    assert(ps[p] == orig[p] && ps[q] == orig[q]);
                                } else if p == i as int {
                                    assert(ps[q] == orig[q]);
                                } else {
                                    assert(ps[p] == orig[p]);
                                }
                            }
                        }
                    }
                }
                return ;
            }
            i = i + 1;
        }
        proof {
            assert(!reg_has(orig, pkg.info_spec().name)) by {
                if reg_has(orig, pkg.info_spec().name) {
                    let k = choose|k: int|
                        0 <= k < orig.len() && (#[trigger] orig[k].info_spec().name)
                            == pkg.info_spec().name;
                }
            }
        }
        self.packages.push(pkg);
        proof {
            let ps = self.packages@;
            assert(ps =~= orig.push(pkg));
            assert(reg_has(ps, pkg.info_spec().name)) by {
                assert(ps[orig.len() as int].info_spec().name == pkg.info_spec().name);
            }
            assert forall|nm: Seq<char>| reg_has(ps, nm) == (reg_has(orig, nm) || nm
                == pkg.info_spec().name) by {
                if reg_has(ps, nm) {
                    let k = choose|k: int|
                        0 <= k < ps.len() && (#[trigger] ps[k].info_spec().name) == nm;
                    if k < orig.len() {
                        assert(orig[k].info_spec().name == nm);
                    }
                }
                if reg_has(orig, nm) {
                    let k = choose|k: int|
                        0 <= k < orig.len() && (#[trigger] orig[k].info_spec().name) == nm;
                    assert(ps[k].info_spec().name == nm);
                }
                if nm == pkg.info_spec().name {
                    assert(ps[orig.len() as int].info_spec().name == nm);
                }
            }
            if reg_unique(orig) {
                assert(reg_unique(ps)) by {
                    assert forall|p: int, q: int| 0 <= p < q < ps.len() implies (
                    #[trigger] ps[p].info_spec().name) != (#[trigger] ps[q].info_spec().name) by {
                        if q < orig.len() {
                            assert(ps[p] == orig[p] && ps[q] == orig[q]);
                        } else {
                            assert(ps[p] == orig[p]);
                            if orig[p].info_spec().name == pkg.info_spec().name {
                                assert(reg_has(orig, pkg.info_spec().name));
                            }
                        }
                    }
                }
            }
        }
    }

    /// The first package bearing `name`, if any.
    pub fn get(&self, name: &str) -> (r: Option<&Package>)
        ensures
            match r {
                Some(p) => reg_is_first(self.packages_spec(), name@, reg_index(
                    self.packages_spec(),
                    name@,
                )) && *p == self.packages_spec()[reg_index(self.packages_spec(), name@)],
                None => !reg_has(self.packages_spec(), name@),
            },
    {
        let n = self.packages.len();
        let mut i: usize = 0;
        while i < n
            invariant
                n == self.packages.len(),
                i <= n,
                forall|j: int| 0 <= j < i ==> (#[trigger] self.packages@[j].info_spec().name)
                    != name@,
            decreases n - i,
        {
            if str_eq(self.packages[i].name().as_str(), name) {
                proof {
                    let ps = self.packages_spec();
                    assert(ps[i as int].info_spec().name == name@);
                    assert(reg_is_first(ps, name@, i as int));
                    assert(reg_has(ps, name@));
                    assert forall|a: int, b: int|
                        reg_is_first(ps, name@, a) && reg_is_first(ps, name@, b) implies a
                        == b by {}
                    assert(reg_is_first(ps, name@, reg_index(ps, name@)));
                }
                return Some(&self.packages[i]);
            }
            i = i + 1;
        }
        proof {
            if reg_has(self.packages_spec(), name@) {
                let k = choose|k: int|
                    0 <= k < self.packages_spec().len() && (
                    #[trigger] self.packages_spec()[k].info_spec().name) == name@;
            }
        }
        None
    }
}

} // verus!

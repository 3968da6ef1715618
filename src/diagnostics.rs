//! Diagnostics of a file: fixtures used without being declared, and
//! fixtures that depend on a fixture of a narrower scope.

use vstd::prelude::*;
use crate::analyzer::{defs_view, undeclared_view};
use crate::database::{all_defs, find_file, FileView, FixtureDatabase};
use crate::model::{strings_view, DefinitionView, FixtureDefinition, UndeclaredFixture, UndeclaredView};
use crate::queries::{flagged, undeclared_diagnostics};
use crate::resolver::{resolve, resolve_index, resolve_visible_index};

verus! {

/// A fixture that depends on a fixture of a narrower scope.
#[derive(Debug)]
pub struct ScopeMismatch {
    pub fixture: FixtureDefinition,
    pub dependency: FixtureDefinition,
}

pub ghost struct MismatchView {
    pub fixture: DefinitionView,
    pub dependency: DefinitionView,
}

impl View for ScopeMismatch {
    type V = MismatchView;

    open spec fn view(&self) -> MismatchView {
        MismatchView { fixture: self.fixture@, dependency: self.dependency@ }
    }
}

pub open spec fn mismatches_view(v: Seq<ScopeMismatch>) -> Seq<MismatchView> {
    v.map_values(|m: ScopeMismatch| m@)
}

/// Mismatches of `d` among its first `k` dependencies, each resolved from
/// `d`'s own file and line.
pub open spec fn dependency_mismatches(all: Seq<DefinitionView>, d: DefinitionView, k: int) -> Seq<MismatchView>
    decreases k,
{
    if k <= 0 || k > d.dependencies.len() {
        Seq::empty()
    } else {
        let rest = dependency_mismatches(all, d, k - 1);
        match resolve(all, d.dependencies[k - 1], d.file_path, d.line) {
            Some(j) => if all[j].scope.rank() < d.scope.rank() {
                rest.push(MismatchView { fixture: d, dependency: all[j] })
            } else {
                rest
            },
            None => rest,
        }
    }
}

pub open spec fn mismatches_of(ds: Seq<DefinitionView>, all: Seq<DefinitionView>) -> Seq<MismatchView>
    decreases ds.len(),
{
    if ds.len() == 0 {
        Seq::empty()
    } else {
        mismatches_of(ds.drop_last(), all) + dependency_mismatches(all, ds.last(), ds.last().dependencies.len() as int)
    }
}

/// Scope mismatches of the fixtures defined in the file at `path`.
pub open spec fn scope_mismatches(files: Seq<FileView>, path: Seq<char>) -> Seq<MismatchView> {
    match find_file(files, path) {
        Some(i) => mismatches_of(files[i].facts.defs, all_defs(files)),
        None => Seq::empty(),
    }
}

impl FixtureDatabase {
    /// Undeclared fixtures of a file: names read in a test or fixture body
    /// that are declared nowhere there and name a fixture visible from the
    /// file.
    pub fn get_undeclared_fixtures(&self, file_path: &str) -> (r: Vec<UndeclaredFixture>)
        ensures
            undeclared_view(r@) == undeclared_diagnostics(self.files_spec(), file_path@),
    {
        let mut r: Vec<UndeclaredFixture> = Vec::new();
        let idx = self.file_index(file_path);
        match idx {
            None => {
                assert(undeclared_view(r@) =~= Seq::<UndeclaredView>::empty());
                r
            },
            Some(i) => {
                let all = self.all_definitions();
                let ghost av = all_defs(self.files_spec());
                let us = &self.files[i].undeclared;
                let ghost uv = undeclared_view(us@);
                let mut j: usize = 0;
                while j < us.len()
                    invariant
                        j <= us@.len(),
                        defs_view(all@) == av,
                        uv == undeclared_view(us@),
                        undeclared_view(r@) == flagged(uv.subrange(0, j as int), file_path@, av),
                    decreases us@.len() - j,
                {
                    proof {
                        assert(uv.subrange(0, j + 1).drop_last() =~= uv.subrange(0, j as int));
                    }
                    if resolve_visible_index(&all, us[j].name.as_str(), file_path, 0).is_some() {
                        let u = us[j].duplicate();
                        let ghost prev = undeclared_view(r@);
                        r.push(u);
                        assert(undeclared_view(r@) =~= prev.push(u@));
                    }
                    j = j + 1;
                }
                assert(uv.subrange(0, us@.len() as int) =~= uv);
                r
            },
        }
    }

    /// Scope mismatches of the fixtures defined in a file: each dependency
    /// resolved from its consumer's position whose scope is strictly
    /// narrower than the consumer's.
    pub fn get_scope_mismatches(&self, file_path: &str) -> (r: Vec<ScopeMismatch>)
        ensures
            mismatches_view(r@) == scope_mismatches(self.files_spec(), file_path@),
    {
        let mut r: Vec<ScopeMismatch> = Vec::new();
        let idx = self.file_index(file_path);
        match idx {
            None => {
                assert(mismatches_view(r@) =~= Seq::<MismatchView>::empty());
                r
            },
            Some(i) => {
                let all = self.all_definitions();
                let total = all.len();
                let ghost av = all_defs(self.files_spec());
                let ds = &self.files[i].definitions;
                let ghost dv = defs_view(ds@);
                let mut j: usize = 0;
                while j < ds.len()
                    invariant
                        j <= ds@.len(),
                        total == all@.len(),
                        defs_view(all@) == av,
                        dv == defs_view(ds@),
                        mismatches_view(r@) == mismatches_of(dv.subrange(0, j as int), av),
                    decreases ds@.len() - j,
                {
                    proof {
                        assert(dv.subrange(0, j + 1).drop_last() =~= dv.subrange(0, j as int));
                    }
                    let d = &ds[j];
                    let ghost before = mismatches_view(r@);
                    let mut k: usize = 0;
                    while k < d.dependencies.len()
                        invariant
                            k <= d.dependencies@.len(),
                            total == all@.len(),
                            defs_view(all@) == av,
                            d@.dependencies == strings_view(d.dependencies@),
                            mismatches_view(r@) == before + dependency_mismatches(av, d@, k as int),
                        decreases d.dependencies@.len() - k,
                    {
                        let dep = d.dependencies[k].as_str();
                        assert(dep@ == d@.dependencies[k as int]);
                        match resolve_index(&all, dep, d.file_path.as_str(), d.line) {
                            Some(m) => {
                                let ghost x = resolve(av, dep@, d.file_path@, d.line as nat);
                                assert(crate::resolver::index_in(x, all@.len() as int));
                                assert(x == Some(m as int));
                                assert(av[m as int] == all@[m as int]@);
                                if all[m].scope.is_narrower_than(d.scope) {
                                    let x = ScopeMismatch { fixture: d.duplicate(), dependency: all[m].duplicate() };
                                    let ghost prev = mismatches_view(r@);
                                    r.push(x);
                                    assert(mismatches_view(r@) =~= prev.push(x@));
                                }
                            },
                            None => {},
                        }
                        assert(mismatches_view(r@) =~= before + dependency_mismatches(av, d@, k + 1));
                        k = k + 1;
                    }
                    j = j + 1;
                }
                assert(dv.subrange(0, ds@.len() as int) =~= dv);
                r
            },
        }
    }
}

} // verus!

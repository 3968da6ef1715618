//! Queries on the knowledge base: the fixture at a cursor, its definition,
//! its references, and the fixtures visible from a file.

use vstd::prelude::*;
use crate::analyzer::defs_view;
use crate::database::{all_defs, files_view, find_file, FileRecord, FileView, FixtureDatabase};
use crate::model::{DefinitionView, FixtureDefinition, FixtureUsage, UsageView};
use crate::resolver::{index_in, resolve, resolve_index, resolve_visible, resolve_visible_index};
use crate::text::{extract_word_at_position, line_of_text, nth_line, opt_seq, str_eq, word_at};

verus! {

/// The identifier under the cursor (zero-based line and column) in the text
/// of the record of `path`.
pub open spec fn cursor_word(files: Seq<FileView>, path: Seq<char>, line0: nat, col: nat) -> Option<Seq<char>> {
    match find_file(files, path) {
        Some(i) => match nth_line(files[i].content, line0) {
            Some(l) => word_at(l, col as int),
            None => None,
        },
        None => None,
    }
}

/// Last usage under the name `w` that line `target` (one-based) holds: the
/// usage is anchored there (the line of its function's `def`), or, in a
/// parameter list over several lines, written there.
pub open spec fn usage_at(us: Seq<UsageView>, w: Seq<char>, target: nat) -> Option<int>
    decreases us.len(),
{
    if us.len() == 0 {
        None
    } else if (us.last().line == target || us.last().ref_line == target) && us.last().name == w {
        Some(us.len() - 1)
    } else {
        usage_at(us.drop_last(), w, target)
    }
}

/// Last definition of `w` on line `target` whose name spans column `col`.
pub open spec fn def_name_at(ds: Seq<DefinitionView>, w: Seq<char>, target: nat, col: nat) -> Option<int>
    decreases ds.len(),
{
    if ds.len() == 0 {
        None
    } else if ds.last().line == target && ds.last().name == w && ds.last().start_char <= col
        && col < ds.last().end_char {
        Some(ds.len() - 1)
    } else {
        def_name_at(ds.drop_last(), w, target, col)
    }
}

pub open spec fn def_on_line(ds: Seq<DefinitionView>, w: Seq<char>, target: nat) -> bool {
    exists|k: int| 0 <= k < ds.len() && (#[trigger] ds[k]).line == target && ds[k].name == w
}

/// The fixture name at the cursor: the identifier there, when a usage that
/// the line holds (see `usage_at`) or a definition on that line carries it.
pub open spec fn fixture_at(files: Seq<FileView>, path: Seq<char>, line0: nat, col: nat) -> Option<Seq<char>> {
    match find_file(files, path) {
        Some(i) => match cursor_word(files, path, line0, col) {
            Some(w) => if usage_at(files[i].facts.usages, w, line0 + 1) is Some || def_on_line(
                files[i].facts.defs,
                w,
                line0 + 1,
            ) {
                Some(w)
            } else {
                None
            },
            None => None,
        },
        None => None,
    }
}

/// The definition for the cursor: the definition itself when the cursor is
/// on its name, else what the usage under the cursor resolves to.
pub open spec fn definition_at(files: Seq<FileView>, path: Seq<char>, line0: nat, col: nat) -> Option<DefinitionView> {
    match find_file(files, path) {
        Some(i) => match cursor_word(files, path, line0, col) {
            Some(w) => match def_name_at(files[i].facts.defs, w, line0 + 1, col) {
                Some(k) => Some(files[i].facts.defs[k]),
                None => match usage_at(files[i].facts.usages, w, line0 + 1) {
                    Some(u) => match resolve(all_defs(files), w, path, files[i].facts.usages[u].line) {
                        Some(j) => Some(all_defs(files)[j]),
                        None => None,
                    },
                    None => None,
                },
            },
            None => None,
        },
        None => None,
    }
}

pub open spec fn opt_def_view(o: Option<FixtureDefinition>) -> Option<DefinitionView> {
    match o {
        Some(d) => Some(d@),
        None => None,
    }
}

fn last_usage_at(us: &Vec<FixtureUsage>, w: &str, line: u32) -> (r: Option<usize>)
    ensures
        match r {
            Some(k) => usage_at(crate::analyzer::usages_view(us@), w@, line as nat + 1) == Some(k as int) && k < us@.len(),
            None => usage_at(crate::analyzer::usages_view(us@), w@, line as nat + 1) is None,
        },
{
    let ghost uv = crate::analyzer::usages_view(us@);
    let mut r: Option<usize> = None;
    let mut i: usize = 0;
    while i < us.len()
        invariant
            i <= us@.len(),
            uv == crate::analyzer::usages_view(us@),
            match r {
                Some(k) => usage_at(uv.subrange(0, i as int), w@, line as nat + 1) == Some(k as int) && k < i,
                None => usage_at(uv.subrange(0, i as int), w@, line as nat + 1) is None,
            },
        decreases us@.len() - i,
    {
        proof {
            assert(uv.subrange(0, i + 1).drop_last() =~= uv.subrange(0, i as int));
        }
        let u = &us[i];
        let on_line = (u.line > 0 && u.line - 1 == line as usize) || (u.ref_line > 0 && u.ref_line - 1 == line as usize);
        if on_line && str_eq(u.name.as_str(), w) {
            r = Some(i);
        }
        i = i + 1;
    }
    assert(uv.subrange(0, us@.len() as int) =~= uv);
    r
}

fn last_def_name_at(ds: &Vec<FixtureDefinition>, w: &str, line: u32, col: u32) -> (r: Option<usize>)
    ensures
        match r {
            Some(k) => def_name_at(defs_view(ds@), w@, line as nat + 1, col as nat) == Some(k as int) && k < ds@.len(),
            None => def_name_at(defs_view(ds@), w@, line as nat + 1, col as nat) is None,
        },
{
    let ghost dv = defs_view(ds@);
    let mut r: Option<usize> = None;
    let mut i: usize = 0;
    while i < ds.len()
        invariant
            i <= ds@.len(),
            dv == defs_view(ds@),
            match r {
                Some(k) => def_name_at(dv.subrange(0, i as int), w@, line as nat + 1, col as nat) == Some(k as int) && k < i,
                None => def_name_at(dv.subrange(0, i as int), w@, line as nat + 1, col as nat) is None,
            },
        decreases ds@.len() - i,
    {
        proof {
            assert(dv.subrange(0, i + 1).drop_last() =~= dv.subrange(0, i as int));
        }
        let d = &ds[i];
        if d.line > 0 && d.line - 1 == line as usize && str_eq(d.name.as_str(), w) && d.start_char <= col as usize
            && (col as usize) < d.end_char {
            r = Some(i);
        }
        i = i + 1;
    }
    assert(dv.subrange(0, ds@.len() as int) =~= dv);
    r
}

fn any_def_on_line(ds: &Vec<FixtureDefinition>, w: &str, line: u32) -> (r: bool)
    ensures
        r == def_on_line(defs_view(ds@), w@, line as nat + 1),
{
    let ghost dv = defs_view(ds@);
    let mut i: usize = 0;
    while i < ds.len()
        invariant
            i <= ds@.len(),
            dv == defs_view(ds@),
            forall|k: int| 0 <= k < i ==> !((#[trigger] dv[k]).line == line as nat + 1 && dv[k].name == w@),
        decreases ds@.len() - i,
    {
        let d = &ds[i];
        if d.line > 0 && d.line - 1 == line as usize && str_eq(d.name.as_str(), w) {
            assert(dv[i as int].line == line as nat + 1 && dv[i as int].name == w@);
            return true;
        }
        i = i + 1;
    }
    false
}

impl FixtureDatabase {
    pub(crate) fn file_index(&self, path: &str) -> (r: Option<usize>)
        ensures
            match r {
                Some(i) => find_file(self.files_spec(), path@) == Some(i as int) && i < self.files@.len(),
                None => find_file(self.files_spec(), path@) is None,
            },
    {
        let ghost fv = self.files_spec();
        let mut r: Option<usize> = None;
        let mut i: usize = 0;
        while i < self.files.len()
            invariant
                fv == self.files_spec(),
                i <= self.files@.len(),
                match r {
                    Some(k) => find_file(fv.subrange(0, i as int), path@) == Some(k as int) && k < i,
                    None => find_file(fv.subrange(0, i as int), path@) is None,
                },
            decreases self.files@.len() - i,
        {
            proof {
                assert(fv.subrange(0, i + 1).drop_last() =~= fv.subrange(0, i as int));
            }
            if str_eq(self.files[i].path.as_str(), path) {
                r = Some(i);
            }
            i = i + 1;
        }
        assert(fv.subrange(0, self.files@.len() as int) =~= fv);
        r
    }

    fn word_in_record(rec: &FileRecord, line: u32, character: u32) -> (r: Option<String>)
        ensures
            opt_seq(r) == (match nth_line(rec@.content, line as nat) {
                Some(l) => word_at(l, character as int),
                None => None,
            }),
    {
        match line_of_text(rec.content.as_str(), line as usize) {
            Some(l) => extract_word_at_position(l.as_str(), character as usize),
            None => None,
        }
    }

    /// Every definition of every file, file by file.
    pub fn all_definitions(&self) -> (r: Vec<FixtureDefinition>)
        ensures
            defs_view(r@) == all_defs(self.files_spec()),
    {
        let ghost fv = self.files_spec();
        let mut r: Vec<FixtureDefinition> = Vec::new();
        let mut i: usize = 0;
        while i < self.files.len()
            invariant
                fv == self.files_spec(),
                i <= self.files@.len(),
                defs_view(r@) == all_defs(fv.subrange(0, i as int)),
            decreases self.files@.len() - i,
        {
            proof {
                assert(fv.subrange(0, i + 1).drop_last() =~= fv.subrange(0, i as int));
            }
            let ds = &self.files[i].definitions;
            let ghost before = defs_view(r@);
            let mut j: usize = 0;
            while j < ds.len()
                invariant
                    j <= ds@.len(),
                    defs_view(r@) == before + defs_view(ds@).subrange(0, j as int),
                decreases ds@.len() - j,
            {
                let d = ds[j].duplicate();
                let ghost prev = defs_view(r@);
                r.push(d);
                assert(defs_view(r@) =~= prev.push(d@));
                assert(defs_view(ds@).subrange(0, j + 1) =~= defs_view(ds@).subrange(0, j as int).push(ds@[j as int]@));
                j = j + 1;
            }
            assert(defs_view(ds@).subrange(0, ds@.len() as int) =~= defs_view(ds@));
            assert(fv[i as int].facts.defs == defs_view(ds@));
            i = i + 1;
        }
        assert(fv.subrange(0, self.files@.len() as int) =~= fv);
        r
    }

    /// The fixture name at a position (zero-based line and column): an
    /// identifier that a usage or a definition on that line carries.
    pub fn find_fixture_at_position(&self, file_path: &str, line: u32, character: u32) -> (r: Option<String>)
        ensures
            opt_seq(r) == fixture_at(self.files_spec(), file_path@, line as nat, character as nat),
    {
        let idx = self.file_index(file_path);
        match idx {
            None => None,
            Some(i) => {
                let rec = &self.files[i];
                let word = Self::word_in_record(rec, line, character);
                match word {
                    None => None,
                    Some(w) => {
                        let u = last_usage_at(&rec.usages, w.as_str(), line);
                        if u.is_some() || any_def_on_line(&rec.definitions, w.as_str(), line) {
                            Some(w)
                        } else {
                            None
                        }
                    },
                }
            },
        }
    }

    /// The definition for a position (zero-based line and column): the
    /// definition whose name is under the cursor, or the one that the usage
    /// under the cursor resolves to by pytest's priority rules.
    pub fn find_fixture_definition(&self, file_path: &str, line: u32, character: u32) -> (r: Option<FixtureDefinition>)
        ensures
            opt_def_view(r) == definition_at(self.files_spec(), file_path@, line as nat, character as nat),
    {
        let idx = self.file_index(file_path);
        match idx {
            None => None,
            Some(i) => {
                let rec = &self.files[i];
                let word = Self::word_in_record(rec, line, character);
                match word {
                    None => None,
                    Some(w) => {
                        match last_def_name_at(&rec.definitions, w.as_str(), line, character) {
                            Some(k) => Some(rec.definitions[k].duplicate()),
                            None => match last_usage_at(&rec.usages, w.as_str(), line) {
                                None => None,
                                Some(u) => {
                                    let all = self.all_definitions();
                                    match resolve_index(&all, w.as_str(), file_path, rec.usages[u].line) {
                                        Some(j) => Some(all[j].duplicate()),
                                        None => None,
                                    }
                                },
                            },
                        }
                    },
                }
            },
        }
    }
}


/// A definition is identified by its name, file and line.
pub open spec fn same_def(a: DefinitionView, b: DefinitionView) -> bool {
    a.name == b.name && a.file_path == b.file_path && a.line == b.line
}

/// `name`, used in `path` by the function on `line`, resolves to `d`.
pub open spec fn resolves_to(all: Seq<DefinitionView>, name: Seq<char>, path: Seq<char>, line: nat, d: DefinitionView) -> bool {
    match resolve(all, name, path, line) {
        Some(j) => same_def(all[j], d),
        None => false,
    }
}

/// Usages of `us` (in the file at `path`) of `d`'s name that resolve to `d`.
pub open spec fn refs_in(us: Seq<UsageView>, path: Seq<char>, all: Seq<DefinitionView>, d: DefinitionView) -> Seq<UsageView>
    decreases us.len(),
{
    if us.len() == 0 {
        Seq::empty()
    } else {
        let rest = refs_in(us.drop_last(), path, all, d);
        let u = us.last();
        if u.name == d.name && resolves_to(all, u.name, path, u.line, d) { rest.push(u) } else { rest }
    }
}

/// The references of `d` in all files, file by file.
pub open spec fn references_of(files: Seq<FileView>, all: Seq<DefinitionView>, d: DefinitionView) -> Seq<UsageView>
    decreases files.len(),
{
    if files.len() == 0 {
        Seq::empty()
    } else {
        references_of(files.drop_last(), all, d) + refs_in(files.last().facts.usages, files.last().path, all, d)
    }
}

/// Usages of `us` under `name`.
pub open spec fn named_in(us: Seq<UsageView>, name: Seq<char>) -> Seq<UsageView>
    decreases us.len(),
{
    if us.len() == 0 {
        Seq::empty()
    } else {
        let rest = named_in(us.drop_last(), name);
        if us.last().name == name { rest.push(us.last()) } else { rest }
    }
}

pub open spec fn usages_named(files: Seq<FileView>, name: Seq<char>) -> Seq<UsageView>
    decreases files.len(),
{
    if files.len() == 0 {
        Seq::empty()
    } else {
        usages_named(files.drop_last(), name) + named_in(files.last().facts.usages, name)
    }
}

/// No definition before position `k` has the name of `all[k]`.
pub open spec fn first_of_name(all: Seq<DefinitionView>, k: int) -> bool {
    forall|j: int| 0 <= j < k ==> (#[trigger] all[j]).name != all[k].name
}

/// What the names of the first `k` definitions resolve to from `path`,
/// each name once, in order of first appearance.
pub open spec fn visible_prefix(all: Seq<DefinitionView>, path: Seq<char>, k: int) -> Seq<DefinitionView>
    decreases k,
{
    if k <= 0 || k > all.len() {
        Seq::empty()
    } else {
        let rest = visible_prefix(all, path, k - 1);
        if first_of_name(all, k - 1) {
            match resolve_visible(all, all[k - 1].name, path, 0) {
                Some(j) => rest.push(all[j]),
                None => rest,
            }
        } else {
            rest
        }
    }
}

/// The fixtures visible from the file at `path`.
pub open spec fn visible(files: Seq<FileView>, path: Seq<char>) -> Seq<DefinitionView> {
    visible_prefix(all_defs(files), path, all_defs(files).len() as int)
}

/// Undeclared candidates of the file whose name names a visible fixture.
pub open spec fn flagged(us: Seq<crate::model::UndeclaredView>, path: Seq<char>, all: Seq<DefinitionView>) -> Seq<crate::model::UndeclaredView>
    decreases us.len(),
{
    if us.len() == 0 {
        Seq::empty()
    } else {
        let rest = flagged(us.drop_last(), path, all);
        if resolve_visible(all, us.last().name, path, 0) is Some { rest.push(us.last()) } else { rest }
    }
}

pub open spec fn undeclared_diagnostics(files: Seq<FileView>, path: Seq<char>) -> Seq<crate::model::UndeclaredView> {
    match find_file(files, path) {
        Some(i) => flagged(files[i].facts.undeclared, path, all_defs(files)),
        None => Seq::empty(),
    }
}

fn same_definition(a: &FixtureDefinition, b: &FixtureDefinition) -> (r: bool)
    ensures
        r == same_def(a@, b@),
{
    str_eq(a.name.as_str(), b.name.as_str()) && str_eq(a.file_path.as_str(), b.file_path.as_str()) && a.line == b.line
}

impl FixtureDatabase {
    /// Every usage of the fixture name, in all files.
    pub fn find_fixture_references(&self, fixture_name: &str) -> (r: Vec<FixtureUsage>)
        ensures
            crate::analyzer::usages_view(r@) == usages_named(self.files_spec(), fixture_name@),
    {
        let ghost fv = self.files_spec();
        let mut r: Vec<FixtureUsage> = Vec::new();
        let mut i: usize = 0;
        while i < self.files.len()
            invariant
                fv == self.files_spec(),
                i <= self.files@.len(),
                crate::analyzer::usages_view(r@) == usages_named(fv.subrange(0, i as int), fixture_name@),
            decreases self.files@.len() - i,
        {
            proof {
                assert(fv.subrange(0, i + 1).drop_last() =~= fv.subrange(0, i as int));
            }
            let us = &self.files[i].usages;
            let ghost uv = crate::analyzer::usages_view(us@);
            let ghost before = crate::analyzer::usages_view(r@);
            let mut j: usize = 0;
            while j < us.len()
                invariant
                    j <= us@.len(),
                    uv == crate::analyzer::usages_view(us@),
                    crate::analyzer::usages_view(r@) == before + named_in(uv.subrange(0, j as int), fixture_name@),
                decreases us@.len() - j,
            {
                proof {
                    assert(uv.subrange(0, j + 1).drop_last() =~= uv.subrange(0, j as int));
                }
                if str_eq(us[j].name.as_str(), fixture_name) {
                    let u = us[j].duplicate();
                    let ghost prev = crate::analyzer::usages_view(r@);
                    r.push(u);
                    assert(crate::analyzer::usages_view(r@) =~= prev.push(u@));
                }
                assert(crate::analyzer::usages_view(r@) =~= before + named_in(uv.subrange(0, j + 1), fixture_name@));
                j = j + 1;
            }
            assert(uv.subrange(0, us@.len() as int) =~= uv);
            i = i + 1;
        }
        assert(fv.subrange(0, self.files@.len() as int) =~= fv);
        r
    }

    /// The usages, in all files, that resolve to `definition`: a usage whose
    /// resolution points elsewhere is not a reference of it.
    pub fn find_references_for_definition(&self, definition: &FixtureDefinition) -> (r: Vec<FixtureUsage>)
        ensures
            crate::analyzer::usages_view(r@) == references_of(self.files_spec(), all_defs(self.files_spec()), definition@),
    {
        let all = self.all_definitions();
        let total = all.len();
        let ghost av = all_defs(self.files_spec());
        let ghost fv = self.files_spec();
        let mut r: Vec<FixtureUsage> = Vec::new();
        let mut i: usize = 0;
        while i < self.files.len()
            invariant
                fv == self.files_spec(),
                total == all@.len(),
                defs_view(all@) == av,
                i <= self.files@.len(),
                crate::analyzer::usages_view(r@) == references_of(fv.subrange(0, i as int), av, definition@),
            decreases self.files@.len() - i,
        {
            proof {
                assert(fv.subrange(0, i + 1).drop_last() =~= fv.subrange(0, i as int));
            }
            let rec = &self.files[i];
            let us = &rec.usages;
            let ghost uv = crate::analyzer::usages_view(us@);
            let ghost before = crate::analyzer::usages_view(r@);
            let mut j: usize = 0;
            while j < us.len()
                invariant
                    j <= us@.len(),
                    total == all@.len(),
                    defs_view(all@) == av,
                    uv == crate::analyzer::usages_view(us@),
                    crate::analyzer::usages_view(r@) == before + refs_in(uv.subrange(0, j as int), rec.path@, av, definition@),
                decreases us@.len() - j,
            {
                proof {
                    assert(uv.subrange(0, j + 1).drop_last() =~= uv.subrange(0, j as int));
                }
                let u = &us[j];
                assert(uv[j as int] == u@);
                assert(uv.subrange(0, j + 1).last() == u@);
                if str_eq(u.name.as_str(), definition.name.as_str()) {
                    match resolve_index(&all, u.name.as_str(), rec.path.as_str(), u.line) {
                        Some(k) => {
                            let ghost x = resolve(av, u.name@, rec.path@, u.line as nat);
                            assert(crate::resolver::index_in(x, all@.len() as int));
                            assert(x is Some && x->Some_0 as usize == k);
                            assert(x == Some(k as int));
                            assert(av[k as int] == all@[k as int]@);
                            if same_definition(&all[k], definition) {
                                assert(resolves_to(av, uv[j as int].name, rec.path@, uv[j as int].line, definition@));
                                let c = u.duplicate();
                                let ghost prev = crate::analyzer::usages_view(r@);
                                r.push(c);
                                assert(crate::analyzer::usages_view(r@) =~= prev.push(c@));
                            }
                        },
                        None => {},
                    }
                }
                assert(crate::analyzer::usages_view(r@) =~= before + refs_in(uv.subrange(0, j + 1), rec.path@, av, definition@));
                j = j + 1;
            }
            assert(uv.subrange(0, us@.len() as int) =~= uv);
            i = i + 1;
        }
        assert(fv.subrange(0, self.files@.len() as int) =~= fv);
        r
    }

    /// The references of the fixture under the cursor: those of the
    /// definition that `find_fixture_definition` gives there.
    pub fn resolve_references(&self, file_path: &str, line: u32, character: u32) -> (r: Vec<FixtureUsage>)
        ensures
            crate::analyzer::usages_view(r@) == (match definition_at(self.files_spec(), file_path@, line as nat, character as nat) {
                Some(d) => references_of(self.files_spec(), all_defs(self.files_spec()), d),
                None => Seq::<UsageView>::empty(),
            }),
    {
        match self.find_fixture_definition(file_path, line, character) {
            Some(d) => self.find_references_for_definition(&d),
            None => {
                let r: Vec<FixtureUsage> = Vec::new();
                assert(crate::analyzer::usages_view(r@) =~= Seq::<UsageView>::empty());
                r
            },
        }
    }

    /// The fixtures visible from a file: for each fixture name, the
    /// definition that it resolves to there, in order of first appearance.
    pub fn get_available_fixtures(&self, file_path: &str) -> (r: Vec<FixtureDefinition>)
        ensures
            defs_view(r@) == visible(self.files_spec(), file_path@),
    {
        let all = self.all_definitions();
        let ghost av = all_defs(self.files_spec());
        let mut r: Vec<FixtureDefinition> = Vec::new();
        let mut k: usize = 0;
        while k < all.len()
            invariant
                defs_view(all@) == av,
                k <= all@.len(),
                defs_view(r@) == visible_prefix(av, file_path@, k as int),
            decreases all@.len() - k,
        {
            let mut first = true;
            let mut j: usize = 0;
            while j < k
                invariant
                    defs_view(all@) == av,
                    j <= k < all@.len(),
                    first == (forall|m: int| 0 <= m < j ==> (#[trigger] av[m]).name != av[k as int].name),
                decreases k - j,
            {
                let same = str_eq(all[j].name.as_str(), all[k].name.as_str());
                if same {
                    first = false;
                }
                proof {
                    assert(av[j as int] == all@[j as int]@);
                    assert(av[k as int] == all@[k as int]@);
                    if same {
                        assert(av[j as int].name == av[k as int].name);
                    }
                }
                j = j + 1;
            }
            if first {
                match resolve_visible_index(&all, all[k].name.as_str(), file_path, 0) {
                    Some(m) => {
                        let d = all[m].duplicate();
                        let ghost prev = defs_view(r@);
                        r.push(d);
                        assert(defs_view(r@) =~= prev.push(d@));
                    },
                    None => {},
                }
            }
            k = k + 1;
        }
        r
    }
}


/// Definitions of `ds` named `name`.
pub open spec fn defs_named(ds: Seq<DefinitionView>, name: Seq<char>) -> Seq<DefinitionView>
    decreases ds.len(),
{
    if ds.len() == 0 {
        Seq::empty()
    } else {
        let rest = defs_named(ds.drop_last(), name);
        if ds.last().name == name { rest.push(ds.last()) } else { rest }
    }
}

impl FixtureDatabase {
    /// The definitions of a fixture name in all files, or `None` when there
    /// is none.
    pub fn definitions_named(&self, name: &str) -> (r: Option<Vec<FixtureDefinition>>)
        ensures
            match r {
                Some(v) => defs_view(v@) == defs_named(all_defs(self.files_spec()), name@) && v@.len() > 0,
                None => defs_named(all_defs(self.files_spec()), name@).len() == 0,
            },
    {
        let all = self.all_definitions();
        let ghost av = all_defs(self.files_spec());
        let mut r: Vec<FixtureDefinition> = Vec::new();
        let mut i: usize = 0;
        while i < all.len()
            invariant
                defs_view(all@) == av,
                i <= all@.len(),
                defs_view(r@) == defs_named(av.subrange(0, i as int), name@),
            decreases all@.len() - i,
        {
            proof {
                assert(av.subrange(0, i + 1).drop_last() =~= av.subrange(0, i as int));
            }
            if str_eq(all[i].name.as_str(), name) {
                let d = all[i].duplicate();
                let ghost prev = defs_view(r@);
                r.push(d);
                assert(defs_view(r@) =~= prev.push(d@));
            }
            i = i + 1;
        }
        assert(av.subrange(0, all@.len() as int) =~= av);
        if r.len() == 0 {
            None
        } else {
            Some(r)
        }
    }

    /// The usages recorded for a file, or `None` when it has none.
    pub fn usages_in(&self, file_path: &str) -> (r: Option<Vec<FixtureUsage>>)
        ensures
            match r {
                Some(v) => find_file(self.files_spec(), file_path@) is Some && crate::analyzer::usages_view(v@)
                    == self.files_spec()[find_file(self.files_spec(), file_path@)->Some_0].facts.usages && v@.len() > 0,
                None => match find_file(self.files_spec(), file_path@) {
                    Some(i) => self.files_spec()[i].facts.usages.len() == 0,
                    None => true,
                },
            },
    {
        match self.file_index(file_path) {
            None => None,
            Some(i) => {
                let us = &self.files[i].usages;
                let mut r: Vec<FixtureUsage> = Vec::new();
                let mut j: usize = 0;
                while j < us.len()
                    invariant
                        j <= us@.len(),
                        crate::analyzer::usages_view(r@) == crate::analyzer::usages_view(us@).subrange(0, j as int),
                    decreases us@.len() - j,
                {
                    let u = us[j].duplicate();
                    let ghost prev = crate::analyzer::usages_view(r@);
                    r.push(u);
                    assert(crate::analyzer::usages_view(r@) =~= prev.push(u@));
                    assert(crate::analyzer::usages_view(us@).subrange(0, j + 1) =~= crate::analyzer::usages_view(us@).subrange(0, j as int).push(us@[j as int]@));
                    j = j + 1;
                }
                assert(crate::analyzer::usages_view(us@).subrange(0, us@.len() as int) =~= crate::analyzer::usages_view(us@));
                if r.len() == 0 {
                    None
                } else {
                    Some(r)
                }
            },
        }
    }

    /// The identifier under column `character` of `line`; see
    /// `crate::text::word_at`.
    pub fn extract_word_at_position(&self, line: &str, character: usize) -> (r: Option<String>)
        ensures
            opt_seq(r) == word_at(line@, character as int),
    {
        extract_word_at_position(line, character)
    }
}

} // verus!

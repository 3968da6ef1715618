//! The fixture knowledge base: what each analysed file contributes, replaced
//! as a whole when the file is analysed again, and the queries on it.

use vstd::prelude::*;
use crate::analyzer::{
    defs_view, imports_of, module_imports, module_level_names, module_names_of, stmts_facts, undeclared_view,
    usages_view, visit_stmts, Collector, Facts, FileContext, FileCtx,
};
use crate::model::{opt_str_view, DefinitionView, FixtureDefinition, FixtureUsage, UndeclaredFixture};
use crate::paths::{is_plugin_path, is_third_party_path, provenance};
use crate::python::{parse_module, python_syntax, MAX_SOURCE_BYTES};
use crate::syntax::PyStmt;
use crate::text::str_eq;
use vstd::string::StringSliceAdditionalSpecFns;

verus! {

/// What one analysed file contributes, with its text.
pub struct FileRecord {
    pub path: String,
    pub content: String,
    pub definitions: Vec<FixtureDefinition>,
    pub usages: Vec<FixtureUsage>,
    pub undeclared: Vec<UndeclaredFixture>,
    pub imports: Vec<String>,
    pub module_names: Vec<String>,
}

pub ghost struct FileView {
    pub path: Seq<char>,
    pub content: Seq<char>,
    pub facts: Facts,
    pub imports: Seq<Seq<char>>,
    pub module_names: Seq<String>,
}

impl View for FileRecord {
    type V = FileView;

    open spec fn view(&self) -> FileView {
        FileView {
            path: self.path@,
            content: self.content@,
            facts: Facts {
                defs: defs_view(self.definitions@),
                usages: usages_view(self.usages@),
                undeclared: undeclared_view(self.undeclared@),
            },
            imports: crate::model::strings_view(self.imports@),
            module_names: self.module_names@,
        }
    }
}

pub open spec fn files_view(v: Seq<FileRecord>) -> Seq<FileView> {
    v.map_values(|f: FileRecord| f@)
}

/// The record that analysis of `content`, parsed into `module`, gives for
/// the file at `path`, where `site` is the virtual environment's package
/// directory.
pub open spec fn record_of(
    path: Seq<char>,
    content: Seq<char>,
    bytes: Seq<u8>,
    module: Seq<PyStmt>,
    site: Option<Seq<char>>,
) -> FileView {
    let imports = module_imports(module);
    let names = module_level_names(module);
    let c = FileCtx {
        path,
        bytes,
        is_plugin: is_plugin_path(path, site),
        is_third_party: is_third_party_path(path, site),
        imports,
        module_names: names,
    };
    FileView { path, content, facts: stmts_facts(c, module), imports, module_names: names }
}

pub open spec fn module_view(m: Option<Vec<PyStmt>>) -> Option<Seq<PyStmt>> {
    match m {
        Some(v) => Some(v@),
        None => None,
    }
}

/// The record of a file whose text parsed into `module`; none for a file
/// that did not parse.
pub open spec fn parsed_record(
    path: Seq<char>,
    content: Seq<char>,
    bytes: Seq<u8>,
    module: Option<Seq<PyStmt>>,
    site: Option<Seq<char>>,
) -> Option<FileView> {
    match module {
        Some(m) => Some(record_of(path, content, bytes, m, site)),
        None => None,
    }
}

/// Index of the record of `path`, the last one if several.
pub open spec fn find_file(files: Seq<FileView>, path: Seq<char>) -> Option<int>
    decreases files.len(),
{
    if files.len() == 0 {
        None
    } else if files.last().path == path {
        Some(files.len() - 1)
    } else {
        find_file(files.drop_last(), path)
    }
}

/// `files` with the record of `path` replaced by `rec`: in place when there
/// is one, appended when there is none, removed when `rec` is `None`.
pub open spec fn replaced(files: Seq<FileView>, path: Seq<char>, rec: Option<FileView>) -> Seq<FileView> {
    match find_file(files, path) {
        Some(i) => match rec {
            Some(r) => files.update(i, r),
            None => files.remove(i),
        },
        None => match rec {
            Some(r) => files.push(r),
            None => files,
        },
    }
}

/// No two records share a path.
pub open spec fn distinct_paths(files: Seq<FileView>) -> bool {
    forall|i: int, j: int| 0 <= i < j < files.len() ==> (#[trigger] files[i]).path != (#[trigger] files[j]).path
}

/// All definitions, file by file.
pub open spec fn all_defs(files: Seq<FileView>) -> Seq<DefinitionView>
    decreases files.len(),
{
    if files.len() == 0 {
        Seq::empty()
    } else {
        all_defs(files.drop_last()) + files.last().facts.defs
    }
}

/// The central index of fixture definitions and usages.
pub struct FixtureDatabase {
    pub files: Vec<FileRecord>,
    /// The virtual environment's package directory, when one is known.
    pub site_packages: Option<String>,
}

impl Default for FixtureDatabase {
    fn default() -> (r: FixtureDatabase)
        ensures
            r.wf(),
            r.files_spec() == Seq::<FileView>::empty(),
            r.site_spec() is None,
    {
        FixtureDatabase::new()
    }
}

impl FixtureDatabase {
    pub open spec fn files_spec(&self) -> Seq<FileView> {
        files_view(self.files@)
    }

    pub open spec fn site_spec(&self) -> Option<Seq<char>> {
        opt_str_view(self.site_packages)
    }

    pub open spec fn wf(&self) -> bool {
        distinct_paths(self.files_spec())
    }

    /// An empty database.
    pub fn new() -> (r: FixtureDatabase)
        ensures
            r.wf(),
            r.files_spec() == Seq::<FileView>::empty(),
            r.site_spec() is None,
    {
        let r = FixtureDatabase { files: Vec::new(), site_packages: None };
        assert(r.files_spec() =~= Seq::<FileView>::empty());
        r
    }

    /// Sets the virtual environment's package directory, which decides the
    /// provenance of files analysed afterwards.
    pub fn set_site_packages(&mut self, site: Option<String>)
        ensures
            final(self).files == old(self).files,
            final(self).site_spec() == opt_str_view(site),
    {
        self.site_packages = site;
    }

    fn find_index(&self, path: &str) -> (r: Option<usize>)
        ensures
            match r {
                Some(i) => find_file(self.files_spec(), path@) == Some(i as int) && i < self.files@.len(),
                None => find_file(self.files_spec(), path@) is None,
            },
    {
        let ghost fv = self.files_spec();
        let mut r: Option<usize> = None;
        let mut i: usize = 0;
        while i < self.files.len()
            invariant
                fv == self.files_spec(),
                i <= self.files@.len(),
                match r {
                    Some(k) => find_file(fv.subrange(0, i as int), path@) == Some(k as int) && k < i,
                    None => find_file(fv.subrange(0, i as int), path@) is None,
                },
            decreases self.files@.len() - i,
        {
            proof {
                assert(fv.subrange(0, i + 1).drop_last() =~= fv.subrange(0, i as int));
            }
            if str_eq(self.files[i].path.as_str(), path) {
                r = Some(i);
            }
            i = i + 1;
        }
        assert(fv.subrange(0, self.files@.len() as int) =~= fv);
        r
    }

    /// Replaces what the file at `path` contributes by what `module`, the
    /// syntax tree of `content`, holds; a file that did not parse (`None`)
    /// contributes nothing afterwards.
    pub fn analyze_parsed(&mut self, path: &str, content: &str, module: Option<Vec<PyStmt>>)
        requires
            old(self).wf(),
            content.spec_bytes().len() < MAX_SOURCE_BYTES,
        ensures
            final(self).wf(),
            final(self).site_packages == old(self).site_packages,
            final(self).files_spec() == replaced(
                old(self).files_spec(),
                path@,
                parsed_record(path@, content@, content.spec_bytes(), module_view(module), old(self).site_spec()),
            ),
    {
        let ghost before = self.files_spec();
        let ghost target = parsed_record(path@, content@, content.spec_bytes(), module_view(module), self.site_spec());
        let rec = match &module {
            Some(m) => Some(self.build_record(path, content, m)),
            None => None,
        };
        assert(match rec {
            Some(r) => target == Some(r@),
            None => target is None,
        });
        let idx = self.find_index(path);
        match idx {
            Some(i) => match rec {
                Some(r) => {
                    let ghost rv = r@;
                    self.files.set(i, r);
                    assert(self.files_spec() =~= before.update(i as int, rv));
                    assert(self.files_spec() == replaced(before, path@, target));
                },
                None => {
                    self.files.remove(i);
                    assert(self.files_spec() =~= before.remove(i as int));
                    assert(self.files_spec() == replaced(before, path@, target));
                },
            },
            None => match rec {
                Some(r) => {
                    let ghost rv = r@;
                    self.files.push(r);
                    assert(self.files_spec() =~= before.push(rv));
                    assert(self.files_spec() == replaced(before, path@, target));
                },
                None => {},
            },
        }
        proof {
            lemma_replaced_distinct(before, path@, target);
            assert(self.files_spec() == replaced(before, path@, target));
            assert(distinct_paths(self.files_spec()));
        }
    }

    fn build_record(&self, path: &str, content: &str, module: &Vec<PyStmt>) -> (r: FileRecord)
        requires
            content.spec_bytes().len() < MAX_SOURCE_BYTES,
        ensures
            r@ == record_of(path@, content@, content.spec_bytes(), module@, self.site_spec()),
    {
        let bytes = content.as_bytes();
        let (is_plugin, is_third_party) = provenance(path, &self.site_packages);
        let ctx = FileContext {
            path: path.to_owned(),
            is_plugin,
            is_third_party,
            imports: imports_of(module),
            module_names: module_names_of(module),
        };
        let mut out = Collector { defs: Vec::new(), usages: Vec::new(), undeclared: Vec::new() };
        proof {
            assert(out.facts().defs =~= Seq::<DefinitionView>::empty());
            assert(out.facts().usages =~= Seq::<crate::model::UsageView>::empty());
            assert(out.facts().undeclared =~= Seq::<crate::model::UndeclaredView>::empty());
        }
        visit_stmts(&ctx, content, bytes, module, &mut out);
        let ghost f = stmts_facts(ctx.ctx(bytes@), module@);
        assert(out.facts().defs =~= f.defs);
        assert(out.facts().usages =~= f.usages);
        assert(out.facts().undeclared =~= f.undeclared);
        FileRecord {
            path: ctx.path,
            content: content.to_owned(),
            definitions: out.defs,
            usages: out.usages,
            undeclared: out.undeclared,
            imports: ctx.imports,
            module_names: ctx.module_names,
        }
    }

    /// Parses `content` and replaces what the file at `path` contributes.
    pub fn analyze_file(&mut self, path: &str, content: &str)
        requires
            old(self).wf(),
            content.spec_bytes().len() < MAX_SOURCE_BYTES,
        ensures
            final(self).wf(),
            final(self).site_packages == old(self).site_packages,
            final(self).files_spec() == replaced(
                old(self).files_spec(),
                path@,
                parsed_record(path@, content@, content.spec_bytes(), python_syntax(content@), old(self).site_spec()),
            ),
    {
        let module = parse_module(content);
        assert(module_view(module) == python_syntax(content@));
        self.analyze_parsed(path, content, module);
    }
}

/// What `find_file` finds carries the path; when it finds nothing, no
/// record does.
pub proof fn lemma_find_file_in(files: Seq<FileView>, path: Seq<char>)
    ensures
        match find_file(files, path) {
            Some(i) => 0 <= i < files.len() && files[i].path == path,
            None => forall|k: int| 0 <= k < files.len() ==> (#[trigger] files[k]).path != path,
        },
    decreases files.len(),
{
    if files.len() > 0 {
        lemma_find_file_in(files.drop_last(), path);
        if files.last().path != path {
            assert forall|k: int| 0 <= k < files.drop_last().len() implies (#[trigger] files[k]).path == files.drop_last()[k].path by {}
        }
    }
}

/// Replacing a record keeps paths distinct.
pub proof fn lemma_replaced_distinct(files: Seq<FileView>, path: Seq<char>, rec: Option<FileView>)
    requires
        distinct_paths(files),
        match rec {
            Some(r) => r.path == path,
            None => true,
        },
    ensures
        distinct_paths(replaced(files, path, rec)),
{
    lemma_find_file_in(files, path);
    let out = replaced(files, path, rec);
    match find_file(files, path) {
        Some(i) => match rec {
            Some(r) => {
                assert forall|a: int, b: int| 0 <= a < b < out.len() implies (#[trigger] out[a]).path != (#[trigger] out[b]).path by {
                    if a != i && b != i {
                        assert(files[a].path != files[b].path);
                    } else if a == i {
                        assert(files[b].path != files[i].path);
                    } else {
                        assert(files[a].path != files[i].path);
                    }
                }
            },
            None => {
                assert forall|a: int, b: int| 0 <= a < b < out.len() implies (#[trigger] out[a]).path != (#[trigger] out[b]).path by {
                    let fa = if a < i { a } else { a + 1 };
                    let fb = if b < i { b } else { b + 1 };
                    assert(out[a] == files[fa]);
                    assert(out[b] == files[fb]);
                    assert(files[fa].path != files[fb].path);
                }
            },
        },
        None => match rec {
            Some(r) => {
                assert forall|a: int, b: int| 0 <= a < b < out.len() implies (#[trigger] out[a]).path != (#[trigger] out[b]).path by {
                    if b == files.len() {
                        assert(files[a].path != path);
                    } else {
                        assert(files[a].path != files[b].path);
                    }
                }
            },
            None => {},
        },
    }
}

} // verus!

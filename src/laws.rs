//! Laws of the knowledge base, stated over the specifications that the
//! executable operations meet.

use vstd::prelude::*;
use crate::database::{distinct_paths, find_file, lemma_find_file_in, replaced, FileView};
use crate::model::DefinitionView;
use crate::database::all_defs;
use crate::model::UsageView;
use crate::queries::{
    cursor_word, def_name_at, definition_at, fixture_at, references_of, refs_in, resolves_to, same_def, usage_at,
};
use crate::resolver::{lemma_resolve_name, resolve, resolve_visible};
use crate::analyzer::{
    function_facts, imports_contain, names_contain, params_contain, stmt_facts, stmts_facts, undeclared_prefix, FileCtx,
};
use crate::database::{parsed_record, record_of};
use crate::python::python_syntax;
use crate::queries::{named_in, undeclared_diagnostics, usages_named};
use crate::resolver::{is_candidate, latest_in};
use crate::model::UndeclaredView;
use crate::names::NameRefView;
use crate::queries::flagged;
use crate::syntax::{PyParam, PyStmt, StmtKind};

verus! {

/// The record of `path`, if the files hold one.
pub open spec fn record_for(files: Seq<FileView>, path: Seq<char>) -> Option<FileView> {
    match find_file(files, path) {
        Some(i) => Some(files[i]),
        None => None,
    }
}

/// With distinct paths, the record that carries `path` is the one found.
proof fn lemma_find_unique(files: Seq<FileView>, path: Seq<char>, i: int)
    requires
        distinct_paths(files),
        0 <= i < files.len(),
        files[i].path == path,
    ensures
        find_file(files, path) == Some(i),
    decreases files.len(),
{
    if i < files.len() - 1 {
        assert(files.last().path != path) by {
            assert(files[i].path != files[files.len() - 1].path);
        }
        let d = files.drop_last();
        assert(distinct_paths(d)) by {
            assert forall|a: int, b: int| 0 <= a < b < d.len() implies (#[trigger] d[a]).path != (#[trigger] d[b]).path by {
                assert(files[a].path != files[b].path);
            }
        }
        lemma_find_unique(d, path, i);
    }
}

/// Analysing a file twice with the same text leaves the same contributions
/// as analysing it once.
pub proof fn lemma_analysis_idempotent(files: Seq<FileView>, path: Seq<char>, rec: Option<FileView>)
    requires
        distinct_paths(files),
        match rec {
            Some(r) => r.path == path,
            None => true,
        },
    ensures
        replaced(replaced(files, path, rec), path, rec) == replaced(files, path, rec),
{
    lemma_find_file_in(files, path);
    crate::database::lemma_replaced_distinct(files, path, rec);
    let once = replaced(files, path, rec);
    lemma_find_file_in(once, path);
    match rec {
        Some(r) => {
            let i = match find_file(files, path) {
                Some(i) => i,
                None => files.len() as int,
            };
            assert(once[i].path == path);
            lemma_find_unique(once, path, i);
            assert(once.update(i, r) =~= once);
        },
        None => {
            match find_file(files, path) {
                Some(i) => {
                    assert forall|k: int| 0 <= k < once.len() implies (#[trigger] once[k]).path != path by {
                        let fk = if k < i { k } else { k + 1 };
                        assert(once[k] == files[fk]);
                        assert(files[fk].path != files[i].path);
                    }
                },
                None => {},
            }
            assert(find_file(once, path) is None);
        },
    }
}

/// Analysing the file at `path` leaves the record of every other file as
/// it was.
pub proof fn lemma_analysis_isolated(files: Seq<FileView>, path: Seq<char>, rec: Option<FileView>, other: Seq<char>)
    requires
        distinct_paths(files),
        match rec {
            Some(r) => r.path == path,
            None => true,
        },
        other != path,
    ensures
        record_for(replaced(files, path, rec), other) == record_for(files, other),
{
    lemma_find_file_in(files, path);
    lemma_find_file_in(files, other);
    crate::database::lemma_replaced_distinct(files, path, rec);
    let out = replaced(files, path, rec);
    lemma_find_file_in(out, other);
    match find_file(files, other) {
        Some(j) => {
            let k = match find_file(files, path) {
                Some(i) => match rec {
                    Some(_) => j,
                    None => if j < i { j } else { j - 1 },
                },
                None => j,
            };
            assert(out[k] == files[j]);
            lemma_find_unique(out, other, k);
        },
        None => {
            assert forall|k: int| 0 <= k < out.len() implies (#[trigger] out[k]).path != other by {
                match find_file(files, path) {
                    Some(i) => match rec {
                        Some(r) => {
                            if k != i {
                                assert(out[k] == files[k]);
                            }
                        },
                        None => {
                            let fk = if k < i { k } else { k + 1 };
                            assert(out[k] == files[fk]);
                        },
                    },
                    None => match rec {
                        Some(r) => {
                            if k < files.len() {
                                assert(out[k] == files[k]);
                            }
                        },
                        None => {},
                    },
                }
            }
        },
    }
}

/// On the same index contents, the queries at a position give the same
/// answer every time.
pub proof fn lemma_resolution_deterministic(
    a: Seq<FileView>,
    b: Seq<FileView>,
    path: Seq<char>,
    line: nat,
    col: nat,
)
    requires
        a == b,
    ensures
        definition_at(a, path, line, col) == definition_at(b, path, line, col),
        fixture_at(a, path, line, col) == fixture_at(b, path, line, col),
{
}


/// The usage that `definition_at` resolves at a cursor, when the cursor is
/// on a usage rather than on a definition's name.
pub open spec fn usage_under_cursor(files: Seq<FileView>, path: Seq<char>, line0: nat, col: nat) -> Option<UsageView> {
    match find_file(files, path) {
        Some(i) => match cursor_word(files, path, line0, col) {
            Some(w) => match def_name_at(files[i].facts.defs, w, line0 + 1, col) {
                Some(_) => None,
                None => match usage_at(files[i].facts.usages, w, line0 + 1) {
                    Some(u) => Some(files[i].facts.usages[u]),
                    None => None,
                },
            },
            None => None,
        },
        None => None,
    }
}

proof fn lemma_usage_at_found(us: Seq<UsageView>, w: Seq<char>, target: nat)
    ensures
        match usage_at(us, w, target) {
            Some(u) => 0 <= u < us.len() && us[u].name == w,
            None => true,
        },
    decreases us.len(),
{
    if us.len() > 0 {
        lemma_usage_at_found(us.drop_last(), w, target);
    }
}

proof fn lemma_refs_in_has(us: Seq<UsageView>, path: Seq<char>, all: Seq<DefinitionView>, d: DefinitionView, k: int)
    requires
        0 <= k < us.len(),
        us[k].name == d.name,
        resolves_to(all, us[k].name, path, us[k].line, d),
    ensures
        refs_in(us, path, all, d).contains(us[k]),
    decreases us.len(),
{
    if k == us.len() - 1 {
        let r = refs_in(us, path, all, d);
        assert(r.last() == us[k]);
        assert(r[r.len() - 1] == us[k]);
    } else {
        let d2 = us.drop_last();
        lemma_refs_in_has(d2, path, all, d, k);
        assert(d2[k] == us[k]);
        let rest = refs_in(d2, path, all, d);
        let r = refs_in(us, path, all, d);
        let m = choose|m: int| 0 <= m < rest.len() && rest[m] == us[k];
        assert(r[m] == rest[m]);
    }
}

proof fn lemma_references_has(files: Seq<FileView>, all: Seq<DefinitionView>, d: DefinitionView, i: int, u: UsageView)
    requires
        0 <= i < files.len(),
        refs_in(files[i].facts.usages, files[i].path, all, d).contains(u),
    ensures
        references_of(files, all, d).contains(u),
    decreases files.len(),
{
    let here = refs_in(files.last().facts.usages, files.last().path, all, d);
    let rest = references_of(files.drop_last(), all, d);
    let r = references_of(files, all, d);
    if i == files.len() - 1 {
        let m = choose|m: int| 0 <= m < here.len() && here[m] == u;
        assert(r[rest.len() + m] == here[m]);
    } else {
        assert(files.drop_last()[i] == files[i]);
        lemma_references_has(files.drop_last(), all, d, i, u);
        let m = choose|m: int| 0 <= m < rest.len() && rest[m] == u;
        assert(r[m] == rest[m]);
    }
}

/// When go-to-definition at a usage gives `d`, that usage is among the
/// references of `d`.
pub proof fn lemma_references_complete(files: Seq<FileView>, path: Seq<char>, line0: nat, col: nat)
    requires
        definition_at(files, path, line0, col) is Some,
        usage_under_cursor(files, path, line0, col) is Some,
    ensures
        references_of(files, all_defs(files), definition_at(files, path, line0, col)->Some_0).contains(
            usage_under_cursor(files, path, line0, col)->Some_0,
        ),
{
    let i = find_file(files, path)->Some_0;
    lemma_find_file_in(files, path);
    let w = cursor_word(files, path, line0, col)->Some_0;
    let us = files[i].facts.usages;
    let k = usage_at(us, w, line0 + 1)->Some_0;
    lemma_usage_at_found(us, w, line0 + 1);
    let all = all_defs(files);
    let j = resolve(all, w, path, us[k].line)->Some_0;
    lemma_resolve_name(all, w, path, us[k].line);
    let d = all[j];
    assert(definition_at(files, path, line0, col) == Some(d));
    assert(same_def(all[j], d));
    assert(resolves_to(all, us[k].name, files[i].path, us[k].line, d));
    lemma_refs_in_has(us, files[i].path, all, d, k);
    lemma_references_has(files, all, d, i, us[k]);
}


/// No undeclared candidate of `us` is bound by an import or at module level.
pub open spec fn undeclared_free(us: Seq<UndeclaredView>, imports: Seq<Seq<char>>, module_names: Seq<String>) -> bool {
    forall|k: int| 0 <= k < us.len() ==> !imports_contain(imports, (#[trigger] us[k]).name) && !names_contain(
        module_names,
        us[k].name,
    )
}

proof fn lemma_prefix_free(
    occ: Seq<NameRefView>,
    k: int,
    ps: Seq<PyParam>,
    imports: Seq<Seq<char>>,
    module_names: Seq<String>,
    path: Seq<char>,
    bytes: Seq<u8>,
    fname: Seq<char>,
    fline: nat,
)
    ensures
        undeclared_free(undeclared_prefix(occ, k, ps, imports, module_names, path, bytes, fname, fline), imports, module_names),
    decreases k,
{
    if k > 0 && k <= occ.len() {
        lemma_prefix_free(occ, k - 1, ps, imports, module_names, path, bytes, fname, fline);
    }
}

proof fn lemma_join_free(a: Seq<UndeclaredView>, b: Seq<UndeclaredView>, imports: Seq<Seq<char>>, module_names: Seq<String>)
    requires
        undeclared_free(a, imports, module_names),
        undeclared_free(b, imports, module_names),
    ensures
        undeclared_free(a + b, imports, module_names),
{
    assert forall|k: int| 0 <= k < (a + b).len() implies !imports_contain(imports, (#[trigger] (a + b)[k]).name)
        && !names_contain(module_names, (a + b)[k].name) by {
        if k < a.len() {
            assert((a + b)[k] == a[k]);
        } else {
            assert((a + b)[k] == b[k - a.len()]);
        }
    }
}

proof fn lemma_stmt_free(c: FileCtx, s: PyStmt)
    ensures
        undeclared_free(stmt_facts(c, s).undeclared, c.imports, c.module_names),
    decreases s,
{
    match s.kind {
        StmtKind::Function(f) => {
            let occ = crate::names::names_in_stmts(f.body@);
            let line = crate::position::line_at(c.bytes, s.start as int);
            lemma_prefix_free(occ, occ.len() as int, f.params@, c.imports, c.module_names, c.path, c.bytes, f.name@, line);
        },
        StmtKind::Class { name: _, bases: _, decorators: _, body } => {
            lemma_stmts_free(c, body@);
        },
        _ => {},
    }
}

proof fn lemma_stmts_free(c: FileCtx, ss: Seq<PyStmt>)
    ensures
        undeclared_free(stmts_facts(c, ss).undeclared, c.imports, c.module_names),
    decreases ss,
{
    if ss.len() > 0 {
        lemma_stmts_free(c, ss.drop_last());
        lemma_stmt_free(c, ss.last());
        lemma_join_free(stmts_facts(c, ss.drop_last()).undeclared, stmt_facts(c, ss.last()).undeclared, c.imports, c.module_names);
    }
}

proof fn lemma_flagged_from(us: Seq<UndeclaredView>, path: Seq<char>, all: Seq<DefinitionView>, k: int)
    requires
        0 <= k < flagged(us, path, all).len(),
    ensures
        us.contains(flagged(us, path, all)[k]),
        resolve_visible(all, flagged(us, path, all)[k].name, path, 0) is Some,
    decreases us.len(),
{
    let rest = flagged(us.drop_last(), path, all);
    if k < rest.len() {
        lemma_flagged_from(us.drop_last(), path, all, k);
        let m = choose|m: int| 0 <= m < us.drop_last().len() && us.drop_last()[m] == rest[k];
        assert(us[m] == rest[k]);
    } else {
        assert(us[us.len() - 1] == us.last());
    }
}

/// A function named `fname` among `ss` (or in a class body there) does not
/// take a parameter named `n`.
pub open spec fn declares_without(ss: Seq<PyStmt>, fname: Seq<char>, n: Seq<char>) -> bool
    decreases ss,
{
    if ss.len() == 0 {
        false
    } else {
        stmt_declares_without(ss.last(), fname, n) || declares_without(ss.drop_last(), fname, n)
    }
}

pub open spec fn stmt_declares_without(s: PyStmt, fname: Seq<char>, n: Seq<char>) -> bool
    decreases s,
{
    match s.kind {
        StmtKind::Function(f) => f.name@ == fname && !params_contain(f.params@, n),
        StmtKind::Class { name: _, bases: _, decorators: _, body } => declares_without(body@, fname, n),
        _ => false,
    }
}

proof fn lemma_prefix_params(
    occ: Seq<NameRefView>,
    k: int,
    ps: Seq<PyParam>,
    imports: Seq<Seq<char>>,
    module_names: Seq<String>,
    path: Seq<char>,
    bytes: Seq<u8>,
    fname: Seq<char>,
    fline: nat,
)
    ensures
        forall|j: int| 0 <= j < undeclared_prefix(occ, k, ps, imports, module_names, path, bytes, fname, fline).len() ==> {
            let u = #[trigger] undeclared_prefix(occ, k, ps, imports, module_names, path, bytes, fname, fline)[j];
            u.function_name == fname && !params_contain(ps, u.name)
        },
    decreases k,
{
    if k > 0 && k <= occ.len() {
        lemma_prefix_params(occ, k - 1, ps, imports, module_names, path, bytes, fname, fline);
        let rest = undeclared_prefix(occ, k - 1, ps, imports, module_names, path, bytes, fname, fline);
        let cur = undeclared_prefix(occ, k, ps, imports, module_names, path, bytes, fname, fline);
        assert forall|j: int| 0 <= j < cur.len() implies (#[trigger] cur[j]).function_name == fname && !params_contain(
            ps,
            cur[j].name,
        ) by {
            if j < rest.len() {
                assert(cur[j] == rest[j]);
            }
        }
    }
}

proof fn lemma_stmt_params(c: FileCtx, s: PyStmt)
    ensures
        forall|j: int| 0 <= j < stmt_facts(c, s).undeclared.len() ==> stmt_declares_without(
            s,
            (#[trigger] stmt_facts(c, s).undeclared[j]).function_name,
            stmt_facts(c, s).undeclared[j].name,
        ),
    decreases s,
{
    match s.kind {
        StmtKind::Function(f) => {
            let occ = crate::names::names_in_stmts(f.body@);
            let line = crate::position::line_at(c.bytes, s.start as int);
            lemma_prefix_params(occ, occ.len() as int, f.params@, c.imports, c.module_names, c.path, c.bytes, f.name@, line);
            let us = stmt_facts(c, s).undeclared;
            assert(us == function_facts(c, f, s).undeclared);
            assert forall|j: int| 0 <= j < stmt_facts(c, s).undeclared.len() implies stmt_declares_without(
                s,
                (#[trigger] stmt_facts(c, s).undeclared[j]).function_name,
                stmt_facts(c, s).undeclared[j].name,
            ) by {
                let u = us[j];
                assert(u == undeclared_prefix(occ, occ.len() as int, f.params@, c.imports, c.module_names, c.path, c.bytes, f.name@, line)[j]);
                assert(u.function_name == f.name@);
                assert(!params_contain(f.params@, u.name));
            }
        },
        StmtKind::Class { name: _, bases: _, decorators: _, body } => {
            lemma_stmts_params(c, body@);
            assert(stmt_facts(c, s) == stmts_facts(c, body@));
            assert forall|j: int| 0 <= j < stmt_facts(c, s).undeclared.len() implies stmt_declares_without(
                s,
                (#[trigger] stmt_facts(c, s).undeclared[j]).function_name,
                stmt_facts(c, s).undeclared[j].name,
            ) by {
                assert(stmt_facts(c, s).undeclared[j] == stmts_facts(c, body@).undeclared[j]);
            }
        },
        _ => {
            assert(stmt_facts(c, s).undeclared.len() == 0);
        },
    }
}

proof fn lemma_stmts_params(c: FileCtx, ss: Seq<PyStmt>)
    ensures
        forall|j: int| 0 <= j < stmts_facts(c, ss).undeclared.len() ==> declares_without(
            ss,
            (#[trigger] stmts_facts(c, ss).undeclared[j]).function_name,
            stmts_facts(c, ss).undeclared[j].name,
        ),
    decreases ss,
{
    if ss.len() > 0 {
        lemma_stmts_params(c, ss.drop_last());
        lemma_stmt_params(c, ss.last());
        let a = stmts_facts(c, ss.drop_last()).undeclared;
        let b = stmt_facts(c, ss.last()).undeclared;
        assert forall|j: int| 0 <= j < (a + b).len() implies declares_without(
            ss,
            (#[trigger] (a + b)[j]).function_name,
            (a + b)[j].name,
        ) by {
            if j < a.len() {
                assert((a + b)[j] == a[j]);
            } else {
                assert((a + b)[j] == b[j - a.len()]);
            }
        }
        assert(stmts_facts(c, ss).undeclared == a + b);
    }
}

/// A name that the diagnostics flag as undeclared in a file is not a
/// parameter of the function it is read in, is neither imported there nor
/// bound at module level, and resolves to a fixture visible from the file.
pub proof fn lemma_undeclared_triangle(
    path: Seq<char>,
    content: Seq<char>,
    bytes: Seq<u8>,
    module: Seq<PyStmt>,
    site: Option<Seq<char>>,
    all: Seq<DefinitionView>,
    k: int,
)
    requires
        0 <= k < flagged(record_of(path, content, bytes, module, site).facts.undeclared, path, all).len(),
    ensures
        ({
            let rec = record_of(path, content, bytes, module, site);
            let u = flagged(rec.facts.undeclared, path, all)[k];
            &&& declares_without(module, u.function_name, u.name)
            &&& !imports_contain(rec.imports, u.name)
            &&& !names_contain(rec.module_names, u.name)
            &&& resolve_visible(all, u.name, path, 0) is Some
        }),
{
    let rec = record_of(path, content, bytes, module, site);
    let c = FileCtx {
        path,
        bytes,
        is_plugin: crate::paths::is_plugin_path(path, site),
        is_third_party: crate::paths::is_third_party_path(path, site),
        imports: rec.imports,
        module_names: rec.module_names,
    };
    lemma_stmts_free(c, module);
    lemma_stmts_params(c, module);
    lemma_flagged_from(rec.facts.undeclared, path, all, k);
}


/// After `replaced` with a record for `path`, the record found for `path` is
/// that record.
proof fn lemma_record_after(files: Seq<FileView>, path: Seq<char>, r: FileView)
    requires
        distinct_paths(files),
        r.path == path,
    ensures
        find_file(replaced(files, path, Some(r)), path) is Some,
        replaced(files, path, Some(r))[find_file(replaced(files, path, Some(r)), path)->Some_0] == r,
{
    lemma_find_file_in(files, path);
    crate::database::lemma_replaced_distinct(files, path, Some(r));
    let out = replaced(files, path, Some(r));
    let i = match find_file(files, path) {
        Some(i) => i,
        None => files.len() as int,
    };
    assert(out[i] == r);
    lemma_find_unique(out, path, i);
}

/// `analyze_file` run twice on one text leaves what it left once.
pub proof fn lemma_analyze_file_idempotent(
    files: Seq<FileView>,
    path: Seq<char>,
    content: Seq<char>,
    bytes: Seq<u8>,
    site: Option<Seq<char>>,
)
    requires
        distinct_paths(files),
    ensures
        ({
            let rec = parsed_record(path, content, bytes, python_syntax(content), site);
            replaced(replaced(files, path, rec), path, rec) == replaced(files, path, rec)
        }),
{
    lemma_analysis_idempotent(files, path, parsed_record(path, content, bytes, python_syntax(content), site));
}

/// `analyze_file` on one path leaves the record of every other path as it
/// was.
pub proof fn lemma_analyze_file_isolated(
    files: Seq<FileView>,
    path: Seq<char>,
    content: Seq<char>,
    bytes: Seq<u8>,
    site: Option<Seq<char>>,
    other: Seq<char>,
)
    requires
        distinct_paths(files),
        other != path,
    ensures
        record_for(replaced(files, path, parsed_record(path, content, bytes, python_syntax(content), site)), other)
            == record_for(files, other),
{
    lemma_analysis_isolated(files, path, parsed_record(path, content, bytes, python_syntax(content), site), other);
}

/// After `analyze_file` of a text that parses, every name that the
/// diagnostics flag in the file is not a parameter of the function it is
/// read in, is bound neither by an import nor at module level, and resolves
/// to a fixture visible from the file.
pub proof fn lemma_analyze_file_undeclared(
    files: Seq<FileView>,
    path: Seq<char>,
    content: Seq<char>,
    bytes: Seq<u8>,
    site: Option<Seq<char>>,
    k: int,
)
    requires
        distinct_paths(files),
        python_syntax(content) is Some,
        0 <= k < undeclared_diagnostics(
            replaced(files, path, parsed_record(path, content, bytes, python_syntax(content), site)),
            path,
        ).len(),
    ensures
        ({
            let m = python_syntax(content)->Some_0;
            let rec = record_of(path, content, bytes, m, site);
            let out = replaced(files, path, Some(rec));
            let u = undeclared_diagnostics(out, path)[k];
            &&& declares_without(m, u.function_name, u.name)
            &&& !imports_contain(rec.imports, u.name)
            &&& !names_contain(rec.module_names, u.name)
            &&& resolve_visible(all_defs(out), u.name, path, 0) is Some
        }),
{
    let m = python_syntax(content)->Some_0;
    let rec = record_of(path, content, bytes, m, site);
    let out = replaced(files, path, Some(rec));
    lemma_record_after(files, path, rec);
    lemma_undeclared_triangle(path, content, bytes, m, site, all_defs(out), k);
}

proof fn lemma_latest_is_greatest(
    defs: Seq<DefinitionView>,
    name: Seq<char>,
    file: Seq<char>,
    self_file: Seq<char>,
    self_line: nat,
    j: int,
)
    requires
        0 <= j < defs.len(),
        is_candidate(defs[j], name, self_file, self_line),
        defs[j].file_path == file,
    ensures
        latest_in(defs, name, file, self_file, self_line) is Some,
        ({
            let i = latest_in(defs, name, file, self_file, self_line)->Some_0;
            0 <= i < defs.len() && defs[i].file_path == file && defs[j].line <= defs[i].line
        }),
    decreases defs.len(),
{
    let d = defs.drop_last();
    if j < defs.len() - 1 {
        assert(d[j] == defs[j]);
        lemma_latest_is_greatest(d, name, file, self_file, self_line, j);
    } else {
        crate::resolver::lemma_latest_in_props(d, name, file, self_file, self_line);
    }
    crate::resolver::lemma_latest_in_props(defs, name, file, self_file, self_line);
}

/// Same-file override: where the file that uses a name defines it too, the
/// name resolves to a definition in that file, and to none written before
/// another of them.
pub proof fn lemma_same_file_override(defs: Seq<DefinitionView>, name: Seq<char>, file: Seq<char>, line: nat, j: int)
    requires
        0 <= j < defs.len(),
        is_candidate(defs[j], name, file, line),
        defs[j].file_path == file,
    ensures
        resolve(defs, name, file, line) is Some,
        ({
            let i = resolve(defs, name, file, line)->Some_0;
            defs[i].file_path == file && defs[j].line <= defs[i].line
        }),
{
    lemma_latest_is_greatest(defs, name, file, file, line, j);
}

/// With the cursor on a definition's name, go-to-definition gives that
/// definition itself, whatever a same-named parameter on the line would
/// resolve to.
pub proof fn lemma_cursor_on_own_name(files: Seq<FileView>, path: Seq<char>, line0: nat, col: nat)
    requires
        find_file(files, path) is Some,
        cursor_word(files, path, line0, col) is Some,
        def_name_at(
            files[find_file(files, path)->Some_0].facts.defs,
            cursor_word(files, path, line0, col)->Some_0,
            line0 + 1,
            col,
        ) is Some,
    ensures
        ({
            let i = find_file(files, path)->Some_0;
            let w = cursor_word(files, path, line0, col)->Some_0;
            let k = def_name_at(files[i].facts.defs, w, line0 + 1, col)->Some_0;
            definition_at(files, path, line0, col) == Some(files[i].facts.defs[k])
        }),
{
}

proof fn lemma_named_in_has(us: Seq<UsageView>, name: Seq<char>, k: int)
    requires
        0 <= k < us.len(),
        us[k].name == name,
    ensures
        named_in(us, name).contains(us[k]),
    decreases us.len(),
{
    let r = named_in(us, name);
    if k == us.len() - 1 {
        assert(r[r.len() - 1] == us[k]);
    } else {
        let d = us.drop_last();
        lemma_named_in_has(d, name, k);
        assert(d[k] == us[k]);
        let rest = named_in(d, name);
        let m = choose|m: int| 0 <= m < rest.len() && rest[m] == us[k];
        assert(r[m] == rest[m]);
    }
}

proof fn lemma_usages_named_has(files: Seq<FileView>, name: Seq<char>, i: int, u: UsageView)
    requires
        0 <= i < files.len(),
        named_in(files[i].facts.usages, name).contains(u),
    ensures
        usages_named(files, name).contains(u),
    decreases files.len(),
{
    let here = named_in(files.last().facts.usages, name);
    let rest = usages_named(files.drop_last(), name);
    let r = usages_named(files, name);
    if i == files.len() - 1 {
        let m = choose|m: int| 0 <= m < here.len() && here[m] == u;
        assert(r[rest.len() + m] == here[m]);
    } else {
        assert(files.drop_last()[i] == files[i]);
        lemma_usages_named_has(files.drop_last(), name, i, u);
        let m = choose|m: int| 0 <= m < rest.len() && rest[m] == u;
        assert(r[m] == rest[m]);
    }
}

/// When go-to-definition at a usage gives `d`, that usage is among all the
/// usages of `d`'s name.
pub proof fn lemma_named_references_complete(files: Seq<FileView>, path: Seq<char>, line0: nat, col: nat)
    requires
        definition_at(files, path, line0, col) is Some,
        usage_under_cursor(files, path, line0, col) is Some,
    ensures
        usages_named(files, definition_at(files, path, line0, col)->Some_0.name).contains(
            usage_under_cursor(files, path, line0, col)->Some_0,
        ),
{
    let i = find_file(files, path)->Some_0;
    lemma_find_file_in(files, path);
    let w = cursor_word(files, path, line0, col)->Some_0;
    let us = files[i].facts.usages;
    let k = usage_at(us, w, line0 + 1)->Some_0;
    lemma_usage_at_found(us, w, line0 + 1);
    let all = all_defs(files);
    lemma_resolve_name(all, w, path, us[k].line);
    lemma_named_in_has(us, w, k);
    lemma_usages_named_has(files, w, i, us[k]);
}

} // verus!

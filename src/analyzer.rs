//! Extraction of fixture definitions, usages and undeclared-usage candidates
//! from the syntax tree of one file.

use vstd::prelude::*;
use crate::model::{
    copy_strings, strings_view, DefinitionView, FixtureDefinition, FixtureUsage, UndeclaredFixture,
    UndeclaredView, UsageView,
};
use crate::names::{collect_stmts, names_in_stmts, refs_view, NameRef, NameRefView};
use crate::position::{col_at, col_of_offset, line_at, line_of_offset};
use crate::scope::FixtureScope;
use crate::syntax::{ExprKind, PyExpr, PyFunction, PyKeyword, PyParam, PyStmt, StmtKind};
use crate::text::{has_prefix, starts_with, str_eq};
use vstd::string::StringSliceAdditionalSpecFns;
use vstd::utf8::is_char_boundary;

verus! {

// ----- decorators -----

pub open spec fn is_name(e: PyExpr, n: Seq<char>) -> bool {
    match e.kind {
        ExprKind::Name { id, store: _ } => id@ == n,
        _ => false,
    }
}

/// `@fixture`, `@pytest.fixture`, or a call of either.
pub open spec fn is_fixture_marker(e: PyExpr) -> bool
    decreases e,
{
    match e.kind {
        ExprKind::Name { id, store: _ } => id@ == "fixture"@,
        ExprKind::Attribute { value, attr } => attr@ == "fixture"@ && is_name(*value, "pytest"@),
        ExprKind::Call { func, args: _, keywords: _ } => is_fixture_marker(*func),
        _ => false,
    }
}

pub open spec fn has_fixture_marker(decs: Seq<PyExpr>) -> bool {
    exists|i: int| 0 <= i < decs.len() && is_fixture_marker(#[trigger] decs[i])
}

/// `pytest.mark.<what>` as an expression.
pub open spec fn is_mark(e: PyExpr, what: Seq<char>) -> bool {
    match e.kind {
        ExprKind::Attribute { value, attr } => attr@ == what && match value.kind {
            ExprKind::Attribute { value: inner, attr: mark } => mark@ == "mark"@ && is_name(*inner, "pytest"@),
            _ => false,
        },
        _ => false,
    }
}

/// The value of the last `scope="..."` keyword that names a scope.
pub open spec fn scope_keyword(ks: Seq<PyKeyword>) -> Option<FixtureScope>
    decreases ks.len(),
{
    if ks.len() == 0 {
        None
    } else {
        let k = ks.last();
        let here = match (k.arg, k.value.kind) {
            (Some(a), ExprKind::Str { value }) => if a@ == "scope"@ { FixtureScope::named(value@) } else { None },
            _ => None,
        };
        if here is Some { here } else { scope_keyword(ks.drop_last()) }
    }
}

/// The value of the last `autouse=True|False` keyword.
pub open spec fn autouse_keyword(ks: Seq<PyKeyword>) -> Option<bool>
    decreases ks.len(),
{
    if ks.len() == 0 {
        None
    } else {
        let k = ks.last();
        let here = match (k.arg, k.value.kind) {
            (Some(a), ExprKind::Bool { value }) => if a@ == "autouse"@ { Some(value) } else { None },
            _ => None,
        };
        if here is Some { here } else { autouse_keyword(ks.drop_last()) }
    }
}

/// Keyword arguments of a fixture decorator call, empty for a bare marker.
pub open spec fn marker_keywords(e: PyExpr) -> Seq<PyKeyword> {
    match e.kind {
        ExprKind::Call { func: _, args: _, keywords } => if is_fixture_marker(e) { keywords@ } else { Seq::empty() },
        _ => Seq::empty(),
    }
}

/// Scope declared by the decorators: the last fixture decorator that names
/// one decides; `function` by default.
pub open spec fn declared_scope(decs: Seq<PyExpr>) -> FixtureScope
    decreases decs.len(),
{
    if decs.len() == 0 {
        FixtureScope::Function
    } else {
        match scope_keyword(marker_keywords(decs.last())) {
            Some(s) => s,
            None => declared_scope(decs.drop_last()),
        }
    }
}

/// `autouse` declared by the decorators, `false` by default.
pub open spec fn declared_autouse(decs: Seq<PyExpr>) -> bool
    decreases decs.len(),
{
    if decs.len() == 0 {
        false
    } else {
        match autouse_keyword(marker_keywords(decs.last())) {
            Some(b) => b,
            None => declared_autouse(decs.drop_last()),
        }
    }
}

// ----- parameters -----

/// Parameters that are never fixtures of a fixture: `self`, `cls`, `request`.
pub open spec fn is_special_param(n: Seq<char>, with_request: bool) -> bool {
    n == "self"@ || n == "cls"@ || (with_request && n == "request"@)
}

/// Names of the parameters that are dependencies.
pub open spec fn dependency_names(ps: Seq<PyParam>) -> Seq<Seq<char>>
    decreases ps.len(),
{
    if ps.len() == 0 {
        Seq::empty()
    } else {
        let rest = dependency_names(ps.drop_last());
        if is_special_param(ps.last().name@, true) { rest } else { rest.push(ps.last().name@) }
    }
}

pub open spec fn usage(name: Seq<char>, path: Seq<char>, line: nat, ref_line: nat, start: nat, end: nat) -> UsageView {
    UsageView { name, file_path: path, line, ref_line, start_char: start, end_char: end }
}

/// Usages for the parameters of a function whose `def` is on `line`.
pub open spec fn param_usages(
    ps: Seq<PyParam>,
    with_request: bool,
    path: Seq<char>,
    bytes: Seq<u8>,
    line: nat,
) -> Seq<UsageView>
    decreases ps.len(),
{
    if ps.len() == 0 {
        Seq::empty()
    } else {
        let rest = param_usages(ps.drop_last(), with_request, path, bytes, line);
        let p = ps.last();
        if is_special_param(p.name@, with_request) {
            rest
        } else {
            rest.push(usage(
                p.name@,
                path,
                line,
                line_at(bytes, p.start as int),
                col_at(bytes, p.start as int),
                col_at(bytes, p.end as int),
            ))
        }
    }
}

/// Usages for the string literals of `es`; a literal's range covers its
/// quotes, the usage the text between them.
pub open spec fn string_usages(es: Seq<PyExpr>, path: Seq<char>, bytes: Seq<u8>, line: nat) -> Seq<UsageView>
    decreases es.len(),
{
    if es.len() == 0 {
        Seq::empty()
    } else {
        let rest = string_usages(es.drop_last(), path, bytes, line);
        let e = es.last();
        match e.kind {
            ExprKind::Str { value } => rest.push(usage(
                value@,
                path,
                line,
                line_at(bytes, e.start as int),
                col_at(bytes, e.start as int) + 1,
                if col_at(bytes, e.end as int) > 0 { (col_at(bytes, e.end as int) - 1) as nat } else { 0nat },
            )),
            _ => rest,
        }
    }
}

/// The sequence passed as `indirect=[...]`, empty when there is none.
pub open spec fn indirect_items(ks: Seq<PyKeyword>) -> Seq<PyExpr>
    decreases ks.len(),
{
    if ks.len() == 0 {
        Seq::empty()
    } else {
        let k = ks.last();
        match (k.arg, k.value.kind) {
            (Some(a), ExprKind::Sequence { elts }) => if a@ == "indirect"@ { elts@ } else { indirect_items(ks.drop_last()) },
            _ => indirect_items(ks.drop_last()),
        }
    }
}

/// Usages named by `@pytest.mark.usefixtures("...")` and by the `indirect`
/// list of `@pytest.mark.parametrize(...)`.
pub open spec fn decorator_usages(decs: Seq<PyExpr>, path: Seq<char>, bytes: Seq<u8>, line: nat) -> Seq<UsageView>
    decreases decs.len(),
{
    if decs.len() == 0 {
        Seq::empty()
    } else {
        let rest = decorator_usages(decs.drop_last(), path, bytes, line);
        match decs.last().kind {
            ExprKind::Call { func, args, keywords } => if is_mark(*func, "usefixtures"@) {
                rest + string_usages(args@, path, bytes, line)
            } else if is_mark(*func, "parametrize"@) {
                rest + string_usages(indirect_items(keywords@), path, bytes, line)
            } else {
                rest
            },
            _ => rest,
        }
    }
}

// ----- undeclared candidates -----

pub open spec fn params_contain(ps: Seq<PyParam>, n: Seq<char>) -> bool {
    exists|i: int| 0 <= i < ps.len() && (#[trigger] ps[i]).name@ == n
}

/// An import of `v` binds `n`.
pub open spec fn imports_contain(v: Seq<Seq<char>>, n: Seq<char>) -> bool {
    exists|i: int| 0 <= i < v.len() && #[trigger] v[i] == n
}

pub open spec fn names_contain(v: Seq<String>, n: Seq<char>) -> bool {
    exists|i: int| 0 <= i < v.len() && (#[trigger] v[i])@ == n
}

/// `occ` binds `n` on a line no later than `line`.
pub open spec fn bound_by(occ: Seq<NameRefView>, bytes: Seq<u8>, n: Seq<char>, line: nat) -> bool {
    exists|i: int|
        0 <= i < occ.len() && (#[trigger] occ[i]).store && occ[i].id == n && line_at(bytes, occ[i].start as int) <= line
}

/// A read of `o.id` that nothing declares at that point of the function.
pub open spec fn is_undeclared(
    o: NameRefView,
    occ: Seq<NameRefView>,
    ps: Seq<PyParam>,
    imports: Seq<Seq<char>>,
    module_names: Seq<String>,
    bytes: Seq<u8>,
) -> bool {
    !o.store && !o.is_yield && !params_contain(ps, o.id) && !imports_contain(imports, o.id)
        && !names_contain(module_names, o.id) && !bound_by(occ, bytes, o.id, line_at(bytes, o.start as int))
}

/// Undeclared candidates among the first `k` occurrences of `occ`.
pub open spec fn undeclared_prefix(
    occ: Seq<NameRefView>,
    k: int,
    ps: Seq<PyParam>,
    imports: Seq<Seq<char>>,
    module_names: Seq<String>,
    path: Seq<char>,
    bytes: Seq<u8>,
    fname: Seq<char>,
    fline: nat,
) -> Seq<UndeclaredView>
    decreases k,
{
    if k <= 0 || k > occ.len() {
        Seq::empty()
    } else {
        let rest = undeclared_prefix(occ, k - 1, ps, imports, module_names, path, bytes, fname, fline);
        let o = occ[k - 1];
        if is_undeclared(o, occ, ps, imports, module_names, bytes) {
            rest.push(UndeclaredView {
                name: o.id,
                file_path: path,
                line: line_at(bytes, o.start as int),
                start_char: col_at(bytes, o.start as int),
                end_char: col_at(bytes, o.end as int),
                function_name: fname,
                function_line: fline,
            })
        } else {
            rest
        }
    }
}

/// Line of the first `yield` among the occurrences.
pub open spec fn first_yield(occ: Seq<NameRefView>, bytes: Seq<u8>) -> Option<nat>
    decreases occ.len(),
{
    if occ.len() == 0 {
        None
    } else {
        match first_yield(occ.drop_last(), bytes) {
            Some(l) => Some(l),
            None => if occ.last().is_yield { Some(line_at(bytes, occ.last().start as int)) } else { None },
        }
    }
}


// ----- return types and docstrings -----

pub open spec fn is_generator_name(n: Seq<char>) -> bool {
    n == "Generator"@ || n == "Iterator"@ || n == "AsyncGenerator"@ || n == "AsyncIterator"@
}

/// The annotation `e` names a generator-like type, bare or qualified.
pub open spec fn is_generator_type(e: PyExpr) -> bool {
    match e.kind {
        ExprKind::Name { id, store: _ } => is_generator_name(id@),
        ExprKind::Attribute { value: _, attr } => is_generator_name(attr@),
        _ => false,
    }
}

/// The source text of `bytes[start..end]`, when both offsets lie on
/// character boundaries in order.
pub open spec fn source_text(bytes: Seq<u8>, start: int, end: int) -> Option<Seq<u8>> {
    if 0 <= start <= end <= bytes.len() && is_char_boundary(bytes, start) && is_char_boundary(bytes, end) {
        Some(bytes.subrange(start, end))
    } else {
        None
    }
}

pub open spec fn expr_text(bytes: Seq<u8>, e: PyExpr) -> Option<Seq<u8>> {
    source_text(bytes, e.start as int, e.end as int)
}

/// The return type that a fixture provides: the text of the first type
/// argument of a generator-like annotation, else the annotation's text.
pub open spec fn provided_type(bytes: Seq<u8>, e: PyExpr) -> Option<Seq<u8>> {
    match e.kind {
        ExprKind::Subscript { value, slice } => if is_generator_type(*value) {
            match slice.kind {
                ExprKind::Sequence { elts } => if elts@.len() > 0 { expr_text(bytes, elts@[0]) } else { None },
                _ => expr_text(bytes, *slice),
            }
        } else {
            expr_text(bytes, e)
        },
        _ => expr_text(bytes, e),
    }
}

pub open spec fn return_type_of(bytes: Seq<u8>, o: Option<PyExpr>) -> Option<Seq<u8>> {
    match o {
        Some(e) => provided_type(bytes, e),
        None => None,
    }
}

/// The string literal that opens a body, if any.
pub open spec fn raw_docstring(body: Seq<PyStmt>) -> Option<Seq<char>> {
    if body.len() == 0 {
        None
    } else {
        match body[0].kind {
            StmtKind::Expr { value } => match value.kind {
                ExprKind::Str { value: s } => Some(s@),
                _ => None,
            },
            _ => None,
        }
    }
}

pub open spec fn docstring_of(body: Seq<PyStmt>) -> Option<Seq<char>> {
    match raw_docstring(body) {
        Some(s) => Some(crate::docstring::cleandoc(s)),
        None => None,
    }
}

// ----- definitions -----

/// What the analysis of one file knows besides the tree.
pub ghost struct FileCtx {
    pub path: Seq<char>,
    pub bytes: Seq<u8>,
    pub is_plugin: bool,
    pub is_third_party: bool,
    pub imports: Seq<Seq<char>>,
    pub module_names: Seq<String>,
}

/// A byte that can stand in an identifier: an ASCII letter, digit or `_`,
/// or part of a non-ASCII character.
pub open spec fn is_ident_byte(b: u8) -> bool {
    (48 <= b && b <= 57) || (65 <= b && b <= 90) || (97 <= b && b <= 122) || b == 95 || b >= 128
}

/// `pat` stands as a whole word at byte offset `k`.
pub open spec fn word_at_offset(bytes: Seq<u8>, pat: Seq<u8>, k: int) -> bool {
    &&& 0 <= k && k + pat.len() <= bytes.len()
    &&& bytes.subrange(k, k + pat.len()) == pat
    &&& (k == 0 || !is_ident_byte(bytes[k - 1]))
    &&& (k + pat.len() == bytes.len() || !is_ident_byte(bytes[k + pat.len()]))
}

/// First offset in `k..end` where `pat` stands as a whole word.
pub open spec fn find_word(bytes: Seq<u8>, pat: Seq<u8>, k: int, end: int) -> Option<int>
    decreases end - k,
{
    if k >= end {
        None
    } else if word_at_offset(bytes, pat, k) {
        Some(k)
    } else {
        find_word(bytes, pat, k + 1, end)
    }
}

/// Byte range of a function's name: its first whole-word occurrence in the
/// statement (after `def`); empty at the statement's start if there is none.
pub open spec fn name_range(bytes: Seq<u8>, f: PyFunction, s: PyStmt) -> (int, int) {
    name_range_spec(bytes, f.name@, s.start as int, s.end as int)
}

pub open spec fn function_definition(c: FileCtx, f: PyFunction, s: PyStmt) -> DefinitionView {
    let occ = names_in_stmts(f.body@);
    DefinitionView {
        name: f.name@,
        file_path: c.path,
        line: line_at(c.bytes, s.start as int),
        end_line: line_at(c.bytes, s.end as int),
        start_char: col_at(c.bytes, name_range(c.bytes, f, s).0),
        end_char: col_at(c.bytes, name_range(c.bytes, f, s).1),
        docstring: docstring_of(f.body@),
        return_type: return_type_of(c.bytes, f.return_annotation),
        is_plugin: c.is_plugin,
        is_third_party: c.is_third_party,
        dependencies: dependency_names(f.params@),
        scope: declared_scope(f.decorators@),
        yield_line: first_yield(occ, c.bytes),
        autouse: declared_autouse(f.decorators@),
    }
}

/// Keywords of the inner call of `name = fixture(...)(func)`, when the
/// assigned value has that shape.
pub open spec fn assigned_marker(value: Option<PyExpr>) -> Option<Seq<PyKeyword>> {
    match value {
        Some(v) => match v.kind {
            ExprKind::Call { func, args: _, keywords: _ } => match func.kind {
                ExprKind::Call { func: inner, args: _, keywords } => if is_fixture_marker(*inner) {
                    Some(keywords@)
                } else {
                    None
                },
                _ => None,
            },
            _ => None,
        },
        None => None,
    }
}

/// One definition per simple-name target of `name = fixture(...)(func)`.
pub open spec fn assignment_definitions(
    c: FileCtx,
    targets: Seq<PyExpr>,
    s: PyStmt,
    ks: Seq<PyKeyword>,
) -> Seq<DefinitionView>
    decreases targets.len(),
{
    if targets.len() == 0 {
        Seq::empty()
    } else {
        let rest = assignment_definitions(c, targets.drop_last(), s, ks);
        let t = targets.last();
        match t.kind {
            ExprKind::Name { id, store: _ } => rest.push(DefinitionView {
                name: id@,
                file_path: c.path,
                line: line_at(c.bytes, s.start as int),
                end_line: line_at(c.bytes, s.end as int),
                start_char: col_at(c.bytes, t.start as int),
                end_char: col_at(c.bytes, t.end as int),
                docstring: None,
                return_type: None,
                is_plugin: c.is_plugin,
                is_third_party: c.is_third_party,
                dependencies: Seq::empty(),
                scope: match scope_keyword(ks) {
                    Some(x) => x,
                    None => FixtureScope::Function,
                },
                yield_line: None,
                autouse: match autouse_keyword(ks) {
                    Some(b) => b,
                    None => false,
                },
            }),
            _ => rest,
        }
    }
}

// ----- walking a file -----

/// What one file contributes.
pub ghost struct Facts {
    pub defs: Seq<DefinitionView>,
    pub usages: Seq<UsageView>,
    pub undeclared: Seq<UndeclaredView>,
}

pub open spec fn no_facts() -> Facts {
    Facts { defs: Seq::empty(), usages: Seq::empty(), undeclared: Seq::empty() }
}

pub open spec fn join(a: Facts, b: Facts) -> Facts {
    Facts { defs: a.defs + b.defs, usages: a.usages + b.usages, undeclared: a.undeclared + b.undeclared }
}

pub open spec fn is_test_name(n: Seq<char>) -> bool {
    has_prefix(n, "test_"@)
}

/// Contributions of a function definition: its fixture definition, the
/// usages of its parameters and decorators, and, for fixtures and tests, the
/// undeclared names read in its body.
pub open spec fn function_facts(c: FileCtx, f: PyFunction, s: PyStmt) -> Facts {
    let is_fixture = has_fixture_marker(f.decorators@);
    let is_test = is_test_name(f.name@);
    let line = line_at(c.bytes, s.start as int);
    let fixture_uses = if is_fixture { param_usages(f.params@, true, c.path, c.bytes, line) } else { Seq::empty() };
    let test_uses = if is_test { param_usages(f.params@, false, c.path, c.bytes, line) } else { Seq::empty() };
    let occ = names_in_stmts(f.body@);
    Facts {
        defs: if is_fixture { seq![function_definition(c, f, s)] } else { Seq::empty() },
        usages: fixture_uses + test_uses + decorator_usages(f.decorators@, c.path, c.bytes, line),
        undeclared: if is_fixture || is_test {
            undeclared_prefix(occ, occ.len() as int, f.params@, c.imports, c.module_names, c.path, c.bytes, f.name@, line)
        } else {
            Seq::empty()
        },
    }
}

/// Contributions of a statement of the module or of a class body.
pub open spec fn stmt_facts(c: FileCtx, s: PyStmt) -> Facts
    decreases s,
{
    match s.kind {
        StmtKind::Function(f) => function_facts(c, f, s),
        StmtKind::Class { name: _, bases: _, decorators: _, body } => stmts_facts(c, body@),
        StmtKind::Assign { targets, value } => match assigned_marker(value) {
            Some(ks) => Facts { defs: assignment_definitions(c, targets@, s, ks), usages: Seq::empty(), undeclared: Seq::empty() },
            None => no_facts(),
        },
        _ => no_facts(),
    }
}

pub open spec fn stmts_facts(c: FileCtx, ss: Seq<PyStmt>) -> Facts
    decreases ss,
{
    if ss.len() == 0 {
        no_facts()
    } else {
        join(stmts_facts(c, ss.drop_last()), stmt_facts(c, ss.last()))
    }
}

/// The names that the aliases bind.
pub open spec fn alias_names(v: Seq<crate::syntax::PyAlias>) -> Seq<Seq<char>>
    decreases v.len(),
{
    if v.len() == 0 {
        Seq::empty()
    } else {
        alias_names(v.drop_last()).push(crate::names::bound_name(v.last()))
    }
}

/// Names that `import` statements of the module bind.
pub open spec fn module_imports(ss: Seq<PyStmt>) -> Seq<Seq<char>>
    decreases ss.len(),
{
    if ss.len() == 0 {
        Seq::empty()
    } else {
        let rest = module_imports(ss.drop_last());
        match ss.last().kind {
            StmtKind::Import { names } => rest + alias_names(names@),
            _ => rest,
        }
    }
}

/// Simple-name targets of an assignment.
pub open spec fn target_names(ts: Seq<PyExpr>) -> Seq<String>
    decreases ts.len(),
{
    if ts.len() == 0 {
        Seq::empty()
    } else {
        let rest = target_names(ts.drop_last());
        match ts.last().kind {
            ExprKind::Name { id, store: _ } => rest.push(id),
            _ => rest,
        }
    }
}

/// Names that the module binds besides imports: assignment targets, classes
/// and functions that are not fixtures.
pub open spec fn module_level_names(ss: Seq<PyStmt>) -> Seq<String>
    decreases ss.len(),
{
    if ss.len() == 0 {
        Seq::empty()
    } else {
        let rest = module_level_names(ss.drop_last());
        match ss.last().kind {
            StmtKind::Assign { targets, value: _ } => rest + target_names(targets@),
            StmtKind::Class { name, bases: _, decorators: _, body: _ } => rest.push(name),
            StmtKind::Function(f) => if has_fixture_marker(f.decorators@) { rest } else { rest.push(f.name) },
            _ => rest,
        }
    }
}


// ----- executable forms -----

pub open spec fn usages_view(v: Seq<FixtureUsage>) -> Seq<UsageView> {
    v.map_values(|u: FixtureUsage| u@)
}

fn name_is(e: &PyExpr, n: &str) -> (r: bool)
    ensures
        r == is_name(*e, n@),
{
    match &e.kind {
        ExprKind::Name { id, store: _ } => str_eq(id.as_str(), n),
        _ => false,
    }
}

/// Executable form of `is_fixture_marker`.
pub fn fixture_marker(e: &PyExpr) -> (r: bool)
    ensures
        r == is_fixture_marker(*e),
    decreases e,
{
    proof {
        reveal_strlit("fixture");
        reveal_strlit("pytest");
    }
    match &e.kind {
        ExprKind::Name { id, store: _ } => str_eq(id.as_str(), "fixture"),
        ExprKind::Attribute { value, attr } => str_eq(attr.as_str(), "fixture") && name_is(value, "pytest"),
        ExprKind::Call { func, args: _, keywords: _ } => fixture_marker(func),
        _ => false,
    }
}

/// Executable form of `has_fixture_marker`.
pub fn any_fixture_marker(decs: &Vec<PyExpr>) -> (r: bool)
    ensures
        r == has_fixture_marker(decs@),
{
    let mut i: usize = 0;
    while i < decs.len()
        invariant
            i <= decs@.len(),
            forall|j: int| 0 <= j < i ==> !is_fixture_marker(#[trigger] decs@[j]),
        decreases decs@.len() - i,
    {
        if fixture_marker(&decs[i]) {
            return true;
        }
        i = i + 1;
    }
    false
}

pub(crate) fn mark_is(e: &PyExpr, what: &str) -> (r: bool)
    ensures
        r == is_mark(*e, what@),
{
    proof {
        reveal_strlit("mark");
        reveal_strlit("pytest");
    }
    match &e.kind {
        ExprKind::Attribute { value, attr } => {
            if !str_eq(attr.as_str(), what) {
                return false;
            }
            match &value.kind {
                ExprKind::Attribute { value: inner, attr: mark } => str_eq(mark.as_str(), "mark") && name_is(inner, "pytest"),
                _ => false,
            }
        },
        _ => false,
    }
}

fn keyword_is(k: &PyKeyword, n: &str) -> (r: bool)
    ensures
        r == (match k.arg {
            Some(a) => a@ == n@,
            None => false,
        }),
{
    match &k.arg {
        Some(a) => str_eq(a.as_str(), n),
        None => false,
    }
}

fn scope_of_keywords(ks: &Vec<PyKeyword>) -> (r: Option<FixtureScope>)
    ensures
        r == scope_keyword(ks@),
{
    proof {
        reveal_strlit("scope");
    }
    let mut r: Option<FixtureScope> = None;
    let mut i: usize = 0;
    while i < ks.len()
        invariant
            i <= ks@.len(),
            r == scope_keyword(ks@.subrange(0, i as int)),
        decreases ks@.len() - i,
    {
        proof {
            assert(ks@.subrange(0, i + 1).drop_last() =~= ks@.subrange(0, i as int));
        }
        let k = &ks[i];
        if keyword_is(k, "scope") {
            match &k.value.kind {
                ExprKind::Str { value } => {
                    let named = FixtureScope::from_name(value.as_str());
                    if named.is_some() {
                        r = named;
                    }
                },
                _ => {},
            }
        }
        i = i + 1;
    }
    assert(ks@.subrange(0, ks@.len() as int) =~= ks@);
    r
}

fn autouse_of_keywords(ks: &Vec<PyKeyword>) -> (r: Option<bool>)
    ensures
        r == autouse_keyword(ks@),
{
    proof {
        reveal_strlit("autouse");
    }
    let mut r: Option<bool> = None;
    let mut i: usize = 0;
    while i < ks.len()
        invariant
            i <= ks@.len(),
            r == autouse_keyword(ks@.subrange(0, i as int)),
        decreases ks@.len() - i,
    {
        proof {
            assert(ks@.subrange(0, i + 1).drop_last() =~= ks@.subrange(0, i as int));
        }
        let k = &ks[i];
        if keyword_is(k, "autouse") {
            match &k.value.kind {
                ExprKind::Bool { value } => {
                    r = Some(*value);
                },
                _ => {},
            }
        }
        i = i + 1;
    }
    assert(ks@.subrange(0, ks@.len() as int) =~= ks@);
    r
}

/// Scope and autouse declared by the keywords of a fixture decorator call.
fn marker_settings(e: &PyExpr) -> (r: (Option<FixtureScope>, Option<bool>))
    ensures
        r.0 == scope_keyword(marker_keywords(*e)),
        r.1 == autouse_keyword(marker_keywords(*e)),
{
    match &e.kind {
        ExprKind::Call { func: _, args: _, keywords } => {
            if fixture_marker(e) {
                (scope_of_keywords(keywords), autouse_of_keywords(keywords))
            } else {
                (None, None)
            }
        },
        _ => (None, None),
    }
}

/// Executable form of `declared_scope` and `declared_autouse`.
pub fn fixture_settings(decs: &Vec<PyExpr>) -> (r: (FixtureScope, bool))
    ensures
        r.0 == declared_scope(decs@),
        r.1 == declared_autouse(decs@),
{
    let mut scope = FixtureScope::Function;
    let mut autouse = false;
    let mut i: usize = 0;
    while i < decs.len()
        invariant
            i <= decs@.len(),
            scope == declared_scope(decs@.subrange(0, i as int)),
            autouse == declared_autouse(decs@.subrange(0, i as int)),
        decreases decs@.len() - i,
    {
        proof {
            assert(decs@.subrange(0, i + 1).drop_last() =~= decs@.subrange(0, i as int));
        }
        let (s, a) = marker_settings(&decs[i]);
        match s {
            Some(x) => {
                scope = x;
            },
            None => {},
        }
        match a {
            Some(x) => {
                autouse = x;
            },
            None => {},
        }
        i = i + 1;
    }
    assert(decs@.subrange(0, decs@.len() as int) =~= decs@);
    (scope, autouse)
}

fn special_param(n: &str, with_request: bool) -> (r: bool)
    ensures
        r == is_special_param(n@, with_request),
{
    proof {
        reveal_strlit("self");
        reveal_strlit("cls");
        reveal_strlit("request");
    }
    str_eq(n, "self") || str_eq(n, "cls") || (with_request && str_eq(n, "request"))
}

/// Executable form of `dependency_names`.
pub fn dependencies_of(ps: &Vec<PyParam>) -> (r: Vec<String>)
    ensures
        strings_view(r@) == dependency_names(ps@),
{
    let mut r: Vec<String> = Vec::new();
    let mut i: usize = 0;
    while i < ps.len()
        invariant
            i <= ps@.len(),
            strings_view(r@) == dependency_names(ps@.subrange(0, i as int)),
        decreases ps@.len() - i,
    {
        proof {
            assert(ps@.subrange(0, i + 1).drop_last() =~= ps@.subrange(0, i as int));
        }
        if !special_param(ps[i].name.as_str(), true) {
            r.push(ps[i].name.clone());
            assert(strings_view(r@) =~= dependency_names(ps@.subrange(0, i + 1)));
        }
        i = i + 1;
    }
    assert(ps@.subrange(0, ps@.len() as int) =~= ps@);
    r
}

fn push_usage(out: &mut Vec<FixtureUsage>, u: FixtureUsage)
    ensures
        usages_view(final(out)@) == usages_view(old(out)@).push(u@),
{
    out.push(u);
    assert(usages_view(final(out)@) =~= usages_view(old(out)@).push(u@));
}

/// Appends the usages of `param_usages` to `out`.
fn push_param_usages(
    ps: &Vec<PyParam>,
    with_request: bool,
    path: &String,
    bytes: &[u8],
    line: usize,
    out: &mut Vec<FixtureUsage>,
)
    requires
        bytes@.len() < usize::MAX,
    ensures
        usages_view(final(out)@) == usages_view(old(out)@) + param_usages(ps@, with_request, path@, bytes@, line as nat),
{
    let ghost before = usages_view(out@);
    let mut i: usize = 0;
    while i < ps.len()
        invariant
            i <= ps@.len(),
            bytes@.len() < usize::MAX,
            usages_view(out@) == before + param_usages(ps@.subrange(0, i as int), with_request, path@, bytes@, line as nat),
        decreases ps@.len() - i,
    {
        proof {
            assert(ps@.subrange(0, i + 1).drop_last() =~= ps@.subrange(0, i as int));
        }
        let p = &ps[i];
        if !special_param(p.name.as_str(), with_request) {
            let start = col_of_offset(bytes, p.start);
            let end = col_of_offset(bytes, p.end);
            let ref_line = line_of_offset(bytes, p.start);
            push_usage(out, FixtureUsage { name: p.name.clone(), file_path: path.clone(), line, ref_line, start_char: start, end_char: end });
        }
        assert(usages_view(out@) =~= before + param_usages(ps@.subrange(0, i + 1), with_request, path@, bytes@, line as nat));
        i = i + 1;
    }
    assert(ps@.subrange(0, ps@.len() as int) =~= ps@);
}

/// Appends the usages of `string_usages` to `out`.
fn push_string_usages(es: &Vec<PyExpr>, path: &String, bytes: &[u8], line: usize, out: &mut Vec<FixtureUsage>)
    requires
        bytes@.len() < usize::MAX,
    ensures
        usages_view(final(out)@) == usages_view(old(out)@) + string_usages(es@, path@, bytes@, line as nat),
{
    let ghost before = usages_view(out@);
    let mut i: usize = 0;
    while i < es.len()
        invariant
            i <= es@.len(),
            bytes@.len() < usize::MAX,
            usages_view(out@) == before + string_usages(es@.subrange(0, i as int), path@, bytes@, line as nat),
        decreases es@.len() - i,
    {
        proof {
            assert(es@.subrange(0, i + 1).drop_last() =~= es@.subrange(0, i as int));
        }
        let e = &es[i];
        match &e.kind {
            ExprKind::Str { value } => {
                let start = col_of_offset(bytes, e.start);
                let end = col_of_offset(bytes, e.end);
                let last = if end > 0 { end - 1 } else { 0 };
                let ref_line = line_of_offset(bytes, e.start);
                push_usage(out, FixtureUsage { name: value.clone(), file_path: path.clone(), line, ref_line, start_char: start + 1, end_char: last });
            },
            _ => {},
        }
        assert(usages_view(out@) =~= before + string_usages(es@.subrange(0, i + 1), path@, bytes@, line as nat));
        i = i + 1;
    }
    assert(es@.subrange(0, es@.len() as int) =~= es@);
}


pub(crate) fn indirect_of(ks: &Vec<PyKeyword>) -> (r: Option<&Vec<PyExpr>>)
    ensures
        match r {
            Some(v) => v@ == indirect_items(ks@),
            None => indirect_items(ks@) == Seq::<PyExpr>::empty(),
        },
{
    proof {
        reveal_strlit("indirect");
    }
    let mut r: Option<&Vec<PyExpr>> = None;
    let mut i: usize = 0;
    while i < ks.len()
        invariant
            i <= ks@.len(),
            match r {
                Some(v) => v@ == indirect_items(ks@.subrange(0, i as int)),
                None => indirect_items(ks@.subrange(0, i as int)) == Seq::<PyExpr>::empty(),
            },
        decreases ks@.len() - i,
    {
        proof {
            assert(ks@.subrange(0, i + 1).drop_last() =~= ks@.subrange(0, i as int));
        }
        let k = &ks[i];
        if keyword_is(k, "indirect") {
            match &k.value.kind {
                ExprKind::Sequence { elts } => {
                    r = Some(elts);
                },
                _ => {},
            }
        }
        i = i + 1;
    }
    assert(ks@.subrange(0, ks@.len() as int) =~= ks@);
    r
}

/// Appends the usages of `decorator_usages` to `out`.
fn push_decorator_usages(decs: &Vec<PyExpr>, path: &String, bytes: &[u8], line: usize, out: &mut Vec<FixtureUsage>)
    requires
        bytes@.len() < usize::MAX,
    ensures
        usages_view(final(out)@) == usages_view(old(out)@) + decorator_usages(decs@, path@, bytes@, line as nat),
{
    proof {
        reveal_strlit("usefixtures");
        reveal_strlit("parametrize");
    }
    let ghost before = usages_view(out@);
    let mut i: usize = 0;
    while i < decs.len()
        invariant
            i <= decs@.len(),
            bytes@.len() < usize::MAX,
            usages_view(out@) == before + decorator_usages(decs@.subrange(0, i as int), path@, bytes@, line as nat),
        decreases decs@.len() - i,
    {
        proof {
            assert(decs@.subrange(0, i + 1).drop_last() =~= decs@.subrange(0, i as int));
        }
        let ghost mid = usages_view(out@);
        match &decs[i].kind {
            ExprKind::Call { func, args, keywords } => {
                if mark_is(func, "usefixtures") {
                    push_string_usages(args, path, bytes, line, out);
                } else if mark_is(func, "parametrize") {
                    match indirect_of(keywords) {
                        Some(items) => {
                            push_string_usages(items, path, bytes, line, out);
                        },
                        None => {
                            assert(string_usages(Seq::<PyExpr>::empty(), path@, bytes@, line as nat) =~= Seq::<UsageView>::empty());
                            assert(usages_view(out@) =~= mid + string_usages(indirect_items(keywords@), path@, bytes@, line as nat));
                        },
                    }
                }
            },
            _ => {},
        }
        assert(usages_view(out@) =~= before + decorator_usages(decs@.subrange(0, i + 1), path@, bytes@, line as nat));
        i = i + 1;
    }
    assert(decs@.subrange(0, decs@.len() as int) =~= decs@);
}

fn param_named(ps: &Vec<PyParam>, n: &str) -> (r: bool)
    ensures
        r == params_contain(ps@, n@),
{
    let mut i: usize = 0;
    while i < ps.len()
        invariant
            i <= ps@.len(),
            forall|j: int| 0 <= j < i ==> (#[trigger] ps@[j]).name@ != n@,
        decreases ps@.len() - i,
    {
        if str_eq(ps[i].name.as_str(), n) {
            return true;
        }
        i = i + 1;
    }
    false
}

/// `v` holds a string equal to `n`.
pub fn has_name(v: &Vec<String>, n: &str) -> (r: bool)
    ensures
        r == names_contain(v@, n@),
{
    let mut i: usize = 0;
    while i < v.len()
        invariant
            i <= v@.len(),
            forall|j: int| 0 <= j < i ==> (#[trigger] v@[j])@ != n@,
        decreases v@.len() - i,
    {
        if str_eq(v[i].as_str(), n) {
            return true;
        }
        i = i + 1;
    }
    false
}

/// An import of `v` binds `n`.
fn has_import(v: &Vec<String>, n: &str) -> (r: bool)
    ensures
        r == imports_contain(strings_view(v@), n@),
{
    let ghost vv = strings_view(v@);
    let mut i: usize = 0;
    while i < v.len()
        invariant
            i <= v@.len(),
            vv == strings_view(v@),
            forall|j: int| 0 <= j < i ==> #[trigger] vv[j] != n@,
        decreases v@.len() - i,
    {
        if str_eq(v[i].as_str(), n) {
            assert(vv[i as int] == n@);
            return true;
        }
        i = i + 1;
    }
    false
}

/// The lines of the occurrences' start offsets.
fn occurrence_lines(occ: &Vec<NameRef>, bytes: &[u8]) -> (r: Vec<usize>)
    requires
        bytes@.len() < usize::MAX,
    ensures
        r@.len() == occ@.len(),
        forall|i: int| 0 <= i < occ@.len() ==> r@[i] as nat == line_at(bytes@, #[trigger] occ@[i].start as int),
{
    let mut r: Vec<usize> = Vec::new();
    let mut i: usize = 0;
    while i < occ.len()
        invariant
            i <= occ@.len(),
            bytes@.len() < usize::MAX,
            r@.len() == i,
            forall|j: int| 0 <= j < i ==> r@[j] as nat == line_at(bytes@, #[trigger] occ@[j].start as int),
        decreases occ@.len() - i,
    {
        r.push(line_of_offset(bytes, occ[i].start));
        i = i + 1;
    }
    r
}

fn bound_before(occ: &Vec<NameRef>, lines: &Vec<usize>, bytes: &[u8], n: &str, line: usize) -> (r: bool)
    requires
        lines@.len() == occ@.len(),
        forall|i: int| 0 <= i < occ@.len() ==> lines@[i] as nat == line_at(bytes@, #[trigger] occ@[i].start as int),
    ensures
        r == bound_by(refs_view(occ@), bytes@, n@, line as nat),
{
    let ghost ov = refs_view(occ@);
    let mut i: usize = 0;
    while i < occ.len()
        invariant
            i <= occ@.len(),
            ov == refs_view(occ@),
            lines@.len() == occ@.len(),
            forall|k: int| 0 <= k < occ@.len() ==> lines@[k] as nat == line_at(bytes@, #[trigger] occ@[k].start as int),
            forall|j: int| 0 <= j < i ==> !((#[trigger] ov[j]).store && ov[j].id == n@ && line_at(bytes@, ov[j].start as int) <= line),
        decreases occ@.len() - i,
    {
        let o = &occ[i];
        if o.store && str_eq(o.id.as_str(), n) && lines[i] <= line {
            assert(ov[i as int].store && ov[i as int].id == n@ && line_at(bytes@, ov[i as int].start as int) <= line);
            return true;
        }
        i = i + 1;
    }
    false
}

/// Appends the undeclared candidates among the occurrences to `out`.
fn push_undeclared(
    occ: &Vec<NameRef>,
    ps: &Vec<PyParam>,
    imports: &Vec<String>,
    module_names: &Vec<String>,
    path: &String,
    bytes: &[u8],
    fname: &String,
    fline: usize,
    out: &mut Vec<UndeclaredFixture>,
)
    requires
        bytes@.len() < usize::MAX,
    ensures
        undeclared_view(final(out)@) == undeclared_view(old(out)@) + undeclared_prefix(
            refs_view(occ@), occ@.len() as int, ps@, strings_view(imports@), module_names@, path@, bytes@, fname@, fline as nat),
{
    let ghost before = undeclared_view(out@);
    let ghost ov = refs_view(occ@);
    let lines = occurrence_lines(occ, bytes);
    let mut i: usize = 0;
    while i < occ.len()
        invariant
            i <= occ@.len(),
            ov == refs_view(occ@),
            lines@.len() == occ@.len(),
            forall|k: int| 0 <= k < occ@.len() ==> lines@[k] as nat == line_at(bytes@, #[trigger] occ@[k].start as int),
            undeclared_view(out@) == before + undeclared_prefix(ov, i as int, ps@, strings_view(imports@), module_names@, path@, bytes@, fname@, fline as nat),
        decreases occ@.len() - i,
    {
        let o = &occ[i];
        let line = lines[i];
        assert(ov[i as int] == o@);
        let free = !o.store && !o.is_yield && !param_named(ps, o.id.as_str()) && !has_import(imports, o.id.as_str())
            && !has_name(module_names, o.id.as_str()) && !bound_before(occ, &lines, bytes, o.id.as_str(), line);
        assert(free == is_undeclared(ov[i as int], ov, ps@, strings_view(imports@), module_names@, bytes@));
        if free {
            let start = col_of_offset(bytes, o.start);
            let end = col_of_offset(bytes, o.end);
            let u = UndeclaredFixture {
                name: o.id.clone(),
                file_path: path.clone(),
                line,
                start_char: start,
                end_char: end,
                function_name: fname.clone(),
                function_line: fline,
            };
            let ghost prev = undeclared_view(out@);
            out.push(u);
            assert(undeclared_view(out@) =~= prev.push(u@));
        }
        assert(undeclared_view(out@) =~= before + undeclared_prefix(ov, i + 1, ps@, strings_view(imports@), module_names@, path@, bytes@, fname@, fline as nat));
        i = i + 1;
    }
}

pub open spec fn undeclared_view(v: Seq<UndeclaredFixture>) -> Seq<UndeclaredView> {
    v.map_values(|u: UndeclaredFixture| u@)
}

/// Executable form of `first_yield`.
fn first_yield_line(occ: &Vec<NameRef>, bytes: &[u8]) -> (r: Option<usize>)
    requires
        bytes@.len() < usize::MAX,
    ensures
        crate::model::opt_nat_view(r) == first_yield(refs_view(occ@), bytes@),
{
    let ghost ov = refs_view(occ@);
    let mut r: Option<usize> = None;
    let mut i: usize = 0;
    while i < occ.len()
        invariant
            i <= occ@.len(),
            bytes@.len() < usize::MAX,
            ov == refs_view(occ@),
            crate::model::opt_nat_view(r) == first_yield(ov.subrange(0, i as int), bytes@),
        decreases occ@.len() - i,
    {
        proof {
            assert(ov.subrange(0, i + 1).drop_last() =~= ov.subrange(0, i as int));
        }
        if r.is_none() && occ[i].is_yield {
            r = Some(line_of_offset(bytes, occ[i].start));
        }
        i = i + 1;
    }
    assert(ov.subrange(0, occ@.len() as int) =~= ov);
    r
}


fn generator_type(e: &PyExpr) -> (r: bool)
    ensures
        r == is_generator_type(*e),
{
    proof {
        reveal_strlit("Generator");
        reveal_strlit("Iterator");
        reveal_strlit("AsyncGenerator");
        reveal_strlit("AsyncIterator");
    }
    let n = match &e.kind {
        ExprKind::Name { id, store: _ } => id.as_str(),
        ExprKind::Attribute { value: _, attr } => attr.as_str(),
        _ => {
            return false;
        },
    };
    str_eq(n, "Generator") || str_eq(n, "Iterator") || str_eq(n, "AsyncGenerator") || str_eq(n, "AsyncIterator")
}

/// The text between two byte offsets, when both lie on character
/// boundaries in order.
fn text_between(text: &str, start: usize, end: usize) -> (r: Option<String>)
    ensures
        crate::model::opt_bytes_view(r) == source_text(text.spec_bytes(), start as int, end as int),
{
    let n = text.as_bytes().len();
    if !(start <= end && end <= n) {
        return None;
    }
    if !(text.is_char_boundary(start) && text.is_char_boundary(end)) {
        return None;
    }
    let ghost b = text.spec_bytes();
    let (head, _) = text.split_at(end);
    proof {
        vstd::utf8::encode_utf8_valid_utf8(text@);
        vstd::utf8::encode_utf8_valid_utf8(head@);
        let h = head.spec_bytes();
        assert(h =~= b.subrange(0, end as int));
        vstd::utf8::is_char_boundary_start_end_of_seq(h);
        if start < end {
            vstd::utf8::is_char_boundary_iff_not_is_continuation_byte(b, start as int);
            vstd::utf8::is_char_boundary_iff_not_is_continuation_byte(h, start as int);
            assert(h[start as int] == b[start as int]);
        }
    }
    let (_, mid) = head.split_at(start);
    assert(mid.spec_bytes() =~= b.subrange(start as int, end as int));
    Some(mid.to_owned())
}

/// Executable form of `return_type_of`.
pub fn return_type(text: &str, o: &Option<PyExpr>) -> (r: Option<String>)
    ensures
        crate::model::opt_bytes_view(r) == return_type_of(text.spec_bytes(), *o),
{
    match o {
        None => None,
        Some(e) => match &e.kind {
            ExprKind::Subscript { value, slice } => {
                if generator_type(value) {
                    match &slice.kind {
                        ExprKind::Sequence { elts } => {
                            if elts.len() > 0 {
                                text_between(text, elts[0].start, elts[0].end)
                            } else {
                                None
                            }
                        },
                        _ => text_between(text, slice.start, slice.end),
                    }
                } else {
                    text_between(text, e.start, e.end)
                }
            },
            _ => text_between(text, e.start, e.end),
        },
    }
}

/// Executable form of `docstring_of`.
pub fn docstring(body: &Vec<PyStmt>) -> (r: Option<String>)
    ensures
        crate::model::opt_str_view(r) == docstring_of(body@),
{
    if body.len() == 0 {
        return None;
    }
    match &body[0].kind {
        StmtKind::Expr { value } => match &value.kind {
            ExprKind::Str { value: s } => Some(crate::docstring::clean_docstring(s.as_str())),
            _ => None,
        },
        _ => None,
    }
}

/// The per-file facts that the analysis needs besides the tree and the text.
pub struct FileContext {
    pub path: String,
    pub is_plugin: bool,
    pub is_third_party: bool,
    pub imports: Vec<String>,
    pub module_names: Vec<String>,
}

impl FileContext {
    pub open spec fn ctx(&self, bytes: Seq<u8>) -> FileCtx {
        FileCtx {
            path: self.path@,
            bytes,
            is_plugin: self.is_plugin,
            is_third_party: self.is_third_party,
            imports: strings_view(self.imports@),
            module_names: self.module_names@,
        }
    }
}

fn word_matches(bytes: &[u8], pat: &[u8], k: usize) -> (r: bool)
    ensures
        r == word_at_offset(bytes@, pat@, k as int),
{
    let n = bytes.len();
    let m = pat.len();
    if k > n || m > n - k {
        return false;
    }
    let mut i: usize = 0;
    while i < m
        invariant
            n == bytes@.len(),
            m == pat@.len(),
            k + m <= n,
            i <= m,
            bytes@.subrange(k as int, k + i) == pat@.subrange(0, i as int),
        decreases m - i,
    {
        if bytes[k + i] != pat[i] {
            assert(bytes@.subrange(k as int, k + m)[i as int] != pat@[i as int]);
            return false;
        }
        assert(bytes@.subrange(k as int, k + i + 1) =~= bytes@.subrange(k as int, k + i).push(bytes@[k + i]));
        assert(pat@.subrange(0, i + 1) =~= pat@.subrange(0, i as int).push(pat@[i as int]));
        i = i + 1;
    }
    assert(pat@.subrange(0, m as int) =~= pat@);
    let before_ok = k == 0 || !ident_byte(bytes[k - 1]);
    let after_ok = k + m == n || !ident_byte(bytes[k + m]);
    before_ok && after_ok
}

fn ident_byte(b: u8) -> (r: bool)
    ensures
        r == is_ident_byte(b),
{
    (48 <= b && b <= 57) || (65 <= b && b <= 90) || (97 <= b && b <= 122) || b == 95 || b >= 128
}

/// Executable form of `name_range`.
pub fn name_range_of(bytes: &[u8], name: &str, start: usize, end: usize) -> (r: (usize, usize))
    ensures
        r.0 as int == name_range_spec(bytes@, name@, start as int, end as int).0,
        r.1 as int == name_range_spec(bytes@, name@, start as int, end as int).1,
{
    let pat = name.as_bytes();
    let n = bytes.len();
    let mut k = start;
    while k < end
        invariant
            n == bytes@.len(),
            start <= k,
            pat@ == vstd::utf8::encode_utf8(name@),
            find_word(bytes@, pat@, start as int, end as int) == find_word(bytes@, pat@, k as int, end as int),
        decreases end - k,
    {
        if word_matches(bytes, pat, k) {
            return (k, k + pat.len());
        }
        k = k + 1;
    }
    (start, start)
}

/// `name_range` over the name's characters and the statement's offsets.
pub open spec fn name_range_spec(bytes: Seq<u8>, name: Seq<char>, start: int, end: int) -> (int, int) {
    let pat = vstd::utf8::encode_utf8(name);
    match find_word(bytes, pat, start, end) {
        Some(k) => (k, k + pat.len()),
        None => (start, start),
    }
}

/// Executable form of `function_definition`.
fn definition_of(c: &FileContext, text: &str, bytes: &[u8], f: &PyFunction, s: &PyStmt) -> (r: FixtureDefinition)
    requires
        bytes@.len() < usize::MAX - 16,
        text.spec_bytes() == bytes@,
    ensures
        r@ == function_definition(c.ctx(bytes@), *f, *s),
{
    let mut occ: Vec<NameRef> = Vec::new();
    collect_stmts(&f.body, &mut occ);
    assert(refs_view(occ@) =~= names_in_stmts(f.body@));
    let (name_start, name_end) = name_range_of(bytes, f.name.as_str(), s.start, s.end);
    let (scope, autouse) = fixture_settings(&f.decorators);
    let yield_line = first_yield_line(&occ, bytes);
    FixtureDefinition {
        name: f.name.clone(),
        file_path: c.path.clone(),
        line: line_of_offset(bytes, s.start),
        end_line: line_of_offset(bytes, s.end),
        start_char: col_of_offset(bytes, name_start),
        end_char: col_of_offset(bytes, name_end),
        docstring: docstring(&f.body),
        return_type: return_type(text, &f.return_annotation),
        is_plugin: c.is_plugin,
        is_third_party: c.is_third_party,
        dependencies: dependencies_of(&f.params),
        scope,
        yield_line,
        autouse,
    }
}


pub open spec fn defs_view(v: Seq<FixtureDefinition>) -> Seq<DefinitionView> {
    v.map_values(|d: FixtureDefinition| d@)
}

/// Accumulates what a file contributes.
pub struct Collector {
    pub defs: Vec<FixtureDefinition>,
    pub usages: Vec<FixtureUsage>,
    pub undeclared: Vec<UndeclaredFixture>,
}

impl Collector {
    pub open spec fn facts(&self) -> Facts {
        Facts { defs: defs_view(self.defs@), usages: usages_view(self.usages@), undeclared: undeclared_view(self.undeclared@) }
    }
}

fn assigned_keywords(value: &Option<PyExpr>) -> (r: Option<&Vec<PyKeyword>>)
    ensures
        match r {
            Some(ks) => assigned_marker(*value) == Some(ks@),
            None => assigned_marker(*value) is None,
        },
{
    match value {
        Some(v) => match &v.kind {
            ExprKind::Call { func, args: _, keywords: _ } => match &func.kind {
                ExprKind::Call { func: inner, args: _, keywords } => {
                    if fixture_marker(inner) {
                        Some(keywords)
                    } else {
                        None
                    }
                },
                _ => None,
            },
            _ => None,
        },
        None => None,
    }
}

/// Appends the definitions of `assignment_definitions` to `out`.
fn push_assignment_definitions(
    c: &FileContext,
    bytes: &[u8],
    targets: &Vec<PyExpr>,
    s: &PyStmt,
    ks: &Vec<PyKeyword>,
    out: &mut Vec<FixtureDefinition>,
)
    requires
        bytes@.len() < usize::MAX,
    ensures
        defs_view(final(out)@) == defs_view(old(out)@) + assignment_definitions(c.ctx(bytes@), targets@, *s, ks@),
{
    let ghost before = defs_view(out@);
    let scope = match scope_of_keywords(ks) {
        Some(x) => x,
        None => FixtureScope::Function,
    };
    let autouse = match autouse_of_keywords(ks) {
        Some(b) => b,
        None => false,
    };
    let mut i: usize = 0;
    while i < targets.len()
        invariant
            i <= targets@.len(),
            bytes@.len() < usize::MAX,
            scope == (match scope_keyword(ks@) {
                Some(x) => x,
                None => FixtureScope::Function,
            }),
            autouse == (match autouse_keyword(ks@) {
                Some(b) => b,
                None => false,
            }),
            defs_view(out@) == before + assignment_definitions(c.ctx(bytes@), targets@.subrange(0, i as int), *s, ks@),
        decreases targets@.len() - i,
    {
        proof {
            assert(targets@.subrange(0, i + 1).drop_last() =~= targets@.subrange(0, i as int));
        }
        let t = &targets[i];
        match &t.kind {
            ExprKind::Name { id, store: _ } => {
                let d = FixtureDefinition {
                    name: id.clone(),
                    file_path: c.path.clone(),
                    line: line_of_offset(bytes, s.start),
                    end_line: line_of_offset(bytes, s.end),
                    start_char: col_of_offset(bytes, t.start),
                    end_char: col_of_offset(bytes, t.end),
                    docstring: None,
                    return_type: None,
                    is_plugin: c.is_plugin,
                    is_third_party: c.is_third_party,
                    dependencies: Vec::new(),
                    scope,
                    yield_line: None,
                    autouse,
                };
                let ghost prev = defs_view(out@);
                out.push(d);
                assert(d@.dependencies =~= Seq::<Seq<char>>::empty());
                assert(defs_view(out@) =~= prev.push(d@));
            },
            _ => {},
        }
        assert(defs_view(out@) =~= before + assignment_definitions(c.ctx(bytes@), targets@.subrange(0, i + 1), *s, ks@));
        i = i + 1;
    }
    assert(targets@.subrange(0, targets@.len() as int) =~= targets@);
}

/// Adds what function definition `s` contributes.
fn visit_function(c: &FileContext, text: &str, bytes: &[u8], f: &PyFunction, s: &PyStmt, out: &mut Collector)
    requires
        bytes@.len() < usize::MAX - 16,
        text.spec_bytes() == bytes@,
    ensures
        final(out).facts() == join(old(out).facts(), function_facts(c.ctx(bytes@), *f, *s)),
{
    proof {
        reveal_strlit("test_");
    }
    let ghost before = out.facts();
    let is_fixture = any_fixture_marker(&f.decorators);
    let is_test = starts_with(f.name.as_str(), "test_");
    let line = line_of_offset(bytes, s.start);
    if is_fixture {
        let d = definition_of(c, text, bytes, f, s);
        let ghost prev = defs_view(out.defs@);
        out.defs.push(d);
        assert(defs_view(out.defs@) =~= prev.push(d@));
        push_param_usages(&f.params, true, &c.path, bytes, line, &mut out.usages);
    }
    if is_test {
        push_param_usages(&f.params, false, &c.path, bytes, line, &mut out.usages);
    }
    push_decorator_usages(&f.decorators, &c.path, bytes, line, &mut out.usages);
    if is_fixture || is_test {
        let mut occ: Vec<NameRef> = Vec::new();
        collect_stmts(&f.body, &mut occ);
        assert(refs_view(occ@) =~= names_in_stmts(f.body@));
        push_undeclared(&occ, &f.params, &c.imports, &c.module_names, &c.path, bytes, &f.name, line, &mut out.undeclared);
    }
    let ghost fx = function_facts(c.ctx(bytes@), *f, *s);
    assert(out.facts().defs =~= before.defs + fx.defs);
    assert(out.facts().usages =~= before.usages + fx.usages);
    assert(out.facts().undeclared =~= before.undeclared + fx.undeclared);
}

/// Adds what a statement of the module or of a class body contributes.
pub fn visit_stmt(c: &FileContext, text: &str, bytes: &[u8], s: &PyStmt, out: &mut Collector)
    requires
        bytes@.len() < usize::MAX - 16,
        text.spec_bytes() == bytes@,
    ensures
        final(out).facts() == join(old(out).facts(), stmt_facts(c.ctx(bytes@), *s)),
    decreases s,
{
    let ghost before = out.facts();
    match &s.kind {
        StmtKind::Function(f) => {
            visit_function(c, text, bytes, f, s, out);
        },
        StmtKind::Class { name: _, bases: _, decorators: _, body } => {
            visit_stmts(c, text, bytes, body, out);
        },
        StmtKind::Assign { targets, value } => {
            match assigned_keywords(value) {
                Some(ks) => {
                    push_assignment_definitions(c, bytes, targets, s, ks, &mut out.defs);
                },
                None => {},
            }
            assert(out.facts().defs =~= before.defs + stmt_facts(c.ctx(bytes@), *s).defs);
            assert(out.facts().usages =~= before.usages + stmt_facts(c.ctx(bytes@), *s).usages);
            assert(out.facts().undeclared =~= before.undeclared + stmt_facts(c.ctx(bytes@), *s).undeclared);
        },
        _ => {
            assert(out.facts().defs =~= before.defs + stmt_facts(c.ctx(bytes@), *s).defs);
            assert(out.facts().usages =~= before.usages + stmt_facts(c.ctx(bytes@), *s).usages);
            assert(out.facts().undeclared =~= before.undeclared + stmt_facts(c.ctx(bytes@), *s).undeclared);
        },
    }
}

/// Adds what each statement of `ss` contributes.
pub fn visit_stmts(c: &FileContext, text: &str, bytes: &[u8], ss: &Vec<PyStmt>, out: &mut Collector)
    requires
        bytes@.len() < usize::MAX - 16,
        text.spec_bytes() == bytes@,
    ensures
        final(out).facts() == join(old(out).facts(), stmts_facts(c.ctx(bytes@), ss@)),
    decreases ss,
{
    let ghost before = out.facts();
    let mut i: usize = 0;
    assert(ss@.subrange(0, 0) =~= Seq::<PyStmt>::empty());
    assert(join(before, no_facts()).defs =~= before.defs);
    assert(join(before, no_facts()).usages =~= before.usages);
    assert(join(before, no_facts()).undeclared =~= before.undeclared);
    while i < ss.len()
        invariant
            i <= ss@.len(),
            bytes@.len() < usize::MAX - 16,
            text.spec_bytes() == bytes@,
            out.facts() == join(before, stmts_facts(c.ctx(bytes@), ss@.subrange(0, i as int))),
        decreases ss@.len() - i,
    {
        proof {
            assert(ss@.subrange(0, i + 1).drop_last() =~= ss@.subrange(0, i as int));
        }
        let ghost mid = out.facts();
        visit_stmt(c, text, bytes, &ss[i], out);
        proof {
            let a = stmts_facts(c.ctx(bytes@), ss@.subrange(0, i as int));
            let b = stmt_facts(c.ctx(bytes@), ss@[i as int]);
            assert(join(join(before, a), b).defs =~= join(before, join(a, b)).defs);
            assert(join(join(before, a), b).usages =~= join(before, join(a, b)).usages);
            assert(join(join(before, a), b).undeclared =~= join(before, join(a, b)).undeclared);
        }
        i = i + 1;
    }
    assert(ss@.subrange(0, ss@.len() as int) =~= ss@);
}

/// Executable form of `module_imports`.
pub fn imports_of(ss: &Vec<PyStmt>) -> (r: Vec<String>)
    ensures
        strings_view(r@) == module_imports(ss@),
{
    let mut r: Vec<String> = Vec::new();
    let mut i: usize = 0;
    while i < ss.len()
        invariant
            i <= ss@.len(),
            strings_view(r@) == module_imports(ss@.subrange(0, i as int)),
        decreases ss@.len() - i,
    {
        proof {
            assert(ss@.subrange(0, i + 1).drop_last() =~= ss@.subrange(0, i as int));
        }
        match &ss[i].kind {
            StmtKind::Import { names } => {
                let ghost before = strings_view(r@);
                let mut j: usize = 0;
                while j < names.len()
                    invariant
                        j <= names@.len(),
                        strings_view(r@) == before + alias_names(names@.subrange(0, j as int)),
                    decreases names@.len() - j,
                {
                    proof {
                        assert(names@.subrange(0, j + 1).drop_last() =~= names@.subrange(0, j as int));
                    }
                    let b = crate::names::bound_name_of(&names[j]);
                    let ghost prev = strings_view(r@);
                    r.push(b);
                    assert(strings_view(r@) =~= prev.push(b@));
                    assert(strings_view(r@) =~= before + alias_names(names@.subrange(0, j + 1)));
                    j = j + 1;
                }
                assert(names@.subrange(0, names@.len() as int) =~= names@);
            },
            _ => {},
        }
        i = i + 1;
    }
    assert(ss@.subrange(0, ss@.len() as int) =~= ss@);
    r
}

fn push_target_names(ts: &Vec<PyExpr>, r: &mut Vec<String>)
    ensures
        final(r)@ == old(r)@ + target_names(ts@),
{
    let ghost before = r@;
    let mut i: usize = 0;
    while i < ts.len()
        invariant
            i <= ts@.len(),
            r@ == before + target_names(ts@.subrange(0, i as int)),
        decreases ts@.len() - i,
    {
        proof {
            assert(ts@.subrange(0, i + 1).drop_last() =~= ts@.subrange(0, i as int));
        }
        match &ts[i].kind {
            ExprKind::Name { id, store: _ } => {
                r.push(id.clone());
            },
            _ => {},
        }
        assert(r@ =~= before + target_names(ts@.subrange(0, i + 1)));
        i = i + 1;
    }
    assert(ts@.subrange(0, ts@.len() as int) =~= ts@);
}

/// Executable form of `module_level_names`.
pub fn module_names_of(ss: &Vec<PyStmt>) -> (r: Vec<String>)
    ensures
        r@ == module_level_names(ss@),
{
    let mut r: Vec<String> = Vec::new();
    let mut i: usize = 0;
    while i < ss.len()
        invariant
            i <= ss@.len(),
            r@ == module_level_names(ss@.subrange(0, i as int)),
        decreases ss@.len() - i,
    {
        proof {
            assert(ss@.subrange(0, i + 1).drop_last() =~= ss@.subrange(0, i as int));
        }
        match &ss[i].kind {
            StmtKind::Assign { targets, value: _ } => {
                push_target_names(targets, &mut r);
            },
            StmtKind::Class { name, bases: _, decorators: _, body: _ } => {
                r.push(name.clone());
            },
            StmtKind::Function(f) => {
                if !any_fixture_marker(&f.decorators) {
                    r.push(f.name.clone());
                }
            },
            _ => {},
        }
        i = i + 1;
    }
    assert(ss@.subrange(0, ss@.len() as int) =~= ss@);
    r
}

} // verus!

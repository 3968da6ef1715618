//! The test or fixture function that encloses a cursor, from the syntax
//! tree of the file.

use vstd::prelude::*;
use crate::analyzer::{
    any_fixture_marker, declared_scope, fixture_settings, has_fixture_marker, indirect_items, is_mark, is_special_param,
    is_test_name, mark_is,
};
use crate::position::{col_at, col_of_offset};
use crate::scope::FixtureScope;
use crate::syntax::{ExprKind, PyExpr};
use crate::database::{find_file, FixtureDatabase};
use crate::model::strings_view;
use crate::position::{line_at, line_of_offset};
use crate::python::{parse_module, python_syntax, MAX_SOURCE_BYTES};
use crate::syntax::{PyFunction, PyParam, PyStmt, StmtKind};
use crate::text::{starts_with, str_eq};
use vstd::string::StringSliceAdditionalSpecFns;
use vstd::utf8::encode_utf8;

verus! {

/// Parameter names other than `self` and `cls`.
pub open spec fn declared_names(ps: Seq<PyParam>) -> Seq<Seq<char>>
    decreases ps.len(),
{
    if ps.len() == 0 {
        Seq::empty()
    } else {
        let rest = declared_names(ps.drop_last());
        if is_special_param(ps.last().name@, false) { rest } else { rest.push(ps.last().name@) }
    }
}

/// Name, fixture flag and declared parameters of a function.
pub open spec fn function_summary(f: PyFunction) -> (Seq<char>, bool, Seq<Seq<char>>) {
    (f.name@, has_fixture_marker(f.decorators@), declared_names(f.params@))
}

/// A test or fixture whose lines, from `def` to its last statement, hold
/// line `target` (one-based).
pub open spec fn spans(s: PyStmt, f: PyFunction, bytes: Seq<u8>, target: nat) -> bool {
    (has_fixture_marker(f.decorators@) || is_test_name(f.name@)) && line_at(bytes, s.start as int) <= target
        && target <= line_at(bytes, s.end as int)
}

/// The test or fixture of `s` (a module statement, or one of a class body)
/// that spans line `target`; the last one when several do.
pub open spec fn enclosing_in_stmt(s: PyStmt, bytes: Seq<u8>, target: nat) -> Option<(Seq<char>, bool, Seq<Seq<char>>)>
    decreases s,
{
    match s.kind {
        StmtKind::Function(f) => if spans(s, f, bytes, target) { Some(function_summary(f)) } else { None },
        StmtKind::Class { name: _, bases: _, decorators: _, body } => enclosing_in(body@, bytes, target),
        _ => None,
    }
}

pub open spec fn enclosing_in(ss: Seq<PyStmt>, bytes: Seq<u8>, target: nat) -> Option<(Seq<char>, bool, Seq<Seq<char>>)>
    decreases ss,
{
    if ss.len() == 0 {
        None
    } else {
        match enclosing_in_stmt(ss.last(), bytes, target) {
            Some(x) => Some(x),
            None => enclosing_in(ss.drop_last(), bytes, target),
        }
    }
}

pub open spec fn summary_view(o: Option<(String, bool, Vec<String>)>) -> Option<(Seq<char>, bool, Seq<Seq<char>>)> {
    match o {
        Some(t) => Some((t.0@, t.1, strings_view(t.2@))),
        None => None,
    }
}

fn declared_names_of(ps: &Vec<PyParam>) -> (r: Vec<String>)
    ensures
        strings_view(r@) == declared_names(ps@),
{
    proof {
        reveal_strlit("self");
        reveal_strlit("cls");
    }
    let mut r: Vec<String> = Vec::new();
    let mut i: usize = 0;
    while i < ps.len()
        invariant
            i <= ps@.len(),
            strings_view(r@) == declared_names(ps@.subrange(0, i as int)),
        decreases ps@.len() - i,
    {
        proof {
            assert(ps@.subrange(0, i + 1).drop_last() =~= ps@.subrange(0, i as int));
        }
        let n = ps[i].name.as_str();
        if !(str_eq(n, "self") || str_eq(n, "cls")) {
            r.push(ps[i].name.clone());
            assert(strings_view(r@) =~= declared_names(ps@.subrange(0, i + 1)));
        }
        i = i + 1;
    }
    assert(ps@.subrange(0, ps@.len() as int) =~= ps@);
    r
}

fn enclosing_stmt(s: &PyStmt, bytes: &[u8], target: usize) -> (r: Option<(String, bool, Vec<String>)>)
    requires
        bytes@.len() < usize::MAX,
    ensures
        summary_view(r) == enclosing_in_stmt(*s, bytes@, target as nat),
    decreases s,
{
    proof {
        reveal_strlit("test_");
    }
    match &s.kind {
        StmtKind::Function(f) => {
            let is_fixture = any_fixture_marker(&f.decorators);
            let is_test = starts_with(f.name.as_str(), "test_");
            if (is_fixture || is_test) && line_of_offset(bytes, s.start) <= target && target <= line_of_offset(bytes, s.end) {
                Some((f.name.clone(), is_fixture, declared_names_of(&f.params)))
            } else {
                None
            }
        },
        StmtKind::Class { name: _, bases: _, decorators: _, body } => function_at_line(body, bytes, target),
        _ => None,
    }
}

/// The test or fixture among `ss` whose lines hold line `target`
/// (one-based): its name, whether it is a fixture, and its parameters
/// other than `self` and `cls`.
pub fn function_at_line(ss: &Vec<PyStmt>, bytes: &[u8], target: usize) -> (r: Option<(String, bool, Vec<String>)>)
    requires
        bytes@.len() < usize::MAX,
    ensures
        summary_view(r) == enclosing_in(ss@, bytes@, target as nat),
    decreases ss,
{
    let mut k: usize = ss.len();
    assert(ss@.subrange(0, k as int) =~= ss@);
    while k > 0
        invariant
            k <= ss@.len(),
            bytes@.len() < usize::MAX,
            enclosing_in(ss@, bytes@, target as nat) == enclosing_in(ss@.subrange(0, k as int), bytes@, target as nat),
        decreases k,
    {
        proof {
            let p = ss@.subrange(0, k as int);
            assert(p.drop_last() =~= ss@.subrange(0, k - 1));
            assert(p.last() == ss@[k - 1]);
        }
        let found = enclosing_stmt(&ss[k - 1], bytes, target);
        if found.is_some() {
            return found;
        }
        k = k - 1;
    }
    None
}

impl FixtureDatabase {
    /// The test or fixture that encloses a position (zero-based line and
    /// column) of an analysed file: its name, whether it is a fixture, and
    /// its parameters other than `self` and `cls`.
    pub fn is_inside_function(&self, file_path: &str, line: u32, character: u32) -> (r: Option<(String, bool, Vec<String>)>)
        ensures
            match find_file(self.files_spec(), file_path@) {
                Some(i) => {
                    let c = self.files_spec()[i].content;
                    if encode_utf8(c).len() < MAX_SOURCE_BYTES && line as nat + 1 <= usize::MAX {
                        match python_syntax(c) {
                            Some(m) => summary_view(r) == enclosing_in(m, encode_utf8(c), line as nat + 1),
                            None => r is None,
                        }
                    } else {
                        r is None
                    }
                },
                None => r is None,
            },
    {
        match self.file_index(file_path) {
            None => None,
            Some(i) => {
                let content = self.files[i].content.as_str();
                let bytes = content.as_bytes();
                if bytes.len() >= MAX_SOURCE_BYTES || line as usize == usize::MAX {
                    return None;
                }
                match parse_module(content) {
                    Some(m) => function_at_line(&m, bytes, line as usize + 1),
                    None => None,
                }
            },
        }
    }
}


/// Where a completion is asked for, as the syntax tree shows it.
#[derive(Debug, Clone, PartialEq)]
pub enum CompletionContext {
    /// In the parameter list of a test or fixture: from its `def` line to
    /// the line before its first statement.
    FunctionSignature {
        function_name: String,
        function_line: usize,
        is_fixture: bool,
        declared_params: Vec<String>,
        fixture_scope: Option<FixtureScope>,
    },
    /// In the statements of a test or fixture.
    FunctionBody {
        function_name: String,
        function_line: usize,
        is_fixture: bool,
        declared_params: Vec<String>,
        fixture_scope: Option<FixtureScope>,
    },
    /// In a string argument of `@pytest.mark.usefixtures(...)`.
    UsefixturesDecorator,
    /// In a string of the `indirect` list of `@pytest.mark.parametrize(...)`.
    ParametrizeIndirect,
}

pub ghost enum ContextView {
    Signature { name: Seq<char>, line: nat, is_fixture: bool, params: Seq<Seq<char>>, scope: Option<FixtureScope> },
    Body { name: Seq<char>, line: nat, is_fixture: bool, params: Seq<Seq<char>>, scope: Option<FixtureScope> },
    Usefixtures,
    Indirect,
}

impl View for CompletionContext {
    type V = ContextView;

    open spec fn view(&self) -> ContextView {
        match self {
            CompletionContext::FunctionSignature { function_name, function_line, is_fixture, declared_params, fixture_scope } =>
                ContextView::Signature {
                    name: function_name@,
                    line: *function_line as nat,
                    is_fixture: *is_fixture,
                    params: strings_view(declared_params@),
                    scope: *fixture_scope,
                },
            CompletionContext::FunctionBody { function_name, function_line, is_fixture, declared_params, fixture_scope } =>
                ContextView::Body {
                    name: function_name@,
                    line: *function_line as nat,
                    is_fixture: *is_fixture,
                    params: strings_view(declared_params@),
                    scope: *fixture_scope,
                },
            CompletionContext::UsefixturesDecorator => ContextView::Usefixtures,
            CompletionContext::ParametrizeIndirect => ContextView::Indirect,
        }
    }
}

pub open spec fn opt_context_view(o: Option<CompletionContext>) -> Option<ContextView> {
    match o {
        Some(c) => Some(c@),
        None => None,
    }
}

/// A string literal of `es` holds the cursor (one-based line `line`,
/// zero-based column `col`) between its quotes.
pub open spec fn string_at(es: Seq<PyExpr>, bytes: Seq<u8>, line: nat, col: nat) -> bool {
    exists|k: int|
        0 <= k < es.len() && (#[trigger] es[k]).kind is Str && line_at(bytes, es[k].start as int) == line && col_at(
            bytes,
            es[k].start as int,
        ) < col && col < col_at(bytes, es[k].end as int)
}

/// The decorator context of the cursor, if it stands in a string of a
/// `usefixtures` or of an indirect `parametrize` decorator.
pub open spec fn decorator_context(decs: Seq<PyExpr>, bytes: Seq<u8>, line: nat, col: nat) -> Option<ContextView>
    decreases decs.len(),
{
    if decs.len() == 0 {
        None
    } else {
        let here = match decs.last().kind {
            ExprKind::Call { func, args, keywords } => if is_mark(*func, "usefixtures"@) && string_at(args@, bytes, line, col) {
                Some(ContextView::Usefixtures)
            } else if is_mark(*func, "parametrize"@) && string_at(indirect_items(keywords@), bytes, line, col) {
                Some(ContextView::Indirect)
            } else {
                None
            },
            _ => None,
        };
        if here is Some { here } else { decorator_context(decs.drop_last(), bytes, line, col) }
    }
}

/// Line of the first statement of a body, or one past `end` for none.
pub open spec fn body_line(f: PyFunction, bytes: Seq<u8>, end: nat) -> nat {
    if f.body@.len() > 0 { line_at(bytes, f.body@[0].start as int) } else { end + 1 }
}

pub open spec fn context_in_stmt(s: PyStmt, bytes: Seq<u8>, line: nat, col: nat) -> Option<ContextView>
    decreases s,
{
    match s.kind {
        StmtKind::Function(f) => {
            let dec = decorator_context(f.decorators@, bytes, line, col);
            let start = line_at(bytes, s.start as int);
            let end = line_at(bytes, s.end as int);
            let is_fixture = has_fixture_marker(f.decorators@);
            let scope = if is_fixture { Some(declared_scope(f.decorators@)) } else { None };
            if dec is Some {
                dec
            } else if (is_fixture || is_test_name(f.name@)) && start <= line && line <= end {
                if line < body_line(f, bytes, end) {
                    Some(ContextView::Signature { name: f.name@, line: start, is_fixture, params: declared_names(f.params@), scope })
                } else {
                    Some(ContextView::Body { name: f.name@, line: start, is_fixture, params: declared_names(f.params@), scope })
                }
            } else {
                None
            }
        },
        StmtKind::Class { name: _, bases: _, decorators: _, body } => context_in(body@, bytes, line, col),
        _ => None,
    }
}

/// The completion context of a cursor among `ss`; the last statement that
/// gives one decides.
pub open spec fn context_in(ss: Seq<PyStmt>, bytes: Seq<u8>, line: nat, col: nat) -> Option<ContextView>
    decreases ss,
{
    if ss.len() == 0 {
        None
    } else {
        match context_in_stmt(ss.last(), bytes, line, col) {
            Some(x) => Some(x),
            None => context_in(ss.drop_last(), bytes, line, col),
        }
    }
}

fn string_under(es: &Vec<PyExpr>, bytes: &[u8], line: usize, col: usize) -> (r: bool)
    requires
        bytes@.len() < usize::MAX,
    ensures
        r == string_at(es@, bytes@, line as nat, col as nat),
{
    let mut k: usize = 0;
    while k < es.len()
        invariant
            k <= es@.len(),
            bytes@.len() < usize::MAX,
            forall|j: int| 0 <= j < k ==> !((#[trigger] es@[j]).kind is Str && line_at(bytes@, es@[j].start as int) == line as nat
                && col_at(bytes@, es@[j].start as int) < (col as nat) && (col as nat) < col_at(bytes@, es@[j].end as int)),
        decreases es@.len() - k,
    {
        let e = &es[k];
        let is_str = match &e.kind {
            ExprKind::Str { value: _ } => true,
            _ => false,
        };
        if is_str && line_of_offset(bytes, e.start) == line && col_of_offset(bytes, e.start) < col && col < col_of_offset(bytes, e.end) {
            return true;
        }
        k = k + 1;
    }
    false
}

fn decorator_context_of(decs: &Vec<PyExpr>, bytes: &[u8], line: usize, col: usize) -> (r: Option<CompletionContext>)
    requires
        bytes@.len() < usize::MAX,
    ensures
        opt_context_view(r) == decorator_context(decs@, bytes@, line as nat, col as nat),
{
    proof {
        reveal_strlit("usefixtures");
        reveal_strlit("parametrize");
    }
    let mut k: usize = decs.len();
    assert(decs@.subrange(0, k as int) =~= decs@);
    while k > 0
        invariant
            k <= decs@.len(),
            bytes@.len() < usize::MAX,
            decorator_context(decs@, bytes@, line as nat, col as nat) == decorator_context(decs@.subrange(0, k as int), bytes@, line as nat, col as nat),
        decreases k,
    {
        proof {
            let p = decs@.subrange(0, k as int);
            assert(p.drop_last() =~= decs@.subrange(0, k - 1));
            assert(p.last() == decs@[k - 1]);
        }
        match &decs[k - 1].kind {
            ExprKind::Call { func, args, keywords } => {
                if mark_is(func, "usefixtures") && string_under(args, bytes, line, col) {
                    return Some(CompletionContext::UsefixturesDecorator);
                }
                if mark_is(func, "parametrize") {
                    let items = crate::analyzer::indirect_of(keywords);
                    let hit = match items {
                        Some(v) => string_under(v, bytes, line, col),
                        None => {
                            assert(string_at(Seq::<PyExpr>::empty(), bytes@, line as nat, col as nat) == false);
                            false
                        },
                    };
                    if hit {
                        return Some(CompletionContext::ParametrizeIndirect);
                    }
                }
            },
            _ => {},
        }
        k = k - 1;
    }
    None
}

fn context_stmt(s: &PyStmt, bytes: &[u8], line: usize, col: usize) -> (r: Option<CompletionContext>)
    requires
        bytes@.len() < usize::MAX,
    ensures
        opt_context_view(r) == context_in_stmt(*s, bytes@, line as nat, col as nat),
    decreases s,
{
    proof {
        reveal_strlit("test_");
    }
    match &s.kind {
        StmtKind::Function(f) => {
            let dec = decorator_context_of(&f.decorators, bytes, line, col);
            if dec.is_some() {
                return dec;
            }
            let start = line_of_offset(bytes, s.start);
            let end = line_of_offset(bytes, s.end);
            let is_fixture = any_fixture_marker(&f.decorators);
            let is_test = starts_with(f.name.as_str(), "test_");
            if !((is_fixture || is_test) && start <= line && line <= end) {
                return None;
            }
            let scope = if is_fixture { Some(fixture_settings(&f.decorators).0) } else { None };
            let in_signature = if f.body.len() > 0 { line < line_of_offset(bytes, f.body[0].start) } else { true };
            let params = declared_names_of(&f.params);
            if in_signature {
                Some(CompletionContext::FunctionSignature { function_name: f.name.clone(), function_line: start, is_fixture, declared_params: params, fixture_scope: scope })
            } else {
                Some(CompletionContext::FunctionBody { function_name: f.name.clone(), function_line: start, is_fixture, declared_params: params, fixture_scope: scope })
            }
        },
        StmtKind::Class { name: _, bases: _, decorators: _, body } => context_at(body, bytes, line, col),
        _ => None,
    }
}

/// The completion context of the cursor (one-based `line`, zero-based
/// `col`) among the statements `ss`.
pub fn context_at(ss: &Vec<PyStmt>, bytes: &[u8], line: usize, col: usize) -> (r: Option<CompletionContext>)
    requires
        bytes@.len() < usize::MAX,
    ensures
        opt_context_view(r) == context_in(ss@, bytes@, line as nat, col as nat),
    decreases ss,
{
    let mut k: usize = ss.len();
    assert(ss@.subrange(0, k as int) =~= ss@);
    while k > 0
        invariant
            k <= ss@.len(),
            bytes@.len() < usize::MAX,
            context_in(ss@, bytes@, line as nat, col as nat) == context_in(ss@.subrange(0, k as int), bytes@, line as nat, col as nat),
        decreases k,
    {
        proof {
            let p = ss@.subrange(0, k as int);
            assert(p.drop_last() =~= ss@.subrange(0, k - 1));
            assert(p.last() == ss@[k - 1]);
        }
        let found = context_stmt(&ss[k - 1], bytes, line, col);
        if found.is_some() {
            return found;
        }
        k = k - 1;
    }
    None
}


impl FixtureDatabase {
    /// The completion context at a position (zero-based line and column) of
    /// an analysed file, from the syntax tree of its text.
    pub fn get_completion_context(&self, file_path: &str, line: u32, character: u32) -> (r: Option<CompletionContext>)
        ensures
            match find_file(self.files_spec(), file_path@) {
                Some(i) => {
                    let c = self.files_spec()[i].content;
                    if encode_utf8(c).len() < MAX_SOURCE_BYTES && line as nat + 1 <= usize::MAX {
                        match python_syntax(c) {
                            Some(m) => opt_context_view(r) == context_in(m, encode_utf8(c), line as nat + 1, character as nat),
                            None => r is None,
                        }
                    } else {
                        r is None
                    }
                },
                None => r is None,
            },
    {
        match self.file_index(file_path) {
            None => None,
            Some(i) => {
                let content = self.files[i].content.as_str();
                let bytes = content.as_bytes();
                if bytes.len() >= MAX_SOURCE_BYTES || line as usize == usize::MAX {
                    return None;
                }
                match parse_module(content) {
                    Some(m) => context_at(&m, bytes, line as usize + 1, character as usize),
                    None => None,
                }
            },
        }
    }
}


/// Where a new parameter goes in a function's parameter list.
#[derive(Debug, Clone, PartialEq)]
pub struct ParamInsertionInfo {
    /// One-based line and zero-based column of the insertion point.
    pub line: usize,
    pub char_pos: usize,
    /// Whether a comma must precede the new parameter.
    pub needs_comma: bool,
}

/// After the last parameter, behind a comma; or, for a function without
/// parameters, right after the `(` that follows its name.
pub open spec fn insertion_for(s: PyStmt, f: PyFunction, bytes: Seq<u8>) -> (nat, nat, bool) {
    if f.params@.len() > 0 {
        let last = f.params@.last();
        (line_at(bytes, last.end as int), col_at(bytes, last.end as int), true)
    } else {
        let e = crate::analyzer::name_range(bytes, f, s).1;
        (line_at(bytes, e), col_at(bytes, e) + 1, false)
    }
}

/// The insertion point of the function whose `def` is on line `target`.
pub open spec fn insertion_in_stmt(s: PyStmt, bytes: Seq<u8>, target: nat) -> Option<(nat, nat, bool)>
    decreases s,
{
    match s.kind {
        StmtKind::Function(f) => if line_at(bytes, s.start as int) == target { Some(insertion_for(s, f, bytes)) } else { None },
        StmtKind::Class { name: _, bases: _, decorators: _, body } => insertion_in(body@, bytes, target),
        _ => None,
    }
}

pub open spec fn insertion_in(ss: Seq<PyStmt>, bytes: Seq<u8>, target: nat) -> Option<(nat, nat, bool)>
    decreases ss,
{
    if ss.len() == 0 {
        None
    } else {
        match insertion_in_stmt(ss.last(), bytes, target) {
            Some(x) => Some(x),
            None => insertion_in(ss.drop_last(), bytes, target),
        }
    }
}

pub open spec fn insertion_view(o: Option<ParamInsertionInfo>) -> Option<(nat, nat, bool)> {
    match o {
        Some(i) => Some((i.line as nat, i.char_pos as nat, i.needs_comma)),
        None => None,
    }
}

fn insertion_stmt(s: &PyStmt, bytes: &[u8], target: usize) -> (r: Option<ParamInsertionInfo>)
    requires
        bytes@.len() < usize::MAX - 16,
    ensures
        insertion_view(r) == insertion_in_stmt(*s, bytes@, target as nat),
    decreases s,
{
    match &s.kind {
        StmtKind::Function(f) => {
            if line_of_offset(bytes, s.start) != target {
                return None;
            }
            if f.params.len() > 0 {
                let last = &f.params[f.params.len() - 1];
                Some(ParamInsertionInfo { line: line_of_offset(bytes, last.end), char_pos: col_of_offset(bytes, last.end), needs_comma: true })
            } else {
                let (_, e) = crate::analyzer::name_range_of(bytes, f.name.as_str(), s.start, s.end);
                Some(ParamInsertionInfo { line: line_of_offset(bytes, e), char_pos: col_of_offset(bytes, e) + 1, needs_comma: false })
            }
        },
        StmtKind::Class { name: _, bases: _, decorators: _, body } => insertion_at(body, bytes, target),
        _ => None,
    }
}

/// Executable form of `insertion_in`.
pub fn insertion_at(ss: &Vec<PyStmt>, bytes: &[u8], target: usize) -> (r: Option<ParamInsertionInfo>)
    requires
        bytes@.len() < usize::MAX - 16,
    ensures
        insertion_view(r) == insertion_in(ss@, bytes@, target as nat),
    decreases ss,
{
    let mut k: usize = ss.len();
    assert(ss@.subrange(0, k as int) =~= ss@);
    while k > 0
        invariant
            k <= ss@.len(),
            bytes@.len() < usize::MAX - 16,
            insertion_in(ss@, bytes@, target as nat) == insertion_in(ss@.subrange(0, k as int), bytes@, target as nat),
        decreases k,
    {
        proof {
            let p = ss@.subrange(0, k as int);
            assert(p.drop_last() =~= ss@.subrange(0, k - 1));
            assert(p.last() == ss@[k - 1]);
        }
        let found = insertion_stmt(&ss[k - 1], bytes, target);
        if found.is_some() {
            return found;
        }
        k = k - 1;
    }
    None
}

/// The insertion point in the analysed file at `path`, from the syntax tree
/// of its text.
pub open spec fn insertion_of_file(files: Seq<crate::database::FileView>, path: Seq<char>, function_line: nat) -> Option<(nat, nat, bool)> {
    match find_file(files, path) {
        Some(i) => {
            let c = files[i].content;
            if encode_utf8(c).len() < MAX_SOURCE_BYTES {
                match python_syntax(c) {
                    Some(m) => insertion_in(m, encode_utf8(c), function_line),
                    None => None,
                }
            } else {
                None
            }
        },
        None => None,
    }
}

impl FixtureDatabase {
    /// Where to add a parameter to the function whose `def` is on line
    /// `function_line` (one-based) of an analysed file.
    pub fn get_function_param_insertion_info(&self, file_path: &str, function_line: usize) -> (r: Option<ParamInsertionInfo>)
        ensures
            insertion_view(r) == insertion_of_file(self.files_spec(), file_path@, function_line as nat),
    {
        match self.file_index(file_path) {
            None => None,
            Some(i) => {
                let content = self.files[i].content.as_str();
                let bytes = content.as_bytes();
                if bytes.len() >= MAX_SOURCE_BYTES {
                    return None;
                }
                match parse_module(content) {
                    Some(m) => insertion_at(&m, bytes, function_line),
                    None => None,
                }
            },
        }
    }
}

} // verus!

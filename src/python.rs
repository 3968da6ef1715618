//! Parsing through rustpython_parser, and conversion of its syntax tree into
//! the library's own (`crate::syntax`). Every function here is trusted: it
//! only calls the parser or moves fields of its tree into ours.

use vstd::prelude::*;
use rustpython_parser::ast;
use rustpython_parser::ast::Ranged;
use vstd::string::StringSliceAdditionalSpecFns;
use crate::syntax::{PyAlias, ExprKind, PyExpr, PyFunction, PyKeyword, PyParam, PyStmt, StmtKind};

verus! {

#[verifier::external_type_specification]
#[verifier::external_body]
#[verifier::reject_recursive_types(R)]
pub struct ExStmt<R>(ast::Stmt<R>);

#[verifier::external_type_specification]
#[verifier::external_body]
#[verifier::reject_recursive_types(R)]
pub struct ExExpr<R>(ast::Expr<R>);

#[verifier::external_type_specification]
#[verifier::external_body]
#[verifier::reject_recursive_types(R)]
pub struct ExArguments<R>(ast::Arguments<R>);

#[verifier::external_type_specification]
#[verifier::external_body]
#[verifier::reject_recursive_types(R)]
pub struct ExArgWithDefault<R>(ast::ArgWithDefault<R>);

#[verifier::external_type_specification]
#[verifier::external_body]
#[verifier::reject_recursive_types(R)]
pub struct ExKeyword<R>(ast::Keyword<R>);

#[verifier::external_type_specification]
#[verifier::external_body]
#[verifier::reject_recursive_types(R)]
pub struct ExAlias<R>(ast::Alias<R>);

#[verifier::external_type_specification]
#[verifier::external_body]
#[verifier::reject_recursive_types(R)]
pub struct ExWithItem<R>(ast::WithItem<R>);

#[verifier::external_type_specification]
#[verifier::external_body]
#[verifier::reject_recursive_types(R)]
pub struct ExExceptHandler<R>(ast::ExceptHandler<R>);

#[verifier::external_type_specification]
#[verifier::external_body]
#[verifier::reject_recursive_types(R)]
pub struct ExComprehension<R>(ast::Comprehension<R>);

#[verifier::external_type_specification]
#[verifier::external_body]
#[verifier::reject_recursive_types(R)]
pub struct ExStmtFunctionDef<R>(ast::StmtFunctionDef<R>);

#[verifier::external_type_specification]
#[verifier::external_body]
#[verifier::reject_recursive_types(R)]
pub struct ExStmtAsyncFunctionDef<R>(ast::StmtAsyncFunctionDef<R>);

#[verifier::external_type_specification]
#[verifier::external_body]
pub struct ExConstant(ast::Constant);

#[verifier::external_type_specification]
#[verifier::external_body]
#[verifier::reject_recursive_types(R)]
pub struct ExExprBinOp<R>(ast::ExprBinOp<R>);

#[verifier::external_type_specification]
#[verifier::external_body]
pub struct ExTextRange(ast::text_size::TextRange);

/// Longest source text, in bytes, that the parser takes: its offsets are
/// 32-bit, and it panics on a text of 2^32 bytes or more.
pub const MAX_SOURCE_BYTES: usize = 0xFFFF_FF00;

/// The statements of a module's text as rustpython's parser gives them,
/// moved into the library's syntax tree; `None` where the text does not
/// parse.
pub uninterp spec fn python_syntax(text: Seq<char>) -> Option<Seq<PyStmt>>;

/// Relies on rustpython_parser::parse in module mode: the statements of the
/// module, or an error for text that is not valid Python; the result depends
/// on the text alone. Its offsets are `u32` (`TextSize`), so longer texts are
/// left out.
#[verifier::external_body]
pub fn parse_module(text: &str) -> (r: Option<Vec<PyStmt>>)
    requires
        text.spec_bytes().len() < MAX_SOURCE_BYTES,
    ensures
        match r {
            Some(v) => python_syntax(text@) == Some(v@),
            None => python_syntax(text@) is None,
        },
{
    match rustpython_parser::parse(text, rustpython_parser::Mode::Module, "<module>") {
        Ok(ast::Mod::Module(m)) => Some(stmts_of(m.body)),
        _ => None,
    }
}

/// Relies on rustpython's statement list; moves each statement over.
#[verifier::external_body]
fn stmts_of(v: Vec<ast::Stmt>) -> Vec<PyStmt> {
    v.into_iter().map(stmt_of).collect()
}

/// Relies on rustpython's `Ranged::range` for the statement's byte range.
#[verifier::external_body]
fn stmt_of(s: ast::Stmt) -> PyStmt {
    let r = s.range();
    PyStmt { start: r.start().to_usize(), end: r.end().to_usize(), kind: stmt_kind(s) }
}

/// Relies on rustpython's statement variants: definitions.
#[verifier::external_body]
fn stmt_kind(s: ast::Stmt) -> StmtKind {
    match s {
        ast::Stmt::FunctionDef(f) => StmtKind::Function(function_def(f)),
        ast::Stmt::AsyncFunctionDef(f) => StmtKind::Function(async_function_def(f)),
        ast::Stmt::ClassDef(c) => StmtKind::Class {
            name: c.name.into(),
            bases: exprs_of(c.bases),
            decorators: exprs_of(c.decorator_list),
            body: stmts_of(c.body),
        },
        other => stmt_assign(other),
    }
}

/// Relies on rustpython's statement variants: assignments.
#[verifier::external_body]
fn stmt_assign(s: ast::Stmt) -> StmtKind {
    match s {
        ast::Stmt::Assign(a) => StmtKind::Assign { targets: exprs_of(a.targets), value: Some(expr_of(*a.value)) },
        ast::Stmt::AnnAssign(a) => StmtKind::Assign { targets: vec![expr_of(*a.target)], value: a.value.map(boxed_expr) },
        ast::Stmt::AugAssign(a) => StmtKind::Assign { targets: vec![expr_of(*a.target)], value: Some(expr_of(*a.value)) },
        other => stmt_kind_rest(other),
    }
}

/// Relies on rustpython's statement variants: expressions and loops.
#[verifier::external_body]
fn stmt_kind_rest(s: ast::Stmt) -> StmtKind {
    match s {
        ast::Stmt::Expr(e) => StmtKind::Expr { value: expr_of(*e.value) },
        ast::Stmt::For(f) => block(vec![*f.target, *f.iter], vec![f.body, f.orelse]),
        ast::Stmt::AsyncFor(f) => block(vec![*f.target, *f.iter], vec![f.body, f.orelse]),
        ast::Stmt::While(w) => block(vec![*w.test], vec![w.body, w.orelse]),
        ast::Stmt::If(i) => block(vec![*i.test], vec![i.body, i.orelse]),
        other => stmt_block(other),
    }
}

/// Relies on rustpython's statement variants: imports, `with` and `try`.
#[verifier::external_body]
fn stmt_block(s: ast::Stmt) -> StmtKind {
    match s {
        ast::Stmt::Import(i) => StmtKind::Import { names: i.names.into_iter().map(alias_of).collect() },
        ast::Stmt::ImportFrom(i) => StmtKind::Import { names: i.names.into_iter().map(alias_of).collect() },
        ast::Stmt::With(w) => with_block(w.items, w.body),
        ast::Stmt::AsyncWith(w) => with_block(w.items, w.body),
        ast::Stmt::Try(t) => try_block(t.body, t.handlers, t.orelse, t.finalbody),
        ast::Stmt::TryStar(t) => try_block(t.body, t.handlers, t.orelse, t.finalbody),
        other => stmt_simple(other),
    }
}

/// Relies on rustpython's statement variants: the remaining simple
/// statements, and `match` by its subject and case bodies.
#[verifier::external_body]
fn stmt_simple(s: ast::Stmt) -> StmtKind {
    match s {
        ast::Stmt::Return(r) => block(r.value.into_iter().map(|b| *b).collect(), vec![]),
        ast::Stmt::Assert(a) => block(vec![*a.test], vec![]),
        ast::Stmt::Raise(r) => block(r.exc.into_iter().map(|b| *b).collect(), vec![]),
        ast::Stmt::Delete(d) => block(d.targets, vec![]),
        ast::Stmt::Match(m) => block(vec![*m.subject], m.cases.into_iter().map(|c| c.body).collect()),
        _ => block(vec![], vec![]),
    }
}

/// Relies on rustpython's `def` statement fields.
#[verifier::external_body]
fn function_def(f: ast::StmtFunctionDef) -> PyFunction {
    let annotation = f.returns.map(boxed_expr);
    let decorators = exprs_of(f.decorator_list);
    PyFunction { name: f.name.into(), is_async: false, params: params_of(*f.args), decorators, return_annotation: annotation, body: stmts_of(f.body) }
}

/// Relies on rustpython's `async def` statement fields.
#[verifier::external_body]
fn async_function_def(f: ast::StmtAsyncFunctionDef) -> PyFunction {
    let annotation = f.returns.map(boxed_expr);
    let decorators = exprs_of(f.decorator_list);
    PyFunction { name: f.name.into(), is_async: true, params: params_of(*f.args), decorators, return_annotation: annotation, body: stmts_of(f.body) }
}

/// Relies on rustpython's parameter lists: positional-only, positional and
/// keyword-only parameters, in this order.
#[verifier::external_body]
fn params_of(a: ast::Arguments) -> Vec<PyParam> {
    a.posonlyargs.into_iter().chain(a.args).chain(a.kwonlyargs).map(param_of).collect()
}

/// Relies on rustpython's parameter fields and the range of the name.
#[verifier::external_body]
fn param_of(p: ast::ArgWithDefault) -> PyParam {
    let r = p.def.range;
    let annotation = p.def.annotation.map(boxed_expr);
    PyParam { name: p.def.arg.into(), start: r.start().to_usize(), end: r.end().to_usize(), annotation, default: p.default.map(boxed_expr) }
}

/// Relies on rustpython's import aliases: the name imported and its `as`
/// name.
#[verifier::external_body]
fn alias_of(a: ast::Alias) -> PyAlias {
    PyAlias { name: a.name.into(), asname: a.asname.map(|n| n.into()) }
}

/// Relies on rustpython's `with` items: each context expression and target.
#[verifier::external_body]
fn with_block(items: Vec<ast::WithItem>, body: Vec<ast::Stmt>) -> StmtKind {
    let mut exprs = Vec::new();
    for i in items {
        exprs.push(i.context_expr);
        exprs.extend(i.optional_vars.map(|b| *b));
    }
    block(exprs, vec![body])
}

/// Relies on rustpython's `try` statement and its exception handlers.
#[verifier::external_body]
fn try_block(body: Vec<ast::Stmt>, handlers: Vec<ast::ExceptHandler>, orelse: Vec<ast::Stmt>, fin: Vec<ast::Stmt>) -> StmtKind {
    let mut exprs = Vec::new();
    let mut bodies = vec![body, orelse, fin];
    for ast::ExceptHandler::ExceptHandler(h) in handlers {
        exprs.extend(h.type_.map(|b| *b));
        bodies.push(h.body);
    }
    block(exprs, bodies)
}

/// Moves rustpython expressions and statement lists into a `Block`.
#[verifier::external_body]
fn block(exprs: Vec<ast::Expr>, bodies: Vec<Vec<ast::Stmt>>) -> StmtKind {
    StmtKind::Block { exprs: exprs_of(exprs), bodies: bodies.into_iter().map(stmts_of).collect() }
}

/// Relies on rustpython's expression list; moves each expression over.
#[verifier::external_body]
fn exprs_of(v: Vec<ast::Expr>) -> Vec<PyExpr> {
    v.into_iter().map(expr_of).collect()
}

/// Relies on rustpython's boxed expressions; moves the expression over.
#[verifier::external_body]
fn boxed_expr(e: Box<ast::Expr>) -> PyExpr {
    expr_of(*e)
}

/// Relies on rustpython's `Ranged::range` for the expression's byte range.
#[verifier::external_body]
fn expr_of(e: ast::Expr) -> PyExpr {
    let r = e.range();
    PyExpr { start: r.start().to_usize(), end: r.end().to_usize(), kind: expr_kind(e) }
}

/// Relies on rustpython's expression variants: names, attributes, calls and
/// constants.
#[verifier::external_body]
fn expr_kind(e: ast::Expr) -> ExprKind {
    match e {
        ast::Expr::Name(n) => ExprKind::Name { id: n.id.into(), store: n.ctx == ast::ExprContext::Store },
        ast::Expr::Attribute(a) => ExprKind::Attribute { value: Box::new(expr_of(*a.value)), attr: a.attr.into() },
        ast::Expr::Call(c) => {
            let keywords = c.keywords.into_iter().map(keyword_of).collect();
            ExprKind::Call { func: Box::new(expr_of(*c.func)), args: exprs_of(c.args), keywords }
        },
        ast::Expr::Constant(c) => constant_kind(c.value),
        other => expr_kind_displays(other),
    }
}

/// Relies on rustpython's expression variants: subscripts, displays and
/// yields.
#[verifier::external_body]
fn expr_kind_displays(e: ast::Expr) -> ExprKind {
    match e {
        ast::Expr::Subscript(s) => ExprKind::Subscript { value: Box::new(expr_of(*s.value)), slice: Box::new(expr_of(*s.slice)) },
        ast::Expr::List(l) => ExprKind::Sequence { elts: exprs_of(l.elts) },
        ast::Expr::Tuple(t) => ExprKind::Sequence { elts: exprs_of(t.elts) },
        ast::Expr::Set(s) => ExprKind::Sequence { elts: exprs_of(s.elts) },
        ast::Expr::Yield(y) => ExprKind::Yield { children: y.value.into_iter().map(boxed_expr).collect() },
        ast::Expr::YieldFrom(y) => ExprKind::Yield { children: vec![expr_of(*y.value)] },
        other => expr_kind_rest(other),
    }
}

/// Relies on rustpython's constants: strings and booleans are kept.
#[verifier::external_body]
fn constant_kind(c: ast::Constant) -> ExprKind {
    match c {
        ast::Constant::Str(s) => ExprKind::Str { value: s },
        ast::Constant::Bool(b) => ExprKind::Bool { value: b },
        _ => ExprKind::Other { children: vec![] },
    }
}

/// Relies on rustpython's keyword arguments.
#[verifier::external_body]
fn keyword_of(k: ast::Keyword) -> PyKeyword {
    PyKeyword { arg: k.arg.map(|a| a.into()), value: expr_of(k.value) }
}

/// Relies on rustpython's expression variants: operators.
#[verifier::external_body]
fn expr_kind_rest(e: ast::Expr) -> ExprKind {
    match e {
        ast::Expr::BoolOp(b) => other(b.values),
        ast::Expr::NamedExpr(n) => other(vec![*n.target, *n.value]),
        ast::Expr::BinOp(b) => bin_op(b),
        ast::Expr::UnaryOp(u) => other(vec![*u.operand]),
        ast::Expr::Lambda(l) => other(vec![*l.body]),
        ast::Expr::IfExp(i) => other(vec![*i.test, *i.body, *i.orelse]),
        ast::Expr::Await(a) => other(vec![*a.value]),
        other_expr => expr_kind_more(other_expr),
    }
}

/// Relies on rustpython's binary operations: `|` is kept, the others by
/// their operands.
#[verifier::external_body]
fn bin_op(b: ast::ExprBinOp) -> ExprKind {
    match b.op {
        ast::Operator::BitOr => ExprKind::BitOr { left: Box::new(expr_of(*b.left)), right: Box::new(expr_of(*b.right)) },
        _ => other(vec![*b.left, *b.right]),
    }
}

/// Relies on rustpython's expression variants: comprehensions.
#[verifier::external_body]
fn expr_kind_more(e: ast::Expr) -> ExprKind {
    match e {
        ast::Expr::ListComp(c) => comprehension(vec![*c.elt], c.generators),
        ast::Expr::SetComp(c) => comprehension(vec![*c.elt], c.generators),
        ast::Expr::GeneratorExp(c) => comprehension(vec![*c.elt], c.generators),
        ast::Expr::DictComp(c) => comprehension(vec![*c.key, *c.value], c.generators),
        other_expr => expr_kind_containers(other_expr),
    }
}

/// Relies on rustpython's expression variants: dictionaries and
/// comparisons.
#[verifier::external_body]
fn expr_kind_containers(e: ast::Expr) -> ExprKind {
    match e {
        ast::Expr::Dict(d) => other(d.keys.into_iter().flatten().chain(d.values).collect()),
        ast::Expr::Compare(c) => other(std::iter::once(*c.left).chain(c.comparators).collect()),
        other_expr => expr_kind_last(other_expr),
    }
}

/// Relies on rustpython's expression variants: f-strings, starred, slices.
#[verifier::external_body]
fn expr_kind_last(e: ast::Expr) -> ExprKind {
    match e {
        ast::Expr::FormattedValue(f) => other(vec![*f.value]),
        ast::Expr::JoinedStr(j) => other(j.values),
        ast::Expr::Starred(s) => other(vec![*s.value]),
        ast::Expr::Slice(s) => other([s.lower, s.upper, s.step].into_iter().flatten().map(|b| *b).collect()),
        _ => other(vec![]),
    }
}

/// Relies on rustpython's comprehension clauses: targets, iterables, filters.
#[verifier::external_body]
fn comprehension(mut exprs: Vec<ast::Expr>, generators: Vec<ast::Comprehension>) -> ExprKind {
    for g in generators {
        exprs.push(g.target);
        exprs.push(g.iter);
        exprs.extend(g.ifs);
    }
    other(exprs)
}

/// Moves rustpython subexpressions into an `Other` expression.
#[verifier::external_body]
fn other(children: Vec<ast::Expr>) -> ExprKind {
    ExprKind::Other { children: exprs_of(children) }
}

} // verus!

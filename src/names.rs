//! The names that a function body reads and binds, and its `yield`
//! expressions, in the order of the syntax tree.

use vstd::prelude::*;
use crate::syntax::{ExprKind, PyAlias, PyExpr, PyKeyword, PyStmt, StmtKind};

verus! {

/// A name occurring in a body, `store` when the occurrence binds it; or,
/// with `is_yield` and an empty `id`, a `yield` expression.
#[derive(Debug)]
pub struct NameRef {
    pub id: String,
    pub store: bool,
    pub is_yield: bool,
    pub start: usize,
    pub end: usize,
}

pub ghost struct NameRefView {
    pub id: Seq<char>,
    pub store: bool,
    pub is_yield: bool,
    pub start: nat,
    pub end: nat,
}

impl View for NameRef {
    type V = NameRefView;

    open spec fn view(&self) -> NameRefView {
        NameRefView { id: self.id@, store: self.store, is_yield: self.is_yield, start: self.start as nat, end: self.end as nat }
    }
}

pub open spec fn refs_view(v: Seq<NameRef>) -> Seq<NameRefView> {
    v.map_values(|r: NameRef| r@)
}

pub open spec fn binding(id: Seq<char>, at: usize) -> NameRefView {
    NameRefView { id, store: true, is_yield: false, start: at as nat, end: at as nat }
}

pub open spec fn yield_at(start: usize, end: usize) -> NameRefView {
    NameRefView { id: Seq::empty(), store: false, is_yield: true, start: start as nat, end: end as nat }
}

pub open spec fn names_in_expr(e: PyExpr) -> Seq<NameRefView>
    decreases e,
{
    match e.kind {
        ExprKind::Name { id, store } => seq![
            NameRefView { id: id@, store, is_yield: false, start: e.start as nat, end: e.end as nat },
        ],
        ExprKind::Attribute { value, attr: _ } => names_in_expr(*value),
        ExprKind::Call { func, args, keywords } => names_in_expr(*func) + names_in_exprs(args@)
            + names_in_keywords(keywords@),
        ExprKind::Str { value: _ } => Seq::empty(),
        ExprKind::Bool { value: _ } => Seq::empty(),
        ExprKind::Subscript { value, slice } => names_in_expr(*value) + names_in_expr(*slice),
        ExprKind::BitOr { left, right } => names_in_expr(*left) + names_in_expr(*right),
        ExprKind::Sequence { elts } => names_in_exprs(elts@),
        ExprKind::Yield { children } => seq![yield_at(e.start, e.end)] + names_in_exprs(children@),
        ExprKind::Other { children } => names_in_exprs(children@),
    }
}

pub open spec fn names_in_exprs(es: Seq<PyExpr>) -> Seq<NameRefView>
    decreases es,
{
    if es.len() == 0 {
        Seq::empty()
    } else {
        names_in_exprs(es.drop_last()) + names_in_expr(es.last())
    }
}

pub open spec fn names_in_keywords(ks: Seq<PyKeyword>) -> Seq<NameRefView>
    decreases ks,
{
    if ks.len() == 0 {
        Seq::empty()
    } else {
        names_in_keywords(ks.drop_last()) + names_in_expr(ks.last().value)
    }
}

pub open spec fn names_in_opt(o: Option<PyExpr>) -> Seq<NameRefView> {
    match o {
        Some(e) => names_in_expr(e),
        None => Seq::empty(),
    }
}

/// The name that an import alias binds: its `as` name, else the first
/// segment of the (dotted) name imported.
pub open spec fn bound_name(a: PyAlias) -> Seq<char> {
    match a.asname {
        Some(n) => n@,
        None => crate::text::first_segment(a.name@),
    }
}

/// Executable form of `bound_name`.
pub fn bound_name_of(a: &PyAlias) -> (r: String)
    ensures
        r@ == bound_name(*a),
{
    match &a.asname {
        Some(n) => n.clone(),
        None => crate::text::first_segment_of(a.name.as_str()),
    }
}

pub open spec fn import_bindings(names: Seq<PyAlias>, at: usize) -> Seq<NameRefView>
    decreases names.len(),
{
    if names.len() == 0 {
        Seq::empty()
    } else {
        import_bindings(names.drop_last(), at).push(binding(bound_name(names.last()), at))
    }
}

/// Names of one statement of a body. A nested function or class binds its
/// name; what stands inside it is not part of the enclosing body.
pub open spec fn names_in_stmt(s: PyStmt) -> Seq<NameRefView>
    decreases s,
{
    match s.kind {
        StmtKind::Function(f) => seq![binding(f.name@, s.start)],
        StmtKind::Class { name, bases: _, decorators: _, body: _ } => seq![binding(name@, s.start)],
        StmtKind::Assign { targets, value } => names_in_opt(value) + names_in_exprs(targets@),
        StmtKind::Import { names } => import_bindings(names@, s.start),
        StmtKind::Expr { value } => names_in_expr(value),
        StmtKind::Block { exprs, bodies } => names_in_exprs(exprs@) + names_in_bodies(bodies@),
    }
}

pub open spec fn names_in_stmts(ss: Seq<PyStmt>) -> Seq<NameRefView>
    decreases ss,
{
    if ss.len() == 0 {
        Seq::empty()
    } else {
        names_in_stmts(ss.drop_last()) + names_in_stmt(ss.last())
    }
}

pub open spec fn names_in_bodies(bs: Seq<Vec<PyStmt>>) -> Seq<NameRefView>
    decreases bs,
{
    if bs.len() == 0 {
        Seq::empty()
    } else {
        names_in_bodies(bs.drop_last()) + names_in_stmts(bs.last()@)
    }
}


fn push_ref(out: &mut Vec<NameRef>, r: NameRef)
    ensures
        refs_view(final(out)@) == refs_view(old(out)@) + seq![r@],
{
    out.push(r);
    assert(refs_view(final(out)@) =~= refs_view(old(out)@) + seq![r@]);
}

/// Appends the names of `e` to `out`.
pub fn collect_expr(e: &PyExpr, out: &mut Vec<NameRef>)
    ensures
        refs_view(final(out)@) == refs_view(old(out)@) + names_in_expr(*e),
    decreases e,
{
    let ghost before = refs_view(out@);
    match &e.kind {
        ExprKind::Name { id, store } => {
            push_ref(out, NameRef { id: id.clone(), store: *store, is_yield: false, start: e.start, end: e.end });
        },
        ExprKind::Attribute { value, attr: _ } => {
            collect_expr(value, out);
        },
        ExprKind::Call { func, args, keywords } => {
            collect_expr(func, out);
            collect_exprs(args, out);
            collect_keywords(keywords, out);
            assert(refs_view(out@) =~= before + names_in_expr(*e));
        },
        ExprKind::Str { value: _ } => {
            assert(refs_view(out@) =~= before + names_in_expr(*e));
        },
        ExprKind::Bool { value: _ } => {
            assert(refs_view(out@) =~= before + names_in_expr(*e));
        },
        ExprKind::Subscript { value, slice } => {
            collect_expr(value, out);
            collect_expr(slice, out);
            assert(refs_view(out@) =~= before + names_in_expr(*e));
        },
        ExprKind::BitOr { left, right } => {
            collect_expr(left, out);
            collect_expr(right, out);
            assert(refs_view(out@) =~= before + names_in_expr(*e));
        },
        ExprKind::Sequence { elts } => {
            collect_exprs(elts, out);
        },
        ExprKind::Yield { children } => {
            push_ref(out, NameRef { id: String::new(), store: false, is_yield: true, start: e.start, end: e.end });
            collect_exprs(children, out);
            assert(refs_view(out@) =~= before + names_in_expr(*e));
        },
        ExprKind::Other { children } => {
            collect_exprs(children, out);
        },
    }
}

/// Appends the names of each expression of `es` to `out`.
pub fn collect_exprs(es: &Vec<PyExpr>, out: &mut Vec<NameRef>)
    ensures
        refs_view(final(out)@) == refs_view(old(out)@) + names_in_exprs(es@),
    decreases es,
{
    let ghost before = refs_view(out@);
    let mut i: usize = 0;
    while i < es.len()
        invariant
            i <= es@.len(),
            refs_view(out@) == before + names_in_exprs(es@.subrange(0, i as int)),
        decreases es@.len() - i,
    {
        proof {
            assert(es@.subrange(0, i + 1).drop_last() =~= es@.subrange(0, i as int));
        }
        collect_expr(&es[i], out);
        assert(refs_view(out@) =~= before + names_in_exprs(es@.subrange(0, i + 1)));
        i = i + 1;
    }
    assert(es@.subrange(0, es@.len() as int) =~= es@);
}

fn collect_keywords(ks: &Vec<PyKeyword>, out: &mut Vec<NameRef>)
    ensures
        refs_view(final(out)@) == refs_view(old(out)@) + names_in_keywords(ks@),
    decreases ks,
{
    let ghost before = refs_view(out@);
    let mut i: usize = 0;
    while i < ks.len()
        invariant
            i <= ks@.len(),
            refs_view(out@) == before + names_in_keywords(ks@.subrange(0, i as int)),
        decreases ks@.len() - i,
    {
        proof {
            assert(ks@.subrange(0, i + 1).drop_last() =~= ks@.subrange(0, i as int));
        }
        collect_expr(&ks[i].value, out);
        assert(refs_view(out@) =~= before + names_in_keywords(ks@.subrange(0, i + 1)));
        i = i + 1;
    }
    assert(ks@.subrange(0, ks@.len() as int) =~= ks@);
}

fn collect_imports(names: &Vec<PyAlias>, at: usize, out: &mut Vec<NameRef>)
    ensures
        refs_view(final(out)@) == refs_view(old(out)@) + import_bindings(names@, at),
{
    let ghost before = refs_view(out@);
    let mut i: usize = 0;
    while i < names.len()
        invariant
            i <= names@.len(),
            refs_view(out@) == before + import_bindings(names@.subrange(0, i as int), at),
        decreases names@.len() - i,
    {
        proof {
            assert(names@.subrange(0, i + 1).drop_last() =~= names@.subrange(0, i as int));
        }
        push_ref(out, NameRef { id: bound_name_of(&names[i]), store: true, is_yield: false, start: at, end: at });
        assert(refs_view(out@) =~= before + import_bindings(names@.subrange(0, i + 1), at));
        i = i + 1;
    }
    assert(names@.subrange(0, names@.len() as int) =~= names@);
}

/// Appends the names of statement `s` to `out`.
pub fn collect_stmt(s: &PyStmt, out: &mut Vec<NameRef>)
    ensures
        refs_view(final(out)@) == refs_view(old(out)@) + names_in_stmt(*s),
    decreases s,
{
    let ghost before = refs_view(out@);
    match &s.kind {
        StmtKind::Function(f) => {
            push_ref(out, NameRef { id: f.name.clone(), store: true, is_yield: false, start: s.start, end: s.start });
        },
        StmtKind::Class { name, bases: _, decorators: _, body: _ } => {
            push_ref(out, NameRef { id: name.clone(), store: true, is_yield: false, start: s.start, end: s.start });
        },
        StmtKind::Assign { targets, value } => {
            match value {
                Some(v) => {
                    collect_expr(v, out);
                },
                None => {},
            }
            collect_exprs(targets, out);
            assert(refs_view(out@) =~= before + names_in_stmt(*s));
        },
        StmtKind::Import { names } => {
            collect_imports(names, s.start, out);
        },
        StmtKind::Expr { value } => {
            collect_expr(value, out);
        },
        StmtKind::Block { exprs, bodies } => {
            collect_exprs(exprs, out);
            collect_bodies(bodies, out);
            assert(refs_view(out@) =~= before + names_in_stmt(*s));
        },
    }
}

/// Appends the names of each statement of `ss` to `out`.
pub fn collect_stmts(ss: &Vec<PyStmt>, out: &mut Vec<NameRef>)
    ensures
        refs_view(final(out)@) == refs_view(old(out)@) + names_in_stmts(ss@),
    decreases ss,
{
    let ghost before = refs_view(out@);
    let mut i: usize = 0;
    while i < ss.len()
        invariant
            i <= ss@.len(),
            refs_view(out@) == before + names_in_stmts(ss@.subrange(0, i as int)),
        decreases ss@.len() - i,
    {
        proof {
            assert(ss@.subrange(0, i + 1).drop_last() =~= ss@.subrange(0, i as int));
        }
        collect_stmt(&ss[i], out);
        assert(refs_view(out@) =~= before + names_in_stmts(ss@.subrange(0, i + 1)));
        i = i + 1;
    }
    assert(ss@.subrange(0, ss@.len() as int) =~= ss@);
}

fn collect_bodies(bs: &Vec<Vec<PyStmt>>, out: &mut Vec<NameRef>)
    ensures
        refs_view(final(out)@) == refs_view(old(out)@) + names_in_bodies(bs@),
    decreases bs,
{
    let ghost before = refs_view(out@);
    let mut i: usize = 0;
    while i < bs.len()
        invariant
            i <= bs@.len(),
            refs_view(out@) == before + names_in_bodies(bs@.subrange(0, i as int)),
        decreases bs@.len() - i,
    {
        proof {
            assert(bs@.subrange(0, i + 1).drop_last() =~= bs@.subrange(0, i as int));
        }
        collect_stmts(&bs[i], out);
        assert(refs_view(out@) =~= before + names_in_bodies(bs@.subrange(0, i + 1)));
        i = i + 1;
    }
    assert(bs@.subrange(0, bs@.len() as int) =~= bs@);
}

} // verus!

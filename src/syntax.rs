//! The parts of a Python syntax tree that fixture analysis reads. Positions
//! are byte offsets into the source text.

use vstd::prelude::*;

verus! {

#[derive(Debug)]
pub struct PyExpr {
    pub kind: ExprKind,
    pub start: usize,
    pub end: usize,
}

#[derive(Debug)]
pub enum ExprKind {
    /// A name; `store` when the name is bound here (assignment, `for` or
    /// `with` target, comprehension variable, `:=`).
    Name { id: String, store: bool },
    Attribute { value: Box<PyExpr>, attr: String },
    Call { func: Box<PyExpr>, args: Vec<PyExpr>, keywords: Vec<PyKeyword> },
    Str { value: String },
    Bool { value: bool },
    Subscript { value: Box<PyExpr>, slice: Box<PyExpr> },
    /// A list, tuple or set display.
    Sequence { elts: Vec<PyExpr> },
    /// `left | right`, as in a union type.
    BitOr { left: Box<PyExpr>, right: Box<PyExpr> },
    /// `yield` or `yield from`.
    Yield { children: Vec<PyExpr> },
    /// Any other expression, by its subexpressions. A lambda is kept by its
    /// body alone: its parameters are not bindings of the tree.
    Other { children: Vec<PyExpr> },
}

/// A keyword argument of a call; `arg` is `None` for `**kwargs`.
#[derive(Debug)]
pub struct PyKeyword {
    pub arg: Option<String>,
    pub value: PyExpr,
}

/// A named parameter of a function (positional-only, positional or
/// keyword-only), with the range of its name.
#[derive(Debug)]
pub struct PyParam {
    pub name: String,
    pub start: usize,
    pub end: usize,
    pub annotation: Option<PyExpr>,
    pub default: Option<PyExpr>,
}

#[derive(Debug)]
pub struct PyFunction {
    pub name: String,
    pub is_async: bool,
    pub params: Vec<PyParam>,
    pub decorators: Vec<PyExpr>,
    pub return_annotation: Option<PyExpr>,
    pub body: Vec<PyStmt>,
}

/// An imported name with its optional `as` name.
#[derive(Debug)]
pub struct PyAlias {
    pub name: String,
    pub asname: Option<String>,
}

/// A statement; for a function its range starts at `def` (or `async`).
#[derive(Debug)]
pub struct PyStmt {
    pub kind: StmtKind,
    pub start: usize,
    pub end: usize,
}

#[derive(Debug)]
pub enum StmtKind {
    Function(PyFunction),
    Class { name: String, bases: Vec<PyExpr>, decorators: Vec<PyExpr>, body: Vec<PyStmt> },
    /// Plain, annotated and augmented assignment.
    Assign { targets: Vec<PyExpr>, value: Option<PyExpr> },
    /// The aliases of an `import` or `from ... import`.
    Import { names: Vec<PyAlias> },
    Expr { value: PyExpr },
    /// Any other statement, by its expressions and nested blocks. The tree
    /// keeps neither the name bound by `except ... as name` nor the patterns
    /// and guards of `match` cases, so names bound there count as unbound;
    /// `global`, `nonlocal`, `pass`, `break`, `continue` and `type` statements
    /// are empty blocks.
    Block { exprs: Vec<PyExpr>, bodies: Vec<Vec<PyStmt>> },
}

} // verus!

//! The records that analysis produces: fixture definitions, usages and
//! undeclared-usage candidates, each with a mathematical view.

use vstd::prelude::*;
use crate::scope::FixtureScope;

verus! {

/// A fixture definition found in a Python file.
#[derive(Debug, Clone, PartialEq)]
pub struct FixtureDefinition {
    pub name: String,
    pub file_path: String,
    /// One-based line of the `def` keyword (or of the assignment).
    pub line: usize,
    /// One-based line on which the definition ends.
    pub end_line: usize,
    /// Character range of the name on `line`, zero-based.
    pub start_char: usize,
    pub end_char: usize,
    pub docstring: Option<String>,
    /// Source text of the return annotation, for a generator-like type that
    /// of its first type argument.
    pub return_type: Option<String>,
    pub is_plugin: bool,
    pub is_third_party: bool,
    pub dependencies: Vec<String>,
    pub scope: FixtureScope,
    /// One-based line of the first `yield` in the body.
    pub yield_line: Option<usize>,
    pub autouse: bool,
}

/// Mathematical view of a [`FixtureDefinition`].
pub ghost struct DefinitionView {
    pub name: Seq<char>,
    pub file_path: Seq<char>,
    pub line: nat,
    pub end_line: nat,
    pub start_char: nat,
    pub end_char: nat,
    pub docstring: Option<Seq<char>>,
    /// UTF-8 bytes of the return type's text.
    pub return_type: Option<Seq<u8>>,
    pub is_plugin: bool,
    pub is_third_party: bool,
    pub dependencies: Seq<Seq<char>>,
    pub scope: FixtureScope,
    pub yield_line: Option<nat>,
    pub autouse: bool,
}

pub open spec fn opt_str_view(o: Option<String>) -> Option<Seq<char>> {
    match o {
        Some(s) => Some(s@),
        None => None,
    }
}

/// The UTF-8 encoding of an optional string.
pub open spec fn opt_bytes_view(o: Option<String>) -> Option<Seq<u8>> {
    match o {
        Some(s) => Some(vstd::utf8::encode_utf8(s@)),
        None => None,
    }
}

pub open spec fn opt_nat_view(o: Option<usize>) -> Option<nat> {
    match o {
        Some(n) => Some(n as nat),
        None => None,
    }
}

pub open spec fn strings_view(v: Seq<String>) -> Seq<Seq<char>> {
    v.map_values(|s: String| s@)
}

impl View for FixtureDefinition {
    type V = DefinitionView;

    open spec fn view(&self) -> DefinitionView {
        DefinitionView {
            name: self.name@,
            file_path: self.file_path@,
            line: self.line as nat,
            end_line: self.end_line as nat,
            start_char: self.start_char as nat,
            end_char: self.end_char as nat,
            docstring: opt_str_view(self.docstring),
            return_type: opt_bytes_view(self.return_type),
            is_plugin: self.is_plugin,
            is_third_party: self.is_third_party,
            dependencies: strings_view(self.dependencies@),
            scope: self.scope,
            yield_line: opt_nat_view(self.yield_line),
            autouse: self.autouse,
        }
    }
}

pub fn copy_opt_string(s: &Option<String>) -> (r: Option<String>)
    ensures
        opt_str_view(r) == opt_str_view(*s),
{
    match s {
        Some(x) => Some(x.clone()),
        None => None,
    }
}

/// A copy of a list of strings.
pub fn copy_strings(v: &Vec<String>) -> (r: Vec<String>)
    ensures
        r@ == v@,
        strings_view(r@) == strings_view(v@),
{
    let mut r: Vec<String> = Vec::new();
    let mut i: usize = 0;
    while i < v.len()
        invariant
            i <= v@.len(),
            r@ == v@.subrange(0, i as int),
        decreases v@.len() - i,
    {
        r.push(v[i].clone());
        assert(r@ =~= v@.subrange(0, i + 1));
        i = i + 1;
    }
    assert(v@.subrange(0, v@.len() as int) =~= v@);
    r
}

impl FixtureDefinition {
    /// A copy with the same view.
    pub fn duplicate(&self) -> (r: FixtureDefinition)
        ensures
            r@ == self@,
    {
        FixtureDefinition {
            name: self.name.clone(),
            file_path: self.file_path.clone(),
            line: self.line,
            end_line: self.end_line,
            start_char: self.start_char,
            end_char: self.end_char,
            docstring: copy_opt_string(&self.docstring),
            return_type: copy_opt_string(&self.return_type),
            is_plugin: self.is_plugin,
            is_third_party: self.is_third_party,
            dependencies: copy_strings(&self.dependencies),
            scope: self.scope,
            yield_line: self.yield_line,
            autouse: self.autouse,
        }
    }
}

/// A reference to a fixture name: a parameter of a test or fixture, or a
/// string in a `usefixtures` / indirect `parametrize` decorator.
#[derive(Debug, Clone, PartialEq)]
pub struct FixtureUsage {
    pub name: String,
    pub file_path: String,
    /// One-based line of the enclosing function's `def`: the anchor.
    pub line: usize,
    /// One-based line on which the reference itself stands.
    pub ref_line: usize,
    /// Character range of the reference on its own line, zero-based.
    pub start_char: usize,
    pub end_char: usize,
}

pub ghost struct UsageView {
    pub name: Seq<char>,
    pub file_path: Seq<char>,
    pub line: nat,
    pub ref_line: nat,
    pub start_char: nat,
    pub end_char: nat,
}

impl View for FixtureUsage {
    type V = UsageView;

    open spec fn view(&self) -> UsageView {
        UsageView {
            name: self.name@,
            file_path: self.file_path@,
            line: self.line as nat,
            ref_line: self.ref_line as nat,
            start_char: self.start_char as nat,
            end_char: self.end_char as nat,
        }
    }
}

impl FixtureUsage {
    pub fn duplicate(&self) -> (r: FixtureUsage)
        ensures
            r@ == self@,
    {
        FixtureUsage {
            name: self.name.clone(),
            file_path: self.file_path.clone(),
            line: self.line,
            ref_line: self.ref_line,
            start_char: self.start_char,
            end_char: self.end_char,
        }
    }
}

/// A name read in a function body that is not bound there, nor a
/// parameter, an import or a module-level name of the file.
#[derive(Debug, Clone, PartialEq)]
pub struct UndeclaredFixture {
    pub name: String,
    pub file_path: String,
    /// One-based line of the reference.
    pub line: usize,
    /// Character range of the reference on its line, zero-based.
    pub start_char: usize,
    pub end_char: usize,
    /// Name of the enclosing function and the line of its `def`.
    pub function_name: String,
    pub function_line: usize,
}

pub ghost struct UndeclaredView {
    pub name: Seq<char>,
    pub file_path: Seq<char>,
    pub line: nat,
    pub start_char: nat,
    pub end_char: nat,
    pub function_name: Seq<char>,
    pub function_line: nat,
}

impl View for UndeclaredFixture {
    type V = UndeclaredView;

    open spec fn view(&self) -> UndeclaredView {
        UndeclaredView {
            name: self.name@,
            file_path: self.file_path@,
            line: self.line as nat,
            start_char: self.start_char as nat,
            end_char: self.end_char as nat,
            function_name: self.function_name@,
            function_line: self.function_line as nat,
        }
    }
}

impl UndeclaredFixture {
    pub fn duplicate(&self) -> (r: UndeclaredFixture)
        ensures
            r@ == self@,
    {
        UndeclaredFixture {
            name: self.name.clone(),
            file_path: self.file_path.clone(),
            line: self.line,
            start_char: self.start_char,
            end_char: self.end_char,
            function_name: self.function_name.clone(),
            function_line: self.function_line,
        }
    }
}

} // verus!

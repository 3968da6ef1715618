//! The five fixture scopes, ordered from the narrowest to the widest.

use vstd::prelude::*;

verus! {

/// How often a fixture is instantiated; `Function` is the narrowest scope and
/// `Session` the widest.
#[derive(Debug, Clone, Copy, PartialEq, Eq, Structural, Hash)]
pub enum FixtureScope {
    Function,
    Class,
    Module,
    Package,
    Session,
}

impl FixtureScope {
    /// Position of the scope in the lattice, `0` for `Function`.
    pub open spec fn rank(self) -> nat {
        match self {
            FixtureScope::Function => 0,
            FixtureScope::Class => 1,
            FixtureScope::Module => 2,
            FixtureScope::Package => 3,
            FixtureScope::Session => 4,
        }
    }

    /// Executable form of `rank`.
    pub fn order(self) -> (r: u8)
        ensures
            r as nat == self.rank(),
    {
        match self {
            FixtureScope::Function => 0,
            FixtureScope::Class => 1,
            FixtureScope::Module => 2,
            FixtureScope::Package => 3,
            FixtureScope::Session => 4,
        }
    }

    /// `self` is strictly narrower than `other`.
    pub fn is_narrower_than(self, other: FixtureScope) -> (r: bool)
        ensures
            r == (self.rank() < other.rank()),
    {
        self.order() < other.order()
    }

    /// The scope named by the text of a `scope=` keyword argument.
    pub open spec fn named(s: Seq<char>) -> Option<FixtureScope> {
        if s == "function"@ {
            Some(FixtureScope::Function)
        } else if s == "class"@ {
            Some(FixtureScope::Class)
        } else if s == "module"@ {
            Some(FixtureScope::Module)
        } else if s == "package"@ {
            Some(FixtureScope::Package)
        } else if s == "session"@ {
            Some(FixtureScope::Session)
        } else {
            None
        }
    }

    /// Reads a scope name; unknown names give `None`.
    pub fn from_name(s: &str) -> (r: Option<FixtureScope>)
        ensures
            r == FixtureScope::named(s@),
    {
        proof {
            reveal_strlit("function");
            reveal_strlit("class");
            reveal_strlit("module");
            reveal_strlit("package");
            reveal_strlit("session");
        }
        if crate::text::str_eq(s, "function") {
            Some(FixtureScope::Function)
        } else if crate::text::str_eq(s, "class") {
            Some(FixtureScope::Class)
        } else if crate::text::str_eq(s, "module") {
            Some(FixtureScope::Module)
        } else if crate::text::str_eq(s, "package") {
            Some(FixtureScope::Package)
        } else if crate::text::str_eq(s, "session") {
            Some(FixtureScope::Session)
        } else {
            None
        }
    }

    /// The name pytest uses for the scope.
    pub open spec fn name_spec(self) -> Seq<char> {
        match self {
            FixtureScope::Function => "function"@,
            FixtureScope::Class => "class"@,
            FixtureScope::Module => "module"@,
            FixtureScope::Package => "package"@,
            FixtureScope::Session => "session"@,
        }
    }

    /// Executable form of `name_spec`.
    pub fn as_str(self) -> (r: &'static str)
        ensures
            r@ == self.name_spec(),
    {
        proof {
            reveal_strlit("function");
            reveal_strlit("class");
            reveal_strlit("module");
            reveal_strlit("package");
            reveal_strlit("session");
        }
        match self {
            FixtureScope::Function => "function",
            FixtureScope::Class => "class",
            FixtureScope::Module => "module",
            FixtureScope::Package => "package",
            FixtureScope::Session => "session",
        }
    }
}

} // verus!

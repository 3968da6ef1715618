//! pytest's layered lookup of a fixture name: same file, nearest ancestor
//! `conftest.py`, plugins and third-party packages, anything else.

use vstd::prelude::*;
use crate::model::{DefinitionView, FixtureDefinition};
use crate::text::{seq_lt, str_eq, str_lt};

verus! {

pub open spec fn defs_view(v: Seq<FixtureDefinition>) -> Seq<DefinitionView> {
    v.map_values(|d: FixtureDefinition| d@)
}

pub open spec fn conftest_suffix() -> Seq<char> {
    "/conftest.py"@
}

/// Path of the `conftest.py` in directory `dir`.
pub open spec fn conftest_in(dir: Seq<char>) -> Seq<char> {
    dir + conftest_suffix()
}

/// `d` defines `name` and is not the definition at `(self_file, self_line)`:
/// a fixture's parameter of its own name never refers to the fixture itself.
pub open spec fn is_candidate(
    d: DefinitionView,
    name: Seq<char>,
    self_file: Seq<char>,
    self_line: nat,
) -> bool {
    d.name == name && !(d.file_path == self_file && d.line == self_line)
}

/// The candidate in `file` with the greatest line, the first one among equals.
pub open spec fn latest_in(
    defs: Seq<DefinitionView>,
    name: Seq<char>,
    file: Seq<char>,
    self_file: Seq<char>,
    self_line: nat,
) -> Option<int>
    decreases defs.len(),
{
    if defs.len() == 0 {
        None
    } else {
        let k = defs.len() - 1;
        let rest = latest_in(defs.drop_last(), name, file, self_file, self_line);
        let d = defs[k];
        if is_candidate(d, name, self_file, self_line) && d.file_path == file {
            match rest {
                Some(b) => if d.line > defs[b].line { Some(k) } else { rest },
                None => Some(k),
            }
        } else {
            rest
        }
    }
}

/// Walks the ancestor directories of `path` that end before position `j`,
/// nearest first, and returns the latest candidate of the first
/// `conftest.py` that defines the name.
pub open spec fn ancestor_lookup(
    defs: Seq<DefinitionView>,
    name: Seq<char>,
    path: Seq<char>,
    j: int,
    self_line: nat,
) -> Option<int>
    decreases j,
{
    if j <= 0 || j > path.len() {
        None
    } else {
        let k = j - 1;
        if path[k] == '/' {
            match latest_in(defs, name, conftest_in(path.subrange(0, k)), path, self_line) {
                Some(i) => Some(i),
                None => ancestor_lookup(defs, name, path, k, self_line),
            }
        } else {
            ancestor_lookup(defs, name, path, k, self_line)
        }
    }
}

pub open spec fn is_external(d: DefinitionView) -> bool {
    d.is_plugin || d.is_third_party
}

/// Order on `(file_path, line)`.
pub open spec fn path_line_before(a: DefinitionView, b: DefinitionView) -> bool {
    seq_lt(a.file_path, b.file_path) || (a.file_path == b.file_path && a.line < b.line)
}

/// Order on `(is_third_party desc, is_plugin desc, file_path, line)`.
pub open spec fn key_before(a: DefinitionView, b: DefinitionView) -> bool {
    (a.is_third_party && !b.is_third_party) || (a.is_third_party == b.is_third_party && (
    (a.is_plugin && !b.is_plugin) || (a.is_plugin == b.is_plugin && path_line_before(a, b))))
}

/// The first candidate in `key_before` order, among the external ones when
/// `external_only` holds; the earliest in the list among equal keys.
pub open spec fn earliest(
    defs: Seq<DefinitionView>,
    name: Seq<char>,
    self_file: Seq<char>,
    self_line: nat,
    external_only: bool,
) -> Option<int>
    decreases defs.len(),
{
    if defs.len() == 0 {
        None
    } else {
        let k = defs.len() - 1;
        let rest = earliest(defs.drop_last(), name, self_file, self_line, external_only);
        let d = defs[k];
        if is_candidate(d, name, self_file, self_line) && (!external_only || is_external(d)) {
            match rest {
                Some(b) => if key_before(d, defs[b]) { Some(k) } else { rest },
                None => Some(k),
            }
        } else {
            rest
        }
    }
}

/// The definition that `name`, used in `file` by the function whose `def`
/// is on `line`, resolves to among those visible there: the same file, an
/// ancestor `conftest.py`, plugins and third-party packages.
pub open spec fn resolve_visible(
    defs: Seq<DefinitionView>,
    name: Seq<char>,
    file: Seq<char>,
    line: nat,
) -> Option<int> {
    let same = latest_in(defs, name, file, file, line);
    if same is Some {
        same
    } else {
        let anc = ancestor_lookup(defs, name, file, file.len() as int, line);
        if anc is Some {
            anc
        } else {
            earliest(defs, name, file, line, true)
        }
    }
}

/// The definition that `name`, used in `file` by the function whose `def`
/// is on `line`, resolves to: the priority ladder, whose last rung is any
/// other definition.
pub open spec fn resolve(
    defs: Seq<DefinitionView>,
    name: Seq<char>,
    file: Seq<char>,
    line: nat,
) -> Option<int> {
    match resolve_visible(defs, name, file, line) {
        Some(i) => Some(i),
        None => earliest(defs, name, file, line, false),
    }
}

pub open spec fn index_in(o: Option<int>, n: int) -> bool {
    match o {
        Some(i) => 0 <= i < n,
        None => true,
    }
}

proof fn lemma_latest_in_bounds(
    defs: Seq<DefinitionView>,
    name: Seq<char>,
    file: Seq<char>,
    self_file: Seq<char>,
    self_line: nat,
)
    ensures
        index_in(latest_in(defs, name, file, self_file, self_line), defs.len() as int),
    decreases defs.len(),
{
    if defs.len() > 0 {
        lemma_latest_in_bounds(defs.drop_last(), name, file, self_file, self_line);
    }
}

proof fn lemma_ancestor_bounds(
    defs: Seq<DefinitionView>,
    name: Seq<char>,
    path: Seq<char>,
    j: int,
    self_line: nat,
)
    ensures
        index_in(ancestor_lookup(defs, name, path, j, self_line), defs.len() as int),
    decreases j,
{
    if j > 0 && j <= path.len() {
        let k = j - 1;
        lemma_latest_in_bounds(defs, name, conftest_in(path.subrange(0, k)), path, self_line);
        lemma_ancestor_bounds(defs, name, path, k, self_line);
    }
}

proof fn lemma_earliest_bounds(
    defs: Seq<DefinitionView>,
    name: Seq<char>,
    self_file: Seq<char>,
    self_line: nat,
    external_only: bool,
)
    ensures
        index_in(earliest(defs, name, self_file, self_line, external_only), defs.len() as int),
    decreases defs.len(),
{
    if defs.len() > 0 {
        lemma_earliest_bounds(defs.drop_last(), name, self_file, self_line, external_only);
    }
}

/// The index that `resolve` picks lies in the list.
pub proof fn lemma_resolve_bounds(
    defs: Seq<DefinitionView>,
    name: Seq<char>,
    file: Seq<char>,
    line: nat,
)
    ensures
        index_in(resolve(defs, name, file, line), defs.len() as int),
        index_in(resolve_visible(defs, name, file, line), defs.len() as int),
{
    lemma_latest_in_bounds(defs, name, file, file, line);
    lemma_ancestor_bounds(defs, name, file, file.len() as int, line);
    lemma_earliest_bounds(defs, name, file, line, true);
    lemma_earliest_bounds(defs, name, file, line, false);
}

fn candidate(d: &FixtureDefinition, name: &str, self_file: &str, self_line: usize) -> (r: bool)
    ensures
        r == is_candidate(d@, name@, self_file@, self_line as nat),
{
    str_eq(d.name.as_str(), name) && !(str_eq(d.file_path.as_str(), self_file) && d.line == self_line)
}

/// Executable form of `latest_in`.
pub fn find_latest_in(
    defs: &Vec<FixtureDefinition>,
    name: &str,
    file: &str,
    self_file: &str,
    self_line: usize,
) -> (r: Option<usize>)
    ensures
        r == (match latest_in(defs_view(defs@), name@, file@, self_file@, self_line as nat) {
            Some(i) => Some(i as usize),
            None => None::<usize>,
        }),
        index_in(latest_in(defs_view(defs@), name@, file@, self_file@, self_line as nat), defs@.len() as int),
{
    let ghost dv = defs_view(defs@);
    let mut best: Option<usize> = None;
    let mut i: usize = 0;
    while i < defs.len()
        invariant
            dv == defs_view(defs@),
            i <= defs@.len(),
            best == (match latest_in(dv.subrange(0, i as int), name@, file@, self_file@, self_line as nat) {
                Some(b) => Some(b as usize),
                None => None::<usize>,
            }),
            index_in(latest_in(dv.subrange(0, i as int), name@, file@, self_file@, self_line as nat), i as int),
        decreases defs@.len() - i,
    {
        let ghost pre = dv.subrange(0, i as int);
        let ghost cur = dv.subrange(0, i + 1);
        proof {
            assert(cur.drop_last() =~= pre);
            lemma_latest_in_bounds(pre, name@, file@, self_file@, self_line as nat);
        }
        let d = &defs[i];
        if candidate(d, name, self_file, self_line) && str_eq(d.file_path.as_str(), file) {
            match best {
                Some(b) => {
                    if d.line > defs[b].line {
                        best = Some(i);
                    }
                },
                None => {
                    best = Some(i);
                },
            }
        }
        i = i + 1;
    }
    assert(dv.subrange(0, defs@.len() as int) =~= dv);
    best
}


/// Executable form of `earliest`.
pub fn find_earliest(
    defs: &Vec<FixtureDefinition>,
    name: &str,
    self_file: &str,
    self_line: usize,
    external_only: bool,
) -> (r: Option<usize>)
    ensures
        r == (match earliest(defs_view(defs@), name@, self_file@, self_line as nat, external_only) {
            Some(i) => Some(i as usize),
            None => None::<usize>,
        }),
        index_in(earliest(defs_view(defs@), name@, self_file@, self_line as nat, external_only), defs@.len() as int),
{
    let ghost dv = defs_view(defs@);
    let mut best: Option<usize> = None;
    let mut i: usize = 0;
    while i < defs.len()
        invariant
            dv == defs_view(defs@),
            i <= defs@.len(),
            best == (match earliest(dv.subrange(0, i as int), name@, self_file@, self_line as nat, external_only) {
                Some(b) => Some(b as usize),
                None => None::<usize>,
            }),
            index_in(earliest(dv.subrange(0, i as int), name@, self_file@, self_line as nat, external_only), i as int),
        decreases defs@.len() - i,
    {
        let ghost pre = dv.subrange(0, i as int);
        let ghost cur = dv.subrange(0, i + 1);
        proof {
            assert(cur.drop_last() =~= pre);
            lemma_earliest_bounds(pre, name@, self_file@, self_line as nat, external_only);
        }
        let d = &defs[i];
        if candidate(d, name, self_file, self_line) && (!external_only || d.is_plugin || d.is_third_party) {
            match best {
                Some(b) => {
                    if def_key_before(d, &defs[b]) {
                        best = Some(i);
                    }
                },
                None => {
                    best = Some(i);
                },
            }
        }
        i = i + 1;
    }
    assert(dv.subrange(0, defs@.len() as int) =~= dv);
    best
}

fn def_key_before(a: &FixtureDefinition, b: &FixtureDefinition) -> (r: bool)
    ensures
        r == key_before(a@, b@),
{
    if a.is_third_party != b.is_third_party {
        return a.is_third_party;
    }
    if a.is_plugin != b.is_plugin {
        return a.is_plugin;
    }
    str_lt(a.file_path.as_str(), b.file_path.as_str())
        || (str_eq(a.file_path.as_str(), b.file_path.as_str()) && a.line < b.line)
}

/// Path of the `conftest.py` in the directory `path[..k]`.
fn conftest_path(path: &str, k: usize) -> (r: String)
    requires
        k <= path@.len(),
    ensures
        r@ == conftest_in(path@.subrange(0, k as int)),
{
    proof {
        reveal_strlit("/conftest.py");
    }
    let dir = path.substring_char(0, k).to_owned();
    dir.concat("/conftest.py")
}

/// Executable form of `ancestor_lookup` over all ancestors of `path`.
pub fn find_in_ancestors(
    defs: &Vec<FixtureDefinition>,
    name: &str,
    path: &str,
    self_line: usize,
) -> (r: Option<usize>)
    ensures
        r == (match ancestor_lookup(defs_view(defs@), name@, path@, path@.len() as int, self_line as nat) {
            Some(i) => Some(i as usize),
            None => None::<usize>,
        }),
{
    let ghost dv = defs_view(defs@);
    let n = path.unicode_len();
    let mut j: usize = n;
    while j > 0
        invariant
            dv == defs_view(defs@),
            n == path@.len(),
            j <= n,
            ancestor_lookup(dv, name@, path@, n as int, self_line as nat)
                == ancestor_lookup(dv, name@, path@, j as int, self_line as nat),
        decreases j,
    {
        let k = j - 1;
        if path.get_char(k) == '/' {
            let conf = conftest_path(path, k);
            let found = find_latest_in(defs, name, conf.as_str(), path, self_line);
            if found.is_some() {
                return found;
            }
        }
        j = k;
    }
    None
}

/// Executable form of `resolve_visible`.
pub fn resolve_visible_index(
    defs: &Vec<FixtureDefinition>,
    name: &str,
    file: &str,
    line: usize,
) -> (r: Option<usize>)
    ensures
        r == (match resolve_visible(defs_view(defs@), name@, file@, line as nat) {
            Some(i) => Some(i as usize),
            None => None::<usize>,
        }),
        index_in(resolve_visible(defs_view(defs@), name@, file@, line as nat), defs@.len() as int),
{
    proof {
        lemma_resolve_bounds(defs_view(defs@), name@, file@, line as nat);
    }
    let same = find_latest_in(defs, name, file, file, line);
    if same.is_some() {
        return same;
    }
    let anc = find_in_ancestors(defs, name, file, line);
    if anc.is_some() {
        return anc;
    }
    find_earliest(defs, name, file, line, true)
}

/// Executable form of `resolve`: the index of the definition that `name`
/// resolves to when used in `file` by the function whose `def` is on `line`.
pub fn resolve_index(
    defs: &Vec<FixtureDefinition>,
    name: &str,
    file: &str,
    line: usize,
) -> (r: Option<usize>)
    ensures
        r == (match resolve(defs_view(defs@), name@, file@, line as nat) {
            Some(i) => Some(i as usize),
            None => None::<usize>,
        }),
        index_in(resolve(defs_view(defs@), name@, file@, line as nat), defs@.len() as int),
{
    proof {
        lemma_resolve_bounds(defs_view(defs@), name@, file@, line as nat);
    }
    let visible = resolve_visible_index(defs, name, file, line);
    if visible.is_some() {
        return visible;
    }
    find_earliest(defs, name, file, line, false)
}

/// What `latest_in` finds is a candidate of the file, written no earlier
/// than any other.
pub proof fn lemma_latest_in_props(
    defs: Seq<DefinitionView>,
    name: Seq<char>,
    file: Seq<char>,
    self_file: Seq<char>,
    self_line: nat,
)
    ensures
        match latest_in(defs, name, file, self_file, self_line) {
            Some(i) => 0 <= i < defs.len() && is_candidate(defs[i], name, self_file, self_line) && defs[i].file_path
                == file,
            None => forall|j: int| 0 <= j < defs.len() ==> !(is_candidate(#[trigger] defs[j], name, self_file, self_line)
                && defs[j].file_path == file),
        },
    decreases defs.len(),
{
    if defs.len() > 0 {
        let d = defs.drop_last();
        lemma_latest_in_props(d, name, file, self_file, self_line);
        let last = defs.len() - 1;
        match latest_in(defs, name, file, self_file, self_line) {
            Some(i) => {
                if i != last {
                    assert(latest_in(d, name, file, self_file, self_line) == Some(i));
                    assert(d[i] == defs[i]);
                }
            },
            None => {
                assert forall|j: int| 0 <= j < defs.len() implies !(is_candidate(#[trigger] defs[j], name, self_file, self_line)
                    && defs[j].file_path == file) by {
                    if j < last {
                        assert(d[j] == defs[j]);
                    }
                }
            },
        }
    }
}

proof fn lemma_latest_in_name(
    defs: Seq<DefinitionView>,
    name: Seq<char>,
    file: Seq<char>,
    self_file: Seq<char>,
    self_line: nat,
)
    ensures
        match latest_in(defs, name, file, self_file, self_line) {
            Some(i) => 0 <= i < defs.len() && defs[i].name == name,
            None => true,
        },
    decreases defs.len(),
{
    if defs.len() > 0 {
        lemma_latest_in_name(defs.drop_last(), name, file, self_file, self_line);
    }
}

proof fn lemma_ancestor_name(defs: Seq<DefinitionView>, name: Seq<char>, path: Seq<char>, j: int, self_line: nat)
    ensures
        match ancestor_lookup(defs, name, path, j, self_line) {
            Some(i) => 0 <= i < defs.len() && defs[i].name == name,
            None => true,
        },
    decreases j,
{
    if j > 0 && j <= path.len() {
        let k = j - 1;
        lemma_latest_in_name(defs, name, conftest_in(path.subrange(0, k)), path, self_line);
        lemma_ancestor_name(defs, name, path, k, self_line);
    }
}

proof fn lemma_earliest_name(
    defs: Seq<DefinitionView>,
    name: Seq<char>,
    self_file: Seq<char>,
    self_line: nat,
    external_only: bool,
)
    ensures
        match earliest(defs, name, self_file, self_line, external_only) {
            Some(i) => 0 <= i < defs.len() && defs[i].name == name,
            None => true,
        },
    decreases defs.len(),
{
    if defs.len() > 0 {
        lemma_earliest_name(defs.drop_last(), name, self_file, self_line, external_only);
    }
}

/// What a name resolves to is a definition of that name.
pub proof fn lemma_resolve_name(defs: Seq<DefinitionView>, name: Seq<char>, file: Seq<char>, line: nat)
    ensures
        match resolve(defs, name, file, line) {
            Some(i) => 0 <= i < defs.len() && defs[i].name == name,
            None => true,
        },
{
    lemma_latest_in_name(defs, name, file, file, line);
    lemma_ancestor_name(defs, name, file, file.len() as int, line);
    lemma_earliest_name(defs, name, file, line, true);
    lemma_earliest_name(defs, name, file, line, false);
}

} // verus!

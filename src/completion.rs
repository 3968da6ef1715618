//! Which fixtures a completion offers at a position, and how each is
//! labelled and ordered.

use vstd::prelude::*;
use crate::model::{DefinitionView, FixtureDefinition};
use crate::scope::FixtureScope;
use crate::text::str_eq;
use crate::database::FixtureDatabase;
use crate::queries::visible;
use crate::context::{insertion_of_file, insertion_view, CompletionContext, ContextView, ParamInsertionInfo};

verus! {

/// A fixture of a scope narrower than that of the fixture being edited: it
/// cannot be its dependency. A test (no scope) may use every fixture.
pub open spec fn excluded_by_scope(d: DefinitionView, current: Option<FixtureScope>) -> bool {
    match current {
        Some(s) => d.scope.rank() < s.rank(),
        None => false,
    }
}

pub fn should_exclude_fixture(fixture: &FixtureDefinition, current_scope: Option<FixtureScope>) -> (r: bool)
    ensures
        r == excluded_by_scope(fixture@, current_scope),
{
    match current_scope {
        Some(s) => fixture.scope.is_narrower_than(s),
        None => false,
    }
}

pub open spec fn opt_names(o: Option<&[String]>) -> Option<Seq<Seq<char>>> {
    match o {
        Some(v) => Some(crate::model::strings_view(v@)),
        None => None,
    }
}

pub open spec fn opt_name(o: Option<&str>) -> Option<Seq<char>> {
    match o {
        Some(v) => Some(v@),
        None => None,
    }
}

/// A completion leaves out `self` and `cls`, the fixture being edited, the
/// parameters already declared, and fixtures of a narrower scope.
pub open spec fn excluded(
    d: DefinitionView,
    declared: Option<Seq<Seq<char>>>,
    scope: Option<FixtureScope>,
    current: Option<Seq<char>>,
) -> bool {
    d.name == "self"@ || d.name == "cls"@ || (match current {
        Some(n) => d.name == n,
        None => false,
    }) || (match declared {
        Some(ps) => names_have(ps, d.name),
        None => false,
    }) || excluded_by_scope(d, scope)
}

pub open spec fn names_have(ps: Seq<Seq<char>>, n: Seq<char>) -> bool {
    exists|i: int| 0 <= i < ps.len() && #[trigger] ps[i] == n
}

fn declared_has(ps: &[String], n: &str) -> (r: bool)
    ensures
        r == names_have(crate::model::strings_view(ps@), n@),
{
    let ghost pv = crate::model::strings_view(ps@);
    let mut i: usize = 0;
    while i < ps.len()
        invariant
            i <= ps@.len(),
            pv == crate::model::strings_view(ps@),
            forall|j: int| 0 <= j < i ==> #[trigger] pv[j] != n@,
        decreases ps@.len() - i,
    {
        if str_eq(ps[i].as_str(), n) {
            assert(pv[i as int] == n@);
            return true;
        }
        i = i + 1;
    }
    false
}

pub fn is_fixture_excluded(
    fixture: &FixtureDefinition,
    declared_params: Option<&[String]>,
    fixture_scope: Option<FixtureScope>,
    current_fixture_name: Option<&str>,
) -> (r: bool)
    ensures
        r == excluded(fixture@, opt_names(declared_params), fixture_scope, opt_name(current_fixture_name)),
{
    proof {
        reveal_strlit("self");
        reveal_strlit("cls");
    }
    let name = fixture.name.as_str();
    if str_eq(name, "self") || str_eq(name, "cls") {
        return true;
    }
    match current_fixture_name {
        Some(n) => {
            if str_eq(name, n) {
                return true;
            }
        },
        None => {},
    }
    match declared_params {
        Some(ps) => {
            let found = declared_has(ps, name);
            assert(name@ == fixture@.name);
            assert(opt_names(declared_params) == Some(crate::model::strings_view(ps@)));
            if found {
                return true;
            }
        },
        None => {},
    }
    should_exclude_fixture(fixture, fixture_scope)
}

/// Proximity of a fixture to the file: 0 same file, 1 project, 2 plugin,
/// 3 third-party (which wins over plugin).
pub open spec fn sort_priority(d: DefinitionView, file: Seq<char>) -> u8 {
    if d.file_path == file {
        0
    } else if d.is_third_party {
        3
    } else if d.is_plugin {
        2
    } else {
        1
    }
}

pub fn fixture_sort_priority(fixture: &FixtureDefinition, current_file: &str) -> (r: u8)
    ensures
        r == sort_priority(fixture@, current_file@),
{
    if str_eq(fixture.file_path.as_str(), current_file) {
        0
    } else if fixture.is_third_party {
        3
    } else if fixture.is_plugin {
        2
    } else {
        1
    }
}

pub open spec fn digit(d: nat) -> char {
    ((d % 10) + 48) as char
}

/// Decimal digits of `n`.
pub open spec fn decimal(n: nat) -> Seq<char>
    decreases n,
{
    if n < 10 {
        seq![digit(n)]
    } else {
        decimal(n / 10).push(digit(n % 10))
    }
}

fn digit_str(d: u8) -> (r: &'static str)
    requires
        d < 10,
    ensures
        r@ == seq![digit(d as nat)],
{
    proof {
        reveal_strlit("0");
        reveal_strlit("1");
        reveal_strlit("2");
        reveal_strlit("3");
        reveal_strlit("4");
        reveal_strlit("5");
        reveal_strlit("6");
        reveal_strlit("7");
        reveal_strlit("8");
        reveal_strlit("9");
    }
    let r = match d {
        0 => "0",
        1 => "1",
        2 => "2",
        3 => "3",
        4 => "4",
        5 => "5",
        6 => "6",
        7 => "7",
        8 => "8",
        _ => "9",
    };
    assert(r@ =~= seq![digit(d as nat)]);
    r
}

fn decimal_of(n: u8) -> (r: String)
    ensures
        r@ == decimal(n as nat),
{
    if n < 10 {
        digit_str(n).to_owned()
    } else if n < 100 {
        assert((n as nat) / 10 < 10) by (nonlinear_arith)
            requires
                n < 100,
        ;
        assert(decimal((n / 10) as nat) == seq![digit((n / 10) as nat)]);
        let hi = digit_str(n / 10).to_owned();
        let r = hi.concat(digit_str(n % 10));
        assert(decimal(n as nat) =~= seq![digit((n / 10) as nat)].push(digit((n % 10) as nat)));
        r
    } else {
        assert((n as nat) / 100 < 10) by (nonlinear_arith)
            requires
                n < 256,
        ;
        assert(((n as nat) / 10) / 10 == (n as nat) / 100) by (nonlinear_arith);
        assert((n as nat) / 10 >= 10) by (nonlinear_arith)
            requires
                n >= 100,
        ;
        assert(decimal((n / 100) as nat) == seq![digit((n / 100) as nat)]);
        assert(digit(((n / 10) % 10) as nat) == digit(((n / 10) as nat) % 10));
        let hi = digit_str(n / 100).to_owned();
        let mid = hi.concat(digit_str((n / 10) % 10));
        let r = mid.concat(digit_str(n % 10));
        assert(decimal((n / 10) as nat) =~= seq![digit((n / 100) as nat)].push(digit(((n / 10) % 10) as nat)));
        assert(decimal(n as nat) =~= seq![digit((n / 100) as nat)].push(digit(((n / 10) % 10) as nat)).push(digit((n % 10) as nat)));
        r
    }
}

/// `"<priority>_<name>"`: groups by proximity, then sorts by name.
pub open spec fn sort_text(priority: u8, name: Seq<char>) -> Seq<char> {
    decimal(priority as nat) + "_"@ + name
}

pub fn make_sort_text(priority: u8, fixture_name: &str) -> (r: String)
    ensures
        r@ == sort_text(priority, fixture_name@),
{
    proof {
        reveal_strlit("_");
    }
    decimal_of(priority).concat("_").concat(fixture_name)
}

/// `"(scope) [origin]"`: the scope unless it is `function`, then
/// `[third-party]` or `[plugin]`, separated by a space where both stand.
pub open spec fn detail(d: DefinitionView) -> Seq<char> {
    let scope_part = if d.scope != FixtureScope::Function { Some("("@ + d.scope.name_spec() + ")"@) } else { None };
    let origin = if d.is_third_party { Some("[third-party]"@) } else if d.is_plugin { Some("[plugin]"@) } else { None };
    match (scope_part, origin) {
        (Some(a), Some(b)) => a + " "@ + b,
        (Some(a), None) => a,
        (None, Some(b)) => b,
        (None, None) => Seq::empty(),
    }
}

pub fn make_fixture_detail(fixture: &FixtureDefinition) -> (r: String)
    ensures
        r@ == detail(fixture@),
{
    proof {
        reveal_strlit("(");
        reveal_strlit(")");
        reveal_strlit(" ");
        reveal_strlit("[third-party]");
        reveal_strlit("[plugin]");
    }
    let scope_part = if fixture.scope != FixtureScope::Function {
        Some(String::from_str("(").concat(fixture.scope.as_str()).concat(")"))
    } else {
        None
    };
    let origin = if fixture.is_third_party {
        Some("[third-party]")
    } else if fixture.is_plugin {
        Some("[plugin]")
    } else {
        None
    };
    match (scope_part, origin) {
        (Some(a), Some(b)) => a.concat(" ").concat(b),
        (Some(a), None) => a,
        (None, Some(b)) => b.to_owned(),
        (None, None) => String::new(),
    }
}

/// A fixture offered by a completion, with its label detail and sort key.
#[derive(Debug)]
pub struct EnrichedFixture {
    pub fixture: FixtureDefinition,
    pub detail: String,
    pub sort_text: String,
}

pub ghost struct EnrichedView {
    pub fixture: DefinitionView,
    pub detail: Seq<char>,
    pub sort_text: Seq<char>,
}

impl View for EnrichedFixture {
    type V = EnrichedView;

    open spec fn view(&self) -> EnrichedView {
        EnrichedView { fixture: self.fixture@, detail: self.detail@, sort_text: self.sort_text@ }
    }
}

pub open spec fn enriched_view(v: Seq<EnrichedFixture>) -> Seq<EnrichedView> {
    v.map_values(|e: EnrichedFixture| e@)
}

/// The fixtures of `ds` that are not excluded, in order, each with its
/// detail and sort key.
pub open spec fn enriched(
    ds: Seq<DefinitionView>,
    file: Seq<char>,
    declared: Option<Seq<Seq<char>>>,
    scope: Option<FixtureScope>,
    current: Option<Seq<char>>,
) -> Seq<EnrichedView>
    decreases ds.len(),
{
    if ds.len() == 0 {
        Seq::empty()
    } else {
        let rest = enriched(ds.drop_last(), file, declared, scope, current);
        let d = ds.last();
        if excluded(d, declared, scope, current) {
            rest
        } else {
            rest.push(EnrichedView { fixture: d, detail: detail(d), sort_text: sort_text(sort_priority(d, file), d.name) })
        }
    }
}

pub fn filter_and_enrich_fixtures(
    available: Vec<FixtureDefinition>,
    file_path: &str,
    declared_params: Option<&[String]>,
    fixture_scope: Option<FixtureScope>,
    current_fixture_name: Option<&str>,
) -> (r: Vec<EnrichedFixture>)
    ensures
        enriched_view(r@) == enriched(
            crate::analyzer::defs_view(available@),
            file_path@,
            opt_names(declared_params),
            fixture_scope,
            opt_name(current_fixture_name),
        ),
{
    let ghost av = crate::analyzer::defs_view(available@);
    let mut r: Vec<EnrichedFixture> = Vec::new();
    let mut i: usize = 0;
    while i < available.len()
        invariant
            i <= available@.len(),
            av == crate::analyzer::defs_view(available@),
            enriched_view(r@) == enriched(
                av.subrange(0, i as int),
                file_path@,
                opt_names(declared_params),
                fixture_scope,
                opt_name(current_fixture_name),
            ),
        decreases available@.len() - i,
    {
        proof {
            assert(av.subrange(0, i + 1).drop_last() =~= av.subrange(0, i as int));
        }
        let f = &available[i];
        if !is_fixture_excluded(f, declared_params, fixture_scope, current_fixture_name) {
            let detail = make_fixture_detail(f);
            let priority = fixture_sort_priority(f, file_path);
            let sort_text = make_sort_text(priority, f.name.as_str());
            let e = EnrichedFixture { fixture: f.duplicate(), detail, sort_text };
            let ghost prev = enriched_view(r@);
            r.push(e);
            assert(enriched_view(r@) =~= prev.push(e@));
        }
        i = i + 1;
    }
    assert(av.subrange(0, available@.len() as int) =~= av);
    r
}


impl FixtureDatabase {
    /// What a completion offers in the file at `file_path`: the visible
    /// fixtures that are not excluded, each with its detail and sort key.
    /// A decorator string completion passes no declared parameters, scope or
    /// current fixture.
    pub fn completion_candidates(
        &self,
        file_path: &str,
        declared_params: Option<&[String]>,
        fixture_scope: Option<FixtureScope>,
        current_fixture_name: Option<&str>,
    ) -> (r: Vec<EnrichedFixture>)
        ensures
            enriched_view(r@) == enriched(
                visible(self.files_spec(), file_path@),
                file_path@,
                opt_names(declared_params),
                fixture_scope,
                opt_name(current_fixture_name),
            ),
    {
        let available = self.get_available_fixtures(file_path);
        filter_and_enrich_fixtures(available, file_path, declared_params, fixture_scope, current_fixture_name)
    }
}


impl FixtureDatabase {
    /// Candidates for a parameter list or a function body: not `self` or
    /// `cls`, not a declared parameter, not the fixture being edited, and
    /// not of a scope narrower than `fixture_scope`.
    pub fn create_fixture_completions(
        &self,
        file_path: &str,
        declared_params: &[String],
        fixture_scope: Option<FixtureScope>,
        current_fixture_name: Option<&str>,
    ) -> (r: Vec<EnrichedFixture>)
        ensures
            enriched_view(r@) == enriched(
                visible(self.files_spec(), file_path@),
                file_path@,
                Some(crate::model::strings_view(declared_params@)),
                fixture_scope,
                opt_name(current_fixture_name),
            ),
    {
        self.completion_candidates(file_path, Some(declared_params), fixture_scope, current_fixture_name)
    }

    /// Candidates for a string of `usefixtures` or of an indirect
    /// `parametrize`: every visible fixture but `self` and `cls`, with no
    /// scope filter.
    pub fn create_string_fixture_completions(&self, file_path: &str) -> (r: Vec<EnrichedFixture>)
        ensures
            enriched_view(r@) == enriched(visible(self.files_spec(), file_path@), file_path@, None, None, None),
    {
        self.completion_candidates(file_path, None, None, None)
    }
}


/// What a completion offers in the file at `path` in context `ctx`: in a
/// signature or a body, the fixtures not yet declared and of a compatible
/// scope, never the fixture being edited; in a decorator string, every
/// visible fixture. See `completion_edit` for the edits that come with them.
pub open spec fn completion_for(files: Seq<crate::database::FileView>, path: Seq<char>, ctx: ContextView) -> Seq<EnrichedView> {
    match ctx {
        ContextView::Signature { name, line: _, is_fixture, params, scope } => enriched(
            visible(files, path),
            path,
            Some(params),
            scope,
            if is_fixture { Some(name) } else { None },
        ),
        ContextView::Body { name, line: _, is_fixture, params, scope } => enriched(
            visible(files, path),
            path,
            Some(params),
            scope,
            if is_fixture { Some(name) } else { None },
        ),
        _ => enriched(visible(files, path), path, None, None, None),
    }
}


/// A text edit that adds a fixture to a parameter list.
#[derive(Debug)]
pub struct ParamEdit {
    pub line: usize,
    pub char_pos: usize,
    pub new_text: String,
}

/// A completion that also declares the fixture as a parameter.
#[derive(Debug)]
pub struct AutoAddCompletion {
    pub completion: EnrichedFixture,
    pub edit: Option<ParamEdit>,
}

/// The edit that inserts `name` at `info`: `", name"` after an existing
/// parameter, `name` alone otherwise.
pub open spec fn edit_for(info: Option<(nat, nat, bool)>, name: Seq<char>) -> Option<(nat, nat, Seq<char>)> {
    match info {
        Some((l, c, comma)) => Some((l, c, if comma { ", "@ + name } else { name })),
        None => None,
    }
}

pub open spec fn edit_view(e: Option<ParamEdit>) -> Option<(nat, nat, Seq<char>)> {
    match e {
        Some(x) => Some((x.line as nat, x.char_pos as nat, x.new_text@)),
        None => None,
    }
}

/// Each completion with the edit that adds its fixture at `info`.
pub fn with_insertion_edits(items: Vec<EnrichedFixture>, info: &Option<ParamInsertionInfo>) -> (r: Vec<AutoAddCompletion>)
    ensures
        r@.len() == items@.len(),
        forall|k: int| 0 <= k < r@.len() ==> (#[trigger] r@[k]).completion@ == items@[k]@ && edit_view(r@[k].edit)
            == edit_for(insertion_view(*info), items@[k]@.fixture.name),
{
    proof {
        reveal_strlit(", ");
    }
    let mut r: Vec<AutoAddCompletion> = Vec::new();
    let ghost all = items@;
    let mut i: usize = 0;
    let n = items.len();
    while i < n
        invariant
            n == all.len(),
            i <= n,
            r@.len() == i,
            items@ == all,
            forall|k: int| 0 <= k < i ==> (#[trigger] r@[k]).completion@ == all[k]@ && edit_view(r@[k].edit)
                == edit_for(insertion_view(*info), all[k]@.fixture.name),
        decreases n - i,
    {
        let e = &items[i];
        let name = e.fixture.name.as_str();
        let edit = match info {
            Some(x) => Some(ParamEdit {
                line: x.line,
                char_pos: x.char_pos,
                new_text: if x.needs_comma { String::from_str(", ").concat(name) } else { name.to_owned() },
            }),
            None => None,
        };
        let c = EnrichedFixture { fixture: e.fixture.duplicate(), detail: e.detail.clone(), sort_text: e.sort_text.clone() };
        r.push(AutoAddCompletion { completion: c, edit });
        i = i + 1;
    }
    r
}

impl FixtureDatabase {
    /// Candidates for a function body, each with the edit that adds it to
    /// the parameters of the function whose `def` is on `function_line`.
    pub fn create_fixture_completions_with_auto_add(
        &self,
        file_path: &str,
        declared_params: &[String],
        function_line: usize,
        fixture_scope: Option<FixtureScope>,
        current_fixture_name: Option<&str>,
    ) -> (r: Vec<AutoAddCompletion>)
        ensures
            ({
                let cands = enriched(
                    visible(self.files_spec(), file_path@),
                    file_path@,
                    Some(crate::model::strings_view(declared_params@)),
                    fixture_scope,
                    opt_name(current_fixture_name),
                );
                &&& r@.len() == cands.len()
                &&& forall|k: int| 0 <= k < r@.len() ==> (#[trigger] r@[k]).completion@ == cands[k] && edit_view(r@[k].edit)
                    == edit_for(insertion_of_file(self.files_spec(), file_path@, function_line as nat), cands[k].fixture.name)
            }),
    {
        let items = self.create_fixture_completions(file_path, declared_params, fixture_scope, current_fixture_name);
        let ghost iv = enriched_view(items@);
        let info = self.get_function_param_insertion_info(file_path, function_line);
        let r = with_insertion_edits(items, &info);
        proof {
            assert forall|k: int| 0 <= k < r@.len() implies #[trigger] r@[k].completion@ == iv[k] by {}
        }
        r
    }
}


/// The edit that comes with the completion of `name` in context `ctx`: in a
/// function body, the one that adds it to the parameters of the function
/// whose `def` is on the context's line; none elsewhere.
pub open spec fn completion_edit(
    files: Seq<crate::database::FileView>,
    path: Seq<char>,
    ctx: ContextView,
    name: Seq<char>,
) -> Option<(nat, nat, Seq<char>)> {
    match ctx {
        ContextView::Body { name: _, line, is_fixture: _, params: _, scope: _ } => edit_for(
            insertion_of_file(files, path, line),
            name,
        ),
        _ => None,
    }
}

impl FixtureDatabase {
    /// Completion items for a context: the decisions of a completion request
    /// once the context is known.
    pub fn handle_completion(&self, file_path: &str, ctx: &CompletionContext) -> (r: Vec<AutoAddCompletion>)
        ensures
            r@.len() == completion_for(self.files_spec(), file_path@, ctx@).len(),
            forall|k: int| 0 <= k < r@.len() ==> (#[trigger] r@[k]).completion@ == completion_for(
                self.files_spec(),
                file_path@,
                ctx@,
            )[k] && edit_view(r@[k].edit) == completion_edit(
                self.files_spec(),
                file_path@,
                ctx@,
                completion_for(self.files_spec(), file_path@, ctx@)[k].fixture.name,
            ),
    {
        match ctx {
            CompletionContext::FunctionSignature { function_name, function_line: _, is_fixture, declared_params, fixture_scope } => {
                let current = if *is_fixture { Some(function_name.as_str()) } else { None };
                let items = self.create_fixture_completions(file_path, declared_params.as_slice(), *fixture_scope, current);
                with_insertion_edits(items, &None)
            },
            CompletionContext::FunctionBody { function_name, function_line, is_fixture, declared_params, fixture_scope } => {
                let current = if *is_fixture { Some(function_name.as_str()) } else { None };
                self.create_fixture_completions_with_auto_add(
                    file_path,
                    declared_params.as_slice(),
                    *function_line,
                    *fixture_scope,
                    current,
                )
            },
            CompletionContext::UsefixturesDecorator => with_insertion_edits(self.create_string_fixture_completions(file_path), &None),
            CompletionContext::ParametrizeIndirect => with_insertion_edits(self.create_string_fixture_completions(file_path), &None),
        }
    }
}

} // verus!

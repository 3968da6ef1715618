use pytest_language_server::context::CompletionContext;
use pytest_language_server::docstring::clean_docstring;
use pytest_language_server::paths::{CanonicalCache, file_name_of, plugin_package_name, plugin_source_name, provenance, test_file_name};
use pytest_language_server::{FixtureDatabase, FixtureScope};

const SAME_FILE_OVERRIDE: &str = "import pytest
@pytest.fixture
def base():
    return 1

@pytest.fixture
def base():
    return 2



def test_x(base):
    assert base
";

#[test]
fn same_file_override_resolves_to_latest_definition() {
    let mut db = FixtureDatabase::new();
    db.analyze_file("/p/conftest.py", SAME_FILE_OVERRIDE);
    let def = db.find_fixture_definition("/p/conftest.py", 11, 11).unwrap();
    assert_eq!(def.name, "base");
    assert_eq!(def.line, 7);
}

#[test]
fn hierarchical_override_picks_nearest_conftest() {
    let mut db = FixtureDatabase::new();
    db.analyze_file("/p/conftest.py", "import pytest\n@pytest.fixture\ndef db():\n    return 1\n");
    db.analyze_file("/p/sub/conftest.py", "import pytest\n@pytest.fixture\ndef db():\n    return 2\n");
    db.analyze_file("/p/sub/test_x.py", "def test_a(db):\n    assert db\n");
    db.analyze_file("/p/test_y.py", "def test_b(db):\n    assert db\n");
    let sub = db.find_fixture_definition("/p/sub/test_x.py", 0, 11).unwrap();
    assert_eq!(sub.file_path, "/p/sub/conftest.py");
    let root = db.find_fixture_definition("/p/test_y.py", 0, 11).unwrap();
    assert_eq!(root.file_path, "/p/conftest.py");
}

#[test]
fn self_referencing_override_resolves_parameter_to_parent() {
    let mut db = FixtureDatabase::new();
    db.analyze_file("/p/conftest.py", "import pytest\n@pytest.fixture\ndef foo():\n    return 1\n");
    db.analyze_file("/p/sub/conftest.py", "import pytest\n@pytest.fixture\ndef foo(foo):\n    return foo + 1\n");
    let param = db.find_fixture_definition("/p/sub/conftest.py", 2, 8).unwrap();
    assert_eq!(param.file_path, "/p/conftest.py");
    assert_eq!(param.line, 3);
    let name = db.find_fixture_definition("/p/sub/conftest.py", 2, 5).unwrap();
    assert_eq!(name.file_path, "/p/sub/conftest.py");
}

#[test]
fn scope_filter_in_completion_excludes_narrower_fixtures() {
    let mut db = FixtureDatabase::new();
    let conftest = "import pytest\n@pytest.fixture(scope=\"session\")\ndef s_fix():\n    pass\n\n@pytest.fixture\ndef f_fix():\n    pass\n\n@pytest.fixture(scope=\"session\")\ndef other_session():\n    pass\n";
    db.analyze_file("/p/conftest.py", conftest);
    let declared: Vec<String> = vec![];
    let items = db.completion_candidates("/p/conftest.py", Some(&declared), Some(FixtureScope::Session), Some("s_fix"));
    assert!(!items.is_empty());
    assert!(items.iter().all(|e| e.fixture.scope == FixtureScope::Session));
    assert!(items.iter().all(|e| e.fixture.name != "f_fix"));
    assert!(items.iter().all(|e| e.fixture.name != "s_fix"));
    assert_eq!(items[0].detail, "(session)");
    assert_eq!(items[0].sort_text, "0_other_session");
}

#[test]
fn line_aware_local_shadow_flags_only_the_early_read() {
    let mut db = FixtureDatabase::new();
    db.analyze_file("/p/conftest.py", "import pytest\n@pytest.fixture\ndef http_client():\n    return 1\n");
    let test = "def test_api():\n    x = 1\n    http_client.get(\"/a\")\n    y = 2\n    http_client = \"local\"\n    z = 3\n    http_client.get(\"/b\")\n";
    db.analyze_file("/p/test_api.py", test);
    let undeclared = db.get_undeclared_fixtures("/p/test_api.py");
    assert_eq!(undeclared.len(), 1);
    assert_eq!(undeclared[0].name, "http_client");
    assert_eq!(undeclared[0].line, 3);
    assert_eq!(undeclared[0].start_char, 4);
    assert_eq!(undeclared[0].end_char, 15);
}

#[test]
fn two_fixture_cycle_gives_two_diagnostics() {
    let mut db = FixtureDatabase::new();
    let conftest = "import pytest\n@pytest.fixture\ndef a(b):\n    return b\n\n@pytest.fixture\ndef c():\n    return 1\n\n@pytest.fixture\ndef b(a):\n    return a\n";
    db.analyze_file("/p/conftest.py", conftest);
    let cycles = db.get_fixture_cycles("/p/conftest.py");
    let names: Vec<&str> = cycles.iter().map(|c| c.fixture.name.as_str()).collect();
    assert_eq!(names, vec!["a", "b"]);
    let first: Vec<&str> = cycles[0].cycle.iter().map(|d| d.name.as_str()).collect();
    let second: Vec<&str> = cycles[1].cycle.iter().map(|d| d.name.as_str()).collect();
    assert_eq!(first, vec!["a", "b"]);
    assert_eq!(second, vec!["b", "a"]);
    assert!(cycles[0].cycle.iter().all(|d| d.file_path == "/p/conftest.py"));
    assert!(db.find_fixture_definition("/p/conftest.py", 2, 6).is_some());
}

#[test]
fn analysing_twice_gives_the_same_contributions() {
    let mut db = FixtureDatabase::new();
    db.analyze_file("/p/conftest.py", SAME_FILE_OVERRIDE);
    let defs = db.all_definitions();
    let usages = db.usages_in("/p/conftest.py");
    db.analyze_file("/p/conftest.py", SAME_FILE_OVERRIDE);
    assert_eq!(db.all_definitions(), defs);
    assert_eq!(db.usages_in("/p/conftest.py"), usages);
    assert_eq!(db.files.len(), 1);
}

#[test]
fn analysing_one_file_leaves_another_alone() {
    let mut db = FixtureDatabase::new();
    db.analyze_file("/p/conftest.py", "import pytest\n@pytest.fixture\ndef a():\n    return 1\n");
    db.analyze_file("/p/test_a.py", "def test_a(a):\n    assert a\n");
    let before = db.usages_in("/p/test_a.py");
    db.analyze_file("/p/conftest.py", "import pytest\n@pytest.fixture\ndef b():\n    return 1\n");
    assert_eq!(db.usages_in("/p/test_a.py"), before);
    assert!(db.definitions_named("a").is_none());
    assert!(db.definitions_named("b").is_some());
}

#[test]
fn resolution_is_the_same_on_every_call() {
    let mut db = FixtureDatabase::new();
    db.analyze_file("/x/conftest.py", "import pytest\n@pytest.fixture\ndef shared():\n    return 1\n");
    db.analyze_file("/y/conftest.py", "import pytest\n@pytest.fixture\ndef shared():\n    return 2\n");
    db.analyze_file("/z/test_s.py", "def test_s(shared):\n    assert shared\n");
    let first = db.find_fixture_definition("/z/test_s.py", 0, 12).unwrap();
    assert_eq!(first.file_path, "/x/conftest.py");
    for _ in 0..5 {
        assert_eq!(db.find_fixture_definition("/z/test_s.py", 0, 12), Some(first.clone()));
    }
}

#[test]
fn definition_found_at_a_usage_lists_that_usage_as_reference() {
    let mut db = FixtureDatabase::new();
    db.analyze_file("/p/conftest.py", "import pytest\n@pytest.fixture\ndef db():\n    return 1\n");
    db.analyze_file("/p/test_a.py", "def test_a(db):\n    assert db\n");
    let def = db.find_fixture_definition("/p/test_a.py", 0, 11).unwrap();
    let refs = db.find_references_for_definition(&def);
    assert!(refs.iter().any(|u| u.file_path == "/p/test_a.py" && u.line == 1 && u.start_char == 11));
    let by_cursor = db.resolve_references("/p/test_a.py", 0, 11);
    assert_eq!(by_cursor, refs);
}

#[test]
fn undeclared_names_skip_imports_module_names_and_parameters() {
    let mut db = FixtureDatabase::new();
    let conftest = "import pytest\n@pytest.fixture\ndef one():\n    return 1\n@pytest.fixture\ndef two():\n    return 2\n@pytest.fixture\ndef three():\n    return 3\n@pytest.fixture\ndef four():\n    return 4\n";
    db.analyze_file("/p/conftest.py", conftest);
    let test = "from helpers import one\ntwo = 2\n\ndef test_a(three):\n    print(one, two, three, four)\n";
    db.analyze_file("/p/test_a.py", test);
    let names: Vec<String> = db.get_undeclared_fixtures("/p/test_a.py").into_iter().map(|u| u.name).collect();
    assert_eq!(names, vec!["four".to_string()]);
}

#[test]
fn scope_mismatch_is_reported_for_narrower_dependency() {
    let mut db = FixtureDatabase::new();
    let conftest = "import pytest\n@pytest.fixture\ndef narrow():\n    return 1\n\n@pytest.fixture(scope=\"module\")\ndef wide(narrow):\n    return narrow\n";
    db.analyze_file("/p/conftest.py", conftest);
    let mismatches = db.get_scope_mismatches("/p/conftest.py");
    assert_eq!(mismatches.len(), 1);
    assert_eq!(mismatches[0].fixture.name, "wide");
    assert_eq!(mismatches[0].dependency.name, "narrow");
    assert_eq!(mismatches[0].fixture.scope, FixtureScope::Module);
}

#[test]
fn unparsable_file_contributes_nothing() {
    let mut db = FixtureDatabase::new();
    db.analyze_file("/p/conftest.py", "import pytest\n@pytest.fixture\ndef a():\n    return 1\n");
    assert!(db.definitions_named("a").is_some());
    db.analyze_file("/p/conftest.py", "def broken(:\n");
    assert!(db.definitions_named("a").is_none());
    assert!(db.files.is_empty());
}

#[test]
fn fixture_record_carries_scope_autouse_yield_and_docstring() {
    let mut db = FixtureDatabase::new();
    let conftest = "import pytest\n\n@pytest.fixture(scope=\"package\", autouse=True)\ndef res(request, other) -> Iterator[int]:\n    \"\"\"\n    First line.\n\n      indented\n    last\n    \"\"\"\n    yield 1\n";
    db.analyze_file("/p/conftest.py", conftest);
    let d = &db.definitions_named("res").unwrap()[0];
    assert_eq!(d.scope, FixtureScope::Package);
    assert!(d.autouse);
    assert_eq!(d.yield_line, Some(11));
    assert_eq!(d.line, 4);
    assert_eq!(d.end_line, 11);
    assert_eq!(d.start_char, 4);
    assert_eq!(d.end_char, 7);
    assert_eq!(d.dependencies, vec!["other".to_string()]);
    assert_eq!(d.return_type, Some("int".to_string()));
    assert_eq!(d.docstring, Some("First line.\n\n  indented\nlast".to_string()));
}

#[test]
fn assignment_fixture_and_usefixtures_are_recorded() {
    let mut db = FixtureDatabase::new();
    let content = "import pytest\n\ndef _impl():\n    return 1\n\nimpl_fixture = pytest.fixture(scope=\"class\")(_impl)\n\n@pytest.mark.usefixtures(\"impl_fixture\")\ndef test_uses():\n    pass\n";
    db.analyze_file("/p/test_assign.py", content);
    let d = &db.definitions_named("impl_fixture").unwrap()[0];
    assert_eq!(d.line, 6);
    assert_eq!(d.scope, FixtureScope::Class);
    let usages = db.usages_in("/p/test_assign.py").unwrap();
    assert_eq!(usages.len(), 1);
    assert_eq!(usages[0].name, "impl_fixture");
    assert_eq!(usages[0].line, 9);
    assert_eq!(usages[0].ref_line, 8);
    assert_eq!(usages[0].start_char, 26);
}

#[test]
fn docstring_cleaning_follows_cleandoc() {
    assert_eq!(clean_docstring("\n\n   Summary.  \n\n     Body\n   more\n\n"), "Summary.\n\n  Body\nmore");
    assert_eq!(clean_docstring("   \n\t\n"), "");
    assert_eq!(clean_docstring("One line"), "One line");
    assert_eq!(clean_docstring("a\n\tb\r\n\tc"), "a\nb\nc");
}

#[test]
fn provenance_follows_site_packages() {
    let site = Some("/v/lib/python3.11/site-packages".to_string());
    assert_eq!(provenance("/v/lib/python3.11/site-packages/pytest_mock/plugin.py", &site), (true, true));
    assert_eq!(provenance("/v/lib/python3.11/site-packages/requests/api.py", &site), (false, true));
    assert_eq!(provenance("/work/conftest.py", &site), (false, false));
    assert_eq!(provenance("/work/conftest.py", &None), (false, false));
    let mut db = FixtureDatabase::new();
    db.set_site_packages(site);
    db.analyze_file("/v/lib/python3.11/site-packages/pytest_mock/plugin.py", "import pytest\n@pytest.fixture\ndef mocker():\n    return 1\n");
    db.analyze_file("/work/test_m.py", "def test_m(mocker):\n    assert mocker\n");
    let d = db.find_fixture_definition("/work/test_m.py", 0, 11).unwrap();
    assert!(d.is_plugin && d.is_third_party);
}

#[test]
fn file_filters_follow_naming_conventions() {
    assert!(test_file_name("conftest.py"));
    assert!(test_file_name("test_api.py"));
    assert!(test_file_name("api_test.py"));
    assert!(!test_file_name("helpers.py"));
    assert!(plugin_package_name("pytest_mock"));
    assert!(plugin_package_name("django_pytest"));
    assert!(plugin_package_name("xpytest-mock"));
    assert!(!plugin_package_name("pytest_mock-3.0.dist-info"));
    assert!(!plugin_package_name("requests"));
    assert!(plugin_source_name("plugin.py"));
    assert!(!plugin_source_name("plugin_test.py"));
    assert!(!plugin_source_name("test_plugin.py"));
    assert_eq!(file_name_of("/a/b/conftest.py"), "conftest.py");
    assert_eq!(file_name_of("plain"), "plain");
}

#[test]
fn word_extraction_accepts_unicode_letters() {
    let db = FixtureDatabase::new();
    assert_eq!(db.extract_word_at_position("def test(café):", 10), Some("café".to_string()));
    assert_eq!(db.extract_word_at_position("a + b", 2), None);
}

#[test]
fn scope_names_round_trip() {
    for s in [FixtureScope::Function, FixtureScope::Class, FixtureScope::Module, FixtureScope::Package, FixtureScope::Session] {
        assert_eq!(FixtureScope::from_name(s.as_str()), Some(s));
    }
    assert_eq!(FixtureScope::from_name("weekly"), None);
    assert!(FixtureScope::Function.is_narrower_than(FixtureScope::Session));
}

const CONTEXT_FILE: &str = "import pytest

@pytest.fixture(scope=\"session\")
def s_fix(
    a,
):
    return a

@pytest.mark.usefixtures(\"s_fix\")
def test_x(b):
    pass

@pytest.mark.parametrize(\"v\", [1], indirect=[\"s_fix\"])
def test_y(v):
    pass
";

#[test]
fn completion_context_follows_the_syntax_tree() {
    let mut db = FixtureDatabase::new();
    db.analyze_file("/p/conftest.py", CONTEXT_FILE);
    match db.get_completion_context("/p/conftest.py", 4, 4) {
        Some(CompletionContext::FunctionSignature { function_name, function_line, is_fixture, declared_params, fixture_scope }) => {
            assert_eq!(function_name, "s_fix");
            assert_eq!(function_line, 4);
            assert!(is_fixture);
            assert_eq!(declared_params, vec!["a".to_string()]);
            assert_eq!(fixture_scope, Some(FixtureScope::Session));
        },
        other => panic!("unexpected context {:?}", other),
    }
    match db.get_completion_context("/p/conftest.py", 6, 8) {
        Some(CompletionContext::FunctionBody { function_name, .. }) => assert_eq!(function_name, "s_fix"),
        other => panic!("unexpected context {:?}", other),
    }
    assert_eq!(db.get_completion_context("/p/conftest.py", 8, 27), Some(CompletionContext::UsefixturesDecorator));
    assert_eq!(db.get_completion_context("/p/conftest.py", 12, 46), Some(CompletionContext::ParametrizeIndirect));
    assert_eq!(db.get_completion_context("/p/conftest.py", 0, 0), None);
    match db.get_completion_context("/p/conftest.py", 10, 6) {
        Some(CompletionContext::FunctionBody { function_name, is_fixture, fixture_scope, .. }) => {
            assert_eq!(function_name, "test_x");
            assert!(!is_fixture);
            assert_eq!(fixture_scope, None);
        },
        other => panic!("unexpected context {:?}", other),
    }
}

#[test]
fn completion_dispatch_filters_by_context() {
    let mut db = FixtureDatabase::new();
    db.analyze_file("/p/conftest.py", CONTEXT_FILE);
    db.analyze_file("/p/conftest.py", &format!("{}\n@pytest.fixture\ndef f_fix():\n    pass\n", CONTEXT_FILE));
    let ctx = db.get_completion_context("/p/conftest.py", 4, 4).unwrap();
    let names: Vec<String> = db.handle_completion("/p/conftest.py", &ctx).into_iter().map(|e| e.completion.fixture.name).collect();
    assert!(names.is_empty(), "session fixture may use neither itself nor f_fix: {:?}", names);
    let ctx = db.get_completion_context("/p/conftest.py", 8, 27).unwrap();
    let names: Vec<String> = db.handle_completion("/p/conftest.py", &ctx).into_iter().map(|e| e.completion.fixture.name).collect();
    assert_eq!(names, vec!["s_fix".to_string(), "f_fix".to_string()]);
}

#[test]
fn canonical_paths_are_computed_once() {
    let mut cache = CanonicalCache::new();
    assert_eq!(cache.get_canonical_path("./a/conftest.py", Some("/w/a/conftest.py".to_string())), "/w/a/conftest.py");
    assert_eq!(cache.get_canonical_path("./a/conftest.py", Some("/elsewhere".to_string())), "/w/a/conftest.py");
    assert_eq!(cache.get_canonical_path("/missing.py", None), "/missing.py");
    assert_eq!(cache.lookup("/missing.py"), Some("/missing.py".to_string()));
    assert_eq!(cache.lookup("/other.py"), None);
    assert_eq!(cache.entries.len(), 2);
}

#[test]
fn default_database_is_empty() {
    let db = FixtureDatabase::default();
    assert!(db.files.is_empty());
    assert!(db.site_packages.is_none());
}

#[test]
fn return_type_is_the_annotation_text() {
    let mut db = FixtureDatabase::new();
    let conftest = "import pytest\n@pytest.fixture\ndef none_fix() -> None:\n    pass\n\n@pytest.fixture\ndef call_fix() -> Callable[[int], str]:\n    pass\n\n@pytest.fixture\ndef gen_fix() -> typing.Generator[Dict[str, int], None, None]:\n    yield {}\n";
    db.analyze_file("/p/conftest.py", conftest);
    let rt = |n: &str| db.definitions_named(n).unwrap()[0].return_type.clone();
    assert_eq!(rt("none_fix"), Some("None".to_string()));
    assert_eq!(rt("call_fix"), Some("Callable[[int], str]".to_string()));
    assert_eq!(rt("gen_fix"), Some("Dict[str, int]".to_string()));
}

#[test]
fn import_aliases_bind_their_names() {
    let mut db = FixtureDatabase::new();
    let conftest = "import pytest\n@pytest.fixture\ndef os():\n    return 1\n@pytest.fixture\ndef np():\n    return 2\n@pytest.fixture\ndef numpy():\n    return 3\n";
    db.analyze_file("/p/conftest.py", conftest);
    db.analyze_file("/p/test_i.py", "import os.path\nimport numpy as np\n\ndef test_i():\n    print(os, np, numpy)\n");
    let names: Vec<String> = db.get_undeclared_fixtures("/p/test_i.py").into_iter().map(|u| u.name).collect();
    assert_eq!(names, vec!["numpy".to_string()]);
}

#[test]
fn body_completion_carries_the_parameter_edit() {
    let mut db = FixtureDatabase::new();
    db.analyze_file("/p/conftest.py", "import pytest\n@pytest.fixture\ndef db():\n    return 1\n");
    db.analyze_file("/p/test_b.py", "def test_b(x):\n    y = 1\n");
    let ctx = db.get_completion_context("/p/test_b.py", 1, 6).unwrap();
    let items = db.handle_completion("/p/test_b.py", &ctx);
    assert_eq!(items.len(), 1);
    let edit = items[0].edit.as_ref().unwrap();
    assert_eq!((edit.line, edit.char_pos, edit.new_text.as_str()), (1, 12, ", db"));
    let sig = db.get_completion_context("/p/test_b.py", 0, 11).unwrap();
    assert!(db.handle_completion("/p/test_b.py", &sig).iter().all(|i| i.edit.is_none()));
}

#[test]
fn definition_name_range_comes_from_the_text() {
    let mut db = FixtureDatabase::new();
    db.analyze_file("/p/conftest.py", "import pytest\n@pytest.fixture\nasync  def   spaced():\n    return 1\n");
    let d = &db.definitions_named("spaced").unwrap()[0];
    assert_eq!((d.start_char, d.end_char), (13, 19));
    assert!(db.find_fixture_definition("/p/conftest.py", 2, 14).is_some());
    db.analyze_file("/p/test_e.py", "def  test_e():\n    pass\n");
    let info = db.get_function_param_insertion_info("/p/test_e.py", 1).unwrap();
    assert_eq!((info.line, info.char_pos, info.needs_comma), (1, 12, false));
}

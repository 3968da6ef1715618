use pytest_language_server::completion::{
    filter_and_enrich_fixtures, fixture_sort_priority, is_fixture_excluded, make_fixture_detail, make_sort_text,
    should_exclude_fixture,
};
use pytest_language_server::{FixtureDefinition, FixtureScope};

// =========================================================================
// Unit tests for should_exclude_fixture
// =========================================================================

fn make_fixture(name: &str, scope: FixtureScope) -> FixtureDefinition {
    FixtureDefinition {
        name: name.to_string(),
        file_path: "/tmp/test/conftest.py".to_string(),
        line: 1,
        end_line: 5,
        start_char: 4,
        end_char: 10,
        docstring: None,
        return_type: None,
        is_third_party: false,
        is_plugin: false,
        dependencies: vec![],
        scope,
        yield_line: None,
        autouse: false,
    }
}

#[test]
fn test_should_exclude_fixture_test_function_allows_all() {
    // Test functions (None scope) should see all fixtures
    for scope in [
        FixtureScope::Function,
        FixtureScope::Class,
        FixtureScope::Module,
        FixtureScope::Package,
        FixtureScope::Session,
    ] {
        let fixture = make_fixture("f", scope);
        assert!(
            !should_exclude_fixture(&fixture, None),
            "Test function should allow {:?}-scoped fixture",
            scope
        );
    }
}

#[test]
fn test_should_exclude_fixture_session_excludes_narrower() {
    let session_scope = Some(FixtureScope::Session);

    assert!(should_exclude_fixture(
        &make_fixture("f", FixtureScope::Function),
        session_scope
    ));
    assert!(should_exclude_fixture(
        &make_fixture("f", FixtureScope::Class),
        session_scope
    ));
    assert!(should_exclude_fixture(
        &make_fixture("f", FixtureScope::Module),
        session_scope
    ));
    assert!(should_exclude_fixture(
        &make_fixture("f", FixtureScope::Package),
        session_scope
    ));
    assert!(!should_exclude_fixture(
        &make_fixture("f", FixtureScope::Session),
        session_scope
    ));
}

#[test]
fn test_should_exclude_fixture_module_excludes_narrower() {
    let module_scope = Some(FixtureScope::Module);

    assert!(should_exclude_fixture(
        &make_fixture("f", FixtureScope::Function),
        module_scope
    ));
    assert!(should_exclude_fixture(
        &make_fixture("f", FixtureScope::Class),
        module_scope
    ));
    assert!(!should_exclude_fixture(
        &make_fixture("f", FixtureScope::Module),
        module_scope
    ));
    assert!(!should_exclude_fixture(
        &make_fixture("f", FixtureScope::Package),
        module_scope
    ));
    assert!(!should_exclude_fixture(
        &make_fixture("f", FixtureScope::Session),
        module_scope
    ));
}

#[test]
fn test_should_exclude_fixture_function_allows_all() {
    let function_scope = Some(FixtureScope::Function);

    for scope in [
        FixtureScope::Function,
        FixtureScope::Class,
        FixtureScope::Module,
        FixtureScope::Package,
        FixtureScope::Session,
    ] {
        assert!(
            !should_exclude_fixture(&make_fixture("f", scope), function_scope),
            "Function-scoped fixture should allow {:?}-scoped dependency",
            scope
        );
    }
}

#[test]
fn test_should_exclude_fixture_class_excludes_function() {
    let class_scope = Some(FixtureScope::Class);

    assert!(should_exclude_fixture(
        &make_fixture("f", FixtureScope::Function),
        class_scope
    ));
    assert!(!should_exclude_fixture(
        &make_fixture("f", FixtureScope::Class),
        class_scope
    ));
    assert!(!should_exclude_fixture(
        &make_fixture("f", FixtureScope::Module),
        class_scope
    ));
    assert!(!should_exclude_fixture(
        &make_fixture("f", FixtureScope::Session),
        class_scope
    ));
}

// =========================================================================
// Unit tests for is_fixture_excluded (combined filtering)
// =========================================================================

#[test]
fn test_is_fixture_excluded_filters_self_cls() {
    let self_fixture = make_fixture("self", FixtureScope::Function);
    let cls_fixture = make_fixture("cls", FixtureScope::Function);
    let normal_fixture = make_fixture("db", FixtureScope::Function);

    assert!(is_fixture_excluded(&self_fixture, None, None, None));
    assert!(is_fixture_excluded(&cls_fixture, None, None, None));
    assert!(!is_fixture_excluded(&normal_fixture, None, None, None));
}

#[test]
fn test_is_fixture_excluded_filters_declared_params() {
    let fixture = make_fixture("db", FixtureScope::Function);
    let declared = vec!["db".to_string()];

    assert!(is_fixture_excluded(&fixture, Some(&declared), None, None));
    assert!(!is_fixture_excluded(&fixture, None, None, None));
    assert!(!is_fixture_excluded(
        &fixture,
        Some(&["other".to_string()]),
        None,
        None,
    ));
}

#[test]
fn test_is_fixture_excluded_combines_scope_and_params() {
    let func_fixture = make_fixture("db", FixtureScope::Function);
    let session_scope = Some(FixtureScope::Session);
    let declared = vec!["db".to_string()];

    // Both reasons to exclude
    assert!(is_fixture_excluded(
        &func_fixture,
        Some(&declared),
        session_scope,
        None,
    ));

    // Only scope excludes
    let undeclared: Vec<String> = vec![];
    assert!(is_fixture_excluded(
        &func_fixture,
        Some(&undeclared),
        session_scope,
        None,
    ));

    // Only declared params exclude
    assert!(is_fixture_excluded(
        &make_fixture("db", FixtureScope::Session),
        Some(&declared),
        session_scope,
        None,
    ));

    // Neither excludes
    assert!(!is_fixture_excluded(
        &make_fixture("other", FixtureScope::Session),
        Some(&undeclared),
        session_scope,
        None,
    ));
}

// =========================================================================
// Unit tests for filter_and_enrich_fixtures
// =========================================================================

#[test]
fn test_filter_and_enrich_excludes_current_fixture() {
    let file = "/tmp/test/conftest.py";
    let fixtures = vec![
        make_fixture("my_fixture", FixtureScope::Function),
        make_fixture("other_fixture", FixtureScope::Function),
    ];

    // When editing my_fixture, it should be excluded
    let enriched = filter_and_enrich_fixtures(
        fixtures.clone(),
        file,
        None,
        Some(FixtureScope::Function),
        Some("my_fixture"),
    );
    assert_eq!(enriched.len(), 1);
    assert_eq!(enriched[0].fixture.name, "other_fixture");

    // When editing a test (no current_fixture_name), both should be included
    let enriched = filter_and_enrich_fixtures(fixtures, file, None, None, None);
    assert_eq!(enriched.len(), 2);
}

#[test]
fn test_filter_and_enrich_excludes_scope_incompatible() {
    let file_path = "/tmp/test/test_file.py";
    let fixtures = vec![
        make_fixture("func_fix", FixtureScope::Function),
        make_fixture("class_fix", FixtureScope::Class),
        make_fixture("module_fix", FixtureScope::Module),
        make_fixture("session_fix", FixtureScope::Session),
    ];

    // Session-scoped fixture context: only session-scoped should survive
    let enriched = filter_and_enrich_fixtures(
        fixtures.clone(),
        &file_path,
        Some(&[]),
        Some(FixtureScope::Session),
        None,
    );
    let names: Vec<&str> = enriched.iter().map(|e| e.fixture.name.as_str()).collect();
    assert_eq!(names, vec!["session_fix"]);

    // Module-scoped fixture context: module, package, session should survive
    let enriched = filter_and_enrich_fixtures(
        fixtures.clone(),
        &file_path,
        Some(&[]),
        Some(FixtureScope::Module),
        None,
    );
    let names: Vec<&str> = enriched.iter().map(|e| e.fixture.name.as_str()).collect();
    assert_eq!(names, vec!["module_fix", "session_fix"]);

    // Function-scoped fixture context: all should survive
    let enriched = filter_and_enrich_fixtures(
        fixtures.clone(),
        &file_path,
        Some(&[]),
        Some(FixtureScope::Function),
        None,
    );
    assert_eq!(enriched.len(), 4);

    // Test function context (None scope): all should survive
    let enriched =
        filter_and_enrich_fixtures(fixtures.clone(), &file_path, Some(&[]), None, None);
    assert_eq!(enriched.len(), 4);
}

#[test]
fn test_filter_and_enrich_excludes_declared_params() {
    let file_path = "/tmp/test/test_file.py";
    let fixtures = vec![
        make_fixture("db", FixtureScope::Function),
        make_fixture("client", FixtureScope::Function),
        make_fixture("app", FixtureScope::Function),
    ];

    let declared = vec!["db".to_string(), "client".to_string()];
    let enriched =
        filter_and_enrich_fixtures(fixtures, &file_path, Some(&declared), None, None);
    let names: Vec<&str> = enriched.iter().map(|e| e.fixture.name.as_str()).collect();
    assert_eq!(names, vec!["app"]);
}

#[test]
fn test_filter_and_enrich_excludes_self_cls() {
    let file_path = "/tmp/test/test_file.py";
    let mut fixtures = vec![
        make_fixture("self", FixtureScope::Function),
        make_fixture("cls", FixtureScope::Function),
        make_fixture("real_fixture", FixtureScope::Function),
    ];
    // Make self/cls look like they came from somewhere
    fixtures[0].name = "self".to_string();
    fixtures[1].name = "cls".to_string();

    let enriched = filter_and_enrich_fixtures(fixtures, &file_path, None, None, None);
    let names: Vec<&str> = enriched.iter().map(|e| e.fixture.name.as_str()).collect();
    assert_eq!(names, vec!["real_fixture"]);
}

// =========================================================================
// Unit tests for fixture_sort_priority
// =========================================================================

#[test]
fn test_fixture_sort_priority_same_file() {
    let current = "/tmp/test/test_file.py";
    let mut fixture = make_fixture("f", FixtureScope::Function);
    fixture.file_path = current.to_string();

    assert_eq!(fixture_sort_priority(&fixture, &current), 0);
}

#[test]
fn test_fixture_sort_priority_conftest() {
    let current = "/tmp/test/test_file.py";
    let mut fixture = make_fixture("f", FixtureScope::Function);
    fixture.file_path = "/tmp/test/conftest.py".to_string();

    assert_eq!(fixture_sort_priority(&fixture, &current), 1);
}

#[test]
fn test_fixture_sort_priority_plugin() {
    let current = "/tmp/test/test_file.py";
    let mut fixture = make_fixture("f", FixtureScope::Function);
    fixture.file_path = "/tmp/other/plugin.py".to_string();
    fixture.is_plugin = true;

    assert_eq!(fixture_sort_priority(&fixture, &current), 2);
}

#[test]
fn test_fixture_sort_priority_third_party() {
    let current = "/tmp/test/test_file.py";
    let mut fixture = make_fixture("f", FixtureScope::Function);
    fixture.file_path = "/tmp/venv/lib/site-packages/pkg/fix.py".to_string();
    fixture.is_third_party = true;

    assert_eq!(fixture_sort_priority(&fixture, &current), 3);
}

#[test]
fn test_fixture_sort_priority_third_party_trumps_plugin() {
    let current = "/tmp/test/test_file.py";
    let mut fixture = make_fixture("f", FixtureScope::Function);
    fixture.file_path = "/tmp/venv/lib/site-packages/pkg/fix.py".to_string();
    fixture.is_third_party = true;
    fixture.is_plugin = true;

    // Third-party check comes first, so priority is 3
    assert_eq!(fixture_sort_priority(&fixture, &current), 3);
}

// =========================================================================
// Unit tests for make_fixture_detail
// =========================================================================

#[test]
fn test_make_fixture_detail_default_scope() {
    let fixture = make_fixture("f", FixtureScope::Function);
    let detail = make_fixture_detail(&fixture);
    assert_eq!(detail, "");
}

#[test]
fn test_make_fixture_detail_session_scope() {
    let fixture = make_fixture("f", FixtureScope::Session);
    let detail = make_fixture_detail(&fixture);
    assert_eq!(detail, "(session)");
}

#[test]
fn test_make_fixture_detail_third_party() {
    let mut fixture = make_fixture("f", FixtureScope::Function);
    fixture.is_third_party = true;
    let detail = make_fixture_detail(&fixture);
    assert_eq!(detail, "[third-party]");
}

#[test]
fn test_make_fixture_detail_plugin_with_scope() {
    let mut fixture = make_fixture("f", FixtureScope::Module);
    fixture.is_plugin = true;
    let detail = make_fixture_detail(&fixture);
    assert_eq!(detail, "(module) [plugin]");
}

#[test]
fn test_make_fixture_detail_third_party_overrides_plugin() {
    let mut fixture = make_fixture("f", FixtureScope::Session);
    fixture.is_third_party = true;
    fixture.is_plugin = true;
    let detail = make_fixture_detail(&fixture);
    // Third-party tag takes precedence
    assert_eq!(detail, "(session) [third-party]");
}

// =========================================================================
// Unit tests for make_sort_text
// =========================================================================

#[test]
fn test_make_sort_text_ordering() {
    let same_file = make_sort_text(0, "zzz");
    let conftest = make_sort_text(1, "aaa");
    let third_party = make_sort_text(3, "aaa");

    // Same-file should sort before conftest even with later alpha name
    assert!(same_file < conftest);
    // Conftest should sort before third-party
    assert!(conftest < third_party);
}

#[test]
fn test_make_sort_text_alpha_within_group() {
    let a = make_sort_text(1, "alpha");
    let b = make_sort_text(1, "beta");
    assert!(a < b);
}

fn setup_db_with_fixtures() -> (pytest_language_server::FixtureDatabase, &'static str) {
    let mut db = pytest_language_server::FixtureDatabase::new();

    let conftest_content = r#"
import pytest

@pytest.fixture
def func_fixture():
    return "func"

@pytest.fixture(scope="session")
def session_fixture():
    """A session-scoped fixture."""
    return "session"

@pytest.fixture(scope="module")
def module_fixture():
    return "module"
"#;

    let test_content = r#"
import pytest

@pytest.fixture(scope="session")
def local_session_fixture():
    pass

def test_something(func_fixture):
    pass
"#;

    let conftest_path = "/tmp/test_backend/conftest.py";
    let test_path = "/tmp/test_backend/test_example.py";

    db.analyze_file(conftest_path, conftest_content);
    db.analyze_file(test_path, test_content);
    (db, test_path)
}

#[test]
fn test_create_fixture_completions_filters_declared() {
    let (db, test_path) = setup_db_with_fixtures();
    let declared = vec!["func_fixture".to_string()];
    let items = db.create_fixture_completions(test_path, &declared, None, None);
    let labels: Vec<&str> = items.iter().map(|i| i.fixture.name.as_str()).collect();
    assert!(
        !labels.contains(&"func_fixture"),
        "func_fixture should be filtered out since it's declared"
    );
}

#[test]
fn test_create_fixture_completions_scope_filtering() {
    let (db, test_path) = setup_db_with_fixtures();
    let declared = vec![];
    let items = db.create_fixture_completions(test_path, &declared, Some(FixtureScope::Session), None);
    let labels: Vec<&str> = items.iter().map(|i| i.fixture.name.as_str()).collect();
    assert!(
        !labels.contains(&"func_fixture"),
        "func_fixture should be excluded for session scope"
    );
    assert!(
        labels.contains(&"session_fixture"),
        "session_fixture should be included, got: {:?}",
        labels
    );
}

#[test]
fn test_create_fixture_completions_detail_and_sort() {
    let (db, test_path) = setup_db_with_fixtures();
    let declared = vec![];
    let items = db.create_fixture_completions(test_path, &declared, None, None);

    let session_item = items.iter().find(|i| i.fixture.name == "session_fixture");
    assert!(session_item.is_some(), "Should find session_fixture");
    let session_item = session_item.unwrap();
    assert!(
        session_item.detail.contains("session"),
        "session_fixture detail should contain scope, got: {:?}",
        session_item.detail
    );

    let func_item = items.iter().find(|i| i.fixture.name == "func_fixture");
    assert!(func_item.is_some(), "Should find func_fixture");
    let func_item = func_item.unwrap();
    assert!(
        !func_item.detail.contains("function"),
        "func_fixture detail should not contain 'function' (default scope), got: {:?}",
        func_item.detail
    );
}

#[test]
fn test_create_string_fixture_completions_no_scope_filtering() {
    let (db, test_path) = setup_db_with_fixtures();
    let items = db.create_string_fixture_completions(test_path);
    let labels: Vec<&str> = items.iter().map(|i| i.fixture.name.as_str()).collect();
    assert!(
        labels.contains(&"func_fixture"),
        "func_fixture should be in string completions, got: {:?}",
        labels
    );
    assert!(
        labels.contains(&"session_fixture"),
        "session_fixture should be in string completions, got: {:?}",
        labels
    );
}

#[test]
fn test_create_string_fixture_completions_has_detail_and_sort() {
    let (db, test_path) = setup_db_with_fixtures();
    let items = db.create_string_fixture_completions(test_path);

    let session_item = items.iter().find(|i| i.fixture.name == "session_fixture");
    assert!(session_item.is_some());
    let session_item = session_item.unwrap();
    assert!(
        session_item.detail.contains("session"),
        "session_fixture should have scope in detail"
    );
    let sort = &session_item.sort_text;
    assert!(
        sort.starts_with('1') || sort.starts_with('0'),
        "Sort text should start with priority digit, got: {}",
        sort
    );
}

#[test]
fn test_create_fixture_completions_empty_db() {
    let db = pytest_language_server::FixtureDatabase::new();
    let path = "/tmp/empty/test_file.py";
    let items = db.create_fixture_completions(path, &[], None, None);
    assert!(items.is_empty(), "Empty DB should return no completions");
}

#[test]
fn test_create_string_fixture_completions_empty_db() {
    let db = pytest_language_server::FixtureDatabase::new();
    let path = "/tmp/empty/test_file.py";
    let items = db.create_string_fixture_completions(path);
    assert!(items.is_empty(), "Empty DB should return no completions");
}

#[test]
fn test_create_fixture_completions_with_auto_add_returns_items() {
    let (db, test_path) = setup_db_with_fixtures();
    let declared = vec![];
    let items = db.create_fixture_completions_with_auto_add(test_path, &declared, 8, None, None);
    assert!(!items.is_empty(), "Should return completion items");
    for item in items {
        assert!(!item.completion.sort_text.is_empty());
    }
}

#[test]
fn test_create_fixture_completions_with_auto_add_has_text_edits() {
    let (db, test_path) = setup_db_with_fixtures();
    let declared = vec!["func_fixture".to_string()];
    let items = db.create_fixture_completions_with_auto_add(test_path, &declared, 8, None, None);
    for item in &items {
        assert!(
            item.edit.is_some(),
            "Item '{}' should have an edit for auto-add",
            item.completion.fixture.name
        );
    }
    let edit = items[0].edit.as_ref().unwrap();
    assert_eq!(edit.line, 8);
    assert_eq!(edit.char_pos, 31);
    assert!(edit.new_text.starts_with(", "));
}

#[test]
fn test_create_fixture_completions_with_auto_add_scope_filter() {
    let (db, test_path) = setup_db_with_fixtures();
    let declared = vec![];
    let items = db.create_fixture_completions_with_auto_add(test_path, &declared, 8, Some(FixtureScope::Session), None);
    let labels: Vec<&str> = items.iter().map(|i| i.completion.fixture.name.as_str()).collect();
    assert!(
        !labels.contains(&"func_fixture"),
        "func_fixture should be excluded for session scope"
    );
}

#[test]
fn test_create_fixture_completions_with_auto_add_filters_declared() {
    let (db, test_path) = setup_db_with_fixtures();
    let declared = vec!["session_fixture".to_string(), "func_fixture".to_string()];
    let items = db.create_fixture_completions_with_auto_add(test_path, &declared, 8, None, None);
    let labels: Vec<&str> = items.iter().map(|i| i.completion.fixture.name.as_str()).collect();
    assert!(
        !labels.contains(&"func_fixture"),
        "func_fixture should be filtered"
    );
    assert!(
        !labels.contains(&"session_fixture"),
        "session_fixture should be filtered"
    );
}

#[test]
fn test_create_fixture_completions_with_auto_add_filters_current_fixture() {
    let (db, file_path) = setup_db_with_fixtures();
    let items = db.create_fixture_completions(file_path, &[], Some(FixtureScope::Function), Some("func_fixture"));
    assert!(
        !items.iter().any(|i| i.fixture.name == "func_fixture"),
        "Current fixture should be excluded from completions"
    );
    assert!(items.iter().any(|i| i.fixture.name == "session_fixture"));
}

#[test]
fn test_create_fixture_completions_with_auto_add_no_existing_params() {
    let mut db = pytest_language_server::FixtureDatabase::new();

    let conftest_content = r#"
import pytest

@pytest.fixture
def db_fixture():
    return "db"
"#;

    let test_content = r#"
def test_empty_params():
    pass
"#;

    let conftest_path = "/tmp/test_no_params/conftest.py";
    let test_path = "/tmp/test_no_params/test_file.py";

    db.analyze_file(conftest_path, conftest_content);
    db.analyze_file(test_path, test_content);

    let declared: Vec<String> = vec![];
    let items = db.create_fixture_completions_with_auto_add(test_path, &declared, 2, None, None);
    assert!(!items.is_empty(), "Should return completion items");

    let item = items.iter().find(|i| i.completion.fixture.name == "db_fixture");
    assert!(item.is_some(), "Should find db_fixture");
    let item = item.unwrap();
    let edit = item.edit.as_ref().unwrap();
    assert_eq!(
        edit.new_text, "db_fixture",
        "Should insert fixture name without comma for empty params"
    );
    assert_eq!(edit.char_pos, 22);
}

#[test]
fn test_create_fixture_completions_with_auto_add_empty_db() {
    let db = pytest_language_server::FixtureDatabase::new();
    let path = "/tmp/empty/test_file.py";
    let items = db.create_fixture_completions_with_auto_add(path, &[], 1, None, None);
    assert!(items.is_empty(), "Empty DB should return no completions");
}

#[test]
fn test_create_fixture_completions_returns_items() {
    let (db, test_path) = setup_db_with_fixtures();
    let declared = vec![];
    let items = db.create_fixture_completions(test_path, &declared, None, None);
    assert!(!items.is_empty(), "Should return completion items");
    for item in items {
        assert!(!item.sort_text.is_empty());
        assert!(item.sort_text.ends_with(&item.fixture.name));
    }
}

#[test]
fn test_create_string_fixture_completions_returns_items() {
    let (db, test_path) = setup_db_with_fixtures();
    let items = db.create_string_fixture_completions(test_path);
    assert!(!items.is_empty(), "Should return string completion items");
    for item in items {
        assert!(!item.sort_text.is_empty());
    }
}

#[test]
fn test_create_fixture_completions_with_workspace_root() {
    // The workspace root only shapes the documentation text, which the
    // library does not build; the items are the same
    let (db, test_path) = setup_db_with_fixtures();
    let declared = vec![];
    let items = db.create_fixture_completions(test_path, &declared, None, None);
    assert!(!items.is_empty());
}

#[test]
fn test_create_string_fixture_completions_with_workspace_root() {
    let (db, test_path) = setup_db_with_fixtures();
    let items = db.create_string_fixture_completions(test_path);
    assert!(!items.is_empty());
}

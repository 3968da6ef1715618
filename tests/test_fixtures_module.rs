use pytest_language_server::FixtureDatabase;

    #[test]
    fn fixtures_test_fixture_definition_detection() {
        let mut db = FixtureDatabase::new();

        let conftest_content = r#"
import pytest

@pytest.fixture
def my_fixture():
    return 42

@fixture
def another_fixture():
    return "hello"
"#;

        let conftest_path = "/tmp/test/conftest.py";
        db.analyze_file(conftest_path.clone(), conftest_content);

        // Check that fixtures were detected
        assert!(db.definitions_named("my_fixture").is_some());
        assert!(db.definitions_named("another_fixture").is_some());

        // Check fixture details
        let my_fixture_defs = db.definitions_named("my_fixture").unwrap();
        assert_eq!(my_fixture_defs.len(), 1);
        assert_eq!(my_fixture_defs[0].name, "my_fixture");
        assert_eq!(my_fixture_defs[0].file_path, conftest_path);
    }

    #[test]
    fn fixtures_test_fixture_usage_detection() {
        let mut db = FixtureDatabase::new();

        let test_content = r#"
def test_something(my_fixture, another_fixture):
    assert my_fixture == 42
    assert another_fixture == "hello"

def test_other(my_fixture):
    assert my_fixture > 0
"#;

        let test_path = "/tmp/test/test_example.py";
        db.analyze_file(test_path.clone(), test_content);

        // Check that usages were detected
        assert!(db.usages_in(&test_path).is_some());

        let usages = db.usages_in(&test_path).unwrap();
        // Usages of both tests are recorded
        assert!(usages.iter().any(|u| u.name == "my_fixture"));
        assert!(usages.iter().any(|u| u.name == "another_fixture"));
    }

    #[test]
    fn fixtures_test_go_to_definition() {
        let mut db = FixtureDatabase::new();

        // Set up conftest.py with a fixture
        let conftest_content = r#"
import pytest

@pytest.fixture
def my_fixture():
    return 42
"#;

        let conftest_path = "/tmp/test/conftest.py";
        db.analyze_file(conftest_path.clone(), conftest_content);

        // Set up a test file that uses the fixture
        let test_content = r#"
def test_something(my_fixture):
    assert my_fixture == 42
"#;

        let test_path = "/tmp/test/test_example.py";
        db.analyze_file(test_path.clone(), test_content);

        // Try to find the definition from the test file
        // The usage is on line 2 (1-indexed) - that's where the function parameter is
        // In 0-indexed LSP coordinates, that's line 1
        // Character position 19 is where 'my_fixture' starts
        let definition = db.find_fixture_definition(&test_path, 1, 19);

        assert!(definition.is_some(), "Definition should be found");
        let def = definition.unwrap();
        assert_eq!(def.name, "my_fixture");
        assert_eq!(def.file_path, conftest_path);
    }

    #[test]
    fn fixtures_test_fixture_decorator_variations() {
        let mut db = FixtureDatabase::new();

        let conftest_content = r#"
import pytest
from pytest import fixture

@pytest.fixture
def fixture1():
    pass

@pytest.fixture()
def fixture2():
    pass

@fixture
def fixture3():
    pass

@fixture()
def fixture4():
    pass
"#;

        let conftest_path = "/tmp/test/conftest.py";
        db.analyze_file(conftest_path, conftest_content);

        // Check all variations were detected
        assert!(db.definitions_named("fixture1").is_some());
        assert!(db.definitions_named("fixture2").is_some());
        assert!(db.definitions_named("fixture3").is_some());
        assert!(db.definitions_named("fixture4").is_some());
    }

    #[test]
    fn fixtures_test_fixture_in_test_file() {
        let mut db = FixtureDatabase::new();

        // Test file with fixture defined in the same file
        let test_content = r#"
import pytest

@pytest.fixture
def local_fixture():
    return 42

def test_something(local_fixture):
    assert local_fixture == 42
"#;

        let test_path = "/tmp/test/test_example.py";
        db.analyze_file(test_path.clone(), test_content);

        // Check that fixture was detected even though it's not in conftest.py
        assert!(db.definitions_named("local_fixture").is_some());

        let local_fixture_defs = db.definitions_named("local_fixture").unwrap();
        assert_eq!(local_fixture_defs.len(), 1);
        assert_eq!(local_fixture_defs[0].name, "local_fixture");
        assert_eq!(local_fixture_defs[0].file_path, test_path);

        // Check that usage was detected
        assert!(db.usages_in(&test_path).is_some());
        let usages = db.usages_in(&test_path).unwrap();
        assert!(usages.iter().any(|u| u.name == "local_fixture"));

        // Test go-to-definition for fixture in same file
        let usage_line = usages
            .iter()
            .find(|u| u.name == "local_fixture")
            .map(|u| u.line)
            .unwrap();

        // Character position 19 is where 'local_fixture' starts in "def test_something(local_fixture):"
        let definition = db.find_fixture_definition(&test_path, (usage_line - 1) as u32, 19);
        assert!(
            definition.is_some(),
            "Should find definition for fixture in same file. Line: {}, char: 19",
            usage_line
        );
        let def = definition.unwrap();
        assert_eq!(def.name, "local_fixture");
        assert_eq!(def.file_path, test_path);
    }

    #[test]
    fn fixtures_test_async_test_functions() {
        let mut db = FixtureDatabase::new();

        // Test file with async test function
        let test_content = r#"
import pytest

@pytest.fixture
def my_fixture():
    return 42

async def test_async_function(my_fixture):
    assert my_fixture == 42

def test_sync_function(my_fixture):
    assert my_fixture == 42
"#;

        let test_path = "/tmp/test/test_async.py";
        db.analyze_file(test_path.clone(), test_content);

        // Check that fixture was detected
        assert!(db.definitions_named("my_fixture").is_some());

        // Check that both async and sync test functions have their usages detected
        assert!(db.usages_in(&test_path).is_some());
        let usages = db.usages_in(&test_path).unwrap();

        // Should have 2 usages (one from async, one from sync)
        let fixture_usages: Vec<_> = usages.iter().filter(|u| u.name == "my_fixture").collect();
        assert_eq!(
            fixture_usages.len(),
            2,
            "Should detect fixture usage in both async and sync tests"
        );
    }

    #[test]
    fn fixtures_test_extract_word_at_position() {
        let mut db = FixtureDatabase::new();

        // Test basic word extraction
        let line = "def test_something(my_fixture):";

        // Cursor on 'm' of 'my_fixture' (position 19)
        assert_eq!(
            db.extract_word_at_position(line, 19),
            Some("my_fixture".to_string())
        );

        // Cursor on 'y' of 'my_fixture' (position 20)
        assert_eq!(
            db.extract_word_at_position(line, 20),
            Some("my_fixture".to_string())
        );

        // Cursor on last 'e' of 'my_fixture' (position 28)
        assert_eq!(
            db.extract_word_at_position(line, 28),
            Some("my_fixture".to_string())
        );

        // Cursor on 'd' of 'def' (position 0)
        assert_eq!(
            db.extract_word_at_position(line, 0),
            Some("def".to_string())
        );

        // Cursor on space after 'def' (position 3) - should return None
        assert_eq!(db.extract_word_at_position(line, 3), None);

        // Cursor on 't' of 'test_something' (position 4)
        assert_eq!(
            db.extract_word_at_position(line, 4),
            Some("test_something".to_string())
        );

        // Cursor on opening parenthesis (position 18) - should return None
        assert_eq!(db.extract_word_at_position(line, 18), None);

        // Cursor on closing parenthesis (position 29) - should return None
        assert_eq!(db.extract_word_at_position(line, 29), None);

        // Cursor on colon (position 31) - should return None
        assert_eq!(db.extract_word_at_position(line, 31), None);
    }

    #[test]
    fn fixtures_test_extract_word_at_position_fixture_definition() {
        let mut db = FixtureDatabase::new();

        let line = "@pytest.fixture";

        // Cursor on '@' - should return None
        assert_eq!(db.extract_word_at_position(line, 0), None);

        // Cursor on 'p' of 'pytest' (position 1)
        assert_eq!(
            db.extract_word_at_position(line, 1),
            Some("pytest".to_string())
        );

        // Cursor on '.' - should return None
        assert_eq!(db.extract_word_at_position(line, 7), None);

        // Cursor on 'f' of 'fixture' (position 8)
        assert_eq!(
            db.extract_word_at_position(line, 8),
            Some("fixture".to_string())
        );

        let line2 = "def foo(other_fixture):";

        // Cursor on 'd' of 'def'
        assert_eq!(
            db.extract_word_at_position(line2, 0),
            Some("def".to_string())
        );

        // Cursor on space after 'def' - should return None
        assert_eq!(db.extract_word_at_position(line2, 3), None);

        // Cursor on 'f' of 'foo'
        assert_eq!(
            db.extract_word_at_position(line2, 4),
            Some("foo".to_string())
        );

        // Cursor on 'o' of 'other_fixture'
        assert_eq!(
            db.extract_word_at_position(line2, 8),
            Some("other_fixture".to_string())
        );

        // Cursor on parenthesis - should return None
        assert_eq!(db.extract_word_at_position(line2, 7), None);
    }

    #[test]
    fn fixtures_test_word_detection_only_on_fixtures() {
        let mut db = FixtureDatabase::new();

        // Set up a conftest with a fixture
        let conftest_content = r#"
import pytest

@pytest.fixture
def my_fixture():
    return 42
"#;
        let conftest_path = "/tmp/test/conftest.py";
        db.analyze_file(conftest_path.clone(), conftest_content);

        // Set up a test file
        let test_content = r#"
def test_something(my_fixture, regular_param):
    assert my_fixture == 42
"#;
        let test_path = "/tmp/test/test_example.py";
        db.analyze_file(test_path.clone(), test_content);

        // Line 2 is "def test_something(my_fixture, regular_param):"
        // Character positions:
        // 0: 'd' of 'def'
        // 4: 't' of 'test_something'
        // 19: 'm' of 'my_fixture'
        // 31: 'r' of 'regular_param'

        // Cursor on 'def' - should NOT find a fixture (LSP line 1, 0-based)
        assert_eq!(db.find_fixture_definition(&test_path, 1, 0), None);

        // Cursor on 'test_something' - should NOT find a fixture
        assert_eq!(db.find_fixture_definition(&test_path, 1, 4), None);

        // Cursor on 'my_fixture' - SHOULD find the fixture
        let result = db.find_fixture_definition(&test_path, 1, 19);
        assert!(result.is_some());
        let def = result.unwrap();
        assert_eq!(def.name, "my_fixture");

        // Cursor on 'regular_param' - should NOT find a fixture (it's not a fixture)
        assert_eq!(db.find_fixture_definition(&test_path, 1, 31), None);

        // Cursor on comma or parenthesis - should NOT find a fixture
        assert_eq!(db.find_fixture_definition(&test_path, 1, 18), None); // '('
        assert_eq!(db.find_fixture_definition(&test_path, 1, 29), None); // ','
    }

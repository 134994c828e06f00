use codingame::game_session::{safe_label, safe_name, GameData, Question, TestCase};

fn question_with(labels: &[&str]) -> Question {
    let mut test_cases = Vec::new();
    for (i, label) in labels.iter().enumerate() {
        test_cases.push(TestCase {
            index: i,
            input_binary_id: 100 + i,
            output_binary_id: 200 + i,
            label: label.to_string(),
        });
    }
    Question {
        title: "Power of Thor".to_string(),
        statement: "<h1>Hello</h1>".to_string(),
        test_cases,
        available_languages: Vec::new(),
        stub_generator: "read x".to_string(),
    }
}

#[test]
fn normalize_exact_filter_strip_replace_order() {
    // filter to alnum/-_ and space, lowercase, strip leading digits,
    // then replace dash and space with underscore.
    assert_eq!(safe_name("3 - The Descent!"), "___the_descent");
}

#[test]
fn normalize_mixed_input() {
    assert_eq!(safe_name("Power of Thor"), "power_of_thor");
    assert_eq!(safe_name("123abc!@#DEF gh"), "abcdef_gh");
    assert_eq!(safe_name("MARS lander - episode 2"), "mars_lander___episode_2");
}

#[test]
fn normalize_degenerate_inputs() {
    assert_eq!(safe_name(""), "");
    assert_eq!(safe_name("!!!???"), "");
    assert_eq!(safe_name("2048"), "");
    assert_eq!(safe_name("7x"), "x");
}

#[test]
fn normalize_idempotent_examples() {
    for raw in ["3 - The Descent!", "Power of Thor", "", "7x", "A  B--C"] {
        let once = safe_name(raw);
        assert_eq!(safe_name(&once), once);
    }
}

#[test]
fn safe_label_zero_padded() {
    assert_eq!(safe_label(1), "test_01");
    assert_eq!(safe_label(9), "test_09");
    assert_eq!(safe_label(10), "test_10");
    assert_eq!(safe_label(123), "test_123");
}

#[test]
fn game_data_labels_unique_in_original_order() {
    // Two fixtures with the same display label still get distinct
    // safe labels, taken from their positions.
    let question = question_with(&["test 1", "test 1"]);
    let fetched = vec![
        ("3\n".to_string(), "NORTH\n".to_string()),
        ("4\n".to_string(), "SOUTH\n".to_string()),
    ];
    let data = GameData::new(question, fetched);
    assert_eq!(data.tests.len(), 2);
    assert_eq!(data.tests[0].safe_label, "test_01");
    assert_eq!(data.tests[1].safe_label, "test_02");
    assert_eq!(data.tests[0].label, "test 1");
    assert_eq!(data.tests[1].label, "test 1");
    assert_eq!(data.tests[0].input_text, "3\n");
    assert_eq!(data.tests[0].output_text, "NORTH\n");
    assert_eq!(data.tests[1].input_text, "4\n");
    assert_eq!(data.tests[1].output_text, "SOUTH\n");
}

#[test]
fn game_data_statement_rendered_to_plain_text() {
    let question = question_with(&["test 1"]);
    let fetched = vec![("3\n".to_string(), "NORTH\n".to_string())];
    let data = GameData::new(question, fetched);
    assert_ne!(data.description, "<h1>Hello</h1>");
    assert!(data.description.contains("# Hello"));
    assert_eq!(data.title, "Power of Thor");
    assert_eq!(data.stub_generator, "read x");
    assert_eq!(data.safe_name, "");
}

#[test]
fn set_safe_name_normalizes_and_keeps_the_rest() {
    let question = question_with(&["test 1"]);
    let fetched = vec![("3\n".to_string(), "NORTH\n".to_string())];
    let mut data = GameData::new(question, fetched);
    data.set_safe_name("Power of Thor");
    assert_eq!(data.safe_name, "power_of_thor");
    assert_eq!(data.title, "Power of Thor");
    assert_eq!(data.tests.len(), 1);
}

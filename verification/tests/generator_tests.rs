use codingame::error::CodingGameError;
use codingame::game_session::{GameData, GameDataTest};
use codingame::generator::{
    config_file_contents, config_file_name, generation_plan, rendered_path, require_managed,
    AssetEntry,
};
use codingame::language::Language;
use codingame::render::render_all;

fn sample_data() -> GameData {
    GameData {
        safe_name: "power_of_thor".to_string(),
        title: "Power of Thor".to_string(),
        description: "desc".to_string(),
        tests: vec![
            GameDataTest {
                label: "test 1".to_string(),
                safe_label: "test_01".to_string(),
                input_text: "3\n".to_string(),
                output_text: "NORTH\n".to_string(),
            },
            GameDataTest {
                label: "test 2".to_string(),
                safe_label: "test_02".to_string(),
                input_text: "4\n".to_string(),
                output_text: "SOUTH\n".to_string(),
            },
        ],
        stub_generator: "read x".to_string(),
    }
}

#[test]
fn generation_refuses_existing_target() {
    let data = sample_data();
    let r = generation_plan(&data, Language::Rust, true);
    match r {
        Err(CodingGameError::PuzzleAlreadyExists(name)) => {
            assert_eq!(name, "power_of_thor");
        }
        _ => panic!("expected PuzzleAlreadyExists"),
    }
}

#[test]
fn generation_plan_names_every_file() {
    let data = sample_data();
    let plan = generation_plan(&data, Language::Rust, false).unwrap();
    assert_eq!(plan.project_dir, "power_of_thor");
    assert_eq!(plan.config.path, "power_of_thor/CodingGame.toml");
    assert_eq!(plan.config.contents, "name = \"power_of_thor\"\nlanguage = \"rust\"\n");
    assert_eq!(plan.fixtures.len(), 2);
    assert_eq!(plan.fixtures[0].dir, "power_of_thor/tests/data/test_01");
    assert_eq!(plan.fixtures[0].input.path, "power_of_thor/tests/data/test_01/input.txt");
    assert_eq!(plan.fixtures[0].input.contents, "3\n");
    assert_eq!(plan.fixtures[0].output.path, "power_of_thor/tests/data/test_01/output.txt");
    assert_eq!(plan.fixtures[0].output.contents, "NORTH\n");
    assert_eq!(plan.fixtures[1].dir, "power_of_thor/tests/data/test_02");
    assert_eq!(plan.fixtures[1].input.contents, "4\n");
    assert_eq!(plan.fixtures[1].output.contents, "SOUTH\n");
}

#[test]
fn missing_config_is_not_a_managed_project() {
    let r = require_managed(false, "some/dir");
    match r {
        Err(CodingGameError::NotACodingGamePuzzle(path)) => {
            assert_eq!(path, "some/dir");
        }
        _ => panic!("expected NotACodingGamePuzzle"),
    }
    assert!(require_managed(true, "some/dir").is_ok());
}

#[test]
fn config_text_reads_back_as_toml() {
    let text = config_file_contents("power_of_thor", Language::Rust);
    assert_eq!(text, "name = \"power_of_thor\"\nlanguage = \"rust\"\n");
    let value: toml::Value = toml::from_str(&text).unwrap();
    assert_eq!(value.get("name").unwrap().as_str().unwrap(), "power_of_thor");
    assert_eq!(value.get("language").unwrap().as_str().unwrap(), "rust");
}

#[test]
fn rendered_path_joins_root_and_relative() {
    assert_eq!(rendered_path("root", "src/lib.rs"), "root/src/lib.rs");
    assert_eq!(config_file_name(), "CodingGame.toml");
}

#[test]
fn render_all_uses_one_shared_context() {
    let entries = vec![
        AssetEntry {
            relative_path: "src/lib.rs".to_string(),
            template_body: "// {{ title }}".to_string(),
        },
        AssetEntry {
            relative_path: "README.md".to_string(),
            template_body: "# {{ title }}".to_string(),
        },
    ];
    let mut context = tera::Context::new();
    context.insert("title", "Power of Thor");
    let files = render_all(&entries, &context).unwrap();
    assert_eq!(files.len(), 2);
    assert_eq!(files[0].path, "src/lib.rs");
    assert_eq!(files[0].contents, "// Power of Thor");
    assert_eq!(files[1].path, "README.md");
    assert_eq!(files[1].contents, "# Power of Thor");
}

#[test]
fn render_all_reports_missing_context_field() {
    let entries = vec![AssetEntry {
        relative_path: "src/lib.rs".to_string(),
        template_body: "{{ missing }}".to_string(),
    }];
    let context = tera::Context::new();
    match render_all(&entries, &context) {
        Err(CodingGameError::TeraError(_)) => {}
        _ => panic!("expected TeraError"),
    }
}

#[test]
fn render_all_reports_bad_template() {
    let entries = vec![AssetEntry {
        relative_path: "src/lib.rs".to_string(),
        template_body: "{% endfor %}".to_string(),
    }];
    let context = tera::Context::new();
    match render_all(&entries, &context) {
        Err(CodingGameError::TeraError(_)) => {}
        _ => panic!("expected TeraError"),
    }
}

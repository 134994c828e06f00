use codingame::language::{CodinGameConfig, Language};

fn config_named(name: &str) -> CodinGameConfig {
    CodinGameConfig { name: name.to_string(), language: Language::Rust }
}

fn lines(items: &[&str]) -> Vec<String> {
    items.iter().map(|s| s.to_string()).collect()
}

#[test]
fn pack_end_to_end_scenario() {
    let config = config_named("power_of_thor");
    let packed = Language::Rust.pack(
        &config,
        &lines(&["fn solve() {}"]),
        &lines(&["fn main() { solve(); }"]),
    );
    assert_eq!(packed, "mod power_of_thor {\n    fn solve() {}\n}\nfn main() { solve(); }\n");
}

#[test]
fn pack_line_count_is_library_plus_two_plus_entry() {
    let config = config_named("p");
    let lib = lines(&["a", "b", "c"]);
    let entry = lines(&["x", "y"]);
    let packed = Language::Rust.pack(&config, &lib, &entry);
    assert_eq!(packed.lines().count(), 3 + 2 + 2);
    assert_eq!(packed.matches('\n').count(), 3 + 2 + 2);
}

#[test]
fn pack_indents_library_lines_only() {
    let config = config_named("demo");
    let lib = lines(&["fn a() {}", "", "fn b() {}"]);
    let entry = lines(&["fn main() {}", "// end"]);
    let packed = Language::Rust.pack(&config, &lib, &entry);
    let out: Vec<&str> = packed.lines().collect();
    assert_eq!(out[0], "mod demo {");
    assert_eq!(out[1], "    fn a() {}");
    assert_eq!(out[2], "    ");
    assert_eq!(out[3], "    fn b() {}");
    assert_eq!(out[4], "}");
    assert_eq!(out[5], "fn main() {}");
    assert_eq!(out[6], "// end");
}

#[test]
fn pack_empty_files() {
    let config = config_named("x");
    let packed = Language::Rust.pack(&config, &lines(&[]), &lines(&[]));
    assert_eq!(packed, "mod x {\n}\n");
}

#[test]
fn language_default_is_rust() {
    assert_eq!(Language::default(), Language::Rust);
}

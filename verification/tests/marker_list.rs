use file_watcher::config::{WatchConfig, DEFAULT_ROOT_FILES};
use file_watcher::markers::parse_root_files;

fn strings(items: &[&str]) -> Vec<String> {
    let mut out = Vec::new();
    for item in items {
        out.push(item.to_string());
    }
    out
}

#[test]
fn default_markers_are_package_json_and_cargo_toml() {
    assert_eq!(parse_root_files(DEFAULT_ROOT_FILES), strings(&["package.json", "Cargo.toml"]));
}

#[test]
fn markers_keep_their_order() {
    assert_eq!(
        parse_root_files("package.json,Cargo.toml,composer.json"),
        strings(&["package.json", "Cargo.toml", "composer.json"])
    );
}

#[test]
fn white_space_around_a_marker_is_dropped() {
    assert_eq!(parse_root_files("  a.json ,\tb.toml\n"), strings(&["a.json", "b.toml"]));
}

#[test]
fn white_space_inside_a_marker_stays() {
    assert_eq!(parse_root_files(" my file ,x"), strings(&["my file", "x"]));
}

#[test]
fn empty_fields_are_dropped() {
    assert_eq!(parse_root_files(",a,, ,b,"), strings(&["a", "b"]));
}

#[test]
fn empty_text_lists_nothing() {
    assert_eq!(parse_root_files(""), Vec::<String>::new());
    assert_eq!(parse_root_files(" , ,"), Vec::<String>::new());
}

#[test]
fn single_marker_without_comma() {
    assert_eq!(parse_root_files("Makefile"), strings(&["Makefile"]));
}

#[test]
fn markers_outside_ascii_are_kept() {
    assert_eq!(parse_root_files("é.json, ü.toml"), strings(&["é.json", "ü.toml"]));
}

#[test]
fn configuration_holds_what_it_was_given() {
    let config = WatchConfig::new("**/*.scss", "yarn scss", "package.json, Cargo.toml");
    assert_eq!(config.pattern, "**/*.scss");
    assert_eq!(config.command, "yarn scss");
    assert_eq!(config.root_files, strings(&["package.json", "Cargo.toml"]));
}

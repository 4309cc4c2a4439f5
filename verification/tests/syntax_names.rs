use deff::syntax::{
    ascii_lower, detect_syntax_name, extension_of, extension_to_language, file_name_of,
    get_language_for_path, is_dotenv_file_name, load_default_syntaxes,
};
use syntect::parsing::SyntaxSet;

fn defaults() -> SyntaxSet {
    load_default_syntaxes()
}

#[test]
fn detect_syntax_uses_filename_token_when_no_extension() {
    let syntaxes = defaults();
    let lines = vec!["echo hello".to_string()];
    let detected = detect_syntax_name(&syntaxes, Some("bash"), &lines);
    assert_eq!(detected.as_deref(), Some("Bourne Again Shell (bash)"));
}

#[test]
fn detect_syntax_uses_extension_when_available() {
    let syntaxes = defaults();
    let lines = vec!["fn main() {}".to_string()];
    let detected = detect_syntax_name(&syntaxes, Some("src/main.rs"), &lines);
    assert_eq!(detected.as_deref(), Some("Rust"));
}

#[test]
fn detect_syntax_uses_shebang_for_extensionless_files() {
    let syntaxes = defaults();
    let lines = vec!["#!/usr/bin/env bash".to_string(), "echo hello".to_string()];
    let detected = detect_syntax_name(&syntaxes, Some("scripts/release"), &lines);
    assert_eq!(detected.as_deref(), Some("Bourne Again Shell (bash)"));
}

#[test]
fn detect_syntax_returns_none_for_unknown_content() {
    let syntaxes = defaults();
    let lines = vec!["this should not match a known first-line rule".to_string()];
    let detected = detect_syntax_name(&syntaxes, Some("notes.customext"), &lines);
    assert_eq!(detected, None);
}

#[test]
fn path_helpers_dissect_names_and_extensions() {
    assert_eq!(file_name_of("src/main.rs"), Some("main.rs".to_string()));
    assert_eq!(file_name_of("bash"), Some("bash".to_string()));
    assert_eq!(file_name_of("dir/"), Some("dir".to_string()));
    assert_eq!(file_name_of("a/b//"), Some("b".to_string()));
    assert_eq!(file_name_of("///"), None);
    assert_eq!(file_name_of(""), None);

    assert_eq!(extension_of("main.rs"), Some("rs".to_string()));
    assert_eq!(extension_of(".env"), None);
    assert_eq!(extension_of(".env.example"), Some("example".to_string()));
    assert_eq!(extension_of("release"), None);
    assert_eq!(extension_of("archive.tar.gz"), Some("gz".to_string()));
}

#[test]
fn dotenv_names_cover_every_suffix() {
    assert!(is_dotenv_file_name(".env"));
    assert!(is_dotenv_file_name(".env.example"));
    assert!(is_dotenv_file_name(".env.production.local"));
    assert!(!is_dotenv_file_name("env"));
    assert!(!is_dotenv_file_name(".envrc"));
    assert!(!is_dotenv_file_name("config.env"));
}

#[test]
fn ascii_lowering_touches_only_letters() {
    assert_eq!(ascii_lower("Dockerfile"), "dockerfile");
    assert_eq!(ascii_lower("MIXED-Case_09"), "mixed-case_09");
}

#[test]
fn extension_language_table_matches_known_entries() {
    assert_eq!(extension_to_language("rs"), Some("rust"));
    assert_eq!(extension_to_language("tsx"), Some("tsx"));
    assert_eq!(extension_to_language("yml"), Some("yaml"));
    assert_eq!(extension_to_language("zig"), None);
}

#[test]
fn path_language_prefers_dockerfile_name() {
    assert_eq!(get_language_for_path(Some("deploy/Dockerfile")), Some("dockerfile".to_string()));
    assert_eq!(get_language_for_path(Some("src/app.TS")), Some("typescript".to_string()));
    assert_eq!(get_language_for_path(Some("README")), None);
    assert_eq!(get_language_for_path(None), None);
}

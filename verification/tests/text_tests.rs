use usaco_cli::credentials::{encode_secret, split_secret};
use usaco_cli::division::Division;
use usaco_cli::preferences::{CPPCompiler, Language, PrefKey, Preferences, SetValues};
use usaco_cli::runner::{binary_path_components, solution_file_name, solution_path_components};
use usaco_cli::scaffold::boilerplate;
use usaco_cli::problem::IoMode;
use usaco_cli::text::{eq_ignore_ascii_case, find_char, parse_u8, u64_to_string};

#[test]
fn division_parses_ignoring_case() {
    assert_eq!(Division::from_str("Bronze"), Some(Division::Bronze));
    assert_eq!(Division::from_str("SILVER"), Some(Division::Silver));
    assert_eq!(Division::from_str("gold"), Some(Division::Gold));
    assert_eq!(Division::from_str("pLaTiNuM"), Some(Division::Platinum));
    assert_eq!(Division::from_str("diamond"), None);
    assert_eq!(Division::from_str(""), None);
}

#[test]
fn division_names_round_trip() {
    for name in Division::get_all() {
        let division = Division::from_str(name).unwrap();
        assert_eq!(division.to_str(), name);
    }
}

#[test]
fn divisions_are_ordered() {
    assert!(Division::Bronze < Division::Silver);
    assert!(Division::Silver < Division::Gold);
    assert!(Division::Gold < Division::Platinum);
}

#[test]
fn division_ansi_wraps_the_name() {
    assert_eq!(Division::Gold.to_ansi(), "\x1b[38;2;246;221;138mGold\x1b[0m");
    assert_eq!(Division::Bronze.to_ansi(), "\x1b[38;2;232;175;140mBronze\x1b[0m");
}

#[test]
fn parse_u8_accepts_digits_only() {
    assert_eq!(parse_u8("7"), Some(7));
    assert_eq!(parse_u8("007"), Some(7));
    assert_eq!(parse_u8("255"), Some(255));
    assert_eq!(parse_u8("256"), None);
    assert_eq!(parse_u8(""), None);
    assert_eq!(parse_u8("12a"), None);
    assert_eq!(parse_u8("-3"), None);
}

#[test]
fn decimal_rendering() {
    assert_eq!(u64_to_string(0), "0");
    assert_eq!(u64_to_string(9), "9");
    assert_eq!(u64_to_string(1234), "1234");
    assert_eq!(u64_to_string(u64::MAX), "18446744073709551615");
}

#[test]
fn case_insensitive_equality() {
    assert!(eq_ignore_ascii_case("GoLd", "gold"));
    assert!(!eq_ignore_ascii_case("gold", "golds"));
    assert!(eq_ignore_ascii_case("", ""));
}

#[test]
fn find_char_finds_the_first() {
    assert_eq!(find_char("a.b.c", '.'), Some(1));
    assert_eq!(find_char("abc", '.'), None);
    assert_eq!(find_char(".x", '.'), Some(0));
}

#[test]
fn secret_round_trips() {
    let secret = encode_secret("sess123", "pa:ss:word");
    assert_eq!(secret, "sess123:pa:ss:word");
    let (session_id, password) = split_secret(&secret).unwrap();
    assert_eq!(session_id, "sess123");
    assert_eq!(password, "pa:ss:word");
    assert_eq!(split_secret("no-colon-here"), None);
}

#[test]
fn language_strings_and_defaults() {
    assert_eq!(Language::CPP.to_str(), "cpp");
    assert_eq!(Language::Python.to_str(), "python");
    assert_eq!(Language::default(), Language::CPP);
    assert_eq!(CPPCompiler::default(), CPPCompiler::GCC);
    assert_eq!(PrefKey::CurrentProblem, PrefKey::CurrentProblem);
}

#[test]
fn preferences_apply_set_changes_one_field() {
    let mut prefs = Preferences::default();
    prefs.apply_set(&SetValues::CurrentProblem { value: Some(1234) });
    assert_eq!(prefs.current_problem, Some(1234));
    prefs.apply_set(&SetValues::PreferredLanguage { value: Some(Language::Python) });
    assert_eq!(prefs.preferred_language, Language::Python);
    assert_eq!(prefs.current_problem, Some(1234));
    prefs.apply_set(&SetValues::CPPCompiler { value: Some(CPPCompiler::Clang) });
    assert_eq!(prefs.cpp_compiler, CPPCompiler::Clang);
    prefs.apply_set(&SetValues::SolutionsDirectory { value: Some("/tmp/sols".to_string()) });
    assert_eq!(prefs.solutions_dir.as_deref(), Some("/tmp/sols"));
    assert_eq!(prefs.preferred_language, Language::Python);
}

#[test]
fn solution_paths_follow_the_layout() {
    assert_eq!(solution_file_name(1234, Language::CPP), "1234.cpp");
    assert_eq!(
        solution_path_components(Division::Silver, 1234, Language::CPP),
        vec!["src", "silver", "1234.cpp"]
    );
    assert_eq!(
        binary_path_components(Division::Silver, 1234),
        vec!["bin", "silver", "1234"]
    );
}

#[test]
fn scaffold_wires_file_io() {
    let code = boilerplate(
        Language::CPP,
        &IoMode::File("a.in".to_string()),
        &IoMode::File("a.out".to_string()),
    );
    assert!(code.contains("freopen(\"a.in\", \"r\", stdin);"));
    assert!(code.contains("freopen(\"a.out\", \"w\", stdout);"));
    assert!(code.starts_with("#include <bits/stdc++.h>"));

    let plain = boilerplate(Language::CPP, &IoMode::Stdio, &IoMode::Stdio);
    assert!(!plain.contains("freopen"));

    let py = boilerplate(
        Language::Python,
        &IoMode::File("b.in".to_string()),
        &IoMode::Stdio,
    );
    assert_eq!(py, "import sys\n\nsys.stdin = open(\"b.in\", \"r\")\n\n\n");
}

#[test]
fn io_mode_equality_compares_names() {
    assert_eq!(IoMode::Stdio, IoMode::Stdio);
    assert_eq!(IoMode::File("a.in".to_string()), IoMode::File("a.in".to_string()));
    assert_ne!(IoMode::File("a.in".to_string()), IoMode::File("b.in".to_string()));
    assert_ne!(IoMode::Stdio, IoMode::File("a.in".to_string()));
}

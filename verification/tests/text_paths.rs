use uebuild::ini::{read_ini_prop, section_value, section_values};
use uebuild::paths::{file_name, join, parent, replace_extension, windows_path};
use uebuild::strutil::{join_strings, str_split, str_trim};
use uebuild::types::{AsUnrealStr, Configuration, Platform, Target};

#[test]
fn path_join_handles_empty_absolute_and_trailing_separator() {
    assert_eq!(join("a", "b").as_str(), "a/b");
    assert_eq!(join("a/", "b").as_str(), "a/b");
    assert_eq!(join("", "b").as_str(), "b");
    assert_eq!(join("a", "/abs").as_str(), "/abs");
}

#[test]
fn file_name_and_parent_split_on_last_separator() {
    assert_eq!(file_name("a/b/c.txt").as_str(), "c.txt");
    assert_eq!(file_name("plain").as_str(), "plain");
    assert_eq!(parent("a/b/c.txt").as_str(), "a/b");
    assert_eq!(parent("plain").as_str(), "");
}

#[test]
fn replace_extension_swaps_appends_and_strips() {
    assert_eq!(replace_extension("mod.dll", "pdb").as_str(), "mod.pdb");
    assert_eq!(replace_extension("mod", "pdb").as_str(), "mod.pdb");
    assert_eq!(replace_extension("dir.v2/mod", "pdb").as_str(), "dir.v2/mod.pdb");
    assert_eq!(replace_extension("a/.hidden", "txt").as_str(), "a/.hidden.txt");
    assert_eq!(replace_extension("map.umap", "").as_str(), "map");
}

#[test]
fn windows_path_swaps_separators() {
    assert_eq!(windows_path("a/b/c.dll").as_str(), "a\\b\\c.dll");
    assert_eq!(windows_path("nochange").as_str(), "nochange");
}

#[test]
fn split_and_join_lines() {
    let parts = str_split("a\nb\n\nc", '\n');
    let strs: Vec<&str> = parts.iter().map(|s| s.as_str()).collect();
    assert_eq!(strs, vec!["a", "b", "", "c"]);
    assert_eq!(join_strings(&parts, '\n').as_str(), "a\nb\n\nc");
    let empty = str_split("", '\n');
    assert_eq!(empty.len(), 1);
    assert_eq!(empty[0].as_str(), "");
}

#[test]
fn trim_removes_surrounding_whitespace_only() {
    assert_eq!(str_trim("  a b \t\r\n"), "a b");
    assert_eq!(str_trim(""), "");
    assert_eq!(str_trim("none"), "none");
}

#[test]
fn ini_prop_takes_first_matching_line_trimmed() {
    let text = "Other=x\nSourcePath= value one \nSourcePath=value two\n";
    assert_eq!(read_ini_prop(text, "SourcePath").as_deref(), Some("value one"));
    assert!(read_ini_prop(text, "Missing").is_none());
}

#[test]
fn ini_section_lookup_is_scoped() {
    let text = "[A]\nKey=1\n[B]\nKey=2\nKey=3\n";
    assert_eq!(section_value(text, "A", "Key").as_deref(), Some("1"));
    assert_eq!(section_value(text, "B", "Key").as_deref(), Some("2"));
    let all: Vec<String> = section_values(text, "B", "Key");
    assert_eq!(all, vec!["2".to_string(), "3".to_string()]);
    assert!(section_value(text, "C", "Key").is_none());
}

#[test]
fn ini_section_reopened_later_is_read_again() {
    let text = "[A]\nKey=1\n[B]\nKey=9\n[A]\nKey=2\n";
    let values: Vec<String> = section_values(text, "A", "Key");
    assert_eq!(values, vec!["1".to_string(), "2".to_string()]);
}

#[test]
fn unreal_spellings_are_fixed() {
    assert_eq!(Target::Editor.as_ue(), "editor");
    assert_eq!(Target::Client.as_ue(), "client");
    assert_eq!(Target::Server.as_ue(), "server");
    assert_eq!(Platform::Windows.as_ue(), "Win64");
    assert_eq!(Platform::Linux.as_ue(), "Linux");
    assert_eq!(Configuration::DebugGame.as_ue(), "DebugGame");
    assert_eq!(Configuration::Shipping.as_ue(), "Shipping");
}

use breadboard::file::{is_toml_file_name, text_before_or_equal, FileManager};

#[test]
fn test_file_manager_new() {
    let _fm = FileManager::new();
}

fn names(list: &[&str]) -> Vec<String> {
    list.iter().map(|s| s.to_string()).collect()
}

#[test]
fn toml_files_are_kept_and_sorted_by_name() {
    let fm = FileManager::new();
    let listed = fm.toml_files(names(&[
        "zeta.toml",
        "notes.txt",
        "alpha.toml",
        "Cargo.lock",
        "beta.toml.bak",
        "Beta.toml",
        "alpha.toml",
        "al.toml",
    ]));
    assert_eq!(listed, names(&["Beta.toml", "al.toml", "alpha.toml", "alpha.toml", "zeta.toml"]));
}

#[test]
fn toml_files_agree_with_the_standard_order() {
    let fm = FileManager::new();
    let input = names(&["b.toml", "a.toml", "é.toml", "a b.toml", "ab.toml", "A.toml", "z.toml", "~.toml", "0.toml"]);
    let mut expected = input.clone();
    expected.sort();
    assert_eq!(fm.toml_files(input), expected);
}

#[test]
fn no_candidates_is_an_empty_list() {
    let fm = FileManager::new();
    assert!(fm.toml_files(Vec::new()).is_empty());
    assert!(fm.toml_files(names(&["readme.md", "toml", ".toml"])).is_empty());
}

#[test]
fn extension_needs_a_stem() {
    assert!(is_toml_file_name("a.toml"));
    assert!(is_toml_file_name("..toml"));
    assert!(is_toml_file_name("a.b.toml"));
    assert!(!is_toml_file_name(".toml"));
    assert!(!is_toml_file_name("toml"));
    assert!(!is_toml_file_name("a.TOML"));
    assert!(!is_toml_file_name("a.toml "));
    assert!(!is_toml_file_name("a.tomlx"));
    assert!(!is_toml_file_name(""));
}

#[test]
fn extension_agrees_with_the_standard_path() {
    for name in ["a.toml", ".toml", "..toml", "x.y.toml", "toml", "a.toml.bak", "a.", "ümlaut.toml"] {
        let expected = std::path::Path::new(name).extension().map(|e| e == "toml").unwrap_or(false);
        assert_eq!(is_toml_file_name(name), expected, "{}", name);
    }
}

#[test]
fn text_order_is_the_order_of_strings() {
    let samples = ["", "a", "ab", "b", "B", "a b", "é", "abc", "ab"];
    for a in samples {
        for b in samples {
            assert_eq!(text_before_or_equal(a, b), a <= b, "{:?} {:?}", a, b);
        }
    }
}

use crate_patcher::layout::{default_source_root, Layout};
use crate_patcher::paths::{crate_file_to_patch_file, file_name, parent_dir, strip_root};

#[test]
fn patch_file_of_a_top_level_file() {
    assert_eq!(crate_file_to_patch_file("src/lib.rs"), "patches/src--lib.rs.patch");
}

#[test]
fn patch_file_of_a_nested_file() {
    assert_eq!(
        crate_file_to_patch_file("src/a/b/c.rs"),
        "patches/src--a--b--c.rs.patch"
    );
}

#[test]
fn patch_file_of_a_path_without_separator() {
    assert_eq!(crate_file_to_patch_file("build.rs"), "patches/build.rs.patch");
}

#[test]
fn patch_file_of_the_empty_path() {
    assert_eq!(crate_file_to_patch_file(""), "patches/.patch");
}

#[test]
fn patch_file_keeps_every_other_character() {
    assert_eq!(
        crate_file_to_patch_file("src/ünï_cödé/a b.rs"),
        "patches/src--ünï_cödé--a b.rs.patch"
    );
}

#[test]
fn patch_file_escapes_the_escape_character() {
    assert_eq!(crate_file_to_patch_file("a-b"), "patches/a-_b.patch");
    assert_eq!(crate_file_to_patch_file("a--b"), "patches/a-_-_b.patch");
    assert_eq!(
        crate_file_to_patch_file("src/ünï-cödé/a-b.rs"),
        "patches/src--ünï-_cödé--a-_b.rs.patch"
    );
    assert_eq!(crate_file_to_patch_file("-"), "patches/-_.patch");
    assert_eq!(crate_file_to_patch_file("_-_/-"), "patches/_-__---_.patch");
}

#[test]
fn patch_file_escapes_each_of_several_separators_in_a_row() {
    assert_eq!(crate_file_to_patch_file("a//b/"), "patches/a----b--.patch");
}

#[test]
fn patch_files_of_two_paths_never_meet() {
    let paths = [
        "src/a/b.rs",
        "src/a--b.rs",
        "src/a-/b.rs",
        "src/a/-b.rs",
        "src/a-_b.rs",
        "src/a_b.rs",
        "src/a-b.rs",
        "src/a__b.rs",
        "src/a-/_b.rs",
        "src/a//b.rs",
        "src/a---b.rs",
        "src/a-_-_b.rs",
        "src--a--b.rs",
        "src/a/b.rs/",
        "src/a/b.rs-",
    ];
    for (i, p) in paths.iter().enumerate() {
        for q in &paths[i + 1..] {
            assert_ne!(crate_file_to_patch_file(p), crate_file_to_patch_file(q), "{p} and {q}");
        }
    }
}

#[test]
fn file_name_is_the_last_component() {
    assert_eq!(file_name("src/a/b.rs"), "b.rs");
    assert_eq!(file_name("b.rs"), "b.rs");
    assert_eq!(file_name("src/"), "");
    assert_eq!(file_name(""), "");
    assert_eq!(file_name("src/Cargo.toml"), "Cargo.toml");
}

#[test]
fn parent_dir_drops_the_last_component() {
    assert_eq!(parent_dir("src/lib.rs"), "src");
    assert_eq!(parent_dir("a/b/lib.rs"), "a/b");
    assert_eq!(parent_dir("lib.rs"), "");
    assert_eq!(parent_dir(""), "");
    assert_eq!(parent_dir("/lib.rs"), "");
}

#[test]
fn strip_root_gives_the_path_below_the_root() {
    assert_eq!(strip_root("src/lib.rs", "src"), Some("lib.rs".to_string()));
    assert_eq!(strip_root("src/a/b.rs", "src"), Some("a/b.rs".to_string()));
    assert_eq!(strip_root("a/b/c.rs", "a/b"), Some("c.rs".to_string()));
    assert_eq!(strip_root("src/", "src"), Some("".to_string()));
}

#[test]
fn strip_root_with_an_empty_root_keeps_the_path() {
    assert_eq!(strip_root("lib.rs", ""), Some("lib.rs".to_string()));
    assert_eq!(strip_root("", ""), Some("".to_string()));
}

#[test]
fn strip_root_refuses_a_path_outside_the_root() {
    assert_eq!(strip_root("tests/a.rs", "src"), None);
    assert_eq!(strip_root("srcs/a.rs", "src"), None);
    assert_eq!(strip_root("src", "src"), None);
    assert_eq!(strip_root("sr", "src"), None);
    assert_eq!(strip_root("", "src"), None);
    assert_eq!(strip_root("Cargo.toml", "src"), None);
}

#[test]
fn strip_root_counts_characters_not_bytes() {
    assert_eq!(strip_root("références/é.rs", "références"), Some("é.rs".to_string()));
}

#[test]
fn cargo_layout_names() {
    let layout = Layout::cargo();
    assert_eq!(layout.manifest_name, "Cargo.toml");
    assert_eq!(layout.main_entry, "lib.rs");
    assert_eq!(layout.entry_target, "lib.crate.rs");
}

#[test]
fn main_entry_goes_to_its_fixed_target() {
    let layout = Layout::cargo();
    assert_eq!(layout.target_for("lib.rs"), "lib.crate.rs");
}

#[test]
fn other_files_keep_their_path() {
    let layout = Layout::cargo();
    assert_eq!(layout.target_for("a/lib.rs"), "a/lib.rs");
    assert_eq!(layout.target_for("main.rs"), "main.rs");
    assert_eq!(layout.target_for(""), "");
}

#[test]
fn ignore_marker_spares_the_consumers_entry() {
    assert_eq!(Layout::cargo().ignore_marker(), "*\n!lib.rs");
    let layout = Layout {
        manifest_name: "pkg.toml".to_string(),
        main_entry: "entry.src".to_string(),
        entry_target: "entry.vendored.src".to_string(),
    };
    assert_eq!(layout.ignore_marker(), "*\n!entry.src");
}

#[test]
fn default_source_root_is_src() {
    assert_eq!(default_source_root(), "src");
}

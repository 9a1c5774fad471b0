//! Searching directory listings for a script by name.

use devscripts::listing::{DirEntry, DirItem, DirListing, FailureKind, IoFailure};
use devscripts::scripts::{find_script, script_exists, search_dir, search_step, SearchStep};

fn file(dir: &str, name: &str) -> DirItem {
    DirItem::Entry(DirEntry { name: name.to_string(), path: format!("{dir}/{name}"), is_file: true })
}

fn subdir(dir: &str, name: &str) -> DirItem {
    DirItem::Entry(DirEntry { name: name.to_string(), path: format!("{dir}/{name}"), is_file: false })
}

fn failure(kind: FailureKind, message: &str) -> IoFailure {
    IoFailure { kind, message: message.to_string() }
}

fn missing() -> DirListing {
    DirListing::Unreadable(failure(FailureKind::NotFound, "No such file or directory"))
}

fn denied() -> DirListing {
    DirListing::Unreadable(failure(FailureKind::Other, "Permission denied"))
}

#[test]
fn search_dir_returns_the_path_of_the_matching_file() {
    let listing = DirListing::Items(vec![file("/s", "build"), file("/s", "test")]);
    assert_eq!(search_dir("test", &listing), Ok(Some("/s/test".to_string())));
    assert_eq!(search_dir("build", &listing), Ok(Some("/s/build".to_string())));
}

#[test]
fn search_dir_returns_none_without_a_match() {
    let listing = DirListing::Items(vec![file("/s", "build"), file("/s", "test")]);
    assert_eq!(search_dir("deploy", &listing), Ok(None));
    assert_eq!(search_dir("deploy", &DirListing::Items(vec![])), Ok(None));
}

#[test]
fn search_dir_compares_names_exactly() {
    let listing = DirListing::Items(vec![file("/s", "build.sh"), file("/s", "Build"), file("/s", "build ")]);
    assert_eq!(search_dir("build", &listing), Ok(None));
    assert_eq!(search_dir("*", &listing), Ok(None));
    assert_eq!(search_dir("", &listing), Ok(None));
    assert_eq!(search_dir("Build", &listing), Ok(Some("/s/Build".to_string())));
}

#[test]
fn search_dir_never_matches_a_name_with_a_separator() {
    let listing = DirListing::Items(vec![subdir("/s", "sub"), file("/s", "x")]);
    assert_eq!(search_dir("sub/x", &listing), Ok(None));
    assert_eq!(search_dir("../s/x", &listing), Ok(None));
    assert_eq!(search_dir("/s/x", &listing), Ok(None));
}

#[test]
fn search_dir_skips_entries_that_are_not_regular_files() {
    let listing = DirListing::Items(vec![subdir("/s", "build"), file("/s", "test")]);
    assert_eq!(search_dir("build", &listing), Ok(None));
    let later_file = DirListing::Items(vec![subdir("/a", "build"), file("/b", "build")]);
    assert_eq!(search_dir("build", &later_file), Ok(Some("/b/build".to_string())));
}

#[test]
fn search_dir_compares_non_ascii_names() {
    let listing = DirListing::Items(vec![file("/s", "größe"), file("/s", "grösse")]);
    assert_eq!(search_dir("grösse", &listing), Ok(Some("/s/grösse".to_string())));
    assert_eq!(search_dir("grosse", &listing), Ok(None));
}

#[test]
fn search_dir_fails_where_the_directory_could_not_be_opened() {
    assert_eq!(
        search_dir("x", &missing()),
        Err(failure(FailureKind::NotFound, "No such file or directory"))
    );
    assert_eq!(search_dir("x", &denied()), Err(failure(FailureKind::Other, "Permission denied")));
}

#[test]
fn search_dir_fails_on_a_broken_item_before_the_match() {
    let broken = failure(FailureKind::Other, "Input/output error");
    let listing = DirListing::Items(vec![file("/s", "a"), DirItem::Broken(broken), file("/s", "x")]);
    assert_eq!(search_dir("x", &listing), Err(failure(FailureKind::Other, "Input/output error")));
}

#[test]
fn search_dir_ignores_a_broken_item_after_the_match() {
    let broken = failure(FailureKind::Other, "Input/output error");
    let listing = DirListing::Items(vec![file("/s", "x"), DirItem::Broken(broken)]);
    assert_eq!(search_dir("x", &listing), Ok(Some("/s/x".to_string())));
}

#[test]
fn search_step_ends_the_search_on_a_match() {
    let listing = DirListing::Items(vec![file("/s", "x")]);
    assert_eq!(search_step("x", &listing), SearchStep::Found("/s/x".to_string()));
}

#[test]
fn search_step_continues_past_a_directory_without_the_script() {
    let listing = DirListing::Items(vec![file("/s", "y")]);
    assert_eq!(search_step("x", &listing), SearchStep::Continue);
}

#[test]
fn search_step_continues_past_a_missing_directory() {
    assert_eq!(search_step("x", &missing()), SearchStep::Continue);
}

#[test]
fn search_step_continues_past_an_entry_that_vanished() {
    let vanished = failure(FailureKind::NotFound, "No such file or directory");
    let listing = DirListing::Items(vec![DirItem::Broken(vanished), file("/s", "x")]);
    assert_eq!(search_step("x", &listing), SearchStep::Continue);
}

#[test]
fn search_step_aborts_on_any_other_failure() {
    assert_eq!(
        search_step("x", &denied()),
        SearchStep::Failed(failure(FailureKind::Other, "Permission denied"))
    );
}

#[test]
fn finds_a_script_in_the_only_directory() {
    let listings = vec![DirListing::Items(vec![file("/s", "build"), file("/s", "test")])];
    assert_eq!(find_script("test", &listings), Ok(Some("/s/test".to_string())));
}

#[test]
fn finds_a_script_in_a_lower_tier_when_no_higher_tier_has_it() {
    let listings = vec![
        DirListing::Items(vec![file("/repo/.devscripts", "lint")]),
        DirListing::Items(vec![]),
        DirListing::Items(vec![file("/usr/share/devscripts", "build")]),
    ];
    assert_eq!(find_script("build", &listings), Ok(Some("/usr/share/devscripts/build".to_string())));
}

#[test]
fn higher_priority_directory_wins() {
    let listings = vec![
        DirListing::Items(vec![file("/repo/.devscripts", "build")]),
        DirListing::Items(vec![file("/home/u/.local/share/devscripts", "build")]),
        DirListing::Items(vec![file("/usr/share/devscripts", "build")]),
    ];
    assert_eq!(find_script("build", &listings), Ok(Some("/repo/.devscripts/build".to_string())));

    let without_repository = vec![
        DirListing::Items(vec![file("/home/u/.local/share/devscripts", "build")]),
        DirListing::Items(vec![file("/usr/share/devscripts", "build")]),
    ];
    assert_eq!(
        find_script("build", &without_repository),
        Ok(Some("/home/u/.local/share/devscripts/build".to_string()))
    );
}

#[test]
fn a_directory_of_that_name_does_not_shadow_a_script_below() {
    let listings = vec![
        DirListing::Items(vec![subdir("/high", "build")]),
        DirListing::Items(vec![file("/low", "build")]),
    ];
    assert_eq!(find_script("build", &listings), Ok(Some("/low/build".to_string())));
}

#[test]
fn missing_directory_is_skipped() {
    let listings = vec![missing(), DirListing::Items(vec![file("/s", "x")])];
    assert_eq!(find_script("x", &listings), Ok(Some("/s/x".to_string())));
}

#[test]
fn only_missing_directories_find_nothing() {
    let listings = vec![missing(), missing(), missing()];
    assert_eq!(find_script("x", &listings), Ok(None));
    assert!(!script_exists("x", &listings));
}

#[test]
fn no_directories_find_nothing() {
    assert_eq!(find_script("x", &vec![]), Ok(None));
    assert!(!script_exists("x", &vec![]));
}

#[test]
fn unreadable_directory_aborts_the_search() {
    let listings = vec![denied(), DirListing::Items(vec![file("/s", "x")])];
    assert_eq!(find_script("x", &listings), Err(failure(FailureKind::Other, "Permission denied")));
}

#[test]
fn failure_below_the_match_is_never_met() {
    let listings = vec![DirListing::Items(vec![file("/s", "x")]), denied()];
    assert_eq!(find_script("x", &listings), Ok(Some("/s/x".to_string())));
}

#[test]
fn broken_item_aborts_the_search() {
    let broken = failure(FailureKind::Other, "Input/output error");
    let listings = vec![
        DirListing::Items(vec![DirItem::Broken(broken)]),
        DirListing::Items(vec![file("/s", "x")]),
    ];
    assert_eq!(find_script("x", &listings), Err(failure(FailureKind::Other, "Input/output error")));
}

#[test]
fn vanished_entry_passes_over_the_rest_of_its_directory() {
    let vanished = failure(FailureKind::NotFound, "No such file or directory");
    let listings = vec![
        DirListing::Items(vec![DirItem::Broken(vanished), file("/high", "x")]),
        DirListing::Items(vec![file("/low", "x")]),
    ];
    assert_eq!(find_script("x", &listings), Ok(Some("/low/x".to_string())));
}

#[test]
fn script_exists_agrees_with_find_script() {
    let cases: Vec<Vec<DirListing>> = vec![
        vec![],
        vec![missing()],
        vec![denied()],
        vec![DirListing::Items(vec![file("/s", "x")])],
        vec![DirListing::Items(vec![file("/s", "y")])],
        vec![missing(), DirListing::Items(vec![subdir("/s", "x")])],
        vec![denied(), DirListing::Items(vec![file("/s", "x")])],
        vec![DirListing::Items(vec![file("/s", "x")]), denied()],
    ];
    for listings in &cases {
        for name in ["x", "y", "z"] {
            let found = matches!(find_script(name, listings), Ok(Some(_)));
            assert_eq!(script_exists(name, listings), found);
        }
    }
}

#[test]
fn script_exists_is_false_where_the_search_fails() {
    let listings = vec![denied(), DirListing::Items(vec![file("/s", "x")])];
    assert!(!script_exists("x", &listings));
}

#[test]
fn script_exists_is_true_for_a_script() {
    let listings = vec![missing(), DirListing::Items(vec![file("/s", "x")])];
    assert!(script_exists("x", &listings));
    assert!(!script_exists("y", &listings));
}

#[test]
fn a_name_with_a_separator_is_never_found() {
    let listings = vec![
        DirListing::Items(vec![subdir("/high", "sub"), file("/high", "x")]),
        DirListing::Items(vec![file("/low", "x")]),
    ];
    assert_eq!(find_script("sub/x", &listings), Ok(None));
    assert_eq!(find_script("/low/x", &listings), Ok(None));
    assert_eq!(find_script("./x", &listings), Ok(None));
    assert!(!script_exists("../low/x", &listings));
}

#[test]
fn searching_two_lists_in_sequence_is_searching_them_joined() {
    let tiers = || -> Vec<Vec<DirListing>> {
        vec![
            vec![],
            vec![missing()],
            vec![denied()],
            vec![DirListing::Items(vec![file("/a", "x")])],
            vec![DirListing::Items(vec![file("/b", "y")]), DirListing::Items(vec![file("/c", "x")])],
        ]
    };
    for (h, higher) in tiers().into_iter().enumerate() {
        for (l, lower) in tiers().into_iter().enumerate() {
            for name in ["x", "y"] {
                let first = find_script(name, &higher);
                let expected = if first == Ok(None) { find_script(name, &lower) } else { first };
                let mut joined = tiers().swap_remove(h);
                joined.extend(tiers().swap_remove(l));
                assert_eq!(find_script(name, &joined), expected);
            }
        }
    }
}

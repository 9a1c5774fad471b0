//! Collecting the names of all available scripts.

use devscripts::listing::{DirEntry, DirItem, DirListing, FailureKind, IoFailure};
use devscripts::names::{same_name, sorts_before};
use devscripts::scripts::all_scripts;

fn file(name: &str) -> DirItem {
    DirItem::Entry(DirEntry { name: name.to_string(), path: format!("/d/{name}"), is_file: true })
}

fn subdir(name: &str) -> DirItem {
    DirItem::Entry(DirEntry { name: name.to_string(), path: format!("/d/{name}"), is_file: false })
}

fn failure(kind: FailureKind, message: &str) -> IoFailure {
    IoFailure { kind, message: message.to_string() }
}

fn names(list: &[&str]) -> Vec<String> {
    list.iter().map(|name| name.to_string()).collect()
}

#[test]
fn all_scripts_are_sorted_ascending() {
    let listings = vec![DirListing::Items(vec![file("test"), file("build"), file("lint")])];
    assert_eq!(all_scripts(&listings), Ok(names(&["build", "lint", "test"])));
}

#[test]
fn all_scripts_merge_every_directory() {
    let listings = vec![
        DirListing::Items(vec![file("z"), file("m")]),
        DirListing::Items(vec![file("a")]),
        DirListing::Items(vec![file("q"), file("b")]),
    ];
    assert_eq!(all_scripts(&listings), Ok(names(&["a", "b", "m", "q", "z"])));
}

#[test]
fn all_scripts_hold_each_name_once() {
    let listings = vec![
        DirListing::Items(vec![file("build"), file("test")]),
        DirListing::Items(vec![file("build"), file("deploy")]),
        DirListing::Items(vec![file("test"), file("build")]),
    ];
    assert_eq!(all_scripts(&listings), Ok(names(&["build", "deploy", "test"])));
}

#[test]
fn all_scripts_leave_out_what_is_not_a_regular_file() {
    let listings = vec![DirListing::Items(vec![subdir("docs"), file("build"), subdir("a")])];
    assert_eq!(all_scripts(&listings), Ok(names(&["build"])));
}

#[test]
fn all_scripts_order_by_bytes() {
    let listings =
        vec![DirListing::Items(vec![file("b"), file("a"), file("B"), file("é"), file("ab"), file("z"), file("")])];
    let mut expected = names(&["b", "a", "B", "é", "ab", "z", ""]);
    expected.sort();
    assert_eq!(expected, names(&["", "B", "a", "ab", "b", "z", "é"]));
    assert_eq!(all_scripts(&listings), Ok(expected));
}

#[test]
fn all_scripts_agree_with_the_standard_sort() {
    let raw = ["zeta", "alpha", "Alpha", "beta-2", "beta-10", "beta", "𝒳", "ÿ", "~", "_x", "0", "alpha"];
    let listings = vec![DirListing::Items(raw.iter().map(|name| file(name)).collect())];
    let mut expected = names(&raw);
    expected.sort();
    expected.dedup();
    assert_eq!(all_scripts(&listings), Ok(expected));
}

#[test]
fn all_scripts_of_no_directories_are_none() {
    assert_eq!(all_scripts(&vec![]), Ok(vec![]));
}

#[test]
fn all_scripts_skip_missing_directories() {
    let gone = DirListing::Unreadable(failure(FailureKind::NotFound, "No such file or directory"));
    let other = DirListing::Unreadable(failure(FailureKind::NotFound, "No such file or directory"));
    assert_eq!(all_scripts(&vec![gone, other]), Ok(vec![]));

    let gone = DirListing::Unreadable(failure(FailureKind::NotFound, "No such file or directory"));
    let listings = vec![gone, DirListing::Items(vec![file("x")])];
    assert_eq!(all_scripts(&listings), Ok(names(&["x"])));
}

#[test]
fn all_scripts_fail_on_an_unreadable_directory() {
    let denied = DirListing::Unreadable(failure(FailureKind::Other, "Permission denied"));
    let listings = vec![DirListing::Items(vec![file("x")]), denied];
    assert_eq!(all_scripts(&listings), Err(failure(FailureKind::Other, "Permission denied")));
}

#[test]
fn all_scripts_fail_on_a_broken_item() {
    let broken = DirItem::Broken(failure(FailureKind::Other, "Input/output error"));
    let listings = vec![DirListing::Items(vec![file("x"), broken, file("y")])];
    assert_eq!(all_scripts(&listings), Err(failure(FailureKind::Other, "Input/output error")));
}

#[test]
fn all_scripts_fail_on_an_entry_that_vanished() {
    let vanished = DirItem::Broken(failure(FailureKind::NotFound, "No such file or directory"));
    let listings = vec![DirListing::Items(vec![file("x"), vanished])];
    assert_eq!(all_scripts(&listings), Err(failure(FailureKind::NotFound, "No such file or directory")));
}

#[test]
fn all_scripts_report_the_first_failure() {
    let first = DirListing::Unreadable(failure(FailureKind::Other, "first"));
    let second = DirListing::Unreadable(failure(FailureKind::Other, "second"));
    assert_eq!(all_scripts(&vec![first, second]), Err(failure(FailureKind::Other, "first")));
}

#[test]
fn names_are_equal_when_their_text_is() {
    assert!(same_name("build", "build"));
    assert!(same_name("", ""));
    assert!(same_name("größe", "größe"));
    assert!(!same_name("build", "Build"));
    assert!(!same_name("build", "build "));
    assert!(!same_name("build", "buil"));
    assert!(!same_name("", "a"));
}

#[test]
fn names_sort_like_strings() {
    let samples = ["", "a", "A", "ab", "b", "aa", "é", "z", "zz", "~", "0", "𝒳", "ÿ"];
    for a in samples {
        for b in samples {
            assert_eq!(sorts_before(a, b), a < b, "{a:?} before {b:?}");
        }
    }
}

//! The home marker, the working tree root and the order of directories.

use devscripts::config::{Config, Paths, ScriptPaths};
use devscripts::path::{
    base_or_empty, directories_in, directories_iter, extend_home, extend_home_in, git_root,
    working_tree_root,
};

fn strings(list: &[&str]) -> Vec<String> {
    list.iter().map(|item| item.to_string()).collect()
}

fn config(system: &[&str], user: &[&str], repository: &[&str]) -> Config {
    Config {
        paths: Paths {
            scripts: ScriptPaths {
                system: strings(system),
                user: strings(user),
                repository: strings(repository),
            },
        },
    }
}

#[test]
fn extend_home_replaces_the_marker() {
    assert_eq!(extend_home_in("~/foo", "/home/u"), "/home/u/foo");
    assert_eq!(extend_home_in("~/.local/share/devscripts", "/home/u"), "/home/u/.local/share/devscripts");
}

#[test]
fn extend_home_leaves_other_paths_unchanged() {
    assert_eq!(extend_home_in("/abs/bar", "/home/u"), "/abs/bar");
    assert_eq!(extend_home_in("rel/bar", "/home/u"), "rel/bar");
    assert_eq!(extend_home_in("./~/bar", "/home/u"), "./~/bar");
    assert_eq!(extend_home_in("", "/home/u"), "");
    assert_eq!(extend_home("/abs/bar"), "/abs/bar");
    assert_eq!(extend_home("rel/bar"), "rel/bar");
}

#[test]
fn extend_home_takes_the_marker_as_a_whole_component() {
    assert_eq!(extend_home_in("~foo/bar", "/home/u"), "~foo/bar");
    assert_eq!(extend_home_in("~~/bar", "/home/u"), "~~/bar");
    assert_eq!(extend_home("~foo/bar"), "~foo/bar");
}

#[test]
fn extend_home_of_the_bare_marker_is_the_home_directory() {
    let expanded = extend_home_in("~", "/home/u");
    assert_eq!(expanded.trim_end_matches('/'), "/home/u");
}

#[test]
fn extend_home_without_a_home_directory_keeps_the_rest() {
    assert_eq!(extend_home_in("~/foo", ""), "foo");
}

#[test]
fn extend_home_uses_the_current_users_home() {
    let home = home::home_dir().unwrap_or_default();
    let expected = home.join("foo").to_string_lossy().into_owned();
    assert_eq!(extend_home("~/foo"), expected);
}

#[test]
fn directories_come_repository_then_user_then_system() {
    let config = config(&["/usr/share/s", "/opt/s"], &["~/.s", "/srv/s"], &["./.s", "tools"]);
    let dirs = directories_in(&config, Some("/repo"), "/home/u");
    assert_eq!(
        dirs,
        strings(&["/repo/./.s", "/repo/tools", "/home/u/.s", "/srv/s", "/usr/share/s", "/opt/s"])
    );
}

#[test]
fn directories_without_a_working_tree_have_no_repository_tier() {
    let config = config(&["/usr/share/s"], &["~/.s"], &["./.s", "tools"]);
    let dirs = directories_in(&config, None, "/home/u");
    assert_eq!(dirs, strings(&["/home/u/.s", "/usr/share/s"]));
}

#[test]
fn directories_of_the_default_configuration() {
    let dirs = directories_in(&Config::default(), Some("/repo/"), "/home/u");
    assert_eq!(
        dirs,
        strings(&[
            "/repo/./.devscripts",
            "/home/u/.local/share/devscripts",
            "/usr/share/devscripts",
            "/usr/local/share/devscripts",
        ])
    );
}

#[test]
fn directories_keep_system_paths_as_they_are() {
    let config = config(&["~/not/expanded", "relative", ""], &[], &[]);
    let dirs = directories_in(&config, Some("/repo"), "/home/u");
    assert_eq!(dirs, strings(&["~/not/expanded", "relative", ""]));
}

#[test]
fn an_absolute_repository_path_replaces_the_root() {
    let config = config(&[], &[], &["/abs/scripts"]);
    assert_eq!(directories_in(&config, Some("/repo"), "/home/u"), strings(&["/abs/scripts"]));
}

#[test]
fn directories_of_an_empty_configuration_are_none() {
    let config = config(&[], &[], &[]);
    assert!(directories_in(&config, Some("/repo"), "/home/u").is_empty());
    assert!(directories_in(&config, None, "").is_empty());
}

#[test]
fn git_root_outside_a_repository_is_none() {
    assert_eq!(git_root("/nonexistent-devscripts-test-directory/below"), None);
    assert_eq!(git_root("a\0b"), None);
}

#[test]
fn git_root_is_the_working_tree_of_the_repository() {
    let dir = "/tmp/devscripts-test-git-root";
    let Ok(repository) = git2::Repository::init(dir) else {
        // Nowhere to create a repository: nothing to look for.
        return;
    };
    let expected = repository.workdir().expect("not bare").to_string_lossy().into_owned();
    assert_eq!(git_root(dir), Some(expected.clone()));
    assert_eq!(git_root("/tmp/devscripts-test-git-root/.git"), Some(expected.clone()));
    assert_eq!(expected.trim_end_matches('/'), dir);
}

#[test]
fn git_root_of_a_bare_repository_is_none() {
    let dir = "/tmp/devscripts-test-bare.git";
    if git2::Repository::init_bare(dir).is_err() {
        // Nowhere to create a repository: nothing to look for.
        return;
    }
    assert_eq!(git_root(dir), None);
}

#[test]
fn directories_iter_outside_a_repository_skips_the_repository_tier() {
    let config = config(&["/usr/share/s"], &["/srv/s"], &["./.s"]);
    let dirs = directories_iter(&config, "/nonexistent-devscripts-test-directory");
    assert_eq!(dirs, strings(&["/srv/s", "/usr/share/s"]));
}

#[test]
fn directories_iter_inside_a_repository_starts_with_its_tier() {
    let dir = "/tmp/devscripts-test-directories";
    let Ok(repository) = git2::Repository::init(dir) else {
        // Nowhere to create a repository: nothing to look for.
        return;
    };
    let root = repository.workdir().expect("not bare").to_path_buf();
    let config = config(&["/usr/share/s"], &["/srv/s"], &[".s"]);
    let dirs = directories_iter(&config, dir);
    let first = root.join(".s").to_string_lossy().into_owned();
    assert_eq!(dirs, vec![first, "/srv/s".to_string(), "/usr/share/s".to_string()]);
}

#[test]
fn git_root_of_a_path_with_a_nul_character_is_none() {
    assert_eq!(git_root("\0"), None);
    assert_eq!(git_root("/tmp\0"), None);
    assert_eq!(git_root("/tmp/devscripts-test-git-root\0/below"), None);
}

#[test]
fn working_tree_root_needs_a_repository_with_a_working_directory() {
    assert_eq!(working_tree_root(Some(Some("/repo/".to_string()))), Some("/repo/".to_string()));
    assert_eq!(working_tree_root(Some(Some(String::new()))), Some(String::new()));
    assert_eq!(working_tree_root(Some(None)), None);
    assert_eq!(working_tree_root(None), None);
}

#[test]
fn base_is_the_home_directory_or_the_empty_path() {
    assert_eq!(base_or_empty(Some("/home/u".to_string())), "/home/u");
    assert_eq!(base_or_empty(Some(String::new())), "");
    assert_eq!(base_or_empty(None), "");
}

//! Path manipulation utilities: the home directory marker, the root of the
//! enclosing git working tree, and the ordered list of script directories.

use vstd::prelude::*;
use vstd::string::*;

use crate::config::{Config, ScriptPathsModel};

verus! {

/// What `std::path::Path::strip_prefix` leaves of `path` once the leading
/// components `base` are taken off, or `None` where `path` does not start
/// with them. Paths are compared component by component, so on a given
/// platform the result depends on the two paths alone.
pub uninterp spec fn path_strip_prefix(path: Seq<char>, base: Seq<char>) -> Option<Seq<char>>;

/// The path that `std::path::Path::join` makes of `base` and `rest`. On a
/// given platform it depends on the two paths alone.
pub uninterp spec fn path_join(base: Seq<char>, rest: Seq<char>) -> Seq<char>;

/// Calls `std::path::Path::strip_prefix`. The contract only gives the result
/// its name, [`path_strip_prefix`]; which paths start with which is left to
/// the standard library. Both arguments are valid UTF-8, so what is left of
/// `path` is too.
#[verifier::external_body]
fn strip_prefix(path: &str, base: &str) -> (rest: Option<String>)
    ensures
        rest.deep_view() == path_strip_prefix(path@, base@),
{
    std::path::Path::new(path).strip_prefix(base).ok().map(|p| p.to_string_lossy().into_owned())
}

/// Calls `std::path::Path::join`. The contract only gives the result its
/// name, [`path_join`]; where separators go, and that an absolute `rest`
/// replaces `base`, is left to the standard library. Both arguments are
/// valid UTF-8, so the joined path is too.
#[verifier::external_body]
pub(crate) fn join(base: &str, rest: &str) -> (joined: String)
    ensures
        joined@ == path_join(base@, rest@),
{
    std::path::Path::new(base).join(rest).to_string_lossy().into_owned()
}

/// Calls `home::home_dir`, which asks the process environment and the
/// operating system for the current user's home directory. Nothing is
/// claimed of the answer. A home directory that is not valid UTF-8 comes
/// back with the offending bytes replaced.
#[verifier::external_body]
fn home_dir() -> (home: Option<String>) {
    home::home_dir().map(|p| p.to_string_lossy().into_owned())
}

/// The base that paths are joined onto, given what looking for the home
/// directory gave: the home directory, or the empty path where there is
/// none.
pub fn base_or_empty(home: Option<String>) -> (base: String)
    ensures
        base@ == match home {
            Some(home) => home@,
            None => Seq::<char>::empty(),
        },
{
    match home {
        Some(home) => home,
        None => String::new(),
    }
}

/// The current user's home directory, or the empty path where it cannot be
/// determined. Which of the two depends on the environment alone;
/// [`base_or_empty`] says what becomes of either answer.
pub(crate) fn home_or_default() -> String {
    base_or_empty(home_dir())
}

/// An open git repository, as `git2` holds it. Nothing is known of its
/// inside.
#[verifier::external_type_specification]
#[verifier::external_body]
pub struct ExRepository(git2::Repository);

/// Calls `git2::Repository::open_ext` without flags or ceiling directories:
/// looks for a repository at `cwd` or above it. Every failure to open a
/// repository counts as "not in a repository".
///
/// Whether there is a repository depends on what is on disk, with one
/// exception that the contract states: `git2` turns the path into a C
/// string before it looks at the disk and fails where that cannot be done,
/// so a path that holds a NUL character lies in no repository.
///
/// No argument makes the call panic; it does so only where libgit2 itself
/// cannot be initialized.
#[verifier::external_body]
fn open_repository(cwd: &str) -> (repository: Option<git2::Repository>)
    ensures
        cwd@.contains('\0') ==> repository is None,
{
    git2::Repository::open_ext(cwd, git2::RepositoryOpenFlags::empty(), Vec::<&str>::new()).ok()
}

/// Calls `git2::Repository::workdir`: the working directory of the
/// repository, `None` for a bare one. Nothing is claimed of the answer. A
/// path that is not valid UTF-8 comes back with the offending bytes
/// replaced.
#[verifier::external_body]
fn working_directory(repository: &git2::Repository) -> (root: Option<String>) {
    repository.workdir().map(|p| p.to_string_lossy().into_owned())
}

/// The working tree root, given what looking for a repository gave:
/// `found` is `None` where there is no repository, and else holds the
/// repository's working directory, which a bare repository has none of.
/// Only a repository with a working directory gives a root.
pub fn working_tree_root(found: Option<Option<String>>) -> (root: Option<String>)
    ensures
        root.deep_view() == match found {
            Some(Some(directory)) => Some(directory@),
            _ => None::<Seq<char>>,
        },
{
    match found {
        Some(Some(directory)) => Some(directory),
        _ => None,
    }
}

/// Find git root: the working tree root of the repository that `cwd` lies
/// in, `None` where it lies in none or the repository is bare.
///
/// What is on disk decides, and [`working_tree_root`] says what becomes of
/// each answer. Only for a `cwd` that holds a NUL character is the answer
/// known beforehand: no directory has such a path, so there is no root.
pub fn git_root(cwd: &str) -> (root: Option<String>)
    ensures
        cwd@.contains('\0') ==> root is None,
{
    let found = match open_repository(cwd) {
        Some(repository) => Some(working_directory(&repository)),
        None => None,
    };
    working_tree_root(found)
}

/// `path` with a leading `~` component replaced by `home`: what is left
/// after the marker is joined onto `home`. A path without the marker stays
/// as it is.
pub open spec fn expand(path: Seq<char>, home: Seq<char>) -> Seq<char> {
    match path_strip_prefix(path, "~"@) {
        Some(rest) => path_join(home, rest),
        None => path,
    }
}

/// The expansion of `path`, given what is left of it after the marker:
/// `after_marker` joined onto `home`, or `path` itself where it does not
/// start with the marker.
pub fn replace_marker(path: &str, after_marker: Option<&str>, home: &str) -> (expanded: String)
    ensures
        expanded@ == match after_marker {
            Some(rest) => path_join(home@, rest@),
            None => path@,
        },
{
    match after_marker {
        Some(rest) => join(home, rest),
        None => path.to_owned(),
    }
}

/// Replaces `~` at the beginning of a path with `home`.
pub fn extend_home_in(path: &str, home: &str) -> (expanded: String)
    ensures
        expanded@ == expand(path@, home@),
{
    match strip_prefix(path, "~") {
        Some(rest) => replace_marker(path, Some(rest.as_str()), home),
        None => replace_marker(path, None, home),
    }
}

/// Replaces `~` at the beginning of a path with the current user's home
/// directory. Never fails: where the home directory cannot be determined,
/// the rest of the path is joined onto the empty path.
pub fn extend_home(path: &str) -> (expanded: String)
    ensures
        match path_strip_prefix(path@, "~"@) {
            Some(rest) => exists|home: Seq<char>| expanded@ == path_join(home, rest),
            None => expanded@ == path@,
        },
{
    match strip_prefix(path, "~") {
        Some(rest) => {
            let home = home_or_default();
            let expanded = replace_marker(path, Some(rest.as_str()), home.as_str());
            proof {
                let left = path_strip_prefix(path@, "~"@)->Some_0;
                assert(left == rest@);
                assert(expanded@ == path_join(home@, left));
            }
            expanded
        },
        None => replace_marker(path, None, ""),
    }
}

/// The repository tier: each template joined onto the working tree root,
/// in configured order; nothing outside a working tree.
pub open spec fn repository_directories(
    templates: Seq<Seq<char>>,
    root: Option<Seq<char>>,
) -> Seq<Seq<char>> {
    match root {
        Some(root) => templates.map_values(|template: Seq<char>| path_join(root, template)),
        None => Seq::empty(),
    }
}

/// The user tier: each template with the home marker expanded, in
/// configured order.
pub open spec fn user_directories(templates: Seq<Seq<char>>, home: Seq<char>) -> Seq<Seq<char>> {
    templates.map_values(|template: Seq<char>| expand(template, home))
}

/// All script directories from high to low priority: the repository tier,
/// then the user tier, then the system tier as configured.
pub open spec fn directories(
    paths: ScriptPathsModel,
    root: Option<Seq<char>>,
    home: Seq<char>,
) -> Seq<Seq<char>> {
    repository_directories(paths.repository, root) + user_directories(paths.user, home)
        + paths.system
}

/// The script directories of `config`, in order from high to low priority,
/// for a working tree rooted at `root` (if any) and the home directory
/// `home`.
pub fn directories_in(config: &Config, root: Option<&str>, home: &str) -> (dirs: Vec<String>)
    ensures
        dirs.deep_view() == directories(
            config.paths.scripts.deep_view(),
            root.deep_view(),
            home@,
        ),
{
    let scripts = &config.paths.scripts;
    let ghost paths = scripts.deep_view();
    let ghost repo_tier = repository_directories(paths.repository, root.deep_view());
    let ghost user_tier = user_directories(paths.user, home@);
    let mut dirs: Vec<String> = Vec::new();

    if let Some(root) = root {
        let mut i: usize = 0;
        while i < scripts.repository.len()
            invariant
                i <= scripts.repository.len(),
                paths == scripts.deep_view(),
                repo_tier == repository_directories(paths.repository, Some(root@)),
                dirs.deep_view() == repo_tier.take(i as int),
            decreases scripts.repository.len() - i,
        {
            let dir = join(root, scripts.repository[i].as_str());
            dirs.push(dir);
            proof {
                assert(dirs.deep_view() =~= repo_tier.take(i as int).push(repo_tier[i as int]));
                assert(repo_tier.take(i as int).push(repo_tier[i as int]) =~= repo_tier.take(
                    i + 1,
                ));
            }
            i += 1;
        }
        proof {
            assert(repo_tier.take(i as int) =~= repo_tier);
        }
    }
    assert(dirs.deep_view() =~= repo_tier);

    let mut i: usize = 0;
    while i < scripts.user.len()
        invariant
            i <= scripts.user.len(),
            paths == scripts.deep_view(),
            user_tier == user_directories(paths.user, home@),
            dirs.deep_view() == repo_tier + user_tier.take(i as int),
        decreases scripts.user.len() - i,
    {
        let dir = extend_home_in(scripts.user[i].as_str(), home);
        dirs.push(dir);
        proof {
            assert(dirs.deep_view() =~= (repo_tier + user_tier.take(i as int)).push(
                user_tier[i as int],
            ));
            assert((repo_tier + user_tier.take(i as int)).push(user_tier[i as int]) =~= repo_tier
                + user_tier.take(i + 1));
        }
        i += 1;
    }
    proof {
        assert(user_tier.take(i as int) =~= user_tier);
    }

    let mut i: usize = 0;
    while i < scripts.system.len()
        invariant
            i <= scripts.system.len(),
            paths == scripts.deep_view(),
            dirs.deep_view() == repo_tier + user_tier + paths.system.take(i as int),
        decreases scripts.system.len() - i,
    {
        dirs.push(scripts.system[i].clone());
        proof {
            assert(dirs.deep_view() =~= (repo_tier + user_tier + paths.system.take(i as int)).push(
                paths.system[i as int],
            ));
            assert((repo_tier + user_tier + paths.system.take(i as int)).push(
                paths.system[i as int],
            ) =~= repo_tier + user_tier + paths.system.take(i + 1));
        }
        i += 1;
    }
    proof {
        assert(paths.system.take(i as int) =~= paths.system);
    }
    dirs
}

/// Get all configured script directories, in order from high to low
/// priority, for a process whose working directory is `cwd`.
///
/// The working tree root and the home directory are looked up once; the
/// list is what [`directories`] makes of them, whatever they are.
pub fn directories_iter(config: &Config, cwd: &str) -> (dirs: Vec<String>)
    ensures
        exists|root: Option<Seq<char>>, home: Seq<char>|
            dirs.deep_view() == directories(config.paths.scripts.deep_view(), root, home),
{
    let root = git_root(cwd);
    let home = home_or_default();
    let dirs = match &root {
        Some(root) => directories_in(config, Some(root.as_str()), home.as_str()),
        None => directories_in(config, None, home.as_str()),
    };
    assert(dirs.deep_view() == directories(
        config.paths.scripts.deep_view(),
        root.deep_view(),
        home@,
    ));
    dirs
}

/// Outside any working tree the repository tier contributes no directory:
/// the list is the user tier followed by the system tier.
pub proof fn lemma_no_repository_tier_without_root(paths: ScriptPathsModel, home: Seq<char>)
    ensures
        directories(paths, None, home) == user_directories(paths.user, home) + paths.system,
        directories(paths, None, home).len() == paths.user.len() + paths.system.len(),
{
    assert(directories(paths, None, home) =~= user_directories(paths.user, home) + paths.system);
}

/// The tiers come in priority order, each in configured order: first every
/// repository directory, then every user directory, then every system
/// directory.
pub proof fn lemma_tiers_in_priority_order(
    paths: ScriptPathsModel,
    root: Seq<char>,
    home: Seq<char>,
)
    ensures
        directories(paths, Some(root), home).len() == paths.repository.len() + paths.user.len()
            + paths.system.len(),
        forall|i: int|
            0 <= i < paths.repository.len() ==> #[trigger] directories(paths, Some(root), home)[i]
                == path_join(root, paths.repository[i]),
        forall|i: int|
            0 <= i < paths.user.len() ==> #[trigger] directories(
                paths,
                Some(root),
                home,
            )[paths.repository.len() + i] == expand(paths.user[i], home),
        forall|i: int|
            0 <= i < paths.system.len() ==> #[trigger] directories(
                paths,
                Some(root),
                home,
            )[paths.repository.len() + paths.user.len() + i] == paths.system[i],
{
}

} // verus!

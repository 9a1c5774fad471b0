//! Configuration data structures.

use vstd::prelude::*;
use vstd::string::*;

use crate::path::{git_root, home_or_default, join, path_join};

pub mod reader;

verus! {

/// Main configuration data structure.
///
/// Use [`default()`](Self::default) to obtain the default configuration.
#[derive(Debug, PartialEq)]
pub struct Config {
    /// Options specifying paths or lists of paths
    pub paths: Paths,
}

/// Options specifying paths or lists of paths
#[derive(Debug, PartialEq)]
pub struct Paths {
    /// Search paths for script files
    pub scripts: ScriptPaths,
}

/// Search paths for script files. Within each list, earlier entries are
/// searched first.
#[derive(Debug, PartialEq)]
pub struct ScriptPaths {
    /// List of directories containing system-wide scripts.
    ///
    /// (Default: `/usr/share/devscripts`, `/usr/local/share/devscripts`)
    pub system: Vec<String>,
    /// List of directories containing user-specific scripts. A leading `~`
    /// stands for the home directory.
    ///
    /// (Default: `~/.local/share/devscripts`)
    pub user: Vec<String>,
    /// List of directories containing repository-specific scripts.
    ///
    /// These paths are expected to be relative to the root directory of a git
    /// repository if the current working directory is located inside a git
    /// repository. If not inside of a git repository, this option is ignored.
    ///
    /// (Default: `./.devscripts`)
    pub repository: Vec<String>,
}

/// Mathematical model of [`ScriptPaths`]: three ordered lists of path
/// templates.
pub struct ScriptPathsModel {
    pub system: Seq<Seq<char>>,
    pub user: Seq<Seq<char>>,
    pub repository: Seq<Seq<char>>,
}

impl DeepView for ScriptPaths {
    type V = ScriptPathsModel;

    open spec fn deep_view(&self) -> ScriptPathsModel {
        ScriptPathsModel {
            system: self.system.deep_view(),
            user: self.user.deep_view(),
            repository: self.repository.deep_view(),
        }
    }
}

impl DeepView for Paths {
    type V = ScriptPathsModel;

    open spec fn deep_view(&self) -> ScriptPathsModel {
        self.scripts.deep_view()
    }
}

impl DeepView for Config {
    type V = ScriptPathsModel;

    open spec fn deep_view(&self) -> ScriptPathsModel {
        self.paths.deep_view()
    }
}

impl Clone for ScriptPaths {
    fn clone(&self) -> (copy: Self)
        ensures
            copy.deep_view() == self.deep_view(),
    {
        let system = self.system.clone();
        let user = self.user.clone();
        let repository = self.repository.clone();
        proof {
            assert(system@ =~= self.system@);
            assert(user@ =~= self.user@);
            assert(repository@ =~= self.repository@);
        }
        ScriptPaths { system, user, repository }
    }
}

impl Clone for Paths {
    fn clone(&self) -> (copy: Self)
        ensures
            copy.deep_view() == self.deep_view(),
    {
        Paths { scripts: self.scripts.clone() }
    }
}

impl Clone for Config {
    fn clone(&self) -> (copy: Self)
        ensures
            copy.deep_view() == self.deep_view(),
    {
        Config { paths: self.paths.clone() }
    }
}

/// The search paths used where nothing else is configured.
pub open spec fn default_script_paths() -> ScriptPathsModel {
    ScriptPathsModel {
        system: seq!["/usr/share/devscripts"@, "/usr/local/share/devscripts"@],
        user: seq!["~/.local/share/devscripts"@],
        repository: seq!["./.devscripts"@],
    }
}

impl Default for ScriptPaths {
    fn default() -> (paths: Self)
        ensures
            paths.deep_view() == default_script_paths(),
    {
        let system = vec![
            "/usr/share/devscripts".to_owned(),
            "/usr/local/share/devscripts".to_owned(),
        ];
        let user = vec!["~/.local/share/devscripts".to_owned()];
        let repository = vec!["./.devscripts".to_owned()];
        proof {
            assert(system.deep_view() =~= default_script_paths().system);
            assert(user.deep_view() =~= default_script_paths().user);
            assert(repository.deep_view() =~= default_script_paths().repository);
        }
        ScriptPaths { system, user, repository }
    }
}

impl Default for Paths {
    fn default() -> (paths: Self)
        ensures
            paths.deep_view() == default_script_paths(),
    {
        Paths { scripts: ScriptPaths::default() }
    }
}

impl Default for Config {
    fn default() -> (config: Self)
        ensures
            config.deep_view() == default_script_paths(),
    {
        Config { paths: Paths::default() }
    }
}

/// The configuration files that are merged over the defaults, later files
/// overriding earlier ones: the system-wide file, the user's file below
/// `home`, and, inside a working tree rooted at `root`, the repository's
/// file.
pub open spec fn config_files(home: Seq<char>, root: Option<Seq<char>>) -> Seq<Seq<char>> {
    let general = seq![
        "/etc/devscripts/config.toml"@,
        path_join(home, "./.config/devscripts/config.toml"@),
    ];
    match root {
        Some(root) => general.push(path_join(root, "./.devscripts/.config.toml"@)),
        None => general,
    }
}

impl Config {
    /// The configuration files to merge over the defaults, in merge order,
    /// for the home directory `home` and a working tree rooted at `root`
    /// (if any).
    pub fn files_in(home: &str, root: Option<&str>) -> (files: Vec<String>)
        ensures
            files.deep_view() == config_files(home@, root.deep_view()),
    {
        let mut files: Vec<String> = Vec::new();
        files.push("/etc/devscripts/config.toml".to_owned());
        files.push(join(home, "./.config/devscripts/config.toml"));
        if let Some(root) = root {
            files.push(join(root, "./.devscripts/.config.toml"));
        }
        assert(files.deep_view() =~= config_files(home@, root.deep_view()));
        files
    }

    /// The default configuration files, in merge order, for a process
    /// whose working directory is `cwd`:
    ///   - `/etc/devscripts/config.toml`
    ///   - `~/.config/devscripts/config.toml`
    ///   - `<repository-root>/.devscripts/.config.toml`.
    pub fn files(cwd: &str) -> (files: Vec<String>)
        ensures
            exists|home: Seq<char>, root: Option<Seq<char>>|
                files.deep_view() == config_files(home, root),
    {
        let home = home_or_default();
        let root = git_root(cwd);
        let files = match &root {
            Some(root) => Config::files_in(home.as_str(), Some(root.as_str())),
            None => Config::files_in(home.as_str(), None),
        };
        assert(files.deep_view() == config_files(home@, root.deep_view()));
        files
    }
}

} // verus!

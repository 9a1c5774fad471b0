//! Utilities for reading configuration from a list of files, each of which
//! may be required or optional.

use vstd::prelude::*;
use vstd::string::*;

use crate::listing::{FailureModel, IoFailure};
use crate::path::{home_or_default, join, path_join};

verus! {

/// The error type associated with [`ConfigReader`].
#[derive(Debug, PartialEq, Eq)]
pub enum ReaderError {
    /// Building configuration failed. Contains the cause as text.
    ConfigBuilder(String),
    /// A required file does not exist. Contains the file path.
    FileNotFound(String),
    /// An I/O operation failed.
    Io(IoFailure),
}

/// Mathematical model of a [`ReaderError`].
pub enum ReaderErrorModel {
    ConfigBuilder(Seq<char>),
    FileNotFound(Seq<char>),
    Io(FailureModel),
}

impl DeepView for ReaderError {
    type V = ReaderErrorModel;

    open spec fn deep_view(&self) -> ReaderErrorModel {
        match self {
            ReaderError::ConfigBuilder(cause) => ReaderErrorModel::ConfigBuilder(cause@),
            ReaderError::FileNotFound(path) => ReaderErrorModel::FileNotFound(path@),
            ReaderError::Io(failure) => ReaderErrorModel::Io(failure.deep_view()),
        }
    }
}

/// The text that describes a [`ReaderError`].
pub open spec fn reader_error_text(error: ReaderErrorModel) -> Seq<char> {
    match error {
        ReaderErrorModel::ConfigBuilder(cause) => cause,
        ReaderErrorModel::FileNotFound(path) => "required file does not exist: "@ + path,
        ReaderErrorModel::Io(failure) => "I/O operation failed: "@ + failure.message,
    }
}

impl ReaderError {
    /// Describes the error for the user.
    pub fn message(&self) -> (text: String)
        ensures
            text@ == reader_error_text(self.deep_view()),
    {
        match self {
            ReaderError::ConfigBuilder(cause) => cause.clone(),
            ReaderError::FileNotFound(path) => {
                let mut text = "required file does not exist: ".to_owned();
                text.append(path.as_str());
                text
            },
            ReaderError::Io(failure) => {
                let mut text = "I/O operation failed: ".to_owned();
                text.append(failure.message.as_str());
                text
            },
        }
    }
}

/// What probing one configured file means for the read: `Ok(true)` where
/// the file is to be loaded, `Ok(false)` where it is passed over.
///
/// A probe that failed fails the read. A file that exists is loaded. A
/// file that does not exist is passed over unless it is required, in which
/// case the read fails and names it.
pub open spec fn admission(
    path: Seq<char>,
    required: bool,
    probe: Result<bool, FailureModel>,
) -> Result<bool, ReaderErrorModel> {
    match probe {
        Err(failure) => Err(ReaderErrorModel::Io(failure)),
        Ok(exists) => if exists {
            Ok(true)
        } else if required {
            Err(ReaderErrorModel::FileNotFound(path))
        } else {
            Ok(false)
        },
    }
}

/// The files that a read loads, in the order in which they were added, or
/// the error of the first file whose probe fails the read. Files after that
/// one are not looked at.
pub open spec fn sources(
    paths: Seq<(Seq<char>, bool)>,
    probes: Seq<Result<bool, FailureModel>>,
) -> Result<Seq<Seq<char>>, ReaderErrorModel>
    recommends
        paths.len() == probes.len(),
    decreases paths.len(),
{
    if paths.len() == 0 {
        Ok(Seq::empty())
    } else {
        match sources(paths.drop_last(), probes.drop_last()) {
            Err(error) => Err(error),
            Ok(loaded) => match admission(paths.last().0, paths.last().1, probes.last()) {
                Err(error) => Err(error),
                Ok(load) => Ok(
                    if load {
                        loaded.push(paths.last().0)
                    } else {
                        loaded
                    },
                ),
            },
        }
    }
}

/// Mathematical model of what probing one file gave: whether it exists,
/// or why that could not be told.
pub open spec fn probe_view(probe: Result<bool, IoFailure>) -> Result<bool, FailureModel> {
    match probe {
        Ok(exists) => Ok(exists),
        Err(failure) => Err(failure.deep_view()),
    }
}

/// Mathematical model of what probing the configured files gave.
pub open spec fn probes_view(probes: Seq<Result<bool, IoFailure>>) -> Seq<
    Result<bool, FailureModel>,
> {
    probes.map_values(|probe: Result<bool, IoFailure>| probe_view(probe))
}

/// Mathematical model of a decision on one file.
pub open spec fn decision_view(decision: Result<bool, ReaderError>) -> Result<
    bool,
    ReaderErrorModel,
> {
    match decision {
        Ok(load) => Ok(load),
        Err(error) => Err(error.deep_view()),
    }
}

/// Helper struct to read configuration with priority levels (i.e. from
/// multiple files).
///
/// It is recommended to use [`with_default_paths()`](Self::with_default_paths)
/// to obtain a new instance.
#[derive(Debug, PartialEq, Eq)]
pub struct ConfigReader {
    /// List of configured paths in the form `(path, required)`. If
    /// `required == true`, [`read()`](Self::read) will return an error if
    /// the file does not exist.
    paths: Vec<(String, bool)>,
}

impl DeepView for ConfigReader {
    type V = Seq<(Seq<char>, bool)>;

    closed spec fn deep_view(&self) -> Seq<(Seq<char>, bool)> {
        self.paths.deep_view()
    }
}

/// The files that are read where nothing else is configured, none of them
/// required.
pub open spec fn default_config_paths(home: Seq<char>) -> Seq<(Seq<char>, bool)> {
    seq![
        ("/etc/devtools/config.toml"@, false),
        (path_join(home, "./.config/devtools/config.toml"@), false),
        ("./.devtools/config.toml"@, false),
    ]
}

impl ConfigReader {
    /// Obtain a new instance without any file paths configured. Use
    /// [`add_path()`](Self::add_path) to add paths.
    pub fn new() -> (reader: Self)
        ensures
            reader.deep_view() == Seq::<(Seq<char>, bool)>::empty(),
    {
        let reader = ConfigReader { paths: Vec::new() };
        assert(reader.paths.deep_view() =~= Seq::empty());
        reader
    }

    /// Creates a new instance with the default configuration file paths
    /// for the home directory `home`.
    pub fn with_default_paths_in(home: &str) -> (reader: Self)
        ensures
            reader.deep_view() == default_config_paths(home@),
    {
        let mut paths: Vec<(String, bool)> = Vec::new();
        paths.push(("/etc/devtools/config.toml".to_owned(), false));
        paths.push((join(home, "./.config/devtools/config.toml"), false));
        paths.push(("./.devtools/config.toml".to_owned(), false));
        assert(paths.deep_view() =~= default_config_paths(home@));
        ConfigReader { paths }
    }

    /// Creates a new instance with default configuration file paths configured.
    /// Default files:
    ///   - `/etc/devtools/config.toml`
    ///   - `~/.config/devtools/config.toml`
    ///   - `./.devtools/config.toml`.
    ///
    /// None of those files are required.
    /// No error will be returned if any of them does not exist.
    pub fn with_default_paths() -> (reader: Self)
        ensures
            exists|home: Seq<char>| reader.deep_view() == default_config_paths(home),
    {
        let home = home_or_default();
        let reader = ConfigReader::with_default_paths_in(home.as_str());
        assert(reader.deep_view() == default_config_paths(home@));
        reader
    }

    /// Add configuration file by path. The order in which files are added is
    /// significant, later added files will override earlier added files if their
    /// configuration values overlap.
    ///
    /// If `required == true`, [`read()`](Self::read) will return an error if
    /// the file does not exist.
    pub fn add_path(self, path: &str, required: bool) -> (reader: Self)
        ensures
            reader.deep_view() == self.deep_view().push((path@, required)),
    {
        let mut paths = self.paths;
        let ghost before = paths.deep_view();
        paths.push((path.to_owned(), required));
        assert(paths.deep_view() =~= before.push((path@, required)));
        ConfigReader { paths }
    }

    /// The configured files in the form `(path, required)`, in the order in
    /// which they were added.
    pub fn paths(&self) -> (paths: &Vec<(String, bool)>)
        ensures
            paths.deep_view() == self.deep_view(),
    {
        &self.paths
    }

    /// Decides for one configured file, from what probing it gave, whether
    /// it is loaded (`Ok(true)`), passed over (`Ok(false)`), or fails the read.
    pub fn decide(path: &str, required: bool, probe: Result<bool, IoFailure>) -> (decision: Result<
        bool,
        ReaderError,
    >)
        ensures
            decision_view(decision) == admission(path@, required, probe_view(probe)),
    {
        match probe {
            Err(failure) => Err(ReaderError::Io(failure)),
            Ok(exists) => {
                if exists {
                    Ok(true)
                } else if required {
                    Err(ReaderError::FileNotFound(path.to_owned()))
                } else {
                    Ok(false)
                }
            },
        }
    }

    /// Decides which of the configured files are loaded, given for each of
    /// them, in order, whether it exists.
    ///
    /// # Errors
    ///
    /// Will return an error if:
    ///   - any file configured as required does not exist
    ///   - probing a file failed
    pub fn read(self, probes: &Vec<Result<bool, IoFailure>>) -> (outcome: Result<
        Vec<String>,
        ReaderError,
    >)
        requires
            probes.len() == self.deep_view().len(),
        ensures
            match sources(self.deep_view(), probes_view(probes@)) {
                Ok(files) => outcome matches Ok(loaded) && loaded.deep_view() == files,
                Err(error) => outcome matches Err(e) && e.deep_view() == error,
            },
    {
        let ghost all_paths = self.paths.deep_view();
        let ghost all_probes = probes_view(probes@);
        let mut loaded: Vec<String> = Vec::new();
        let mut i: usize = 0;
        proof {
            assert(loaded.deep_view() =~= Seq::empty());
        }
        while i < self.paths.len()
            invariant
                i <= self.paths.len(),
                probes.len() == self.paths.len(),
                all_paths == self.paths.deep_view(),
                all_probes == probes_view(probes@),
                sources(all_paths.take(i as int), all_probes.take(i as int)) == Ok::<
                    Seq<Seq<char>>,
                    ReaderErrorModel,
                >(loaded.deep_view()),
            decreases self.paths.len() - i,
        {
            let ghost so_far = loaded.deep_view();
            let path = &self.paths[i].0;
            let required = self.paths[i].1;
            let probe = match &probes[i] {
                Ok(exists) => Ok(*exists),
                Err(failure) => Err(failure.clone()),
            };
            proof {
                assert(probe_view(probe) == all_probes[i as int]);
                assert(all_paths[i as int] == (path@, required));
                assert(all_paths.take(i + 1).drop_last() =~= all_paths.take(i as int));
                assert(all_probes.take(i + 1).drop_last() =~= all_probes.take(i as int));
                assert(all_paths.take(i + 1).last() == all_paths[i as int]);
                assert(all_probes.take(i + 1).last() == all_probes[i as int]);
            }
            match ConfigReader::decide(path.as_str(), required, probe) {
                Err(error) => {
                    proof {
                        assert(sources(all_paths.take(i + 1), all_probes.take(i + 1)) == Err::<
                            Seq<Seq<char>>,
                            ReaderErrorModel,
                        >(error.deep_view()));
                        lemma_sources_stop_at_first_error(all_paths, all_probes, i + 1);
                    }
                    return Err(error);
                },
                Ok(load) => {
                    if load {
                        loaded.push(path.clone());
                        assert(loaded.deep_view() =~= so_far.push(path@));
                    }
                },
            }
            i += 1;
        }
        proof {
            assert(all_paths.take(i as int) =~= all_paths);
            assert(all_probes.take(i as int) =~= all_probes);
        }
        Ok(loaded)
    }
}

impl Default for ConfigReader {
    /// Returns the same as [`with_default_paths()`](Self::with_default_paths).
    fn default() -> (reader: Self)
        ensures
            exists|home: Seq<char>| reader.deep_view() == default_config_paths(home),
    {
        ConfigReader::with_default_paths()
    }
}

/// An error among the first `upto` files is the outcome of the whole read:
/// the files after it are not looked at.
pub proof fn lemma_sources_stop_at_first_error(
    paths: Seq<(Seq<char>, bool)>,
    probes: Seq<Result<bool, FailureModel>>,
    upto: int,
)
    requires
        paths.len() == probes.len(),
        0 <= upto <= paths.len(),
        sources(paths.take(upto), probes.take(upto)) is Err,
    ensures
        sources(paths, probes) == sources(paths.take(upto), probes.take(upto)),
    decreases paths.len() - upto,
{
    if upto < paths.len() {
        assert(paths.take(upto + 1).drop_last() =~= paths.take(upto));
        assert(probes.take(upto + 1).drop_last() =~= probes.take(upto));
        lemma_sources_stop_at_first_error(paths, probes, upto + 1);
    } else {
        assert(paths.take(upto) =~= paths);
        assert(probes.take(upto) =~= probes);
    }
}

} // verus!

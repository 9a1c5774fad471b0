//! Running a script: which file is spawned, and what the way the child
//! ended means for the caller.
//!
//! Spawning and waiting are left to the caller. What is decided here is
//! what comes before and after: which error a failed search is, and which
//! exit code reports the outcome.

use vstd::prelude::*;
use vstd::string::*;

use crate::listing::{FailureModel, IoFailure, ListingModel};
use crate::scripts::laws::lemma_unlisted_is_not_found;
use crate::scripts::{find, lists, outcome_view, step, Outcome};

verus! {

/// Error type associated with running a script.
#[derive(Debug, PartialEq, Eq)]
pub enum RunError {
    /// An I/O operation failed.
    Io(IoFailure),
    /// Script could not be found. Contains the script's name.
    ScriptNotFound(String),
}

/// Mathematical model of a [`RunError`].
pub enum RunErrorModel {
    Io(FailureModel),
    ScriptNotFound(Seq<char>),
}

impl DeepView for RunError {
    type V = RunErrorModel;

    open spec fn deep_view(&self) -> RunErrorModel {
        match self {
            RunError::Io(failure) => RunErrorModel::Io(failure.deep_view()),
            RunError::ScriptNotFound(name) => RunErrorModel::ScriptNotFound(name@),
        }
    }
}

impl From<IoFailure> for RunError {
    fn from(failure: IoFailure) -> (error: RunError) {
        RunError::Io(failure)
    }
}

impl vstd::std_specs::convert::FromSpecImpl<IoFailure> for RunError {
    open spec fn obeys_from_spec() -> bool {
        true
    }

    open spec fn from_spec(failure: IoFailure) -> RunError {
        RunError::Io(failure)
    }
}

/// How `std::fmt::Debug` writes a string: in double quotes, with the
/// characters that need it escaped. It depends on the string alone.
pub uninterp spec fn debug_quoted(text: Seq<char>) -> Seq<char>;

/// Formats `text` with `std::fmt::Debug`. The contract only gives the
/// result its name, [`debug_quoted`]; which characters are escaped, and
/// how, is left to the standard library.
#[verifier::external_body]
fn quote(text: &str) -> (quoted: String)
    ensures
        quoted@ == debug_quoted(text@),
{
    format!("{:?}", text)
}

/// The text that describes a [`RunError`].
pub open spec fn run_error_text(error: RunErrorModel) -> Seq<char> {
    match error {
        RunErrorModel::Io(failure) => "I/O operation failed: "@ + failure.message,
        RunErrorModel::ScriptNotFound(name) => "Script "@ + debug_quoted(name)
            + " could not be found."@,
    }
}

impl RunError {
    /// Describes the error for the user.
    pub fn message(&self) -> (text: String)
        ensures
            text@ == run_error_text(self.deep_view()),
    {
        match self {
            RunError::Io(failure) => {
                let mut text = "I/O operation failed: ".to_owned();
                text.append(failure.message.as_str());
                text
            },
            RunError::ScriptNotFound(name) => {
                let quoted = quote(name.as_str());
                let mut text = "Script ".to_owned();
                text.append(quoted.as_str());
                text.append(" could not be found.");
                text
            },
        }
    }
}

/// What the search for the script called `name` means for running it: the
/// path of the file to spawn, or the error that ends the run.
pub open spec fn resolution(name: Seq<char>, found: Outcome) -> Result<Seq<char>, RunErrorModel> {
    match found {
        Ok(Some(path)) => Ok(path),
        Ok(None) => Err(RunErrorModel::ScriptNotFound(name)),
        Err(failure) => Err(RunErrorModel::Io(failure)),
    }
}

/// Mathematical model of a resolution.
pub open spec fn resolution_view(resolved: Result<String, RunError>) -> Result<
    Seq<char>,
    RunErrorModel,
> {
    match resolved {
        Ok(path) => Ok(path@),
        Err(error) => Err(error.deep_view()),
    }
}

/// First step of running the script called `name`: from what the search
/// gave, the file to spawn. A search that found nothing fails the run with
/// [`RunError::ScriptNotFound`], a failed search with [`RunError::Io`].
pub fn resolve(name: &str, found: Result<Option<String>, IoFailure>) -> (resolved: Result<
    String,
    RunError,
>)
    ensures
        resolution_view(resolved) == resolution(name@, outcome_view(found)),
{
    match found {
        Ok(Some(path)) => Ok(path),
        Ok(None) => Err(RunError::ScriptNotFound(name.to_owned())),
        Err(failure) => Err(RunError::Io(failure)),
    }
}

/// How a child process ended, as the operating system reported it.
#[derive(Clone, Copy, Debug, PartialEq, Eq)]
pub struct Termination {
    /// The exit code, where the child exited on its own.
    pub code: Option<i32>,
    /// The number of the signal that terminated the child, where one did.
    pub signal: Option<i32>,
}

/// What running a script came to.
pub type RunOutcome = Result<Termination, RunError>;

/// Mathematical model of a [`RunOutcome`].
pub type RunOutcomeModel = Result<Termination, RunErrorModel>;

/// Mathematical model of the outcome of a run.
pub open spec fn run_outcome_view(outcome: RunOutcome) -> RunOutcomeModel {
    match outcome {
        Ok(status) => Ok(status),
        Err(error) => Err(error.deep_view()),
    }
}

/// What spawning the script and waiting for the child means for the run:
/// the way the child ended, or the I/O failure that kept it from being
/// spawned or waited for.
pub open spec fn conclusion(child: Result<Termination, FailureModel>) -> RunOutcomeModel {
    match child {
        Ok(status) => Ok(status),
        Err(failure) => Err(RunErrorModel::Io(failure)),
    }
}

/// Mathematical model of what spawning and waiting gave.
pub open spec fn child_view(child: Result<Termination, IoFailure>) -> Result<
    Termination,
    FailureModel,
> {
    match child {
        Ok(status) => Ok(status),
        Err(failure) => Err(failure.deep_view()),
    }
}

/// Last step of running a script: from what spawning the file and waiting
/// for the child gave, the outcome of the run.
pub fn conclude(child: Result<Termination, IoFailure>) -> (outcome: RunOutcome)
    ensures
        run_outcome_view(outcome) == conclusion(child_view(child)),
{
    match child {
        Ok(status) => Ok(status),
        Err(failure) => Err(RunError::from(failure)),
    }
}

/// The exit code that "command not found" is reported with.
pub const EXIT_NOT_FOUND: u8 = 127;

/// The exit code that an I/O failure is reported with.
pub const EXIT_FAILURE: u8 = 1;

/// The exit code that reports how the child ended: its own exit code where
/// it has one, else 128 plus the number of the signal that terminated it.
/// An exit code is one byte, so larger numbers wrap around.
pub open spec fn status_code(status: Termination) -> int {
    match status.code {
        Some(code) => (code as int) % 256,
        None => match status.signal {
            Some(signal) => (128 + signal) % 256,
            None => 128,
        },
    }
}

/// The exit code that reports the outcome of a run.
pub open spec fn outcome_code(outcome: RunOutcomeModel) -> int {
    match outcome {
        Ok(status) => status_code(status),
        Err(RunErrorModel::ScriptNotFound(_)) => EXIT_NOT_FOUND as int,
        Err(RunErrorModel::Io(_)) => EXIT_FAILURE as int,
    }
}

/// The exit code that reports how the child ended.
pub fn status_exit_code(status: Termination) -> (code: u8)
    ensures
        code == status_code(status),
        status.code matches Some(own) ==> (0 <= own < 256 ==> code == own),
        status.code is None ==> (status.signal matches Some(signal) ==> (0 <= signal < 128 ==> code
            == 128 + signal)),
{
    match status.code {
        Some(own) => {
            let code = #[verifier::truncate] (own as u8);
            assert(code == own % 256) by (bit_vector)
                requires
                    code == own as u8,
            ;
            code
        },
        None => {
            let signal = match status.signal {
                Some(signal) => signal,
                None => 0,
            };
            let low = #[verifier::truncate] (signal as u8);
            assert(low == signal % 256) by (bit_vector)
                requires
                    low == signal as u8,
            ;
            low.wrapping_add(128)
        },
    }
}

/// The exit code that reports the outcome of a run: the child's own code
/// where it has one, 128 plus the signal number where a signal terminated
/// it, 127 where the script was not found, 1 where an I/O operation failed.
pub fn exit_code(outcome: &RunOutcome) -> (code: u8)
    ensures
        code == outcome_code(run_outcome_view(*outcome)),
{
    match outcome {
        Ok(status) => status_exit_code(*status),
        Err(RunError::ScriptNotFound(_)) => EXIT_NOT_FOUND,
        Err(RunError::Io(_)) => EXIT_FAILURE,
    }
}

/// A script that no directory holds is reported as not found, with exit
/// code 127: where no directory holds a script called `name` and the
/// search of none fails, the run ends with [`RunError::ScriptNotFound`]
/// for that name.
pub proof fn lemma_missing_script_exits_with_127(listings: Seq<ListingModel>, name: Seq<char>)
    requires
        forall|d: int| 0 <= d < listings.len() ==> !lists(#[trigger] listings[d], name),
        forall|d: int| 0 <= d < listings.len() ==> !(step(name, #[trigger] listings[d]) is Failed),
    ensures
        resolution(name, find(name, listings)) == Err::<Seq<char>, RunErrorModel>(
            RunErrorModel::ScriptNotFound(name),
        ),
        outcome_code(Err(RunErrorModel::ScriptNotFound(name))) == 127,
{
    lemma_unlisted_is_not_found(listings, name);
}

/// A child that exits with a code between 0 and 255 is reported with that
/// code; one that a signal between 1 and 127 terminated, with 128 plus the
/// signal's number.
pub proof fn lemma_exit_codes(code: i32, signal: i32)
    ensures
        0 <= code < 256 ==> status_code(Termination { code: Some(code), signal: None }) == code,
        0 < signal < 128 ==> status_code(Termination { code: None, signal: Some(signal) }) == 128
            + signal,
{
}

} // verus!

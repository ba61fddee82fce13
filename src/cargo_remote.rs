//! The build-tool runner: the commands it issues for a project, and which of
//! the build tool's structured messages it reports.

use crate::project::Project;
use vstd::prelude::*;

verus! {

/// Where a compiler message points in a source file.
#[derive(Debug, Clone)]
pub struct CompilerMessageSpan {
    pub column_start: usize,
    pub column_end: usize,
    pub file_name: String,
    pub line_start: usize,
    pub line_end: usize,
}

/// A diagnostic of the compiler. `code` is the diagnostic code as JSON text, if any.
#[derive(Debug, Clone)]
pub struct CompilerMessage {
    pub rendered: String,
    pub code: Option<String>,
    pub level: String,
    pub spans: Vec<CompilerMessageSpan>,
}

/// One structured message of the build tool. Only compiler messages and the
/// final outcome are read; artifact and build-script reports are carried
/// without their payload.
#[derive(Debug, Clone)]
pub enum CargoMessage {
    CompilerArtifact,
    BuildScriptExecuted,
    CompilerMessage { message: CompilerMessage },
    BuildFinished { success: bool },
}

/// The rendered text of the compiler messages, in order; with `only_errors`,
/// of those at level `error` only.
pub open spec fn reported(messages: Seq<CargoMessage>, only_errors: bool) -> Seq<Seq<char>>
    decreases messages.len(),
{
    if messages.len() == 0 {
        Seq::empty()
    } else {
        let rest = reported(messages.drop_last(), only_errors);
        match messages.last() {
            CargoMessage::CompilerMessage { message } => if only_errors && message.level@
                != "error"@ {
                rest
            } else {
                rest.push(message.rendered@)
            },
            _ => rest,
        }
    }
}

/// The arguments of a test run, naming one test when `test_name` is given.
pub open spec fn test_arguments(test_name: Option<Seq<char>>) -> Seq<Seq<char>> {
    match test_name {
        Some(n) => seq!["test"@, "--message-format=json"@, "--"@, "--nocapture"@, n],
        None => seq!["test"@, "--message-format=json"@],
    }
}

/// Runs the build tool in a project's root.
#[derive(Debug, Clone)]
pub struct CargoRemote {
    pub repository: Project,
}

impl CargoRemote {
    pub fn new(repository: Project) -> (r: CargoRemote)
        ensures
            r.repository == repository,
    {
        CargoRemote { repository }
    }

    /// The arguments of a check run.
    pub fn check_arguments(&self) -> (r: Vec<String>)
        ensures
            r@.map_values(|s: String| s@) == seq!["check"@, "--message-format=json"@],
    {
        let mut r: Vec<String> = Vec::new();
        r.push(String::from_str("check"));
        r.push(String::from_str("--message-format=json"));
        proof {
            assert(r@.map_values(|s: String| s@) =~= seq!["check"@, "--message-format=json"@]);
        }
        r
    }

    /// The arguments of a test run.
    pub fn test_arguments(&self, test_name: &Option<String>) -> (r: Vec<String>)
        ensures
            r@.map_values(|s: String| s@) == test_arguments(
                match test_name {
                    Some(n) => Some(n@),
                    None => None,
                },
            ),
    {
        let mut r: Vec<String> = Vec::new();
        r.push(String::from_str("test"));
        r.push(String::from_str("--message-format=json"));
        match test_name {
            Some(n) => {
                r.push(String::from_str("--"));
                r.push(String::from_str("--nocapture"));
                r.push(n.clone());
            },
            None => {},
        }
        proof {
            assert(r@.map_values(|s: String| s@) =~= test_arguments(
                match test_name {
                    Some(n) => Some(n@),
                    None => None,
                },
            ));
        }
        r
    }

    /// The value of the backtrace variable for a run.
    pub fn backtrace_setting(backtrace: bool) -> (r: &'static str)
        ensures
            backtrace ==> r@ == "full"@,
            !backtrace ==> r@ == "0"@,
    {
        if backtrace {
            "full"
        } else {
            "0"
        }
    }

    /// The rendered compiler messages of a check run, in order; with
    /// `only_errors`, of errors only.
    pub fn check_messages(messages: &Vec<CargoMessage>, only_errors: bool) -> (r: Vec<String>)
        ensures
            r@.map_values(|s: String| s@) == reported(messages@, only_errors),
    {
        let mut out: Vec<String> = Vec::new();
        let mut i: usize = 0;
        while i < messages.len()
            invariant
                i <= messages@.len(),
                out@.map_values(|s: String| s@) == reported(messages@.subrange(0, i as int), only_errors),
            decreases messages.len() - i,
        {
            proof {
                assert(messages@.subrange(0, i + 1).drop_last() =~= messages@.subrange(0, i as int));
            }
            match &messages[i] {
                CargoMessage::CompilerMessage { message } => {
                    let is_error = message.level.eq(&String::from_str("error"));
                    if !only_errors || is_error {
                        let ghost before = out@;
                        let t = message.rendered.clone();
                        out.push(t);
                        proof {
                            assert(out@.map_values(|s: String| s@) =~= before.map_values(|s: String| s@).push(t@));
                        }
                    }
                },
                _ => {},
            }
            i = i + 1;
        }
        proof {
            assert(messages@.subrange(0, messages@.len() as int) =~= messages@);
        }
        out
    }
}

} // verus!

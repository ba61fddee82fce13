//! Bringing up the analysis engine of a session: checking that the engine
//! runs, installing it through the toolchain installer when it does not, and
//! the messages given when that fails. The caller performs each action and
//! reports its outcome as the next event.

use vstd::prelude::*;
use vstd::string::StrSliceExecFns;

verus! {

/// Unicode white space, as `char::is_whitespace` defines it.
pub open spec fn is_space(c: char) -> bool {
    ('\u{9}' <= c && c <= '\u{d}') || c == ' ' || c == '\u{85}' || c == '\u{a0}' || c
        == '\u{1680}' || ('\u{2000}' <= c && c <= '\u{200a}') || c == '\u{2028}' || c
        == '\u{2029}' || c == '\u{202f}' || c == '\u{205f}' || c == '\u{3000}'
}

/// Whether `c` is white space.
pub fn space_char(c: char) -> (r: bool)
    ensures
        r == is_space(c),
{
    ('\u{9}' <= c && c <= '\u{d}') || c == ' ' || c == '\u{85}' || c == '\u{a0}' || c
        == '\u{1680}' || ('\u{2000}' <= c && c <= '\u{200a}') || c == '\u{2028}' || c
        == '\u{2029}' || c == '\u{202f}' || c == '\u{205f}' || c == '\u{3000}'
}

pub open spec fn skip_spaces(s: Seq<char>) -> Seq<char>
    decreases s.len(),
{
    if s.len() > 0 && is_space(s[0]) {
        skip_spaces(s.drop_first())
    } else {
        s
    }
}

pub open spec fn take_word(s: Seq<char>) -> Seq<char>
    decreases s.len(),
{
    if s.len() > 0 && !is_space(s[0]) {
        seq![s[0]] + take_word(s.drop_first())
    } else {
        Seq::empty()
    }
}

/// The first white-space-separated word of `s`.
pub open spec fn first_word_of(s: Seq<char>) -> Option<Seq<char>> {
    if skip_spaces(s).len() == 0 {
        None
    } else {
        Some(take_word(skip_spaces(s)))
    }
}

/// The first white-space-separated word of `s`.
pub fn first_word(s: &str) -> (r: Option<String>)
    ensures
        r matches Some(w) ==> first_word_of(s@) == Some(w@),
        r is None ==> first_word_of(s@) is None,
{
    let n = s.unicode_len();
    let mut i: usize = 0;
    proof {
        assert(s@.subrange(0, n as int) =~= s@);
    }
    while i < n && space_char(s.get_char(i))
        invariant
            n == s@.len(),
            i <= n,
            skip_spaces(s@) == skip_spaces(s@.subrange(i as int, n as int)),
        decreases n - i,
    {
        proof {
            assert(s@.subrange(i as int, n as int).drop_first() =~= s@.subrange(i + 1, n as int));
        }
        i = i + 1;
    }
    proof {
        assert(s@.subrange(0, n as int) =~= s@);
    }
    if i == n {
        proof {
            assert(s@.subrange(i as int, n as int).len() == 0);
        }
        return None;
    }
    let mut j: usize = i;
    while j < n && !space_char(s.get_char(j))
        invariant
            n == s@.len(),
            i <= j <= n,
            take_word(s@.subrange(i as int, n as int)) == s@.subrange(i as int, j as int) + take_word(
                s@.subrange(j as int, n as int),
            ),
        decreases n - j,
    {
        proof {
            let t = s@.subrange(j as int, n as int);
            assert(t.drop_first() =~= s@.subrange(j + 1, n as int));
            assert(s@.subrange(i as int, j + 1) =~= s@.subrange(i as int, j as int) + seq![t[0]]);
        }
        j = j + 1;
    }
    proof {
        assert(s@.subrange(i as int, j as int) + Seq::<char>::empty() =~= s@.subrange(i as int, j as int));
    }
    Some(String::from_str(s.substring_char(i, j)))
}

/// Where the bring-up stands.
#[derive(Debug)]
pub enum SetupState {
    CheckingEngine,
    CheckingInstaller,
    ReadingToolchain,
    Installing,
    Verifying,
    Launching,
    Failed,
}

/// The outcome of the last action.
#[derive(Debug)]
pub enum SetupEvent {
    EngineChecked { works: bool },
    InstallerChecked { available: bool },
    ToolchainRead { output: Option<String> },
    InstallFinished { outcome: Result<(bool, String), String> },
    Verified { works: bool },
}

/// What to do next.
#[derive(Debug)]
pub enum SetupAction {
    CheckEngine,
    CheckInstaller,
    ReadToolchain,
    Install { args: Vec<String> },
    VerifyEngine,
    Launch,
    Fail { message: String },
}

/// Whether `event` is the outcome of the action that `state` waits for.
pub open spec fn expects(state: SetupState, event: SetupEvent) -> bool {
    match state {
        SetupState::CheckingEngine => event is EngineChecked,
        SetupState::CheckingInstaller => event is InstallerChecked,
        SetupState::ReadingToolchain => event is ToolchainRead,
        SetupState::Installing => event is InstallFinished,
        SetupState::Verifying => event is Verified,
        _ => false,
    }
}

/// The arguments that install the engine, for a toolchain when one is known.
pub open spec fn install_args(toolchain: Option<Seq<char>>) -> Seq<Seq<char>> {
    match toolchain {
        Some(t) => seq!["component"@, "add"@, "rust-analyzer"@, "--toolchain"@, t],
        None => seq!["component"@, "add"@, "rust-analyzer"@],
    }
}

pub open spec fn not_found_message() -> Seq<char> {
    "rust-analyzer not found. Please install rustup and run 'rustup component add rust-analyzer', or install rust-analyzer manually."@
}

pub open spec fn install_failed_message(stderr: Seq<char>) -> Seq<char> {
    "Failed to install rust-analyzer automatically: "@ + stderr
        + ". Please install it manually with 'rustup component add rust-analyzer'"@
}

pub open spec fn installer_error_message(e: Seq<char>) -> Seq<char> {
    "Failed to run rustup to install rust-analyzer: "@ + e + ". Please install it manually."@
}

pub open spec fn launch_failed_message(e: Seq<char>) -> Seq<char> {
    "Failed to run rust-analyzer: "@ + e
        + ". Please make sure rust-analyzer is installed and available in your PATH."@
}

/// The toolchain named by the installer's output, when it ran successfully.
pub open spec fn toolchain_of(output: Option<String>) -> Option<Seq<char>> {
    match output {
        Some(o) => first_word_of(o@),
        None => None,
    }
}

/// The first state and action of a bring-up.
pub fn setup_start() -> (r: (SetupState, SetupAction))
    ensures
        r.0 is CheckingEngine,
        r.1 is CheckEngine,
{
    (SetupState::CheckingEngine, SetupAction::CheckEngine)
}

/// Whether `event` is the outcome that `state` waits for.
pub fn setup_expects(state: &SetupState, event: &SetupEvent) -> (r: bool)
    ensures
        r == expects(*state, *event),
{
    match state {
        SetupState::CheckingEngine => matches!(event, SetupEvent::EngineChecked { .. }),
        SetupState::CheckingInstaller => matches!(event, SetupEvent::InstallerChecked { .. }),
        SetupState::ReadingToolchain => matches!(event, SetupEvent::ToolchainRead { .. }),
        SetupState::Installing => matches!(event, SetupEvent::InstallFinished { .. }),
        SetupState::Verifying => matches!(event, SetupEvent::Verified { .. }),
        _ => false,
    }
}

/// One step of the bring-up. A working engine is launched at once; a missing
/// one is installed through the installer, for the active toolchain when the
/// installer names one; the outcome of the recheck after installing is only
/// reported, and the engine is launched either way.
pub fn setup_step(state: SetupState, event: SetupEvent) -> (r: (SetupState, SetupAction))
    requires
        expects(state, event),
    ensures
        event matches SetupEvent::EngineChecked { works } ==> (works ==> r.0 is Launching
            && r.1 is Launch) && (!works ==> r.0 is CheckingInstaller && r.1 is CheckInstaller),
        event matches SetupEvent::InstallerChecked { available } ==> (available ==> r.0 is ReadingToolchain
            && r.1 is ReadToolchain) && (!available ==> r.0 is Failed && (r.1 matches SetupAction::Fail { message }
            && message@ == not_found_message())),
        event matches SetupEvent::ToolchainRead { output } ==> r.0 is Installing && (r.1 matches SetupAction::Install { args }
            && args@.map_values(|s: String| s@) == install_args(toolchain_of(output))),
        event matches SetupEvent::InstallFinished { outcome } ==> match outcome {
            Ok((true, _)) => r.0 is Verifying && r.1 is VerifyEngine,
            Ok((false, stderr)) => r.0 is Failed && (r.1 matches SetupAction::Fail { message }
                && message@ == install_failed_message(stderr@)),
            Err(e) => r.0 is Failed && (r.1 matches SetupAction::Fail { message }
                && message@ == installer_error_message(e@)),
        },
        event is Verified ==> r.0 is Launching && r.1 is Launch,
{
    match event {
        SetupEvent::EngineChecked { works } => {
            if works {
                (SetupState::Launching, SetupAction::Launch)
            } else {
                (SetupState::CheckingInstaller, SetupAction::CheckInstaller)
            }
        },
        SetupEvent::InstallerChecked { available } => {
            if available {
                (SetupState::ReadingToolchain, SetupAction::ReadToolchain)
            } else {
                (
                    SetupState::Failed,
                    SetupAction::Fail {
                        message: String::from_str(
                            "rust-analyzer not found. Please install rustup and run 'rustup component add rust-analyzer', or install rust-analyzer manually.",
                        ),
                    },
                )
            }
        },
        SetupEvent::ToolchainRead { output } => {
            let toolchain = match &output {
                Some(o) => first_word(o.as_str()),
                None => None,
            };
            let mut args: Vec<String> = Vec::new();
            args.push(String::from_str("component"));
            args.push(String::from_str("add"));
            args.push(String::from_str("rust-analyzer"));
            match toolchain {
                Some(t) => {
                    args.push(String::from_str("--toolchain"));
                    args.push(t);
                },
                None => {},
            }
            proof {
                assert(args@.map_values(|s: String| s@) =~= install_args(toolchain_of(output)));
            }
            (SetupState::Installing, SetupAction::Install { args })
        },
        SetupEvent::InstallFinished { outcome } => match outcome {
            Ok((true, _)) => (SetupState::Verifying, SetupAction::VerifyEngine),
            Ok((false, stderr)) => {
                let mut message = String::from_str("Failed to install rust-analyzer automatically: ");
                message.append(stderr.as_str());
                message.append(". Please install it manually with 'rustup component add rust-analyzer'");
                (SetupState::Failed, SetupAction::Fail { message })
            },
            Err(e) => {
                let mut message = String::from_str("Failed to run rustup to install rust-analyzer: ");
                message.append(e.as_str());
                message.append(". Please install it manually.");
                (SetupState::Failed, SetupAction::Fail { message })
            },
        },
        SetupEvent::Verified { .. } => (SetupState::Launching, SetupAction::Launch),
    }
}

/// The message given when the engine cannot be launched.
pub fn launch_failed(e: &str) -> (r: String)
    ensures
        r@ == launch_failed_message(e@),
{
    let mut message = String::from_str("Failed to run rust-analyzer: ");
    message.append(e);
    message.append(". Please make sure rust-analyzer is installed and available in your PATH.");
    message
}

} // verus!

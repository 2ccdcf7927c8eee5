//! What passes between a run and the one who drives it.
//!
//! A run does nothing to the outside world. It names the next [`Action`];
//! the driver performs it and hands back the [`Event`] that tells how it
//! went. Failures of the driver's own (a mount that fails, a repository that
//! cannot be refreshed) end the run on the driver's side and are never
//! reported back.

use crate::notice::{Notice, Report};
use crate::text::texts;
use vstd::prelude::*;
use vstd::string::*;

verus! {

/// The settings of the workspace that a run depends on.
#[derive(Clone, Copy, Debug, PartialEq, Eq, Structural)]
pub struct Config {
    /// Sources are cached locally.
    pub local_sources: bool,
    /// Packages are built one by one against a local repository.
    pub local_repo: bool,
    /// The output directory is mounted apart from the tree.
    pub sep_mount: bool,
}

/// Why a run ended without an exit status.
#[derive(Clone, Copy, Debug, PartialEq, Eq, Structural)]
pub enum BuildError {
    /// The workspace has no configuration that could be loaded.
    NotConfigured,
    /// The time that the run took is out of range.
    DurationOutOfRange,
}

/// The text that describes `error`.
pub open spec fn error_text(error: BuildError) -> Seq<char> {
    match error {
        BuildError::NotConfigured => "Please configure this workspace first!"@,
        BuildError::DurationOutOfRange => "Source duration value is out of range for the target type"@,
    }
}

impl BuildError {
    /// The text that describes this error.
    pub fn message(&self) -> (text: String)
        ensures
            text@ == error_text(*self),
    {
        match self {
            BuildError::NotConfigured => String::from_str("Please configure this workspace first!"),
            BuildError::DurationOutOfRange => String::from_str(
                "Source duration value is out of range for the target type",
            ),
        }
    }
}

/// The content of an [`Event`].
pub ghost enum Signal {
    Done,
    Config(Option<Config>),
    Exited(i32),
    File(Result<Seq<char>, Seq<char>>),
    Elapsed { secs: u64, nanos: u32 },
}

/// How the action that a run last named went.
#[derive(Debug, PartialEq, Eq)]
pub enum Event {
    /// The action was carried out; there is nothing more to say of it.
    Done,
    /// The configuration, or `None` where it could not be loaded.
    Config(Option<Config>),
    /// The exit status of the command that was run in the container.
    Exited(i32),
    /// The text of the file that was read, or the reader's message.
    File(Result<String, String>),
    /// The time since the clock was started.
    Elapsed { secs: u64, nanos: u32 },
}

impl View for Event {
    type V = Signal;

    open spec fn view(&self) -> Signal {
        match self {
            Event::Done => Signal::Done,
            Event::Config(config) => Signal::Config(*config),
            Event::Exited(status) => Signal::Exited(*status),
            Event::File(Ok(text)) => Signal::File(Ok(text@)),
            Event::File(Err(message)) => Signal::File(Err(message@)),
            Event::Elapsed { secs, nanos } => Signal::Elapsed { secs: *secs, nanos: *nanos },
        }
    }
}

/// The content of an [`Action`].
pub ghost enum Command {
    LoadConfig,
    Report(Report),
    MountFs,
    Rollback,
    RefreshRepo { sep_mount: bool },
    EnableOffline,
    Run(Seq<Seq<char>>),
    ReadFile(Seq<char>),
    StartClock,
    ReadClock,
    Finish(Result<i32, BuildError>),
}

/// What the driver of a run is to do next.
#[derive(Debug, PartialEq, Eq)]
pub enum Action {
    /// Load the configuration of the workspace; answered by
    /// [`Event::Config`].
    LoadConfig,
    /// Show the notice.
    Report(Notice),
    /// Mount the file system of the instance.
    MountFs,
    /// Reset the container to its clean state.
    Rollback,
    /// Refresh the metadata of the local repository in the output directory
    /// that goes with `sep_mount`.
    RefreshRepo { sep_mount: bool },
    /// Switch the offline toggle on for the container commands that follow.
    EnableOffline,
    /// Run the command line in the container; answered by
    /// [`Event::Exited`].
    Run(Vec<String>),
    /// Read the file at the path; answered by [`Event::File`].
    ReadFile(String),
    /// Start the clock.
    StartClock,
    /// Read the clock; answered by [`Event::Elapsed`].
    ReadClock,
    /// The run is over, with this exit status or error. Nothing answers
    /// this.
    Finish(Result<i32, BuildError>),
}

impl View for Action {
    type V = Command;

    open spec fn view(&self) -> Command {
        match self {
            Action::LoadConfig => Command::LoadConfig,
            Action::Report(notice) => Command::Report(notice@),
            Action::MountFs => Command::MountFs,
            Action::Rollback => Command::Rollback,
            Action::RefreshRepo { sep_mount } => Command::RefreshRepo { sep_mount: *sep_mount },
            Action::EnableOffline => Command::EnableOffline,
            Action::Run(argv) => Command::Run(texts(argv@)),
            Action::ReadFile(path) => Command::ReadFile(path@),
            Action::StartClock => Command::StartClock,
            Action::ReadClock => Command::ReadClock,
            Action::Finish(result) => Command::Finish(*result),
        }
    }
}

/// Whether `signal` tells how `command` went.
pub open spec fn answers(signal: Signal, command: Command) -> bool {
    match command {
        Command::LoadConfig => signal is Config,
        Command::Run(_) => signal is Exited,
        Command::ReadFile(_) => signal is File,
        Command::ReadClock => signal is Elapsed,
        Command::Finish(_) => false,
        _ => signal is Done,
    }
}

/// The command line that fetches the sources of `tokens`.
pub open spec fn fetch_argv(tokens: Seq<Seq<char>>) -> Seq<Seq<char>> {
    seq!["/bin/acbs-build"@, "-g"@, "--"@] + tokens
}

/// The command line that builds `tokens`.
pub open spec fn build_argv(tokens: Seq<Seq<char>>) -> Seq<Seq<char>> {
    seq!["/bin/acbs-build"@, "--"@] + tokens
}

/// The command line that runs the update script `script`.
pub open spec fn update_argv(script: Seq<char>) -> Seq<Seq<char>> {
    seq!["/bin/bash"@, "-ec"@, script]
}

/// Appends a copy of every string of `tokens` to `out`.
pub fn append_copies(out: &mut Vec<String>, tokens: &Vec<String>)
    ensures
        texts(final(out)@) == texts(old(out)@) + texts(tokens@),
{
    let mut i: usize = 0;
    assert(texts(out@) =~= texts(old(out)@) + texts(tokens@).take(0));
    while i < tokens.len()
        invariant
            i <= tokens.len(),
            texts(out@) == texts(old(out)@) + texts(tokens@).take(i as int),
        decreases tokens.len() - i,
    {
        let ghost before = texts(out@);
        out.push(tokens[i].clone());
        assert(texts(out@) =~= before.push(tokens@[i as int]@));
        assert(texts(tokens@).take(i + 1) =~= texts(tokens@).take(i as int).push(
            tokens@[i as int]@,
        ));
        i += 1;
    }
    assert(texts(tokens@).take(tokens@.len() as int) =~= texts(tokens@));
}

/// The command line that fetches the sources of `tokens`.
pub fn fetch_command_line(tokens: &Vec<String>) -> (argv: Vec<String>)
    ensures
        texts(argv@) == fetch_argv(texts(tokens@)),
{
    let mut argv: Vec<String> = Vec::new();
    argv.push(String::from_str("/bin/acbs-build"));
    argv.push(String::from_str("-g"));
    argv.push(String::from_str("--"));
    assert(texts(argv@) =~= seq!["/bin/acbs-build"@, "-g"@, "--"@]);
    append_copies(&mut argv, tokens);
    argv
}

/// The command line that builds `tokens`.
pub fn build_command_line(tokens: &Vec<String>) -> (argv: Vec<String>)
    ensures
        texts(argv@) == build_argv(texts(tokens@)),
{
    let mut argv: Vec<String> = Vec::new();
    argv.push(String::from_str("/bin/acbs-build"));
    argv.push(String::from_str("--"));
    assert(texts(argv@) =~= seq!["/bin/acbs-build"@, "--"@]);
    append_copies(&mut argv, tokens);
    argv
}

/// The command line that builds the one package `package`.
pub fn package_command_line(package: &String) -> (argv: Vec<String>)
    ensures
        texts(argv@) == build_argv(seq![package@]),
{
    let mut argv: Vec<String> = Vec::new();
    argv.push(String::from_str("/bin/acbs-build"));
    argv.push(String::from_str("--"));
    argv.push(package.clone());
    assert(texts(argv@) =~= build_argv(seq![package@]));
    argv
}

/// The command line that runs the update script `script`.
pub fn update_command_line(script: &String) -> (argv: Vec<String>)
    ensures
        texts(argv@) == update_argv(script@),
{
    let mut argv: Vec<String> = Vec::new();
    argv.push(String::from_str("/bin/bash"));
    argv.push(String::from_str("-ec"));
    argv.push(script.clone());
    assert(texts(argv@) =~= update_argv(script@));
    argv
}

} // verus!

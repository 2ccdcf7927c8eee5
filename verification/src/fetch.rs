//! The fetch run: the sources of all packages are fetched in one go, in a
//! container that has been reset.

use crate::notice::{Notice, Report};
use crate::protocol::{
    answers, fetch_argv, fetch_command_line, Action, BuildError, Command, Config, Event, Signal,
};
use crate::text::texts;
use vstd::prelude::*;

verus! {

/// How far a fetch run has come.
#[derive(Clone, Copy, Debug, PartialEq, Eq)]
pub enum FetchStage {
    /// The configuration is awaited.
    Configuring,
    /// The warning that sources are not cached locally is to be shown.
    Warning,
    /// The file system is to be mounted.
    Mounting,
    /// The container is to be reset.
    RollingBack,
    /// The fetch command is to be run.
    Running,
    /// The run is over.
    Finished(Result<i32, BuildError>),
}

/// The command of a fetch run that stands at `stage` and fetches for
/// `tokens`. The tokens go to the fetch command as they are: no group
/// among them is expanded.
pub open spec fn fetch_command(stage: FetchStage, tokens: Seq<Seq<char>>) -> Command {
    match stage {
        FetchStage::Configuring => Command::LoadConfig,
        FetchStage::Warning => Command::Report(Report::LocalSourcesOff),
        FetchStage::Mounting => Command::MountFs,
        FetchStage::RollingBack => Command::Rollback,
        FetchStage::Running => Command::Run(fetch_argv(tokens)),
        FetchStage::Finished(result) => Command::Finish(result),
    }
}

/// The stage that follows `stage` on `signal`.
///
/// Without a configuration the run fails. With one, a warning comes first
/// where sources are not cached locally; then the file system is mounted,
/// the container reset and the fetch command run, whose exit status is the
/// result of the run. A signal that does not answer the command of the
/// stage changes nothing.
pub open spec fn fetch_step(stage: FetchStage, signal: Signal) -> FetchStage {
    match (stage, signal) {
        (FetchStage::Configuring, Signal::Config(Some(config))) => if config.local_sources {
            FetchStage::Mounting
        } else {
            FetchStage::Warning
        },
        (FetchStage::Configuring, Signal::Config(None)) => FetchStage::Finished(
            Err(BuildError::NotConfigured),
        ),
        (FetchStage::Warning, Signal::Done) => FetchStage::Mounting,
        (FetchStage::Mounting, Signal::Done) => FetchStage::RollingBack,
        (FetchStage::RollingBack, Signal::Done) => FetchStage::Running,
        (FetchStage::Running, Signal::Exited(status)) => FetchStage::Finished(Ok(status)),
        _ => stage,
    }
}

/// A fetch run.
pub ghost struct Fetch {
    pub tokens: Seq<Seq<char>>,
    pub stage: FetchStage,
}

/// A fetch run in progress.
pub struct FetchRun {
    tokens: Vec<String>,
    stage: FetchStage,
}

impl View for FetchRun {
    type V = Fetch;

    closed spec fn view(&self) -> Fetch {
        Fetch { tokens: texts(self.tokens@), stage: self.stage }
    }
}

/// The action of a fetch run that stands at `stage`.
pub fn fetch_action(stage: FetchStage, tokens: &Vec<String>) -> (action: Action)
    ensures
        action@ == fetch_command(stage, texts(tokens@)),
{
    match stage {
        FetchStage::Configuring => Action::LoadConfig,
        FetchStage::Warning => Action::Report(Notice::LocalSourcesOff),
        FetchStage::Mounting => Action::MountFs,
        FetchStage::RollingBack => Action::Rollback,
        FetchStage::Running => Action::Run(fetch_command_line(tokens)),
        FetchStage::Finished(result) => Action::Finish(result),
    }
}

/// The stage of a fetch run that follows `stage` on `event`.
pub fn fetch_advance(stage: FetchStage, event: &Event) -> (next: FetchStage)
    ensures
        next == fetch_step(stage, event@),
{
    match stage {
        FetchStage::Configuring => match event {
            Event::Config(Some(config)) => if config.local_sources {
                FetchStage::Mounting
            } else {
                FetchStage::Warning
            },
            Event::Config(None) => FetchStage::Finished(Err(BuildError::NotConfigured)),
            _ => stage,
        },
        FetchStage::Warning => match event {
            Event::Done => FetchStage::Mounting,
            _ => stage,
        },
        FetchStage::Mounting => match event {
            Event::Done => FetchStage::RollingBack,
            _ => stage,
        },
        FetchStage::RollingBack => match event {
            Event::Done => FetchStage::Running,
            _ => stage,
        },
        FetchStage::Running => match event {
            Event::Exited(status) => FetchStage::Finished(Ok(*status)),
            _ => stage,
        },
        FetchStage::Finished(_) => stage,
    }
}

/// Starts a fetch run for `packages`, which may hold group references.
pub fn package_fetch(packages: Vec<String>) -> (run: FetchRun)
    ensures
        run@ == (Fetch { tokens: texts(packages@), stage: FetchStage::Configuring }),
{
    FetchRun { tokens: packages, stage: FetchStage::Configuring }
}

impl FetchRun {
    /// What the driver is to do next.
    pub fn pending(&self) -> (action: Action)
        ensures
            action@ == fetch_command(self@.stage, self@.tokens),
    {
        fetch_action(self.stage, &self.tokens)
    }

    /// Takes in how the pending action went.
    pub fn feed(&mut self, event: Event)
        ensures
            final(self)@.tokens == old(self)@.tokens,
            final(self)@.stage == fetch_step(old(self)@.stage, event@),
    {
        self.stage = fetch_advance(self.stage, &event);
    }
}

/// The course of a fetch run: with a configuration, the run mounts the file
/// system, resets the container and runs the fetch command on the tokens as
/// they were given, after a warning where sources are not cached locally.
/// The exit status of that command is the result, whatever it is.
pub proof fn lemma_fetch_course(tokens: Seq<Seq<char>>, config: Config, status: i32)
    ensures
        ({
            let configured = fetch_step(FetchStage::Configuring, Signal::Config(Some(config)));
            let mounting = if config.local_sources {
                configured
            } else {
                fetch_step(configured, Signal::Done)
            };
            let rolling = fetch_step(mounting, Signal::Done);
            let running = fetch_step(rolling, Signal::Done);
            let finished = fetch_step(running, Signal::Exited(status));
            &&& !config.local_sources ==> fetch_command(configured, tokens) == Command::Report(
                Report::LocalSourcesOff,
            )
            &&& fetch_command(mounting, tokens) == Command::MountFs
            &&& fetch_command(rolling, tokens) == Command::Rollback
            &&& fetch_command(running, tokens) == Command::Run(fetch_argv(tokens))
            &&& fetch_command(finished, tokens) == Command::Finish(Ok(status))
        }),
{
}

/// Without a configuration a fetch run fails at once.
pub proof fn lemma_fetch_needs_configuration()
    ensures
        fetch_step(FetchStage::Configuring, Signal::Config(None)) == FetchStage::Finished(
            Err(BuildError::NotConfigured),
        ),
{
}

/// A signal that does not answer the command of a stage changes nothing,
/// and a run that is over stays over.
pub proof fn lemma_fetch_ignores_strays(stage: FetchStage, tokens: Seq<Seq<char>>, signal: Signal)
    requires
        !answers(signal, fetch_command(stage, tokens)),
    ensures
        fetch_step(stage, signal) == stage,
{
}

} // verus!

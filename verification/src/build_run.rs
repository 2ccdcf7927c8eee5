//! The build run: an optional fetch for offline work, then either one build
//! of everything, or, against a local repository, one build per package
//! with a refresh of the repository and an update of the system before
//! each, and a reset of the container after it. The first command that
//! fails ends the run.

use crate::duration::{duration_text, elapsed_seconds, format_duration, reading_seconds};
use crate::expand::{
    awaited, expand_package_list, lemma_scan_waits, lemma_supply_waits, start, Expander, Expansion,
};
use crate::fetch::{fetch_action, fetch_advance, fetch_command, fetch_step, FetchStage};
use crate::notice::{reports, Notice, Report};
use crate::protocol::{
    build_argv, build_command_line, package_command_line, update_argv, update_command_line,
    Action, BuildError, Command, Config, Event, Signal,
};
use crate::resolver::content_view;
use crate::text::texts;
use vstd::pervasive::unreached;
use vstd::prelude::*;

verus! {

/// How far a build run has come. A number is the index of the package that
/// the stage is about, or of the note that is shown.
#[derive(Clone, Copy, Debug, PartialEq, Eq)]
pub enum Stage {
    /// The configuration is awaited.
    Configuring,
    /// The fetch for offline work is to be announced.
    NotingOffline,
    /// The fetch for offline work is under way.
    Fetching(FetchStage),
    /// The offline toggle is to be switched on.
    EnablingOffline,
    /// Offline work is to be announced.
    NotingOfflineReady,
    /// The file system is to be mounted.
    Mounting,
    /// The container is to be reset.
    RollingBack,
    /// Everything is to be built by one command.
    BuildingAll,
    /// The package list is being expanded.
    Expanding,
    /// A note of the expansion is to be shown.
    Noting(usize),
    /// The clock is to be started.
    StartingClock,
    /// The build of a package is to be announced.
    Announcing(usize),
    /// The file system is to be mounted for a package.
    MountingFor(usize),
    /// The refresh of the repository is to be announced.
    NotingRefresh(usize),
    /// The repository is to be refreshed.
    Refreshing(usize),
    /// The system is to be updated.
    Updating(usize),
    /// A package is to be built.
    Building(usize),
    /// The container is to be reset after a package.
    Resetting(usize),
    /// A command has failed with `status`: the update where `update` holds,
    /// the build otherwise. The failure is to be shown.
    Failing { update: bool, status: i32 },
    /// The clock is to be read.
    ReadingClock,
    /// The success is to be shown, after so many seconds.
    Summarizing(i64),
    /// The run is over.
    Finished(Result<i32, BuildError>),
}

/// A build run.
pub ghost struct Build {
    /// The tokens as they were given.
    pub tokens: Seq<Seq<char>>,
    /// Whether sources are fetched first and the network is then left alone.
    pub offline: bool,
    /// The script that updates the system.
    pub script: Seq<char>,
    /// The configuration, once it has been loaded.
    pub config: Config,
    /// The expansion, while it is under way.
    pub expansion: Option<Expansion>,
    /// The packages that the tokens expanded to.
    pub packages: Seq<Seq<char>>,
    /// What the expansion noted.
    pub notes: Seq<Report>,
    pub stage: Stage,
}

/// The index of the package that `stage` is about.
pub open spec fn package_index(stage: Stage) -> Option<usize> {
    match stage {
        Stage::Announcing(i) => Some(i),
        Stage::MountingFor(i) => Some(i),
        Stage::NotingRefresh(i) => Some(i),
        Stage::Refreshing(i) => Some(i),
        Stage::Updating(i) => Some(i),
        Stage::Building(i) => Some(i),
        Stage::Resetting(i) => Some(i),
        _ => None,
    }
}

/// What holds of every build run: a stage that is about a package or a note
/// is about one that exists, an expansion is held exactly while it is under
/// way and then waits for a file, and a fetch that is over is not dwelt on.
pub open spec fn well_formed(b: Build) -> bool {
    &&& package_index(b.stage) matches Some(i) ==> i < b.packages.len()
    &&& b.stage matches Stage::Noting(k) ==> k < b.notes.len()
    &&& b.stage matches Stage::Fetching(fetch) ==> !(fetch is Finished)
    &&& b.stage is Expanding <==> b.expansion is Some
    &&& b.expansion matches Some(e) ==> awaited(e) is Some
}

/// The state in which a build run starts. The run works offline where that
/// was asked for, or is forced from outside.
pub open spec fn initial(
    tokens: Seq<Seq<char>>,
    offline: bool,
    forced: bool,
    script: Seq<char>,
) -> Build {
    Build {
        tokens,
        offline: offline || forced,
        script,
        config: Config { local_sources: false, local_repo: false, sep_mount: false },
        expansion: None,
        packages: Seq::empty(),
        notes: Seq::empty(),
        stage: Stage::Configuring,
    }
}

/// What the driver of the run `b` is to do next.
pub open spec fn command(b: Build) -> Command {
    match b.stage {
        Stage::Configuring => Command::LoadConfig,
        Stage::NotingOffline => Command::Report(Report::PreparingOffline),
        Stage::Fetching(fetch) => fetch_command(fetch, b.tokens),
        Stage::EnablingOffline => Command::EnableOffline,
        Stage::NotingOfflineReady => Command::Report(Report::OfflineReady),
        Stage::Mounting => Command::MountFs,
        Stage::RollingBack => Command::Rollback,
        Stage::BuildingAll => Command::Run(build_argv(b.tokens)),
        Stage::Expanding => Command::ReadFile(awaited(b.expansion->0)->0),
        Stage::Noting(k) => Command::Report(b.notes[k as int]),
        Stage::StartingClock => Command::StartClock,
        Stage::Announcing(i) => Command::Report(
            Report::Building {
                position: (i + 1) as nat,
                total: b.packages.len(),
                package: b.packages[i as int],
            },
        ),
        Stage::MountingFor(_) => Command::MountFs,
        Stage::NotingRefresh(_) => Command::Report(Report::RefreshingRepository),
        Stage::Refreshing(_) => Command::RefreshRepo { sep_mount: b.config.sep_mount },
        Stage::Updating(_) => Command::Run(update_argv(b.script)),
        Stage::Building(i) => Command::Run(build_argv(seq![b.packages[i as int]])),
        Stage::Resetting(_) => Command::Rollback,
        Stage::Failing { update, status } => Command::Report(
            if update {
                Report::UpdateFailed
            } else {
                Report::BuildFailed { status: status as int }
            },
        ),
        Stage::ReadingClock => Command::ReadClock,
        Stage::Summarizing(seconds) => Command::Report(
            Report::Succeeded { total: b.packages.len(), duration: duration_text(seconds as int) },
        ),
        Stage::Finished(result) => Command::Finish(result),
    }
}

/// The run `b` at `stage`.
pub open spec fn at(b: Build, stage: Stage) -> Build {
    Build { stage, ..b }
}

/// The run `b` with its expansion come to `expansion`: while a file is
/// awaited the run goes on expanding; once the expansion is done, its
/// packages are the ones to build, and its notes are shown first.
pub open spec fn expanding(b: Build, expansion: Expansion) -> Build {
    match expansion {
        Expansion::Done { packages, notes } => Build {
            expansion: None,
            packages,
            notes,
            stage: if notes.len() > 0 {
                Stage::Noting(0)
            } else {
                Stage::StartingClock
            },
            ..b
        },
        Expansion::Resolving { .. } => Build {
            expansion: Some(expansion),
            stage: Stage::Expanding,
            ..b
        },
    }
}

/// The stage at which package `i` of `packages` comes next, or the clock
/// is read where no such package is left.
pub open spec fn from_package(i: int, packages: nat) -> Stage {
    if i < packages {
        Stage::Announcing(i as usize)
    } else {
        Stage::ReadingClock
    }
}

/// The stage that follows `stage` on `signal` in a run of `packages`
/// packages and `notes` notes, for the stages that change nothing else in
/// the run.
///
/// The exit status of the fetch for offline work is passed over. A nonzero
/// exit status of an update or of a build makes the run fail with that
/// status, once the failure has been shown: no package is built after it,
/// and the container is not reset.
pub open spec fn stage_step(stage: Stage, signal: Signal, packages: nat, notes: nat) -> Stage {
    match (stage, signal) {
        (Stage::NotingOffline, Signal::Done) => Stage::Fetching(FetchStage::Configuring),
        (Stage::Fetching(fetch), _) => match fetch_step(fetch, signal) {
            FetchStage::Finished(Ok(_)) => Stage::EnablingOffline,
            FetchStage::Finished(Err(e)) => Stage::Finished(Err(e)),
            next => Stage::Fetching(next),
        },
        (Stage::EnablingOffline, Signal::Done) => Stage::NotingOfflineReady,
        (Stage::NotingOfflineReady, Signal::Done) => Stage::Mounting,
        (Stage::Mounting, Signal::Done) => Stage::RollingBack,
        (Stage::BuildingAll, Signal::Exited(status)) => Stage::Finished(Ok(status)),
        (Stage::Noting(k), Signal::Done) => if k + 1 < notes {
            Stage::Noting((k + 1) as usize)
        } else {
            Stage::StartingClock
        },
        (Stage::StartingClock, Signal::Done) => from_package(0, packages),
        (Stage::Announcing(i), Signal::Done) => Stage::MountingFor(i),
        (Stage::MountingFor(i), Signal::Done) => Stage::NotingRefresh(i),
        (Stage::NotingRefresh(i), Signal::Done) => Stage::Refreshing(i),
        (Stage::Refreshing(i), Signal::Done) => Stage::Updating(i),
        (Stage::Updating(i), Signal::Exited(status)) => if status != 0 {
            Stage::Failing { update: true, status }
        } else {
            Stage::Building(i)
        },
        (Stage::Building(i), Signal::Exited(status)) => if status != 0 {
            Stage::Failing { update: false, status }
        } else {
            Stage::Resetting(i)
        },
        (Stage::Resetting(i), Signal::Done) => from_package(i + 1, packages),
        (Stage::Failing { status, .. }, Signal::Done) => Stage::Finished(Ok(status)),
        (Stage::ReadingClock, Signal::Elapsed { secs, nanos }) => match reading_seconds(
            secs,
            nanos,
        ) {
            Some(seconds) => Stage::Summarizing(seconds),
            None => Stage::Finished(Err(BuildError::DurationOutOfRange)),
        },
        (Stage::Summarizing(_), Signal::Done) => Stage::Finished(Ok(0)),
        _ => stage,
    }
}

/// The run that follows `b` on `signal`. A signal that does not answer the
/// command of `b` changes nothing.
///
/// Without a configuration the run fails. With one, an offline run fetches
/// first. Once the container has been reset, a run without a local
/// repository builds everything by one command, on the tokens as they were
/// given; a run with one expands the tokens and builds package by package.
pub open spec fn step(b: Build, signal: Signal) -> Build {
    match (b.stage, signal) {
        (Stage::Configuring, Signal::Config(None)) => at(
            b,
            Stage::Finished(Err(BuildError::NotConfigured)),
        ),
        (Stage::Configuring, Signal::Config(Some(config))) => Build {
            config,
            stage: if b.offline {
                Stage::NotingOffline
            } else {
                Stage::Mounting
            },
            ..b
        },
        (Stage::RollingBack, Signal::Done) => if b.config.local_repo {
            expanding(b, start(b.tokens))
        } else {
            at(b, Stage::BuildingAll)
        },
        (Stage::Expanding, Signal::File(content)) => match b.expansion {
            Some(expansion) => expanding(b, crate::expand::supply(expansion, content)),
            None => b,
        },
        _ => at(b, stage_step(b.stage, signal, b.packages.len(), b.notes.len())),
    }
}

/// The stage that follows `stage` on `event`, for the stages that change
/// nothing else in the run.
fn stage_advance(stage: Stage, event: &Event, packages: usize, notes: usize) -> (next: Stage)
    requires
        package_index(stage) matches Some(i) ==> i < packages,
        stage matches Stage::Noting(k) ==> k < notes,
    ensures
        next == stage_step(stage, event@, packages as nat, notes as nat),
{
    match (stage, event) {
        (Stage::NotingOffline, Event::Done) => Stage::Fetching(FetchStage::Configuring),
        (Stage::Fetching(fetch), event) => match fetch_advance(fetch, event) {
            FetchStage::Finished(Ok(_)) => Stage::EnablingOffline,
            FetchStage::Finished(Err(e)) => Stage::Finished(Err(e)),
            next => Stage::Fetching(next),
        },
        (Stage::EnablingOffline, Event::Done) => Stage::NotingOfflineReady,
        (Stage::NotingOfflineReady, Event::Done) => Stage::Mounting,
        (Stage::Mounting, Event::Done) => Stage::RollingBack,
        (Stage::BuildingAll, Event::Exited(status)) => Stage::Finished(Ok(*status)),
        (Stage::Noting(k), Event::Done) => if k + 1 < notes {
            Stage::Noting(k + 1)
        } else {
            Stage::StartingClock
        },
        (Stage::StartingClock, Event::Done) => if 0 < packages {
            Stage::Announcing(0)
        } else {
            Stage::ReadingClock
        },
        (Stage::Announcing(i), Event::Done) => Stage::MountingFor(i),
        (Stage::MountingFor(i), Event::Done) => Stage::NotingRefresh(i),
        (Stage::NotingRefresh(i), Event::Done) => Stage::Refreshing(i),
        (Stage::Refreshing(i), Event::Done) => Stage::Updating(i),
        (Stage::Updating(i), Event::Exited(status)) => if *status != 0 {
            Stage::Failing { update: true, status: *status }
        } else {
            Stage::Building(i)
        },
        (Stage::Building(i), Event::Exited(status)) => if *status != 0 {
            Stage::Failing { update: false, status: *status }
        } else {
            Stage::Resetting(i)
        },
        (Stage::Resetting(i), Event::Done) => if i + 1 < packages {
            Stage::Announcing(i + 1)
        } else {
            Stage::ReadingClock
        },
        (Stage::Failing { status, .. }, Event::Done) => Stage::Finished(Ok(status)),
        (Stage::ReadingClock, Event::Elapsed { secs, nanos }) => match elapsed_seconds(
            *secs,
            *nanos,
        ) {
            Some(seconds) => Stage::Summarizing(seconds),
            None => Stage::Finished(Err(BuildError::DurationOutOfRange)),
        },
        (Stage::Summarizing(_), Event::Done) => Stage::Finished(Ok(0)),
        _ => stage,
    }
}

/// A build run in progress.
pub struct BuildRun {
    tokens: Vec<String>,
    offline: bool,
    script: String,
    config: Config,
    expander: Option<Expander>,
    packages: Vec<String>,
    notices: Vec<Notice>,
    stage: Stage,
}

impl View for BuildRun {
    type V = Build;

    closed spec fn view(&self) -> Build {
        Build {
            tokens: texts(self.tokens@),
            offline: self.offline,
            script: self.script@,
            config: self.config,
            expansion: match self.expander {
                Some(expander) => Some(expander@),
                None => None,
            },
            packages: texts(self.packages@),
            notes: reports(self.notices@),
            stage: self.stage,
        }
    }
}

/// Starts a build run for `packages`, which may hold group references.
///
/// The run works offline where `offline` asks for it or `forced` says that
/// it is forced from outside. `update_script` is the script that updates
/// the system before a package is built.
pub fn package_build(
    packages: Vec<String>,
    offline: bool,
    forced: bool,
    update_script: String,
) -> (run: BuildRun)
    ensures
        run@ == initial(texts(packages@), offline, forced, update_script@),
        well_formed(run@),
{
    let run = BuildRun {
        tokens: packages,
        offline: offline || forced,
        script: update_script,
        config: Config { local_sources: false, local_repo: false, sep_mount: false },
        expander: None,
        packages: Vec::new(),
        notices: Vec::new(),
        stage: Stage::Configuring,
    };
    assert(texts(run.packages@) =~= Seq::empty());
    assert(reports(run.notices@) =~= Seq::empty());
    run
}

impl BuildRun {
    /// What the driver is to do next.
    pub fn pending(&self) -> (action: Action)
        requires
            well_formed(self@),
        ensures
            action@ == command(self@),
    {
        let total: usize = self.packages.len();
        assert(texts(self.packages@).len() == total);
        assert(reports(self.notices@).len() == self.notices@.len());
        match self.stage {
            Stage::Configuring => Action::LoadConfig,
            Stage::NotingOffline => Action::Report(Notice::PreparingOffline),
            Stage::Fetching(fetch) => fetch_action(fetch, &self.tokens),
            Stage::EnablingOffline => Action::EnableOffline,
            Stage::NotingOfflineReady => Action::Report(Notice::OfflineReady),
            Stage::Mounting => Action::MountFs,
            Stage::RollingBack => Action::Rollback,
            Stage::BuildingAll => Action::Run(build_command_line(&self.tokens)),
            Stage::Expanding => match &self.expander {
                Some(expander) => match expander.pending() {
                    Some(path) => Action::ReadFile(path),
                    None => unreached(),
                },
                None => unreached(),
            },
            Stage::Noting(k) => Action::Report(self.notices[k].duplicate()),
            Stage::StartingClock => Action::StartClock,
            Stage::Announcing(i) => Action::Report(
                Notice::Building {
                    position: i + 1,
                    total,
                    package: self.packages[i].clone(),
                },
            ),
            Stage::MountingFor(_) => Action::MountFs,
            Stage::NotingRefresh(_) => Action::Report(Notice::RefreshingRepository),
            Stage::Refreshing(_) => Action::RefreshRepo { sep_mount: self.config.sep_mount },
            Stage::Updating(_) => Action::Run(update_command_line(&self.script)),
            Stage::Building(i) => Action::Run(package_command_line(&self.packages[i])),
            Stage::Resetting(_) => Action::Rollback,
            Stage::Failing { update, status } => Action::Report(
                if update {
                    Notice::UpdateFailed
                } else {
                    Notice::BuildFailed { status }
                },
            ),
            Stage::ReadingClock => Action::ReadClock,
            Stage::Summarizing(seconds) => Action::Report(
                Notice::Succeeded {
                    total,
                    duration: format_duration(seconds),
                },
            ),
            Stage::Finished(result) => Action::Finish(result),
        }
    }

    /// Whether the run is over, and with what.
    pub fn result(&self) -> (result: Option<Result<i32, BuildError>>)
        ensures
            result == match self@.stage {
                Stage::Finished(r) => Some(r),
                _ => None,
            },
    {
        match self.stage {
            Stage::Finished(r) => Some(r),
            _ => None,
        }
    }

    /// Takes in how the pending action went.
    pub fn feed(&mut self, event: Event)
        requires
            well_formed(old(self)@),
        ensures
            final(self)@ == step(old(self)@, event@),
            well_formed(final(self)@),
    {
        let total: usize = self.packages.len();
        let noted: usize = self.notices.len();
        assert(texts(self.packages@).len() == total);
        assert(reports(self.notices@).len() == noted);
        match (self.stage, event) {
            (Stage::Configuring, Event::Config(None)) => {
                self.stage = Stage::Finished(Err(BuildError::NotConfigured));
            },
            (Stage::Configuring, Event::Config(Some(config))) => {
                self.config = config;
                self.stage = if self.offline {
                    Stage::NotingOffline
                } else {
                    Stage::Mounting
                };
            },
            (Stage::RollingBack, Event::Done) => {
                if self.config.local_repo {
                    let mut copies: Vec<String> = Vec::new();
                    crate::protocol::append_copies(&mut copies, &self.tokens);
                    assert(texts(copies@) =~= texts(self.tokens@));
                    proof {
                        lemma_scan_waits(texts(self.tokens@), Seq::empty(), Seq::empty());
                    }
                    let expander = expand_package_list(copies);
                    self.settle(expander);
                } else {
                    self.stage = Stage::BuildingAll;
                }
            },
            (Stage::Expanding, Event::File(content)) => {
                let taken = self.expander.take();
                match taken {
                    Some(mut expander) => {
                        proof {
                            lemma_supply_waits(expander@, content_view(content));
                        }
                        expander.supply(content);
                        self.settle(expander);
                    },
                    None => {},
                }
            },
            (stage, event) => {
                self.stage = stage_advance(stage, &event, total, noted);
            },
        }
    }

    fn settle(&mut self, expander: Expander)
        requires
            old(self).expander is None,
            expander@ is Done || awaited(expander@) is Some,
            well_formed(at(old(self)@, Stage::Mounting)),
        ensures
            final(self)@ == expanding(at(old(self)@, old(self).stage), expander@),
            well_formed(final(self)@),
    {
        if expander.is_done() {
            match expander.into_parts() {
                Some(parts) => {
                    self.packages = parts.0;
                    self.notices = parts.1;
                    assert(texts(self.packages@).len() == self.packages.len());
                    assert(reports(self.notices@).len() == self.notices.len());
                    self.stage = if self.notices.len() > 0 {
                        Stage::Noting(0)
                    } else {
                        Stage::StartingClock
                    };
                },
                None => {},
            }
        } else {
            self.expander = Some(expander);
            self.stage = Stage::Expanding;
        }
    }
}

} // verus!

//! What a run reports to the person watching it.

use crate::group::{failure_text, Failure, ResolveError};
use crate::numeral::{decimal, push_decimal, push_signed, signed_decimal};
use vstd::prelude::*;
use vstd::string::*;

verus! {

/// The content of a [`Notice`].
pub ghost enum Report {
    LocalSourcesOff,
    PreparingOffline,
    OfflineReady,
    GroupResolved { group: Seq<char>, count: nat },
    GroupFailed { group: Seq<char>, failure: Failure },
    Building { position: nat, total: nat, package: Seq<char> },
    RefreshingRepository,
    UpdateFailed,
    BuildFailed { status: int },
    Succeeded { total: nat, duration: Seq<char> },
}

/// Something to tell the person who watches a run.
#[derive(Debug, PartialEq, Eq)]
pub enum Notice {
    /// Sources are fetched although they are not cached locally.
    LocalSourcesOff,
    /// Sources are about to be fetched for an offline build.
    PreparingOffline,
    /// The sources are there; the build goes on without the network.
    OfflineReady,
    /// The group `group` resolved to `count` tokens.
    GroupResolved { group: String, count: usize },
    /// The group `group` could not be resolved and was dropped.
    GroupFailed { group: String, error: ResolveError },
    /// The build of `package`, the `position`-th of `total`, begins.
    Building { position: usize, total: usize, package: String },
    /// The local repository is about to be refreshed.
    RefreshingRepository,
    /// The system update that precedes a build has failed.
    UpdateFailed,
    /// The build of a package has ended with `status`.
    BuildFailed { status: i32 },
    /// All `total` packages were built, within `duration`.
    Succeeded { total: usize, duration: String },
}

impl View for Notice {
    type V = Report;

    open spec fn view(&self) -> Report {
        match self {
            Notice::LocalSourcesOff => Report::LocalSourcesOff,
            Notice::PreparingOffline => Report::PreparingOffline,
            Notice::OfflineReady => Report::OfflineReady,
            Notice::GroupResolved { group, count } => Report::GroupResolved {
                group: group@,
                count: *count as nat,
            },
            Notice::GroupFailed { group, error } => Report::GroupFailed {
                group: group@,
                failure: error@,
            },
            Notice::Building { position, total, package } => Report::Building {
                position: *position as nat,
                total: *total as nat,
                package: package@,
            },
            Notice::RefreshingRepository => Report::RefreshingRepository,
            Notice::UpdateFailed => Report::UpdateFailed,
            Notice::BuildFailed { status } => Report::BuildFailed { status: *status as int },
            Notice::Succeeded { total, duration } => Report::Succeeded {
                total: *total as nat,
                duration: duration@,
            },
        }
    }
}

/// The contents of the notices `v`, in order.
pub open spec fn reports(v: Seq<Notice>) -> Seq<Report> {
    v.map_values(|n: Notice| n@)
}

impl Notice {
    /// A copy of this notice.
    pub fn duplicate(&self) -> (copy: Notice)
        ensures
            copy@ == self@,
    {
        match self {
            Notice::LocalSourcesOff => Notice::LocalSourcesOff,
            Notice::PreparingOffline => Notice::PreparingOffline,
            Notice::OfflineReady => Notice::OfflineReady,
            Notice::GroupResolved { group, count } => Notice::GroupResolved {
                group: group.clone(),
                count: *count,
            },
            Notice::GroupFailed { group, error } => Notice::GroupFailed {
                group: group.clone(),
                error: error.duplicate(),
            },
            Notice::Building { position, total, package } => Notice::Building {
                position: *position,
                total: *total,
                package: package.clone(),
            },
            Notice::RefreshingRepository => Notice::RefreshingRepository,
            Notice::UpdateFailed => Notice::UpdateFailed,
            Notice::BuildFailed { status } => Notice::BuildFailed { status: *status },
            Notice::Succeeded { total, duration } => Notice::Succeeded {
                total: *total,
                duration: duration.clone(),
            },
        }
    }
}

/// How much a notice matters.
#[derive(Clone, Copy, Debug, PartialEq, Eq, Structural)]
pub enum Level {
    /// The run goes on as planned.
    Info,
    /// Something is off; the run goes on.
    Warning,
    /// A command has failed; the run ends.
    Error,
    /// The run has built everything.
    Success,
}

/// How much `report` matters.
pub open spec fn report_level(report: Report) -> Level {
    match report {
        Report::LocalSourcesOff => Level::Warning,
        Report::GroupFailed { .. } => Level::Warning,
        Report::UpdateFailed => Level::Error,
        Report::BuildFailed { .. } => Level::Error,
        Report::Succeeded { .. } => Level::Success,
        _ => Level::Info,
    }
}

/// The line that tells `report`. For a success it is what follows the
/// banner.
pub open spec fn report_text(report: Report) -> Seq<char> {
    match report {
        Report::LocalSourcesOff => "Using this function without local sources caching is probably meaningless."@,
        Report::PreparingOffline => "Preparing offline mode. Fetching source packages first ..."@,
        Report::OfflineReady => "Running in offline mode. Network access disabled."@,
        Report::GroupResolved { group, count } => "Read "@ + decimal(count) + " packages from "@
            + group,
        Report::GroupFailed { group, failure } => "Unable to read package group `"@ + group
            + "`: "@ + failure_text(failure),
        Report::Building { position, total, package } => "["@ + decimal(position) + "/"@ + decimal(
            total,
        ) + "] Building "@ + package + "..."@,
        Report::RefreshingRepository => "Refreshing local repository..."@,
        Report::UpdateFailed => "Failed to update the OS before building packages"@,
        Report::BuildFailed { status } => "Build failed with status: "@ + signed_decimal(status),
        Report::Succeeded { total, duration } => decimal(total) + " packages in "@ + duration,
    }
}

/// The escape sequence that puts the progress of `report` into the title of
/// the terminal, followed by a carriage return that hides it where the
/// terminal does not know the sequence. Only the announcement of a build
/// has one.
pub open spec fn report_title(report: Report) -> Option<Seq<char>> {
    match report {
        Report::Building { position, total, package } => Some(
            "\x1b]0;ciel: ["@ + decimal(position) + "/"@ + decimal(total) + "] "@ + package
                + "\x07\r"@,
        ),
        _ => None,
    }
}

impl Notice {
    /// How much this notice matters.
    pub fn level(&self) -> (level: Level)
        ensures
            level == report_level(self@),
    {
        match self {
            Notice::LocalSourcesOff => Level::Warning,
            Notice::GroupFailed { .. } => Level::Warning,
            Notice::UpdateFailed => Level::Error,
            Notice::BuildFailed { .. } => Level::Error,
            Notice::Succeeded { .. } => Level::Success,
            _ => Level::Info,
        }
    }

    /// The line that tells this notice.
    pub fn message(&self) -> (text: String)
        ensures
            text@ == report_text(self@),
    {
        match self {
            Notice::LocalSourcesOff => String::from_str(
                "Using this function without local sources caching is probably meaningless.",
            ),
            Notice::PreparingOffline => String::from_str(
                "Preparing offline mode. Fetching source packages first ...",
            ),
            Notice::OfflineReady => String::from_str(
                "Running in offline mode. Network access disabled.",
            ),
            Notice::GroupResolved { group, count } => {
                let mut text = String::from_str("Read ");
                push_decimal(&mut text, *count as u64);
                text.append(" packages from ");
                text.append(group.as_str());
                text
            },
            Notice::GroupFailed { group, error } => {
                let mut text = String::from_str("Unable to read package group `");
                text.append(group.as_str());
                text.append("`: ");
                let reason = error.message();
                text.append(reason.as_str());
                text
            },
            Notice::Building { position, total, package } => {
                let mut text = String::from_str("[");
                push_decimal(&mut text, *position as u64);
                text.append("/");
                push_decimal(&mut text, *total as u64);
                text.append("] Building ");
                text.append(package.as_str());
                text.append("...");
                text
            },
            Notice::RefreshingRepository => String::from_str("Refreshing local repository..."),
            Notice::UpdateFailed => String::from_str(
                "Failed to update the OS before building packages",
            ),
            Notice::BuildFailed { status } => {
                let mut text = String::from_str("Build failed with status: ");
                push_signed(&mut text, *status as i64);
                text
            },
            Notice::Succeeded { total, duration } => {
                let mut text = String::new();
                push_decimal(&mut text, *total as u64);
                text.append(" packages in ");
                text.append(duration.as_str());
                assert(text@ =~= report_text(self@));
                text
            },
        }
    }

    /// The escape sequence that puts the progress into the title of the
    /// terminal, where this notice has one.
    pub fn title(&self) -> (text: Option<String>)
        ensures
            text is Some <==> report_title(self@) is Some,
            text matches Some(t) ==> t@ == report_title(self@)->0,
    {
        match self {
            Notice::Building { position, total, package } => {
                let mut text = String::from_str("\x1b]0;ciel: [");
                push_decimal(&mut text, *position as u64);
                text.append("/");
                push_decimal(&mut text, *total as u64);
                text.append("] ");
                text.append(package.as_str());
                text.append("\x07\r");
                Some(text)
            },
            _ => None,
        }
    }
}

} // verus!

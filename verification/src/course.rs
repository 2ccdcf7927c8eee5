//! The course of a build run: what it commands, in which order, and how it
//! ends.

use crate::build_run::{at, command, expanding, from_package, step, well_formed, Build, Stage};
use crate::expand::{
    awaited, expand, expansion_cost, expansion_outcome, expansion_reads, in_order,
    lemma_expansion_supply, lemma_scan, lemma_scan_waits, lemma_supply_waits, Expansion,
};
use crate::notice::Report;
use crate::protocol::{
    answers, build_argv, fetch_argv, update_argv, BuildError, Command, Config, Signal,
};
use vstd::prelude::*;

verus! {

/// The run that `b` has become once `signals` have arrived, in order.
pub open spec fn after(b: Build, signals: Seq<Signal>) -> Build
    decreases signals.len(),
{
    if signals.len() == 0 {
        b
    } else {
        after(step(b, signals.first()), signals.drop_first())
    }
}

/// The commands that the run `b` gives while `signals` arrive: the one that
/// stands before each signal, in order.
pub open spec fn commands(b: Build, signals: Seq<Signal>) -> Seq<Command>
    decreases signals.len(),
{
    if signals.len() == 0 {
        Seq::empty()
    } else {
        seq![command(b)] + commands(step(b, signals.first()), signals.drop_first())
    }
}

/// A run stays well-formed whatever arrives.
pub proof fn lemma_step_keeps_well_formed(b: Build, signal: Signal)
    requires
        well_formed(b),
    ensures
        well_formed(step(b, signal)),
{
    match (b.stage, signal) {
        (Stage::RollingBack, Signal::Done) => {
            lemma_scan_waits(b.tokens, Seq::empty(), Seq::empty());
        },
        (Stage::Expanding, Signal::File(content)) => {
            lemma_supply_waits(b.expansion->0, content);
        },
        _ => {},
    }
}

/// A run stays well-formed however many signals arrive.
pub proof fn lemma_after_keeps_well_formed(b: Build, signals: Seq<Signal>)
    requires
        well_formed(b),
    ensures
        well_formed(after(b, signals)),
    decreases signals.len(),
{
    if signals.len() > 0 {
        lemma_step_keeps_well_formed(b, signals.first());
        lemma_after_keeps_well_formed(step(b, signals.first()), signals.drop_first());
    }
}

/// A signal that does not answer the pending command changes nothing.
pub proof fn lemma_stray_signal_is_ignored(b: Build, signal: Signal)
    requires
        well_formed(b),
        !answers(signal, command(b)),
    ensures
        step(b, signal) == b,
{
}

/// A run that is over stays over and commands nothing but its end.
pub proof fn lemma_finished_stays(b: Build, signals: Seq<Signal>)
    requires
        b.stage is Finished,
    ensures
        after(b, signals) == b,
        forall|k: int| 0 <= k < signals.len() ==> #[trigger] commands(b, signals)[k] == command(b),
        commands(b, signals).len() == signals.len(),
    decreases signals.len(),
{
    if signals.len() > 0 {
        lemma_finished_stays(b, signals.drop_first());
    }
}

/// Signals that arrive one batch after another: the run goes through the
/// first batch, then through the second, and its commands follow suit.
pub proof fn lemma_in_sequence(b: Build, first: Seq<Signal>, second: Seq<Signal>)
    ensures
        after(b, first + second) == after(after(b, first), second),
        commands(b, first + second) == commands(b, first) + commands(after(b, first), second),
    decreases first.len(),
{
    if first.len() == 0 {
        assert(first + second =~= second);
        assert(commands(b, first) + commands(b, second) =~= commands(b, second));
    } else {
        let all = first + second;
        assert(all.first() == first.first());
        assert(all.drop_first() =~= first.drop_first() + second);
        let next = step(b, first.first());
        lemma_in_sequence(next, first.drop_first(), second);
        assert(commands(b, all) =~= commands(b, first) + commands(after(b, first), second));
    }
}

/// One signal, then more.
pub proof fn lemma_one_then(b: Build, signal: Signal, more: Seq<Signal>)
    ensures
        after(b, seq![signal] + more) == after(step(b, signal), more),
        commands(b, seq![signal] + more) == seq![command(b)] + commands(step(b, signal), more),
{
    let all = seq![signal] + more;
    assert(all.first() == signal);
    assert(all.drop_first() =~= more);
}

/// The signals that answer the commands of a package up to the update of
/// the system.
pub open spec fn prepared() -> Seq<Signal> {
    seq![Signal::Done, Signal::Done, Signal::Done, Signal::Done]
}

/// The signals that answer the update and the build of a package that
/// builds, and the reset that follows.
pub open spec fn completing() -> Seq<Signal> {
    seq![Signal::Exited(0), Signal::Exited(0), Signal::Done]
}

/// The signals that answer the commands of one package that builds.
pub open spec fn built() -> Seq<Signal> {
    prepared() + completing()
}

/// The commands that build package `i` of the run `b`: the announcement,
/// the mount, the refresh of the repository and its announcement, the
/// update of the system, the build of this one package, and the reset of
/// the container.
pub open spec fn package_commands(b: Build, i: int) -> Seq<Command> {
    seq![
        Command::Report(
            Report::Building {
                position: (i + 1) as nat,
                total: b.packages.len(),
                package: b.packages[i],
            },
        ),
        Command::MountFs,
        Command::Report(Report::RefreshingRepository),
        Command::RefreshRepo { sep_mount: b.config.sep_mount },
        Command::Run(update_argv(b.script)),
        Command::Run(build_argv(seq![b.packages[i]])),
        Command::Rollback,
    ]
}

/// Up to the update of the system a package takes four commands, none of
/// which can fail the run.
pub proof fn lemma_package_prepared(b: Build, i: usize)
    requires
        b.stage == Stage::Announcing(i),
        i < b.packages.len(),
    ensures
        commands(b, prepared()) == package_commands(b, i as int).take(4),
        after(b, prepared()) == at(b, Stage::Updating(i)),
{
    let s0 = prepared();
    let s1 = s0.drop_first();
    let s2 = s1.drop_first();
    let s3 = s2.drop_first();
    let s4 = s3.drop_first();
    let b1 = step(b, s0.first());
    let b2 = step(b1, s1.first());
    let b3 = step(b2, s2.first());
    let b4 = step(b3, s3.first());
    assert(s4.len() == 0);
    assert(b1 == at(b, Stage::MountingFor(i)));
    assert(b2 == at(b, Stage::NotingRefresh(i)));
    assert(b3 == at(b, Stage::Refreshing(i)));
    assert(b4 == at(b, Stage::Updating(i)));
    assert(after(b4, s4) == b4);
    assert(after(b3, s3) == b4);
    assert(after(b2, s2) == b4);
    assert(after(b1, s1) == b4);
    assert(commands(b4, s4) =~= Seq::empty());
    assert(commands(b3, s3) =~= seq![command(b3)]);
    assert(commands(b2, s2) =~= seq![command(b2), command(b3)]);
    assert(commands(b1, s1) =~= seq![command(b1), command(b2), command(b3)]);
    assert(commands(b, s0) =~= package_commands(b, i as int).take(4));
}

/// A package that builds: the run gives the commands of this package, in
/// order, and then stands at the next package, or at the clock after the
/// last.
pub proof fn lemma_package_course(b: Build, i: usize)
    requires
        b.stage == Stage::Announcing(i),
        i < b.packages.len() <= usize::MAX,
    ensures
        commands(b, built()) == package_commands(b, i as int),
        after(b, built()) == at(b, from_package(i + 1, b.packages.len())),
{
    lemma_package_prepared(b, i);
    lemma_in_sequence(b, prepared(), completing());
    let updating = at(b, Stage::Updating(i));
    let s0 = completing();
    let s1 = s0.drop_first();
    let s2 = s1.drop_first();
    let s3 = s2.drop_first();
    let b1 = step(updating, s0.first());
    let b2 = step(b1, s1.first());
    let b3 = step(b2, s2.first());
    assert(s3.len() == 0);
    assert(b1 == at(b, Stage::Building(i)));
    assert(b2 == at(b, Stage::Resetting(i)));
    assert(b3 == at(b, from_package(i + 1, b.packages.len())));
    assert(after(b3, s3) == b3);
    assert(after(b2, s2) == b3);
    assert(after(b1, s1) == b3);
    assert(after(updating, s0) == b3);
    assert(commands(b3, s3) =~= Seq::empty());
    assert(commands(b2, s2) =~= seq![command(b2)]);
    assert(commands(b1, s1) =~= seq![command(b1), command(b2)]);
    assert(commands(updating, s0) =~= seq![command(updating), command(b1), command(b2)]);
    assert(commands(b, built()) =~= package_commands(b, i as int));
}

/// The signals that answer the commands of `count` packages that build.
pub open spec fn all_built(count: nat) -> Seq<Signal>
    decreases count,
{
    if count == 0 {
        Seq::empty()
    } else {
        built() + all_built((count - 1) as nat)
    }
}

/// The commands that build `count` packages of the run `b`, from package
/// `i` on, one after the other.
pub open spec fn commands_from(b: Build, i: int, count: nat) -> Seq<Command>
    decreases count,
{
    if count == 0 {
        Seq::empty()
    } else {
        package_commands(b, i) + commands_from(b, i + 1, (count - 1) as nat)
    }
}

/// Packages are built one at a time and in the order of the list: while
/// every update and every build succeeds, the run gives the commands of
/// package `i`, then those of package `i + 1`, and so on, and then stands at
/// the package after them, or at the clock after the last.
pub proof fn lemma_packages_in_order(b: Build, i: usize, count: nat)
    requires
        b.stage == Stage::Announcing(i),
        0 < count,
        i + count <= b.packages.len() <= usize::MAX,
    ensures
        commands(b, all_built(count)) == commands_from(b, i as int, count),
        after(b, all_built(count)) == at(b, from_package(i + count, b.packages.len())),
    decreases count,
{
    let rest = all_built((count - 1) as nat);
    lemma_package_course(b, i);
    lemma_in_sequence(b, built(), rest);
    let next = after(b, built());
    if count == 1 {
        assert(rest =~= Seq::<Signal>::empty());
        assert(commands(b, built()) + commands(next, rest) =~= commands(b, built()));
        assert(commands_from(b, i + 1, 0) =~= Seq::<Command>::empty());
        assert(package_commands(b, i as int) + commands_from(b, i + 1, 0) =~= package_commands(
            b,
            i as int,
        ));
    } else {
        lemma_packages_in_order(next, (i + 1) as usize, (count - 1) as nat);
        lemma_commands_from_stage(b, next, i + 1, (count - 1) as nat);
    }
}

/// The commands that build packages depend on the stage of the run in
/// nothing.
pub proof fn lemma_commands_from_stage(b: Build, other: Build, i: int, count: nat)
    requires
        other == at(b, other.stage),
    ensures
        commands_from(other, i, count) == commands_from(b, i, count),
    decreases count,
{
    if count > 0 {
        lemma_commands_from_stage(b, other, i + 1, (count - 1) as nat);
    }
}

/// What a run that has failed shows: the failure of the update, or of the
/// build with its status.
pub open spec fn failure_report(update: bool, status: i32) -> Command {
    Command::Report(
        if update {
            Report::UpdateFailed
        } else {
            Report::BuildFailed { status: status as int }
        },
    )
}

/// Once an update or a build has failed, the run shows the failure and ends
/// with the status that failed, whatever arrives: it builds nothing more,
/// resets nothing and reports no success.
pub proof fn lemma_failure_is_final(b: Build, signals: Seq<Signal>)
    requires
        b.stage is Failing,
    ensures
        commands(b, signals).len() == signals.len(),
        forall|k: int|
            0 <= k < signals.len() ==> {
                ||| #[trigger] commands(b, signals)[k] == failure_report(
                    b.stage->update,
                    b.stage->status,
                )
                ||| commands(b, signals)[k] == Command::Finish(Ok(b.stage->status))
            },
        after(b, signals) == b || after(b, signals) == at(
            b,
            Stage::Finished(Ok(b.stage->status)),
        ),
    decreases signals.len(),
{
    if signals.len() > 0 {
        let next = step(b, signals.first());
        if next.stage is Failing {
            assert(next == b);
            lemma_failure_is_final(b, signals.drop_first());
        } else {
            assert(next == at(b, Stage::Finished(Ok(b.stage->status))));
            lemma_finished_stays(next, signals.drop_first());
        }
    }
}

/// The first command that fails ends the run: an update or a build that
/// exits with a status other than 0 leaves the run failing with that
/// status.
pub proof fn lemma_nonzero_status_fails(b: Build, status: i32)
    requires
        b.stage is Updating || b.stage is Building,
        status != 0,
    ensures
        step(b, Signal::Exited(status)) == at(
            b,
            Stage::Failing { update: b.stage is Updating, status },
        ),
{
}

/// Without a local repository everything is built by one command, on the
/// tokens as they were given, and the exit status of that command is the
/// result of the run.
pub proof fn lemma_remote_course(b: Build, status: i32)
    requires
        b.stage == Stage::RollingBack,
        !b.config.local_repo,
    ensures
        ({
            let building = step(b, Signal::Done);
            let finished = step(building, Signal::Exited(status));
            &&& command(b) == Command::Rollback
            &&& command(building) == Command::Run(build_argv(b.tokens))
            &&& command(finished) == Command::Finish(Ok(status))
        }),
{
}

/// Without a configuration a run fails at once; with one, a run that is not
/// offline goes straight on to mount the file system.
pub proof fn lemma_configuration(b: Build, config: Config)
    requires
        b.stage == Stage::Configuring,
    ensures
        command(b) == Command::LoadConfig,
        command(step(b, Signal::Config(None))) == Command::Finish(Err(BuildError::NotConfigured)),
        !b.offline ==> command(step(b, Signal::Config(Some(config)))) == Command::MountFs,
        b.offline ==> command(step(b, Signal::Config(Some(config)))) == Command::Report(
            Report::PreparingOffline,
        ),
{
}

/// An offline run fetches first: it loads the configuration once more,
/// warns where sources are not cached locally, mounts, resets and runs the
/// fetch command on the tokens as they were given. Whatever the exit status
/// of that command, the run then switches the offline toggle on, says so,
/// and goes on to mount the file system for the build.
pub proof fn lemma_offline_course(b: Build, config: Config, status: i32)
    requires
        b.stage == Stage::NotingOffline,
    ensures
        ({
            let loading = step(b, Signal::Done);
            let loaded = step(loading, Signal::Config(Some(config)));
            let mounting = if config.local_sources {
                loaded
            } else {
                step(loaded, Signal::Done)
            };
            let resetting = step(mounting, Signal::Done);
            let fetching = step(resetting, Signal::Done);
            let enabling = step(fetching, Signal::Exited(status));
            let noting = step(enabling, Signal::Done);
            let building = step(noting, Signal::Done);
            &&& command(loading) == Command::LoadConfig
            &&& !config.local_sources ==> command(loaded) == Command::Report(
                Report::LocalSourcesOff,
            )
            &&& command(mounting) == Command::MountFs
            &&& command(resetting) == Command::Rollback
            &&& command(fetching) == Command::Run(fetch_argv(b.tokens))
            &&& command(enabling) == Command::EnableOffline
            &&& command(noting) == Command::Report(Report::OfflineReady)
            &&& building == at(b, Stage::Mounting)
            &&& command(step(loading, Signal::Config(None))) == Command::Finish(
                Err(BuildError::NotConfigured),
            )
        }),
{
}

/// Once the clock has been read, a run that has built everything reports
/// its success, with the number of packages and the time as hours, minutes
/// and seconds, and ends with status 0; a time out of range makes it fail.
pub proof fn lemma_success_course(b: Build, secs: u64, nanos: u32)
    requires
        b.stage == Stage::ReadingClock,
    ensures
        ({
            let read = step(b, Signal::Elapsed { secs, nanos });
            &&& command(b) == Command::ReadClock
            &&& crate::duration::reading_seconds(secs, nanos) matches Some(seconds) ==> {
                &&& command(read) == Command::Report(
                    Report::Succeeded {
                        total: b.packages.len(),
                        duration: crate::duration::duration_text(seconds as int),
                    },
                )
                &&& command(step(read, Signal::Done)) == Command::Finish(Ok(0))
            }
            &&& crate::duration::reading_seconds(secs, nanos) is None ==> command(read)
                == Command::Finish(Err(BuildError::DurationOutOfRange))
        }),
{
}

/// The signals that answer the update and the build of a package whose
/// update, or whose build, exits with `status`.
pub open spec fn failing(update: bool, status: i32) -> Seq<Signal> {
    if update {
        seq![Signal::Exited(status)]
    } else {
        seq![Signal::Exited(0), Signal::Exited(status)]
    }
}

/// The signals that answer the commands of a package whose update, or whose
/// build, exits with `status`.
pub open spec fn failed(update: bool, status: i32) -> Seq<Signal> {
    prepared() + failing(update, status)
}

/// The commands of package `i` up to the one that failed: the update, or
/// the build.
pub open spec fn commands_until_failure(b: Build, i: int, update: bool) -> Seq<Command> {
    package_commands(b, i).take(
        if update {
            5
        } else {
            6
        },
    )
}

/// A package that fails: the run gives the commands of this package up to
/// the one that fails, and is then failing with the status of that command.
pub proof fn lemma_package_fails(b: Build, i: usize, update: bool, status: i32)
    requires
        b.stage == Stage::Announcing(i),
        i < b.packages.len(),
        status != 0,
    ensures
        commands(b, failed(update, status)) == commands_until_failure(b, i as int, update),
        after(b, failed(update, status)) == at(b, Stage::Failing { update, status }),
{
    lemma_package_prepared(b, i);
    lemma_in_sequence(b, prepared(), failing(update, status));
    let updating = at(b, Stage::Updating(i));
    let s0 = failing(update, status);
    let s1 = s0.drop_first();
    let b1 = step(updating, s0.first());
    let fallen = at(b, Stage::Failing { update, status });
    if update {
        assert(s1.len() == 0);
        assert(b1 == fallen);
        assert(after(updating, s0) == fallen);
        assert(commands(b1, s1) =~= Seq::empty());
        assert(commands(updating, s0) =~= seq![command(updating)]);
    } else {
        let s2 = s1.drop_first();
        let b2 = step(b1, s1.first());
        assert(s2.len() == 0);
        assert(b1 == at(b, Stage::Building(i)));
        assert(b2 == fallen);
        assert(after(b2, s2) == fallen);
        assert(after(b1, s1) == fallen);
        assert(commands(b2, s2) =~= Seq::empty());
        assert(commands(b1, s1) =~= seq![command(b1)]);
        assert(commands(updating, s0) =~= seq![command(updating), command(b1)]);
    }
    assert(commands(b, failed(update, status)) =~= commands_until_failure(b, i as int, update));
}

/// A run stops at the first failure: where `count` packages build and the
/// update or the build of the next exits with a status other than 0, the
/// run gives the commands of those packages and of the next up to the one
/// that fails, and is then failing with that status. By
/// [`lemma_failure_is_final`] it then only shows the failure and ends: no
/// later package is touched.
pub proof fn lemma_stops_at_first_failure(
    b: Build,
    i: usize,
    count: nat,
    update: bool,
    status: i32,
)
    requires
        b.stage == Stage::Announcing(i),
        i + count < b.packages.len() <= usize::MAX,
        status != 0,
    ensures
        commands(b, all_built(count) + failed(update, status)) == commands_from(
            b,
            i as int,
            count,
        ) + commands_until_failure(b, i + count, update),
        after(b, all_built(count) + failed(update, status)) == at(
            b,
            Stage::Failing { update, status },
        ),
{
    lemma_in_sequence(b, all_built(count), failed(update, status));
    if count == 0 {
        assert(all_built(0) =~= Seq::<Signal>::empty());
        assert(commands(b, all_built(0)) =~= Seq::<Command>::empty());
        assert(commands_from(b, i as int, 0) =~= Seq::<Command>::empty());
        lemma_package_fails(b, i, update, status);
        assert(commands(b, all_built(count) + failed(update, status)) =~= commands_from(
            b,
            i as int,
            count,
        ) + commands_until_failure(b, i + count, update));
    } else {
        lemma_packages_in_order(b, i, count);
        let next = after(b, all_built(count));
        lemma_package_fails(next, (i + count) as usize, update, status);
    }
}

/// The run that `b` has become after at most `fuel` reads for its
/// expansion, each answered as `files` says.
pub open spec fn read_files(
    files: spec_fn(Seq<char>) -> Result<Seq<char>, Seq<char>>,
    b: Build,
    fuel: nat,
) -> Build
    decreases fuel,
{
    if fuel == 0 || !(b.stage is Expanding) || b.expansion is None {
        b
    } else {
        read_files(
            files,
            step(b, Signal::File(files(awaited(b.expansion->0)->0))),
            (fuel - 1) as nat,
        )
    }
}

/// The run `b` with its expansion done and come to what `files` makes of
/// `tokens`.
pub open spec fn expanded(
    files: spec_fn(Seq<char>) -> Result<Seq<char>, Seq<char>>,
    b: Build,
    tokens: Seq<Seq<char>>,
) -> Build {
    expanding(
        b,
        Expansion::Done {
            packages: expand(files, tokens).packages,
            notes: expand(files, tokens).notes,
        },
    )
}

/// With enough reads answered as `files` says, a run that is expanding has
/// the packages and notes that its expansion leads to.
pub proof fn lemma_reading(
    files: spec_fn(Seq<char>) -> Result<Seq<char>, Seq<char>>,
    b: Build,
    fuel: nat,
)
    requires
        b.stage is Expanding,
        b.expansion is Some,
        b.expansion->0 is Resolving,
        in_order(b.expansion->0),
        fuel >= expansion_cost(files, b.expansion->0),
    ensures
        read_files(files, b, fuel) == expanding(
            b,
            Expansion::Done {
                packages: expansion_outcome(files, b.expansion->0).packages,
                notes: expansion_outcome(files, b.expansion->0).notes,
            },
        ),
    decreases fuel,
{
    let e = b.expansion->0;
    lemma_expansion_supply(files, e);
    let next = step(b, Signal::File(files(awaited(e)->0)));
    if next.stage is Expanding {
        lemma_reading(files, next, (fuel - 1) as nat);
    }
}

/// With a local repository the packages that a run builds are those that
/// its tokens expand to: once the container has been reset and the group
/// files have been read, the run holds the packages and notes of
/// `expand(files, b.tokens)`, and goes on to show the notes, or to start
/// the clock where there is none.
pub proof fn lemma_expansion_in_build(
    files: spec_fn(Seq<char>) -> Result<Seq<char>, Seq<char>>,
    b: Build,
    fuel: nat,
)
    requires
        b.stage == Stage::RollingBack,
        b.config.local_repo,
        fuel >= expansion_reads(files, b.tokens),
    ensures
        read_files(files, step(b, Signal::Done), fuel) == expanded(files, b, b.tokens),
{
    let all = expand(files, b.tokens);
    lemma_scan(files, b.tokens, Seq::empty(), Seq::empty());
    assert(Seq::<Seq<char>>::empty() + all.packages =~= all.packages);
    assert(Seq::<Report>::empty() + all.notes =~= all.notes);
    let started = step(b, Signal::Done);
    if started.stage is Expanding {
        lemma_reading(files, started, fuel);
    }
}

/// `count` times the signal that an action was carried out.
pub open spec fn dones(count: nat) -> Seq<Signal>
    decreases count,
{
    if count == 0 {
        Seq::empty()
    } else {
        seq![Signal::Done] + dones((count - 1) as nat)
    }
}

/// The commands that show `count` notes of the run `b`, from note `k` on.
pub open spec fn note_commands(b: Build, k: int, count: nat) -> Seq<Command>
    decreases count,
{
    if count == 0 {
        Seq::empty()
    } else {
        seq![Command::Report(b.notes[k])] + note_commands(b, k + 1, (count - 1) as nat)
    }
}

/// The notes of the expansion are shown in their order, and the clock is
/// started after the last.
pub proof fn lemma_notes_in_order(b: Build, k: usize, count: nat)
    requires
        b.stage == Stage::Noting(k),
        0 < count,
        k + count == b.notes.len() <= usize::MAX,
    ensures
        commands(b, dones(count)) == note_commands(b, k as int, count),
        after(b, dones(count)) == at(b, Stage::StartingClock),
    decreases count,
{
    let rest = dones((count - 1) as nat);
    lemma_one_then(b, Signal::Done, rest);
    let next = step(b, Signal::Done);
    if count == 1 {
        assert(rest =~= Seq::<Signal>::empty());
        assert(note_commands(b, k + 1, 0) =~= Seq::<Command>::empty());
    } else {
        lemma_notes_in_order(next, (k + 1) as usize, (count - 1) as nat);
        lemma_note_commands_stage(b, next, k + 1, (count - 1) as nat);
    }
}

/// The commands that show notes depend on the stage of the run in nothing.
pub proof fn lemma_note_commands_stage(b: Build, other: Build, k: int, count: nat)
    requires
        other == at(b, other.stage),
    ensures
        note_commands(other, k, count) == note_commands(b, k, count),
    decreases count,
{
    if count > 0 {
        lemma_note_commands_stage(b, other, k + 1, (count - 1) as nat);
    }
}

/// The signals that end a run that has built everything: the reading of
/// the clock, and the success shown.
pub open spec fn closing(secs: u64, nanos: u32) -> Seq<Signal> {
    seq![Signal::Elapsed { secs, nanos }, Signal::Done]
}

/// The commands that end a run that has built everything within `seconds`.
pub open spec fn closing_commands(b: Build, seconds: i64) -> Seq<Command> {
    seq![
        Command::ReadClock,
        Command::Report(
            Report::Succeeded {
                total: b.packages.len(),
                duration: crate::duration::duration_text(seconds as int),
            },
        ),
    ]
}

/// From the start of the clock on, where every update and every build
/// succeeds, the run builds all packages in their order and then stands at
/// the clock.
pub proof fn lemma_all_packages_built(b: Build)
    requires
        b.stage == Stage::StartingClock,
        b.packages.len() <= usize::MAX,
    ensures
        commands(b, seq![Signal::Done] + all_built(b.packages.len())) == seq![
            Command::StartClock,
        ] + commands_from(b, 0, b.packages.len()),
        after(b, seq![Signal::Done] + all_built(b.packages.len())) == at(b, Stage::ReadingClock),
{
    let n = b.packages.len();
    let started = step(b, Signal::Done);
    lemma_one_then(b, Signal::Done, all_built(n));
    if n == 0 {
        assert(all_built(0) =~= Seq::<Signal>::empty());
        assert(commands(started, all_built(0)) =~= Seq::<Command>::empty());
        assert(commands_from(b, 0, 0) =~= Seq::<Command>::empty());
    } else {
        lemma_packages_in_order(started, 0, n);
        lemma_commands_from_stage(b, started, 0, n);
    }
}

/// At the clock, a run that has built everything reads it, reports the
/// success and ends with status 0.
pub proof fn lemma_run_closes(b: Build, secs: u64, nanos: u32)
    requires
        b.stage == Stage::ReadingClock,
        crate::duration::reading_seconds(secs, nanos) is Some,
    ensures
        commands(b, closing(secs, nanos)) == closing_commands(
            b,
            crate::duration::reading_seconds(secs, nanos)->0,
        ),
        command(after(b, closing(secs, nanos))) == Command::Finish(Ok(0)),
{
    let tail = closing(secs, nanos);
    let read = step(b, tail.first());
    let over = step(read, tail.drop_first().first());
    assert(tail.drop_first().drop_first().len() == 0);
    assert(after(over, tail.drop_first().drop_first()) == over);
    assert(after(read, tail.drop_first()) == over);
    assert(commands(over, tail.drop_first().drop_first()) =~= Seq::empty());
    assert(commands(read, tail.drop_first()) =~= seq![command(read)]);
    assert(commands(b, tail) =~= seq![command(b), command(read)]);
}

/// A run that builds everything: from the start of the clock on, where
/// every update and every build succeeds, the run builds all packages in
/// their order, reads the clock, reports the success with the number of
/// packages and the time, and ends with status 0.
pub proof fn lemma_run_succeeds(b: Build, secs: u64, nanos: u32)
    requires
        b.stage == Stage::StartingClock,
        b.packages.len() <= usize::MAX,
        crate::duration::reading_seconds(secs, nanos) is Some,
    ensures
        commands(
            b,
            seq![Signal::Done] + all_built(b.packages.len()) + closing(secs, nanos),
        ) == seq![Command::StartClock] + commands_from(b, 0, b.packages.len())
            + closing_commands(b, crate::duration::reading_seconds(secs, nanos)->0),
        command(
            after(b, seq![Signal::Done] + all_built(b.packages.len()) + closing(secs, nanos)),
        ) == Command::Finish(Ok(0)),
{
    let building = seq![Signal::Done] + all_built(b.packages.len());
    lemma_all_packages_built(b);
    lemma_in_sequence(b, building, closing(secs, nanos));
    lemma_run_closes(at(b, Stage::ReadingClock), secs, nanos);
}

} // verus!

use ciel_build::fetch::{fetch_action, fetch_advance, package_fetch, FetchRun, FetchStage};
use ciel_build::notice::Notice;
use ciel_build::protocol::{Action, BuildError, Config, Event};

fn strings(items: &[&str]) -> Vec<String> {
    items.iter().map(|s| s.to_string()).collect()
}

fn drive(run: &mut FetchRun, config: Option<Config>, status: i32) -> Vec<Action> {
    let mut actions = Vec::new();
    loop {
        let action = run.pending();
        let event = match &action {
            Action::LoadConfig => Event::Config(config),
            Action::Run(_) => Event::Exited(status),
            Action::Finish(_) => {
                actions.push(action);
                return actions;
            }
            _ => Event::Done,
        };
        actions.push(action);
        run.feed(event);
    }
}

const CACHED: Config = Config { local_sources: true, local_repo: true, sep_mount: false };
const UNCACHED: Config = Config { local_sources: false, local_repo: true, sep_mount: false };

#[test]
fn a_fetch_mounts_resets_and_fetches() {
    let mut run = package_fetch(strings(&["bash", "zlib"]));
    let actions = drive(&mut run, Some(CACHED), 0);
    assert_eq!(
        actions,
        vec![
            Action::LoadConfig,
            Action::MountFs,
            Action::Rollback,
            Action::Run(strings(&["/bin/acbs-build", "-g", "--", "bash", "zlib"])),
            Action::Finish(Ok(0)),
        ]
    );
}

#[test]
fn a_fetch_hands_group_references_on_as_they_are() {
    let mut run = package_fetch(strings(&["a", "groups/g", " b "]));
    let actions = drive(&mut run, Some(CACHED), 0);
    assert_eq!(
        actions[3],
        Action::Run(strings(&["/bin/acbs-build", "-g", "--", "a", "groups/g", " b "]))
    );
    assert!(!actions.iter().any(|a| matches!(a, Action::ReadFile(_))));
}

#[test]
fn a_fetch_without_cached_sources_warns_and_goes_on() {
    let mut run = package_fetch(strings(&["bash"]));
    let actions = drive(&mut run, Some(UNCACHED), 0);
    assert_eq!(
        actions,
        vec![
            Action::LoadConfig,
            Action::Report(Notice::LocalSourcesOff),
            Action::MountFs,
            Action::Rollback,
            Action::Run(strings(&["/bin/acbs-build", "-g", "--", "bash"])),
            Action::Finish(Ok(0)),
        ]
    );
}

#[test]
fn a_fetch_returns_the_exit_status_as_it_is() {
    for status in [0, 1, 2, 127, 255, -1, i32::MIN, i32::MAX] {
        let mut run = package_fetch(strings(&["bash"]));
        let actions = drive(&mut run, Some(CACHED), status);
        assert_eq!(actions.last(), Some(&Action::Finish(Ok(status))));
    }
}

#[test]
fn a_fetch_needs_a_configuration() {
    let mut run = package_fetch(strings(&["bash"]));
    let actions = drive(&mut run, None, 0);
    assert_eq!(
        actions,
        vec![Action::LoadConfig, Action::Finish(Err(BuildError::NotConfigured))]
    );
    assert_eq!(BuildError::NotConfigured.message(), "Please configure this workspace first!");
}

#[test]
fn a_fetch_of_nothing_still_runs_the_command() {
    let mut run = package_fetch(Vec::new());
    let actions = drive(&mut run, Some(CACHED), 0);
    assert_eq!(actions[3], Action::Run(strings(&["/bin/acbs-build", "-g", "--"])));
}

#[test]
fn a_fetch_ignores_what_does_not_answer() {
    let mut run = package_fetch(strings(&["bash"]));
    run.feed(Event::Done);
    run.feed(Event::Exited(3));
    run.feed(Event::File(Ok("text".to_string())));
    run.feed(Event::Elapsed { secs: 1, nanos: 0 });
    assert_eq!(run.pending(), Action::LoadConfig);
    run.feed(Event::Config(Some(CACHED)));
    assert_eq!(run.pending(), Action::MountFs);
    run.feed(Event::Exited(3));
    run.feed(Event::Config(None));
    assert_eq!(run.pending(), Action::MountFs);
    run.feed(Event::Done);
    run.feed(Event::Done);
    run.feed(Event::Done);
    assert!(matches!(run.pending(), Action::Run(_)));
    run.feed(Event::Exited(5));
    run.feed(Event::Exited(0));
    run.feed(Event::Done);
    assert_eq!(run.pending(), Action::Finish(Ok(5)));
}

#[test]
fn the_stages_of_a_fetch() {
    let tokens = strings(&["bash"]);
    assert_eq!(fetch_action(FetchStage::Configuring, &tokens), Action::LoadConfig);
    assert_eq!(fetch_action(FetchStage::Mounting, &tokens), Action::MountFs);
    assert_eq!(fetch_action(FetchStage::RollingBack, &tokens), Action::Rollback);
    assert_eq!(
        fetch_advance(FetchStage::Configuring, &Event::Config(Some(UNCACHED))),
        FetchStage::Warning
    );
    assert_eq!(fetch_advance(FetchStage::Warning, &Event::Done), FetchStage::Mounting);
    assert_eq!(
        fetch_advance(FetchStage::Running, &Event::Exited(9)),
        FetchStage::Finished(Ok(9))
    );
    assert_eq!(
        fetch_advance(FetchStage::Finished(Ok(9)), &Event::Exited(1)),
        FetchStage::Finished(Ok(9))
    );
}

//! Bringing up the local server.

use nexa::local_server::{
    LocalServerError, ServerProbe, ServerStart, StartAction, StartInput, MAX_PROBES,
};

#[test]
fn skips_spawn_when_the_probe_is_already_ready() {
    let (mut start, actions) = ServerStart::new("server.log".to_owned());
    assert_eq!(actions, vec![StartAction::Probe]);
    assert_eq!(start.step(StartInput::Ready), vec![StartAction::Succeed]);
}

#[test]
fn surfaces_a_probe_failure_without_spawning() {
    let (mut start, _) = ServerStart::new("server.log".to_owned());
    let actions = start.step(StartInput::ProbeFailed(LocalServerError::Failed(
        "boom".to_owned(),
    )));
    match actions.as_slice() {
        [StartAction::Fail(error)] => assert_eq!(error.message(), "boom"),
        other => unreachable!("must not spawn on a failed probe: {other:?}"),
    }
}

#[test]
fn a_server_that_never_answers_times_out() {
    let (mut start, _) = ServerStart::new("server.log".to_owned());
    assert_eq!(
        start.step(StartInput::Connecting),
        vec![StartAction::Announce, StartAction::Spawn]
    );
    let mut actions = start.step(StartInput::Spawned);
    let mut probes: u64 = 0;
    let mut checks = 0;
    loop {
        match actions.as_slice() {
            [StartAction::CheckProcess] => {
                checks += 1;
                actions = start.step(if checks == 2 {
                    StartInput::Exited("exit status: 1".to_owned())
                } else {
                    StartInput::Running
                });
            }
            [StartAction::Probe] => {
                probes += 1;
                actions = start.step(StartInput::Connecting);
            }
            [StartAction::Sleep] => actions = start.step(StartInput::Slept),
            [StartAction::Stop, StartAction::Fail(error)] => {
                assert_eq!(
                    error.message(),
                    "nexa-server exited with exit status: 1 and no local server became ready; see server.log"
                );
                break;
            }
            other => panic!("unexpected {other:?}"),
        }
    }
    assert_eq!(probes, MAX_PROBES);
    assert_eq!(checks, 2, "an ended process is not looked at again");
    assert!(start.step(StartInput::Ready).is_empty());
}

#[test]
fn failures_on_the_way_end_the_start() {
    let (mut start, _) = ServerStart::new("l".to_owned());
    start.step(StartInput::Connecting);
    assert_eq!(
        start.step(StartInput::SpawnFailed("no binary".to_owned())),
        vec![StartAction::Fail(LocalServerError::Io(
            "no binary".to_owned()
        ))]
    );
    let (mut start, _) = ServerStart::new("l".to_owned());
    start.step(StartInput::Connecting);
    start.step(StartInput::Spawned);
    assert_eq!(
        start.step(StartInput::WaitFailed("lost".to_owned())),
        vec![StartAction::Fail(LocalServerError::Io("lost".to_owned()))]
    );
    let (mut start, _) = ServerStart::new("l".to_owned());
    start.step(StartInput::Connecting);
    start.step(StartInput::Spawned);
    start.step(StartInput::Running);
    assert_eq!(start.step(StartInput::Ready), vec![StartAction::Succeed]);
    assert_eq!(
        LocalServerError::TimedOut {
            status: None,
            log_path: "l".to_owned(),
        }
        .message(),
        "nexa-server did not become ready; see l"
    );
    assert_ne!(ServerProbe::Ready, ServerProbe::Connecting);
}

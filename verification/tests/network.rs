//! The network side of the clients.

use nexa::desktop::{NetEvent, UiCmd};
use nexa::network::{
    NetAction, NetInput, NetJob, Outgoing, SubmitAction, SubmitInput, SubmitJob,
};
use nexa::protocol::{ModelRef, SessionSummary};

fn send() -> UiCmd {
    UiCmd::Send {
        workspace: "/w".to_owned(),
        model: ModelRef {
            provider: "p".to_owned(),
            id: "m".to_owned(),
        },
        preset: None,
        effort: None,
        text: "hi".to_owned(),
    }
}

fn outgoing() -> Outgoing {
    Outgoing {
        workspace: "/w".to_owned(),
        model: ModelRef {
            provider: "p".to_owned(),
            id: "m".to_owned(),
        },
        preset: None,
        effort: None,
        text: "hi".to_owned(),
    }
}

#[test]
fn the_first_message_creates_its_session() {
    let (mut job, actions) = NetJob::begin(send(), false, false);
    assert_eq!(actions, vec![NetAction::Create("/w".to_owned())]);
    assert_eq!(
        job.step(NetInput::Created("s".to_owned())),
        vec![
            NetAction::Select("s".to_owned()),
            NetAction::Report(NetEvent::SessionReady("s".to_owned())),
            NetAction::Subscribe,
        ]
    );
    assert_eq!(
        job.step(NetInput::Subscribed),
        vec![NetAction::FetchSessions("/w".to_owned())]
    );
    let sessions = vec![SessionSummary {
        id: "s".to_owned(),
        created_at_ms: 1,
        last_opened_ms: 1,
    }];
    assert_eq!(
        job.step(NetInput::Sessions(sessions.clone())),
        vec![
            NetAction::Report(NetEvent::Sessions {
                workspace: "/w".to_owned(),
                sessions,
            }),
            NetAction::Post(outgoing()),
        ]
    );
    assert!(!job.is_done());
    assert!(job.step(NetInput::Sent).is_empty());
    assert!(job.is_done());
}

#[test]
fn a_listing_failure_does_not_stop_the_message() {
    let (mut job, _) = NetJob::begin(send(), false, false);
    job.step(NetInput::Created("s".to_owned()));
    job.step(NetInput::Subscribed);
    assert_eq!(
        job.step(NetInput::Failed("x".to_owned())),
        vec![NetAction::Post(outgoing())]
    );
    assert_eq!(
        job.step(NetInput::Failed("busy".to_owned())),
        vec![NetAction::Report(NetEvent::Notice("busy".to_owned()))]
    );
}

#[test]
fn a_failed_session_ends_the_work() {
    let (mut job, _) = NetJob::begin(send(), false, false);
    assert_eq!(
        job.step(NetInput::Failed("no".to_owned())),
        vec![NetAction::Report(NetEvent::Notice("no".to_owned()))]
    );
    assert!(job.is_done());
    assert!(job.step(NetInput::Created("s".to_owned())).is_empty());

    let (mut job, _) = NetJob::begin(send(), false, false);
    job.step(NetInput::Created("s".to_owned()));
    job.step(NetInput::Failed("no stream".to_owned()));
    assert!(job.is_done());
}

#[test]
fn an_attached_client_posts_at_once() {
    let (_, actions) = NetJob::begin(send(), true, true);
    assert_eq!(actions, vec![NetAction::Post(outgoing())]);
}

#[test]
fn a_new_chat_creates_nothing() {
    let (job, actions) = NetJob::begin(UiCmd::NewChat, true, true);
    assert_eq!(
        actions,
        vec![NetAction::Clear, NetAction::Report(NetEvent::Detached)]
    );
    assert!(job.is_done());
}

#[test]
fn starting_up_may_bring_up_the_server() {
    let (mut job, actions) = NetJob::begin(UiCmd::Bootstrap, true, false);
    assert_eq!(actions, vec![NetAction::EnsureServer]);
    assert_eq!(
        job.step(NetInput::ServerReady),
        vec![NetAction::FetchProviders]
    );
    assert_eq!(
        job.step(NetInput::Providers(Vec::new())),
        vec![NetAction::Report(NetEvent::Providers(Vec::new()))]
    );
    let (_, actions) = NetJob::begin(UiCmd::Bootstrap, false, false);
    assert_eq!(actions, vec![NetAction::FetchProviders]);
    let (mut job, actions) = NetJob::begin(UiCmd::ListPresets, false, false);
    assert_eq!(actions, vec![NetAction::FetchPresets]);
    assert!(job.step(NetInput::Sent).is_empty(), "not what was asked for");
    assert_eq!(
        job.step(NetInput::Presets(Vec::new())),
        vec![NetAction::Report(NetEvent::Presets(Vec::new()))]
    );
    let (mut job, actions) = NetJob::begin(
        UiCmd::ListSessions {
            workspace: "/v".to_owned(),
        },
        false,
        false,
    );
    assert_eq!(actions, vec![NetAction::FetchSessions("/v".to_owned())]);
    assert_eq!(
        job.step(NetInput::Sessions(Vec::new())),
        vec![NetAction::Report(NetEvent::Sessions {
            workspace: "/v".to_owned(),
            sessions: Vec::new(),
        })]
    );
}

#[test]
fn the_window_is_reset_before_a_session_is_replayed() {
    let (mut job, actions) = NetJob::begin(
        UiCmd::SwitchTo {
            session_id: "s".to_owned(),
        },
        false,
        false,
    );
    assert_eq!(
        actions,
        vec![
            NetAction::Select("s".to_owned()),
            NetAction::Report(NetEvent::Switched("s".to_owned())),
            NetAction::Subscribe,
        ]
    );
    assert!(job.step(NetInput::Subscribed).is_empty());
    assert!(job.is_done());
}

#[test]
fn terminal_submissions_try_the_message_whatever_happens() {
    let (mut job, actions) = SubmitJob::begin(false);
    assert_eq!(actions, vec![SubmitAction::Create]);
    assert_eq!(
        job.step(SubmitInput::Created("s".to_owned())),
        vec![SubmitAction::Select("s".to_owned()), SubmitAction::Subscribe]
    );
    assert_eq!(
        job.step(SubmitInput::Subscribed),
        vec![SubmitAction::StreamReady("s".to_owned()), SubmitAction::Post]
    );
    assert_eq!(job.step(SubmitInput::Sent), vec![SubmitAction::Finish(None)]);
    assert!(job.step(SubmitInput::Sent).is_empty());

    let (mut job, _) = SubmitJob::begin(false);
    assert_eq!(
        job.step(SubmitInput::Failed("no".to_owned())),
        vec![
            SubmitAction::ReportFailure("no".to_owned()),
            SubmitAction::Post
        ]
    );
    assert_eq!(
        job.step(SubmitInput::Failed("still no".to_owned())),
        vec![SubmitAction::Finish(Some("still no".to_owned()))]
    );
    let (mut job, actions) = SubmitJob::begin(true);
    assert_eq!(actions, vec![SubmitAction::Post]);
    assert!(job.step(SubmitInput::Subscribed).is_empty());
}

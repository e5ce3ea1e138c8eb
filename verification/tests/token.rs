//! The server's token file, shared by several calls.

use nexa::config::{fresh_server_token, SERVER_TOKEN_BYTES};
use nexa::token::{TokenAction, TokenEvent, TokenFault, TokenFile, PRIVATE_MODE};

/// One call and what it asks for.
struct Call {
    state: TokenFile,
    action: TokenAction,
}

fn begin() -> Call {
    let (state, action) = TokenFile::start();
    Call { state, action }
}

/// Does the call's action on the shared file. Returns what the call ended with.
fn turn(call: &mut Call, file: &mut Option<(String, u32)>) -> Option<Result<String, TokenFault>> {
    let event = match &call.action {
        TokenAction::Read => match file {
            Some((content, _)) => TokenEvent::Contents(content.clone()),
            None => TokenEvent::Missing("not found".to_owned()),
        },
        TokenAction::Prepare => TokenEvent::Prepared,
        TokenAction::Draw => TokenEvent::Drawn(fresh_server_token().unwrap()),
        TokenAction::Create { token, mode } => {
            if file.is_some() {
                TokenEvent::Taken
            } else {
                *file = Some((token.clone(), *mode));
                TokenEvent::Created
            }
        }
        TokenAction::Restrict { mode } => {
            file.as_mut().unwrap().1 = *mode;
            TokenEvent::Restricted
        }
        TokenAction::Succeed(token) => return Some(Ok(token.clone())),
        TokenAction::Fail(fault) => return Some(Err(fault.clone())),
    };
    call.action = call.state.step(event);
    None
}

fn finish(call: &mut Call, file: &mut Option<(String, u32)>) -> Result<String, TokenFault> {
    loop {
        if let Some(result) = turn(call, file) {
            return result;
        }
    }
}

#[test]
fn concurrent_server_token_creation_returns_one_private_token() {
    // Every order in which two calls can take their first turns.
    for schedule in 0..4096u32 {
        let mut file = None;
        let mut calls = [begin(), begin()];
        for bit in 0..12 {
            turn(&mut calls[(schedule >> bit & 1) as usize], &mut file);
        }
        let tokens = [
            finish(&mut calls[0], &mut file).unwrap(),
            finish(&mut calls[1], &mut file).unwrap(),
        ];

        assert_eq!(tokens[0], tokens[1]);
        assert_eq!(tokens[0].len(), SERVER_TOKEN_BYTES * 2);
        let (content, mode) = file.unwrap();
        assert_eq!(content, tokens[0]);
        assert_eq!(mode & 0o777, 0o600);
    }
}

#[test]
fn existing_token_files_are_kept() {
    let mut file = Some((" secret\n".to_owned(), 0o644));
    assert_eq!(finish(&mut begin(), &mut file), Ok("secret".to_owned()));
    assert_eq!(file, Some((" secret\n".to_owned(), PRIVATE_MODE)));

    let mut file = Some((" \n".to_owned(), 0o644));
    let fault = finish(&mut begin(), &mut file).unwrap_err();
    assert_eq!(fault, TokenFault::Blank);
    assert_eq!(fault.message(), "server token file is empty");
    assert_eq!(file, Some((" \n".to_owned(), 0o644)));
}

#[test]
fn token_calls_fail_with_their_reason() {
    let fault = |events: Vec<TokenEvent>| {
        let mut call = begin();
        for event in events {
            call.action = call.state.step(event);
        }
        match call.action {
            TokenAction::Fail(fault) => fault,
            other => panic!("expected a fault, got {other:?}"),
        }
    };
    let missing = || TokenEvent::Missing("gone".to_owned());
    let drawn = || TokenEvent::Drawn("00".to_owned());

    let no_parent = fault(vec![missing(), TokenEvent::NoParent]);
    assert_eq!(no_parent, TokenFault::NoParent);
    assert_eq!(
        no_parent.message(),
        "server token path has no parent directory"
    );
    let random = fault(vec![
        missing(),
        TokenEvent::Prepared,
        TokenEvent::NotDrawn("no entropy".to_owned()),
    ]);
    assert_eq!(random, TokenFault::Random("no entropy".to_owned()));
    assert_eq!(random.message(), "no entropy");
    assert_eq!(
        fault(vec![TokenEvent::Failed("denied".to_owned())]).message(),
        "denied"
    );
    assert_eq!(
        fault(vec![
            missing(),
            TokenEvent::Prepared,
            drawn(),
            TokenEvent::Taken,
            missing()
        ]),
        TokenFault::File("gone".to_owned())
    );
}

#[test]
fn foreign_events_change_nothing() {
    let (mut state, _) = TokenFile::start();
    for event in [TokenEvent::Created, TokenEvent::Restricted, TokenEvent::Taken] {
        assert_eq!(state.step(event), TokenAction::Read);
        assert_eq!(state, TokenFile::Reading);
    }
    state.step(TokenEvent::Missing(String::new()));
    assert_eq!(state, TokenFile::Preparing);
    state.step(TokenEvent::Prepared);
    assert_eq!(
        state.step(TokenEvent::Drawn("ab".to_owned())),
        TokenAction::Create {
            token: "ab".to_owned(),
            mode: PRIVATE_MODE
        }
    );
}

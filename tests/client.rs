use libftp::client::{
    classify_connect, classify_login, classify_password, ClientError, ClientReadError, ClientState,
    ConnectionErrorReplyCode, LoginErrorReplyCode, Session,
};
use libftp::encoding::encode_command;
use libftp::model::{Command, Reply, Text};

fn single(code: &[u8; 3], line: &[u8]) -> Reply {
    Reply { code: *code, text: Text::SingleLine { line: line.to_vec() } }
}

#[test]
fn connect_ready_gives_greeting() {
    let r = classify_connect(single(b"220", b"Service ready"));
    assert!(matches!(r, Ok(Text::SingleLine { ref line }) if line == b"Service ready"));
}

#[test]
fn connect_not_ready_carries_text() {
    let r = classify_connect(single(b"120", b"in 5 minutes"));
    match r {
        Err(ClientError::Reply { code, text }) => {
            assert_eq!(code, ConnectionErrorReplyCode::NotReady);
            assert_eq!(code.reply_code(), 120);
            assert_eq!(text, Text::SingleLine { line: b"in 5 minutes".to_vec() });
        }
        other => panic!("{other:?}"),
    }
}

#[test]
fn connect_service_unavailable() {
    let r = classify_connect(single(b"421", b"closing"));
    assert!(matches!(
        r,
        Err(ClientError::Reply { code: ConnectionErrorReplyCode::NotAvailable, .. })
    ));
}

#[test]
fn connect_other_code_is_unexpected() {
    let reply = single(b"530", b"no");
    let r = classify_connect(reply.clone());
    match r {
        Err(ClientError::Read(ClientReadError::UnexpectedReply(got))) => assert_eq!(got, reply),
        other => panic!("{other:?}"),
    }
}

#[test]
fn login_classification() {
    assert!(matches!(classify_login(single(b"230", b"in")), Ok(_)));
    assert!(matches!(
        classify_login(single(b"530", b"no")),
        Err(ClientError::Reply { code: LoginErrorReplyCode::NotLoggedIn, .. })
    ));
    assert!(matches!(
        classify_login(single(b"331", b"password")),
        Err(ClientError::Reply { code: LoginErrorReplyCode::RequirePassword, .. })
    ));
    assert!(matches!(
        classify_login(single(b"332", b"account")),
        Err(ClientError::Reply { code: LoginErrorReplyCode::RequireAccount, .. })
    ));
    assert!(matches!(
        classify_login(single(b"220", b"hello")),
        Err(ClientError::Read(ClientReadError::UnexpectedReply(_)))
    ));
    assert_eq!(LoginErrorReplyCode::RequireAccount.reply_code(), 332);
}

#[test]
fn session_walks_through_states() {
    let mut session = Session::new();
    assert_eq!(session.state, ClientState::Disconnected);
    assert!(session.greeting(single(b"220", b"hi")).is_ok());
    assert_eq!(session.state, ClientState::Connected);
    let user = session.login_command(b"bob");
    assert_eq!(user, Command::UserName(b"bob".to_vec()));
    assert_eq!(encode_command(&user), b"USER bob\r\n".to_vec());
    assert!(session.login_reply(single(b"230", b"welcome")).is_ok());
    assert_eq!(session.state, ClientState::LoggedIn);
}

#[test]
fn session_fails_for_good() {
    let mut session = Session::new();
    assert!(session.greeting(single(b"421", b"busy")).is_err());
    assert_eq!(session.state, ClientState::Failed);
    let mut other = Session::new();
    other.greeting(single(b"220", b"hi")).unwrap();
    assert!(other.login_reply(single(b"530", b"denied")).is_err());
    assert_eq!(other.state, ClientState::Failed);
}

#[test]
fn client_errors_convert() {
    let e: ClientError<LoginErrorReplyCode> = ClientReadError::ReplyTooLong.into();
    assert!(matches!(e, ClientError::Read(ClientReadError::ReplyTooLong)));
    let io: ClientReadError = std::io::Error::from(std::io::ErrorKind::UnexpectedEof).into();
    assert!(matches!(io, ClientReadError::Io(_)));
    let w: ClientError<ConnectionErrorReplyCode> =
        libftp::client::ClientWriteError::Io(std::io::Error::from(std::io::ErrorKind::BrokenPipe))
            .into();
    assert!(matches!(w, ClientError::Write(_)));
}

#[test]
fn password_exchange() {
    let mut session = Session::new();
    session.greeting(single(b"220", b"hi")).unwrap();
    let r = session.login_reply(single(b"331", b"password please"));
    assert!(matches!(
        r,
        Err(ClientError::Reply { code: LoginErrorReplyCode::RequirePassword, .. })
    ));
    assert_eq!(session.state, ClientState::AwaitingPassword);
    let pass = session.password_command(b"secret");
    assert_eq!(encode_command(&pass), b"PASS secret\r\n".to_vec());
    assert!(session.password_reply(single(b"230", b"in")).is_ok());
    assert_eq!(session.state, ClientState::LoggedIn);

    let mut refused = Session::new();
    refused.greeting(single(b"220", b"hi")).unwrap();
    let _ = refused.login_reply(single(b"331", b"password please"));
    assert!(matches!(
        refused.password_reply(single(b"530", b"wrong")),
        Err(ClientError::Reply { code: LoginErrorReplyCode::NotLoggedIn, .. })
    ));
    assert_eq!(refused.state, ClientState::Failed);
    assert!(matches!(
        classify_password(single(b"331", b"again")),
        Err(ClientError::Read(ClientReadError::UnexpectedReply(_)))
    ));
}

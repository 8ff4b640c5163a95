//! The client's connect and login exchanges, as a state machine over reply
//! codes. The connection itself (reading replies, writing commands) is the
//! caller's: it hands each decoded reply to the session.
use vstd::prelude::*;

use crate::bytes::ZERO;
use crate::model::{Command, CommandModel, ArgumentModel, ReplyModel, Reply, Text, TextModel, Verb, copy_range_of};

verus! {

/// The standard library's I/O error, carried unchanged inside client errors.
#[verifier::external_type_specification]
#[verifier::external_body]
pub struct ExIoError(std::io::Error);

/// Replies that refuse a connection.
#[derive(Clone, Copy, Debug, PartialEq, Eq, Structural)]
pub enum ConnectionErrorReplyCode {
    /// 120: the service will be ready later.
    NotReady,
    /// 421: the service is not available.
    NotAvailable,
}

/// Replies that refuse a login.
#[derive(Clone, Copy, Debug, PartialEq, Eq, Structural)]
pub enum LoginErrorReplyCode {
    /// 331: a password is needed.
    RequirePassword,
    /// 332: an account is needed.
    RequireAccount,
    /// 530: not logged in.
    NotLoggedIn,
}

impl ConnectionErrorReplyCode {
    /// The reply code that stands for this refusal.
    pub fn reply_code(&self) -> (r: u16)
        ensures
            r == (match self {
                ConnectionErrorReplyCode::NotReady => 120u16,
                ConnectionErrorReplyCode::NotAvailable => 421u16,
            }),
    {
        match self {
            ConnectionErrorReplyCode::NotReady => 120,
            ConnectionErrorReplyCode::NotAvailable => 421,
        }
    }
}

impl LoginErrorReplyCode {
    /// The reply code that stands for this refusal.
    pub fn reply_code(&self) -> (r: u16)
        ensures
            r == (match self {
                LoginErrorReplyCode::RequirePassword => 331u16,
                LoginErrorReplyCode::RequireAccount => 332u16,
                LoginErrorReplyCode::NotLoggedIn => 530u16,
            }),
    {
        match self {
            LoginErrorReplyCode::RequirePassword => 331,
            LoginErrorReplyCode::RequireAccount => 332,
            LoginErrorReplyCode::NotLoggedIn => 530,
        }
    }
}

/// Why a client operation failed.
#[derive(Debug)]
pub enum ClientError<C> {
    /// A well-formed reply whose code refuses the operation.
    Reply { code: C, text: Text },
    /// Reading a reply failed.
    Read(ClientReadError),
    /// Sending a command failed.
    Write(ClientWriteError),
    /// The connection could not be opened.
    Connection(std::io::Error),
}

/// Why reading a reply failed.
#[derive(Debug)]
pub enum ClientReadError {
    /// A well-formed reply that was not expected at this point.
    UnexpectedReply(Reply),
    /// Bytes that can never form a reply, from the offending byte on.
    InvalidReply(Vec<u8>),
    /// A reply longer than the receive buffer.
    ReplyTooLong,
    /// The connection failed or ended.
    Io(std::io::Error),
}

/// Why sending a command failed.
#[derive(Debug)]
pub enum ClientWriteError {
    Io(std::io::Error),
}

impl<C> From<ClientReadError> for ClientError<C> {
    fn from(v: ClientReadError) -> (r: Self) {
        ClientError::Read(v)
    }
}

impl<C> vstd::std_specs::convert::FromSpecImpl<ClientReadError> for ClientError<C> {
    open spec fn obeys_from_spec() -> bool {
        true
    }

    open spec fn from_spec(v: ClientReadError) -> Self {
        ClientError::Read(v)
    }
}

impl<C> From<ClientWriteError> for ClientError<C> {
    fn from(v: ClientWriteError) -> (r: Self) {
        ClientError::Write(v)
    }
}

impl<C> vstd::std_specs::convert::FromSpecImpl<ClientWriteError> for ClientError<C> {
    open spec fn obeys_from_spec() -> bool {
        true
    }

    open spec fn from_spec(v: ClientWriteError) -> Self {
        ClientError::Write(v)
    }
}

impl From<std::io::Error> for ClientReadError {
    fn from(v: std::io::Error) -> (r: Self) {
        ClientReadError::Io(v)
    }
}

impl vstd::std_specs::convert::FromSpecImpl<std::io::Error> for ClientReadError {
    open spec fn obeys_from_spec() -> bool {
        true
    }

    open spec fn from_spec(v: std::io::Error) -> Self {
        ClientReadError::Io(v)
    }
}

/// The three ASCII digits of a reply code from 100 through 999.
pub open spec fn code_text(n: nat) -> Seq<u8> {
    seq![(ZERO + n / 100) as u8, (ZERO + n / 10 % 10) as u8, (ZERO + n % 10) as u8]
}

/// Whether a reply carries the code `n`.
pub fn has_code(reply: &Reply, n: u16) -> (r: bool)
    requires
        100 <= n <= 999,
    ensures
        r == (reply@.code == code_text(n as nat)),
{
    let r = reply.code[0] == ZERO + (n / 100) as u8 && reply.code[1] == ZERO + (n / 10 % 10) as u8
        && reply.code[2] == ZERO + (n % 10) as u8;
    proof {
        if r {
            assert(reply@.code =~= code_text(n as nat));
        } else if reply@.code == code_text(n as nat) {
            assert(code_text(n as nat)[0] == reply.code[0]);
            assert(code_text(n as nat)[1] == reply.code[1]);
        }
    }
    r
}

/// The text of a successful outcome.
pub open spec fn succeeds_with<C>(r: Result<Text, ClientError<C>>, text: TextModel) -> bool {
    match r {
        Ok(t) => t@ == text,
        Err(_) => false,
    }
}

/// A refusal with the given code and the reply's text.
pub open spec fn refused_with<C>(r: Result<Text, ClientError<C>>, c: C, text: TextModel) -> bool {
    match r {
        Err(ClientError::Reply { code, text: t }) => code == c && t@ == text,
        _ => false,
    }
}

/// A fault that carries the whole unexpected reply.
pub open spec fn unexpected<C>(r: Result<Text, ClientError<C>>, reply: ReplyModel) -> bool {
    match r {
        Err(ClientError::Read(ClientReadError::UnexpectedReply(x))) => x@ == reply,
        _ => false,
    }
}

/// How the reply to a fresh connection is classified.
pub open spec fn connect_outcome(
    r: Result<Text, ClientError<ConnectionErrorReplyCode>>,
    reply: ReplyModel,
) -> bool {
    if reply.code == code_text(220) {
        succeeds_with(r, reply.text)
    } else if reply.code == code_text(120) {
        refused_with(r, ConnectionErrorReplyCode::NotReady, reply.text)
    } else if reply.code == code_text(421) {
        refused_with(r, ConnectionErrorReplyCode::NotAvailable, reply.text)
    } else {
        unexpected(r, reply)
    }
}

/// How the reply to a login is classified.
pub open spec fn login_outcome(r: Result<Text, ClientError<LoginErrorReplyCode>>, reply: ReplyModel) -> bool {
    if reply.code == code_text(230) {
        succeeds_with(r, reply.text)
    } else if reply.code == code_text(331) {
        refused_with(r, LoginErrorReplyCode::RequirePassword, reply.text)
    } else if reply.code == code_text(332) {
        refused_with(r, LoginErrorReplyCode::RequireAccount, reply.text)
    } else if reply.code == code_text(530) {
        refused_with(r, LoginErrorReplyCode::NotLoggedIn, reply.text)
    } else {
        unexpected(r, reply)
    }
}

/// How the reply to a password is classified.
pub open spec fn password_outcome(
    r: Result<Text, ClientError<LoginErrorReplyCode>>,
    reply: ReplyModel,
) -> bool {
    if reply.code == code_text(230) {
        succeeds_with(r, reply.text)
    } else if reply.code == code_text(332) {
        refused_with(r, LoginErrorReplyCode::RequireAccount, reply.text)
    } else if reply.code == code_text(530) {
        refused_with(r, LoginErrorReplyCode::NotLoggedIn, reply.text)
    } else {
        unexpected(r, reply)
    }
}

/// Classifies the reply to a password.
pub fn classify_password(reply: Reply) -> (r: Result<Text, ClientError<LoginErrorReplyCode>>)
    ensures
        password_outcome(r, reply@),
{
    if has_code(&reply, 230) {
        Ok(reply.text)
    } else if has_code(&reply, 332) {
        Err(ClientError::Reply { code: LoginErrorReplyCode::RequireAccount, text: reply.text })
    } else if has_code(&reply, 530) {
        Err(ClientError::Reply { code: LoginErrorReplyCode::NotLoggedIn, text: reply.text })
    } else {
        Err(ClientError::Read(ClientReadError::UnexpectedReply(reply)))
    }
}

/// Classifies the first reply on a new connection.
pub fn classify_connect(reply: Reply) -> (r: Result<Text, ClientError<ConnectionErrorReplyCode>>)
    ensures
        connect_outcome(r, reply@),
{
    if has_code(&reply, 220) {
        Ok(reply.text)
    } else if has_code(&reply, 120) {
        Err(ClientError::Reply { code: ConnectionErrorReplyCode::NotReady, text: reply.text })
    } else if has_code(&reply, 421) {
        Err(ClientError::Reply { code: ConnectionErrorReplyCode::NotAvailable, text: reply.text })
    } else {
        Err(ClientError::Read(ClientReadError::UnexpectedReply(reply)))
    }
}

/// Classifies the reply to a login.
pub fn classify_login(reply: Reply) -> (r: Result<Text, ClientError<LoginErrorReplyCode>>)
    ensures
        login_outcome(r, reply@),
{
    if has_code(&reply, 230) {
        Ok(reply.text)
    } else if has_code(&reply, 331) {
        Err(ClientError::Reply { code: LoginErrorReplyCode::RequirePassword, text: reply.text })
    } else if has_code(&reply, 332) {
        Err(ClientError::Reply { code: LoginErrorReplyCode::RequireAccount, text: reply.text })
    } else if has_code(&reply, 530) {
        Err(ClientError::Reply { code: LoginErrorReplyCode::NotLoggedIn, text: reply.text })
    } else {
        Err(ClientError::Read(ClientReadError::UnexpectedReply(reply)))
    }
}

/// The stages of a client connection.
#[derive(Clone, Copy, Debug, PartialEq, Eq, Structural)]
pub enum ClientState {
    Disconnected,
    Connected,
    /// The server asked for a password after the username.
    AwaitingPassword,
    LoggedIn,
    /// A fault ended the connection; it is not used again.
    Failed,
}

/// The client's side of the connect and login exchanges.
pub struct Session {
    pub state: ClientState,
}

impl Session {
    /// A session on a connection that has not greeted yet.
    pub fn new() -> (r: Session)
        ensures
            r.state == ClientState::Disconnected,
    {
        Session { state: ClientState::Disconnected }
    }

    /// Takes the server's greeting.
    pub fn greeting(&mut self, reply: Reply) -> (r: Result<Text, ClientError<ConnectionErrorReplyCode>>)
        requires
            old(self).state == ClientState::Disconnected,
        ensures
            connect_outcome(r, reply@),
            final(self).state == (if r is Ok {
                ClientState::Connected
            } else {
                ClientState::Failed
            }),
    {
        let r = classify_connect(reply);
        self.state = if r.is_ok() {
            ClientState::Connected
        } else {
            ClientState::Failed
        };
        r
    }

    /// The command that logs in as `username`.
    pub fn login_command(&self, username: &[u8]) -> (r: Command)
        requires
            self.state == ClientState::Connected,
        ensures
            r@ == (CommandModel { verb: Verb::User, arg: ArgumentModel::Bytes(username@) }),
    {
        Command::UserName(copy_range_of(username))
    }

    /// Takes the reply to the login command. A request for a password
    /// leaves the session waiting for one; any other refusal ends it.
    pub fn login_reply(&mut self, reply: Reply) -> (r: Result<Text, ClientError<LoginErrorReplyCode>>)
        requires
            old(self).state == ClientState::Connected,
        ensures
            login_outcome(r, reply@),
            final(self).state == (if r is Ok {
                ClientState::LoggedIn
            } else if reply@.code == code_text(331) {
                ClientState::AwaitingPassword
            } else {
                ClientState::Failed
            }),
    {
        let wants_password = has_code(&reply, 331);
        let r = classify_login(reply);
        self.state = if r.is_ok() {
            ClientState::LoggedIn
        } else if wants_password {
            ClientState::AwaitingPassword
        } else {
            ClientState::Failed
        };
        r
    }

    /// The command that gives the password the server asked for.
    pub fn password_command(&self, password: &[u8]) -> (r: Command)
        requires
            self.state == ClientState::AwaitingPassword,
        ensures
            r@ == (CommandModel { verb: Verb::Pass, arg: ArgumentModel::Bytes(password@) }),
    {
        Command::Password(copy_range_of(password))
    }

    /// Takes the reply to the password command.
    pub fn password_reply(&mut self, reply: Reply) -> (r: Result<Text, ClientError<LoginErrorReplyCode>>)
        requires
            old(self).state == ClientState::AwaitingPassword,
        ensures
            password_outcome(r, reply@),
            final(self).state == (if r is Ok {
                ClientState::LoggedIn
            } else {
                ClientState::Failed
            }),
    {
        let r = classify_password(reply);
        self.state = if r.is_ok() {
            ClientState::LoggedIn
        } else {
            ClientState::Failed
        };
        r
    }
}

} // verus!

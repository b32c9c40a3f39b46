//! The server's side of a connection: what it does with each frame header,
//! before and after the client has presented the secret.
use vstd::prelude::*;

use crate::command::{CmdType, ResultAuthenticate, ResultError};
use crate::error::Error;
use crate::frame::{parse_request_header, spec_parse_request_header, HeaderError};

verus! {

/// What to do with a header that arrives before authentication.
pub enum AuthStep {
    /// Close the connection: the header is malformed or names no request.
    Close,
    /// Answer request `seq` that the client is not authenticated, and read the
    /// next header; the body is not read.
    Refuse { seq: u32 },
    /// Read a body of `body_len` bytes holding the secret of request `seq`.
    ReadSecret { seq: u32, body_len: u32 },
}

/// What the server does with header `h` before authentication.
pub open spec fn spec_auth_step(h: Seq<u8>) -> AuthStep {
    match spec_parse_request_header(h) {
        Err(_) => AuthStep::Close,
        Ok(hd) => if hd.cmd == CmdType::Authenticate {
            AuthStep::ReadSecret { seq: hd.seq, body_len: hd.body_len }
        } else {
            AuthStep::Refuse { seq: hd.seq }
        },
    }
}

/// Decides what to do with a header that arrives before authentication.
pub fn auth_step(head: &[u8]) -> (s: AuthStep)
    requires
        head@.len() >= 12,
    ensures
        s == spec_auth_step(head@),
{
    match parse_request_header(head) {
        Err(_) => AuthStep::Close,
        Ok(h) => match h.cmd {
            CmdType::Authenticate => AuthStep::ReadSecret { seq: h.seq, body_len: h.body_len },
            _ => AuthStep::Refuse { seq: h.seq },
        },
    }
}

/// The answer to a request made before authentication.
pub fn unauthorized() -> (r: ResultAuthenticate)
    ensures
        !r.ok,
        r.msg@ == "unauthorized"@,
{
    ResultAuthenticate::new(false, String::from_str("unauthorized"))
}

/// The answer to a presented secret: ok when it is the configured one. The
/// client is authenticated exactly when the answer is ok.
pub fn check_secret(expected: &String, presented: &String) -> (r: ResultAuthenticate)
    ensures
        r.ok == (presented@ == expected@),
        r.ok ==> r.msg@ == "ok"@,
        !r.ok ==> r.msg@ == "secret error"@,
{
    if *presented == *expected {
        ResultAuthenticate::new(true, String::from_str("ok"))
    } else {
        ResultAuthenticate::new(false, String::from_str("secret error"))
    }
}

/// What to do with a header that arrives after authentication.
pub enum CommandStep {
    /// Close the connection: the header is malformed or announces an empty
    /// body.
    Close,
    /// Read the next header: this one names no request.
    Skip,
    /// Read a body of `body_len` bytes and carry out request `seq` of kind
    /// `cmd`.
    Run { cmd: CmdType, seq: u32, body_len: u32 },
}

/// What the server does with header `h` after authentication.
pub open spec fn spec_command_step(h: Seq<u8>) -> CommandStep {
    match spec_parse_request_header(h) {
        Err(HeaderError::BadMagic) => CommandStep::Close,
        Err(HeaderError::UnknownCommand(_)) => CommandStep::Skip,
        Ok(hd) => if hd.body_len == 0 {
            CommandStep::Close
        } else {
            CommandStep::Run { cmd: hd.cmd, seq: hd.seq, body_len: hd.body_len }
        },
    }
}

/// Decides what to do with a header that arrives after authentication.
pub fn command_step(head: &[u8]) -> (s: CommandStep)
    requires
        head@.len() >= 12,
    ensures
        s == spec_command_step(head@),
{
    match parse_request_header(head) {
        Err(HeaderError::BadMagic) => CommandStep::Close,
        Err(HeaderError::UnknownCommand(_)) => CommandStep::Skip,
        Ok(h) => if h.body_len == 0 {
            CommandStep::Close
        } else {
            CommandStep::Run { cmd: h.cmd, seq: h.seq, body_len: h.body_len }
        },
    }
}

/// What to do with the next header of a connection, in either phase.
pub enum Step {
    /// Close the connection.
    Close,
    /// Answer request `seq` that the client is not authenticated; the body
    /// is not read.
    Refuse { seq: u32 },
    /// Read a body of `body_len` bytes holding the secret of request `seq`.
    ReadSecret { seq: u32, body_len: u32 },
    /// Read the next header: this one names no request.
    Skip,
    /// Read a body of `body_len` bytes and carry out request `seq` of kind
    /// `cmd`.
    Run { cmd: CmdType, seq: u32, body_len: u32 },
}

/// What the server does with header `h`, given whether the client has
/// presented the secret: the rules of `spec_auth_step` before, those of
/// `spec_command_step` after.
pub open spec fn spec_step(authenticated: bool, h: Seq<u8>) -> Step {
    if authenticated {
        match spec_command_step(h) {
            CommandStep::Close => Step::Close,
            CommandStep::Skip => Step::Skip,
            CommandStep::Run { cmd, seq, body_len } => Step::Run { cmd, seq, body_len },
        }
    } else {
        match spec_auth_step(h) {
            AuthStep::Close => Step::Close,
            AuthStep::Refuse { seq } => Step::Refuse { seq },
            AuthStep::ReadSecret { seq, body_len } => Step::ReadSecret { seq, body_len },
        }
    }
}

/// One connection as the server sees it: the secret that opens it, whether
/// the client has presented it, and every secret presented so far.
pub struct Session {
    secret: String,
    authenticated: bool,
    presented: Ghost<Seq<Seq<char>>>,
}

impl Session {
    /// A connection is authenticated exactly when the secret has been among
    /// the secrets presented on it.
    #[verifier::type_invariant]
    spec fn gate(self) -> bool {
        self.authenticated == self.presented@.contains(self.secret@)
    }

    /// The secret that opens the connection.
    pub closed spec fn secret(self) -> Seq<char> {
        self.secret@
    }

    /// Whether the client has presented the secret.
    pub closed spec fn is_open(self) -> bool {
        self.authenticated
    }

    /// The secrets presented on the connection, in order.
    pub closed spec fn presented(self) -> Seq<Seq<char>> {
        self.presented@
    }

    /// A new connection, opened by `secret`, on which nothing has been
    /// presented.
    pub fn new(secret: String) -> (s: Session)
        ensures
            s.secret() == secret@,
            !s.is_open(),
            s.presented() == Seq::<Seq<char>>::empty(),
    {
        Session { secret, authenticated: false, presented: Ghost(Seq::empty()) }
    }

    /// Whether the client has presented the secret on this connection.
    pub fn is_authenticated(&self) -> (b: bool)
        ensures
            b == self.is_open(),
            b == self.presented().contains(self.secret()),
    {
        proof {
            use_type_invariant(self);
        }
        self.authenticated
    }

    /// Decides what to do with header `head`. A request is carried out only
    /// once the secret has been presented on the connection.
    pub fn on_header(&self, head: &[u8]) -> (s: Step)
        requires
            head@.len() >= 12,
        ensures
            s == spec_step(self.is_open(), head@),
            s is Run ==> self.presented().contains(self.secret()),
    {
        proof {
            use_type_invariant(self);
        }
        if self.authenticated {
            match command_step(head) {
                CommandStep::Close => Step::Close,
                CommandStep::Skip => Step::Skip,
                CommandStep::Run { cmd, seq, body_len } => Step::Run { cmd, seq, body_len },
            }
        } else {
            match auth_step(head) {
                AuthStep::Close => Step::Close,
                AuthStep::Refuse { seq } => Step::Refuse { seq },
                AuthStep::ReadSecret { seq, body_len } => Step::ReadSecret { seq, body_len },
            }
        }
    }

    /// Answers the secret `presented`: ok when it is the connection's secret,
    /// which then opens the connection; a wrong one leaves it as it was.
    pub fn on_secret(&mut self, presented: &String) -> (r: ResultAuthenticate)
        ensures
            r.ok == (presented@ == old(self).secret()),
            r.ok ==> r.msg@ == "ok"@,
            !r.ok ==> r.msg@ == "secret error"@,
            final(self).secret() == old(self).secret(),
            final(self).presented() == old(self).presented().push(presented@),
            final(self).is_open() == (old(self).is_open() || r.ok),
    {
        proof {
            use_type_invariant(&*self);
        }
        let r = check_secret(&self.secret, presented);
        let ghost tried = self.presented@.push(presented@);
        proof {
            assert(tried.contains(self.secret@) == (self.presented@.contains(self.secret@)
                || presented@ == self.secret@)) by {
                if presented@ == self.secret@ {
                    assert(tried[tried.len() - 1] == self.secret@);
                }
                if tried.contains(self.secret@) {
                    let i = choose|i: int| 0 <= i < tried.len() && tried[i] == self.secret@;
                    if i < self.presented@.len() {
                        assert(self.presented@[i] == self.secret@);
                    }
                }
                if self.presented@.contains(self.secret@) {
                    let i = choose|i: int|
                        0 <= i < self.presented@.len() && self.presented@[i] == self.secret@;
                    assert(tried[i] == self.secret@);
                }
            }
        }
        let next = Session {
            secret: self.secret.clone(),
            authenticated: self.authenticated || r.ok,
            presented: Ghost(tried),
        };
        *self = next;
        r
    }
}

/// Before the secret no request is carried out, and after it every header
/// that `command_step` would run is run: the secret is the only way to the
/// store.
pub proof fn law_commands_follow_secret(authenticated: bool, h: Seq<u8>)
    ensures
        spec_step(authenticated, h) is Run <==> (authenticated && spec_command_step(h) is Run),
        !authenticated ==> (spec_step(authenticated, h) is ReadSecret <==> spec_auth_step(
            h,
        ) is ReadSecret),
{
}

/// The answer to a request of kind `cmd` that failed with `e`.
pub fn error_result(cmd: CmdType, e: &Error) -> (r: ResultError)
    ensures
        r.cmd == cmd.spec_code(),
        r.msg@ == e.message(),
{
    ResultError::new(cmd.code(), e.to_string())
}

/// What the client makes of the answer to its secret: nothing when it is
/// ok, else the message that authentication failed.
pub fn auth_outcome(r: &ResultAuthenticate) -> (o: Result<(), String>)
    ensures
        r.ok ==> o is Ok,
        !r.ok ==> (o matches Err(m) && m@ == "Authentication failed: "@ + r.msg@),
{
    if r.ok {
        Ok(())
    } else {
        let mut m = String::from_str("Authentication failed: ");
        m.append(r.msg.as_str());
        Err(m)
    }
}

} // verus!

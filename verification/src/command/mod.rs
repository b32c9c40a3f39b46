//! The commands of the protocol: their type codes, request bodies and results.
use vstd::prelude::*;

use crate::frame::{encode_frame, frame};

pub mod hash;
pub mod string;

verus! {

/// The kind of a frame, written as its fourth byte.
#[derive(Debug, Clone, Copy, PartialEq, Eq, Structural)]
pub enum CmdType {
    Ping,
    Authenticate,
    Keys,
    Exists,
    Expire,
    Dbs,
    SetString,
    GetString,
    DelString,
    HashSet,
    HashGet,
    HashDel,
    HashExists,
    HashLen,
    HashFields,
    Error,
}

impl CmdType {
    /// The byte that stands for this kind on the wire.
    pub open spec fn spec_code(&self) -> u8 {
        match self {
            CmdType::Ping => 0x01,
            CmdType::Authenticate => 0x02,
            CmdType::Keys => 0x03,
            CmdType::Exists => 0x04,
            CmdType::Expire => 0x05,
            CmdType::Dbs => 0x06,
            CmdType::SetString => 0x11,
            CmdType::GetString => 0x12,
            CmdType::DelString => 0x13,
            CmdType::HashSet => 0x21,
            CmdType::HashGet => 0x22,
            CmdType::HashDel => 0x23,
            CmdType::HashExists => 0x24,
            CmdType::HashLen => 0x25,
            CmdType::HashFields => 0x26,
            CmdType::Error => 0xff,
        }
    }

    /// The byte that stands for this kind on the wire.
    #[verifier::when_used_as_spec(spec_code)]
    pub fn code(&self) -> (b: u8)
        ensures
            b == self.spec_code(),
    {
        match self {
            CmdType::Ping => 0x01,
            CmdType::Authenticate => 0x02,
            CmdType::Keys => 0x03,
            CmdType::Exists => 0x04,
            CmdType::Expire => 0x05,
            CmdType::Dbs => 0x06,
            CmdType::SetString => 0x11,
            CmdType::GetString => 0x12,
            CmdType::DelString => 0x13,
            CmdType::HashSet => 0x21,
            CmdType::HashGet => 0x22,
            CmdType::HashDel => 0x23,
            CmdType::HashExists => 0x24,
            CmdType::HashLen => 0x25,
            CmdType::HashFields => 0x26,
            CmdType::Error => 0xff,
        }
    }

    /// The kind of request that a byte names; the error kind is never a request.
    pub open spec fn spec_request_type(b: u8) -> Option<CmdType> {
        if b == 0x01 {
            Some(CmdType::Ping)
        } else if b == 0x02 {
            Some(CmdType::Authenticate)
        } else if b == 0x03 {
            Some(CmdType::Keys)
        } else if b == 0x04 {
            Some(CmdType::Exists)
        } else if b == 0x05 {
            Some(CmdType::Expire)
        } else if b == 0x06 {
            Some(CmdType::Dbs)
        } else if b == 0x11 {
            Some(CmdType::SetString)
        } else if b == 0x12 {
            Some(CmdType::GetString)
        } else if b == 0x13 {
            Some(CmdType::DelString)
        } else if b == 0x21 {
            Some(CmdType::HashSet)
        } else if b == 0x22 {
            Some(CmdType::HashGet)
        } else if b == 0x23 {
            Some(CmdType::HashDel)
        } else if b == 0x24 {
            Some(CmdType::HashExists)
        } else if b == 0x25 {
            Some(CmdType::HashLen)
        } else if b == 0x26 {
            Some(CmdType::HashFields)
        } else {
            None
        }
    }

    /// The kind of request that a byte names, or `None` for a byte that names
    /// no request.
    pub fn request_type(b: u8) -> (r: Option<CmdType>)
        ensures
            r == Self::spec_request_type(b),
    {
        match b {
            0x01 => Some(CmdType::Ping),
            0x02 => Some(CmdType::Authenticate),
            0x03 => Some(CmdType::Keys),
            0x04 => Some(CmdType::Exists),
            0x05 => Some(CmdType::Expire),
            0x06 => Some(CmdType::Dbs),
            0x11 => Some(CmdType::SetString),
            0x12 => Some(CmdType::GetString),
            0x13 => Some(CmdType::DelString),
            0x21 => Some(CmdType::HashSet),
            0x22 => Some(CmdType::HashGet),
            0x23 => Some(CmdType::HashDel),
            0x24 => Some(CmdType::HashExists),
            0x25 => Some(CmdType::HashLen),
            0x26 => Some(CmdType::HashFields),
            _ => None,
        }
    }
}

/// Every kind but the error kind is read back from its own byte, and a byte
/// that names a request names the kind whose byte it is.
pub proof fn law_request_type_code(c: CmdType, b: u8)
    ensures
        c != CmdType::Error ==> CmdType::spec_request_type(c.spec_code()) == Some(c),
        CmdType::spec_request_type(CmdType::Error.spec_code()) is None,
        CmdType::spec_request_type(b) matches Some(d) ==> d.spec_code() == b && d != CmdType::Error,
{
}

/// A ping.
#[derive(Debug, Clone)]
pub struct Ping {
    pub timestamp: u64,
}

/// The answer to a ping.
#[derive(Debug, Clone)]
pub struct Pong {
    pub timestamp: u64,
}

impl Pong {
    /// A pong with the given timestamp.
    pub fn new(timestamp: u64) -> (r: Self)
        ensures
            r.timestamp == timestamp,
    {
        Pong { timestamp }
    }

    /// The pong that the server sends: its timestamp is 0.
    pub fn default() -> (r: Self)
        ensures
            r.timestamp == 0,
    {
        Pong { timestamp: 0 }
    }

    /// The answer frame for request `seq`, carrying `data`, the JSON
    /// encoding of this result.
    pub fn to_result(&self, seq: u32, data: Vec<u8>) -> (out: Vec<u8>)
        ensures
            out@ == frame(CmdType::Ping.spec_code(), seq, data@),
    {
        encode_frame(CmdType::Ping, seq, data)
    }
}

/// The answer to a request that failed.
#[derive(Debug, Clone)]
pub struct ResultError {
    pub cmd: u8,
    pub msg: String,
}

impl ResultError {
    /// A result with the given fields.
    pub fn new(cmd: u8, msg: String) -> (r: Self)
        ensures
            r.cmd == cmd,
            r.msg == msg,
    {
        ResultError { cmd, msg }
    }

    /// The answer frame for request `seq`, carrying `data`, the JSON
    /// encoding of this result.
    pub fn to_result(&self, seq: u32, data: Vec<u8>) -> (out: Vec<u8>)
        ensures
            out@ == frame(CmdType::Error.spec_code(), seq, data@),
    {
        encode_frame(CmdType::Error, seq, data)
    }
}

/// Presents the shared secret.
#[derive(Debug, Clone)]
pub struct Authenticate {
    pub secret: String,
}

/// The answer to an authentication.
#[derive(Debug, Clone)]
pub struct ResultAuthenticate {
    pub ok: bool,
    pub msg: String,
}

impl ResultAuthenticate {
    /// A result with the given fields.
    pub fn new(ok: bool, msg: String) -> (r: Self)
        ensures
            r.ok == ok,
            r.msg == msg,
    {
        ResultAuthenticate { ok, msg }
    }

    /// The answer frame for request `seq`, carrying `data`, the JSON
    /// encoding of this result.
    pub fn to_result(&self, seq: u32, data: Vec<u8>) -> (out: Vec<u8>)
        ensures
            out@ == frame(CmdType::Authenticate.spec_code(), seq, data@),
    {
        encode_frame(CmdType::Authenticate, seq, data)
    }
}

/// Asks for one page of the keys of a keyspace; pages are counted from 1.
#[derive(Debug, Clone)]
pub struct Keys {
    pub db: String,
    pub page: usize,
    pub size: usize,
}

/// One page of keys and the number of keys in the keyspace.
#[derive(Debug, Clone)]
pub struct ResultKeys {
    pub keys: Vec<String>,
    pub total: u32,
}

impl ResultKeys {
    /// A result with the given fields.
    pub fn new(keys: Vec<String>, total: u32) -> (r: Self)
        ensures
            r.keys == keys,
            r.total == total,
    {
        ResultKeys { keys, total }
    }

    /// The answer frame for request `seq`, carrying `data`, the JSON
    /// encoding of this result.
    pub fn to_result(&self, seq: u32, data: Vec<u8>) -> (out: Vec<u8>)
        ensures
            out@ == frame(CmdType::Keys.spec_code(), seq, data@),
    {
        encode_frame(CmdType::Keys, seq, data)
    }
}

/// Asks whether a key holds an entry, of any kind, that has not expired.
#[derive(Debug, Clone)]
pub struct Exists {
    pub db: String,
    pub key: String,
}

/// The answer to an exists request.
#[derive(Debug, Clone)]
pub struct ResultExists {
    pub exists: bool,
}

impl ResultExists {
    /// A result with the given fields.
    pub fn new(exists: bool) -> (r: Self)
        ensures
            r.exists == exists,
    {
        ResultExists { exists }
    }

    /// The answer frame for request `seq`, carrying `data`, the JSON
    /// encoding of this result.
    pub fn to_result(&self, seq: u32, data: Vec<u8>) -> (out: Vec<u8>)
        ensures
            out@ == frame(CmdType::Exists.spec_code(), seq, data@),
    {
        encode_frame(CmdType::Exists, seq, data)
    }
}

/// Sets the time to live of a key, in seconds; 0 removes it.
#[derive(Debug, Clone)]
pub struct Expire {
    pub db: String,
    pub key: String,
    pub expire: u64,
}

/// The answer to an expire request.
#[derive(Debug, Clone)]
pub struct ResultExpire {
    pub ok: bool,
}

impl ResultExpire {
    /// A result with the given fields.
    pub fn new(ok: bool) -> (r: Self)
        ensures
            r.ok == ok,
    {
        ResultExpire { ok }
    }

    /// The answer frame for request `seq`, carrying `data`, the JSON
    /// encoding of this result.
    pub fn to_result(&self, seq: u32, data: Vec<u8>) -> (out: Vec<u8>)
        ensures
            out@ == frame(CmdType::Expire.spec_code(), seq, data@),
    {
        encode_frame(CmdType::Expire, seq, data)
    }
}

/// Asks for the keyspaces.
#[derive(Debug, Clone)]
pub struct Dbs {}

/// A keyspace and the number of keys in it.
#[derive(Debug, Clone)]
pub struct DbInfo {
    pub name: String,
    pub count: u32,
}

/// The keyspaces.
#[derive(Debug, Clone)]
pub struct ResultDbs {
    pub dbs: Vec<DbInfo>,
}

impl ResultDbs {
    /// A result with the given fields.
    pub fn new(dbs: Vec<DbInfo>) -> (r: Self)
        ensures
            r.dbs == dbs,
    {
        ResultDbs { dbs }
    }

    /// The answer frame for request `seq`, carrying `data`, the JSON
    /// encoding of this result.
    pub fn to_result(&self, seq: u32, data: Vec<u8>) -> (out: Vec<u8>)
        ensures
            out@ == frame(CmdType::Dbs.spec_code(), seq, data@),
    {
        encode_frame(CmdType::Dbs, seq, data)
    }
}

} // verus!

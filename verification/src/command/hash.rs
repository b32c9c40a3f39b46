//! Requests and answers that work on hash values.
use vstd::prelude::*;

use super::CmdType;
use crate::frame::{encode_frame, frame};

verus! {

/// Sets a field of the hash at a key.
#[derive(Debug, Clone)]
pub struct HashSet {
    pub db: String,
    pub key: String,
    pub field: String,
    pub value: String,
    pub expire: Option<u64>,
}

/// The answer to a hash-set request.
#[derive(Debug, Clone)]
pub struct ResultHashSet {
    pub ok: bool,
    pub msg: String,
}

impl ResultHashSet {
    /// A result with the given fields.
    pub fn new(ok: bool, msg: String) -> (r: Self)
        ensures
            r.ok == ok,
            r.msg == msg,
    {
        ResultHashSet { ok, msg }
    }

    /// The answer frame for request `seq`, carrying `data`, the JSON
    /// encoding of this result.
    pub fn to_result(&self, seq: u32, data: Vec<u8>) -> (out: Vec<u8>)
        ensures
            out@ == frame(CmdType::HashSet.spec_code(), seq, data@),
    {
        encode_frame(CmdType::HashSet, seq, data)
    }
}

/// Reads a field of the hash at a key.
#[derive(Debug, Clone)]
pub struct HashGet {
    pub db: String,
    pub key: String,
    pub field: String,
}

/// The answer to a hash-get request.
#[derive(Debug, Clone)]
pub struct ResultHashGet {
    pub value: Option<String>,
    pub expire: Option<u64>,
}

impl ResultHashGet {
    /// A result with the given fields.
    pub fn new(value: Option<String>, expire: Option<u64>) -> (r: Self)
        ensures
            r.value == value,
            r.expire == expire,
    {
        ResultHashGet { value, expire }
    }

    /// The answer frame for request `seq`, carrying `data`, the JSON
    /// encoding of this result.
    pub fn to_result(&self, seq: u32, data: Vec<u8>) -> (out: Vec<u8>)
        ensures
            out@ == frame(CmdType::HashGet.spec_code(), seq, data@),
    {
        encode_frame(CmdType::HashGet, seq, data)
    }
}

/// Removes a field of the hash at a key.
#[derive(Debug, Clone)]
pub struct HashDel {
    pub db: String,
    pub key: String,
    pub field: String,
}

/// The answer to a hash-delete request.
#[derive(Debug, Clone)]
pub struct ResultHashDel {
    pub value: Option<String>,
    pub expire: Option<u64>,
}

impl ResultHashDel {
    /// A result with the given fields.
    pub fn new(value: Option<String>, expire: Option<u64>) -> (r: Self)
        ensures
            r.value == value,
            r.expire == expire,
    {
        ResultHashDel { value, expire }
    }

    /// The answer frame for request `seq`, carrying `data`, the JSON
    /// encoding of this result.
    pub fn to_result(&self, seq: u32, data: Vec<u8>) -> (out: Vec<u8>)
        ensures
            out@ == frame(CmdType::HashDel.spec_code(), seq, data@),
    {
        encode_frame(CmdType::HashDel, seq, data)
    }
}

/// Asks whether the hash at a key has a field.
#[derive(Debug, Clone)]
pub struct HashExists {
    pub db: String,
    pub key: String,
    pub field: String,
}

/// The answer to a hash-exists request.
#[derive(Debug, Clone)]
pub struct ResultHashExists {
    pub exists: bool,
}

impl ResultHashExists {
    /// A result with the given fields.
    pub fn new(exists: bool) -> (r: Self)
        ensures
            r.exists == exists,
    {
        ResultHashExists { exists }
    }

    /// The answer frame for request `seq`, carrying `data`, the JSON
    /// encoding of this result.
    pub fn to_result(&self, seq: u32, data: Vec<u8>) -> (out: Vec<u8>)
        ensures
            out@ == frame(CmdType::HashExists.spec_code(), seq, data@),
    {
        encode_frame(CmdType::HashExists, seq, data)
    }
}

/// Asks how many fields the hash at a key has.
#[derive(Debug, Clone)]
pub struct HashLen {
    pub db: String,
    pub key: String,
}

/// The answer to a hash-length request.
#[derive(Debug, Clone)]
pub struct ResultHashLen {
    pub len: u32,
}

impl ResultHashLen {
    /// A result with the given fields.
    pub fn new(len: u32) -> (r: Self)
        ensures
            r.len == len,
    {
        ResultHashLen { len }
    }

    /// The answer frame for request `seq`, carrying `data`, the JSON
    /// encoding of this result.
    pub fn to_result(&self, seq: u32, data: Vec<u8>) -> (out: Vec<u8>)
        ensures
            out@ == frame(CmdType::HashLen.spec_code(), seq, data@),
    {
        encode_frame(CmdType::HashLen, seq, data)
    }
}

/// Asks for the fields of the hash at a key.
#[derive(Debug, Clone)]
pub struct HashFields {
    pub db: String,
    pub key: String,
}

/// The answer to a hash-fields request.
#[derive(Debug, Clone)]
pub struct ResultHashFields {
    pub fields: Vec<String>,
    pub total: u32,
}

impl ResultHashFields {
    /// A result with the given fields.
    pub fn new(fields: Vec<String>, total: u32) -> (r: Self)
        ensures
            r.fields == fields,
            r.total == total,
    {
        ResultHashFields { fields, total }
    }

    /// The answer frame for request `seq`, carrying `data`, the JSON
    /// encoding of this result.
    pub fn to_result(&self, seq: u32, data: Vec<u8>) -> (out: Vec<u8>)
        ensures
            out@ == frame(CmdType::HashFields.spec_code(), seq, data@),
    {
        encode_frame(CmdType::HashFields, seq, data)
    }
}

} // verus!

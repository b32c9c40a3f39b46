//! Requests and answers that work on string values.
use vstd::prelude::*;

use super::CmdType;
use crate::frame::{encode_frame, frame};

verus! {

/// Stores a string value at a key.
#[derive(Debug, Clone)]
pub struct SetString {
    pub db: String,
    pub key: String,
    pub value: String,
    pub expire: Option<u64>,
}

/// The answer to a set-string request.
#[derive(Debug, Clone)]
pub struct ResultSetString {
    pub ok: bool,
    pub msg: String,
}

impl ResultSetString {
    /// A result with the given fields.
    pub fn new(ok: bool, msg: String) -> (r: Self)
        ensures
            r.ok == ok,
            r.msg == msg,
    {
        ResultSetString { ok, msg }
    }

    /// The answer frame for request `seq`, carrying `data`, the JSON
    /// encoding of this result.
    pub fn to_result(&self, seq: u32, data: Vec<u8>) -> (out: Vec<u8>)
        ensures
            out@ == frame(CmdType::SetString.spec_code(), seq, data@),
    {
        encode_frame(CmdType::SetString, seq, data)
    }
}

/// Reads the string value at a key.
#[derive(Debug, Clone)]
pub struct GetString {
    pub db: String,
    pub key: String,
}

/// The answer to a get-string request.
#[derive(Debug, Clone)]
pub struct ResultGetString {
    pub value: Option<String>,
    pub expire: Option<u64>,
}

impl ResultGetString {
    /// A result with the given fields.
    pub fn new(value: Option<String>, expire: Option<u64>) -> (r: Self)
        ensures
            r.value == value,
            r.expire == expire,
    {
        ResultGetString { value, expire }
    }

    /// The answer frame for request `seq`, carrying `data`, the JSON
    /// encoding of this result.
    pub fn to_result(&self, seq: u32, data: Vec<u8>) -> (out: Vec<u8>)
        ensures
            out@ == frame(CmdType::GetString.spec_code(), seq, data@),
    {
        encode_frame(CmdType::GetString, seq, data)
    }
}

/// Removes the string value at a key.
#[derive(Debug, Clone)]
pub struct DelString {
    pub db: String,
    pub key: String,
}

/// The answer to a delete-string request.
#[derive(Debug, Clone)]
pub struct ResultDelString {
    pub value: Option<String>,
    pub expire: Option<u64>,
}

impl ResultDelString {
    /// A result with the given fields.
    pub fn new(value: Option<String>, expire: Option<u64>) -> (r: Self)
        ensures
            r.value == value,
            r.expire == expire,
    {
        ResultDelString { value, expire }
    }

    /// The answer frame for request `seq`, carrying `data`, the JSON
    /// encoding of this result.
    pub fn to_result(&self, seq: u32, data: Vec<u8>) -> (out: Vec<u8>)
        ensures
            out@ == frame(CmdType::DelString.spec_code(), seq, data@),
    {
        encode_frame(CmdType::DelString, seq, data)
    }
}

} // verus!

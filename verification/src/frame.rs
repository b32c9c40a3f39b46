//! Frames: a 12-byte header (magic number, version, command byte, sequence
//! number and body length, both big-endian) followed by the body.
use vstd::prelude::*;

use crate::command::CmdType;
use crate::{MAGIC_NUMBER, VERSION};

verus! {

/// The four big-endian bytes of `x`.
pub open spec fn be32(x: u32) -> Seq<u8> {
    seq![
        (x / 0x100_0000) as u8,
        ((x / 0x1_0000) % 0x100) as u8,
        ((x / 0x100) % 0x100) as u8,
        (x % 0x100) as u8,
    ]
}

/// The number that four big-endian bytes stand for.
pub open spec fn from_be32(b0: u8, b1: u8, b2: u8, b3: u8) -> u32 {
    (b0 * 0x100_0000 + b1 * 0x1_0000 + b2 * 0x100 + b3) as u32
}

/// The length field of a body of `n` bytes: `n` modulo 2^32.
pub open spec fn length_field(n: nat) -> u32 {
    (n % 0x1_0000_0000) as u32
}

/// A frame with a 12-byte header.
pub open spec fn frame(cmd: u8, seq: u32, body: Seq<u8>) -> Seq<u8> {
    seq![0x06u8, 0x06u8, 0x01u8, cmd] + be32(seq) + be32(length_field(body.len())) + body
}

/// Decoding undoes encoding.
pub proof fn lemma_be32_roundtrip(x: u32)
    ensures
        from_be32(be32(x)[0], be32(x)[1], be32(x)[2], be32(x)[3]) == x,
{
    let b = be32(x);
    assert(b[0] == x / 0x100_0000);
    assert(b[1] == (x / 0x1_0000) % 0x100);
    assert(b[2] == (x / 0x100) % 0x100);
    assert(b[3] == x % 0x100);
    assert(x == (x / 0x100_0000) * 0x100_0000 + ((x / 0x1_0000) % 0x100) * 0x1_0000 + ((x / 0x100)
        % 0x100) * 0x100 + x % 0x100) by (nonlinear_arith);
}

fn push_be32(out: &mut Vec<u8>, x: u32)
    ensures
        final(out)@ == old(out)@ + be32(x),
{
    out.push((x / 0x100_0000) as u8);
    out.push(((x / 0x1_0000) % 0x100) as u8);
    out.push(((x / 0x100) % 0x100) as u8);
    out.push((x % 0x100) as u8);
    assert(out@ =~= old(out)@ + be32(x));
}

/// The length field for a body of `n` bytes.
pub fn length_of(n: usize) -> (l: u32)
    ensures
        l == length_field(n as nat),
{
    ((n as u64) % 0x1_0000_0000u64) as u32
}

/// The frame that carries `body` as the answer or request `seq` of kind `cmd`.
pub fn encode_frame(cmd: CmdType, seq: u32, body: Vec<u8>) -> (out: Vec<u8>)
    ensures
        out@ == frame(cmd.code(), seq, body@),
{
    let mut body = body;
    let ghost b = body@;
    let mut out: Vec<u8> = Vec::new();
    out.push(MAGIC_NUMBER[0]);
    out.push(MAGIC_NUMBER[1]);
    out.push(VERSION);
    out.push(cmd.code());
    push_be32(&mut out, seq);
    let n = length_of(body.len());
    push_be32(&mut out, n);
    out.append(&mut body);
    assert(out@ =~= frame(cmd.code(), seq, b));
    out
}

/// What a request header says.
#[derive(Debug, Clone, Copy, PartialEq, Eq, Structural)]
pub struct FrameHeader {
    pub version: u8,
    pub cmd: CmdType,
    pub seq: u32,
    pub body_len: u32,
}

/// Why a header is refused.
#[derive(Debug, Clone, Copy, PartialEq, Eq, Structural)]
pub enum HeaderError {
    /// The first two bytes are not the magic number.
    BadMagic,
    /// The command byte names no request.
    UnknownCommand(u8),
}

/// Whether a header opens with the magic number.
pub open spec fn has_magic(h: Seq<u8>) -> bool {
    h[0] == 0x06 && h[1] == 0x06
}

/// What the first 12 bytes `h` of a request say.
pub open spec fn spec_parse_request_header(h: Seq<u8>) -> Result<FrameHeader, HeaderError> {
    if !has_magic(h) {
        Err(HeaderError::BadMagic)
    } else {
        match CmdType::spec_request_type(h[3]) {
            None => Err(HeaderError::UnknownCommand(h[3])),
            Some(c) => Ok(
                FrameHeader {
                    version: h[2],
                    cmd: c,
                    seq: from_be32(h[4], h[5], h[6], h[7]),
                    body_len: from_be32(h[8], h[9], h[10], h[11]),
                },
            ),
        }
    }
}

/// The body length that the first 12 bytes `h` of an answer announce.
pub open spec fn spec_parse_response_header(h: Seq<u8>) -> Result<u32, HeaderError> {
    if !has_magic(h) {
        Err(HeaderError::BadMagic)
    } else {
        Ok(from_be32(h[8], h[9], h[10], h[11]))
    }
}

fn read_be32(b: &[u8], at: usize) -> (x: u32)
    requires
        at + 4 <= b@.len(),
    ensures
        x == from_be32(b@[at as int], b@[at + 1], b@[at + 2], b@[at + 3]),
{
    (b[at] as u32) * 0x100_0000 + (b[at + 1] as u32) * 0x1_0000 + (b[at + 2] as u32) * 0x100 + (
    b[at + 3] as u32)
}

/// Reads the header of a request: the magic number, the version, the kind of
/// request, its sequence number and the length of its body.
pub fn parse_request_header(head: &[u8]) -> (r: Result<FrameHeader, HeaderError>)
    requires
        head@.len() >= 12,
    ensures
        r == spec_parse_request_header(head@),
{
    if head[0] != MAGIC_NUMBER[0] || head[1] != MAGIC_NUMBER[1] {
        return Err(HeaderError::BadMagic);
    }
    match CmdType::request_type(head[3]) {
        None => Err(HeaderError::UnknownCommand(head[3])),
        Some(cmd) => Ok(
            FrameHeader {
                version: head[2],
                cmd,
                seq: read_be32(head, 4),
                body_len: read_be32(head, 8),
            },
        ),
    }
}

/// Reads the header of an answer: the magic number and the length of the body.
pub fn parse_response_header(head: &[u8]) -> (r: Result<u32, HeaderError>)
    requires
        head@.len() >= 12,
    ensures
        r == spec_parse_response_header(head@),
{
    if head[0] != MAGIC_NUMBER[0] || head[1] != MAGIC_NUMBER[1] {
        return Err(HeaderError::BadMagic);
    }
    Ok(read_be32(head, 8))
}

/// A request frame is read back as the header it was written with, and its
/// body follows the header.
pub proof fn law_request_frame_roundtrip(cmd: CmdType, seq: u32, body: Seq<u8>)
    requires
        cmd != CmdType::Error,
    ensures
        spec_parse_request_header(frame(cmd.spec_code(), seq, body)) == Ok::<FrameHeader, HeaderError>(
            FrameHeader { version: VERSION, cmd, seq, body_len: length_field(body.len()) },
        ),
        frame(cmd.spec_code(), seq, body).skip(12) == body,
        frame(cmd.spec_code(), seq, body).len() == 12 + body.len(),
{
    let f = frame(cmd.spec_code(), seq, body);
    let s = be32(seq);
    let l = be32(length_field(body.len()));
    lemma_be32_roundtrip(seq);
    lemma_be32_roundtrip(length_field(body.len()));
    crate::command::law_request_type_code(cmd, 0);
    assert(f[4] == s[0] && f[5] == s[1] && f[6] == s[2] && f[7] == s[3]);
    assert(f[8] == l[0] && f[9] == l[1] && f[10] == l[2] && f[11] == l[3]);
    assert(f.skip(12) =~= body);
}

/// An answer frame announces the length of the body that follows its header.
pub proof fn law_response_frame_roundtrip(cmd: CmdType, seq: u32, body: Seq<u8>)
    ensures
        spec_parse_response_header(frame(cmd.spec_code(), seq, body)) == Ok::<u32, HeaderError>(
            length_field(body.len()),
        ),
        frame(cmd.spec_code(), seq, body).skip(12) == body,
{
    let f = frame(cmd.spec_code(), seq, body);
    let l = be32(length_field(body.len()));
    lemma_be32_roundtrip(length_field(body.len()));
    assert(f[8] == l[0] && f[9] == l[1] && f[10] == l[2] && f[11] == l[3]);
    assert(f.skip(12) =~= body);
}

} // verus!

use akv::command::hash::ResultHashLen;
use akv::command::string::ResultGetString;
use akv::command::{CmdType, Pong, ResultAuthenticate, ResultError};
use akv::frame::{
    encode_frame, parse_request_header, parse_response_header,
    FrameHeader, HeaderError,
};
use akv::{MAGIC_NUMBER, VERSION};

const ALL: [CmdType; 16] = [
    CmdType::Ping,
    CmdType::Authenticate,
    CmdType::Keys,
    CmdType::Exists,
    CmdType::Expire,
    CmdType::Dbs,
    CmdType::SetString,
    CmdType::GetString,
    CmdType::DelString,
    CmdType::HashSet,
    CmdType::HashGet,
    CmdType::HashDel,
    CmdType::HashExists,
    CmdType::HashLen,
    CmdType::HashFields,
    CmdType::Error,
];

#[test]
fn command_codes_match_the_wire_table() {
    let codes: Vec<u8> = ALL.iter().map(|c| c.code()).collect();
    assert_eq!(
        codes,
        vec![
            0x01, 0x02, 0x03, 0x04, 0x05, 0x06, 0x11, 0x12, 0x13, 0x21, 0x22, 0x23, 0x24, 0x25,
            0x26, 0xff
        ]
    );
}

#[test]
fn request_type_reads_back_every_request_kind() {
    for c in ALL.iter() {
        if *c == CmdType::Error {
            assert_eq!(CmdType::request_type(c.code()), None);
        } else {
            assert_eq!(CmdType::request_type(c.code()), Some(*c));
        }
    }
    assert_eq!(CmdType::request_type(0x00), None);
    assert_eq!(CmdType::request_type(0x07), None);
    assert_eq!(CmdType::request_type(0x27), None);
}

#[test]
fn magic_and_version() {
    assert_eq!(MAGIC_NUMBER, [0x06, 0x06]);
    assert_eq!(VERSION, 0x01);
}

#[test]
fn encode_frame_layout() {
    let f = encode_frame(CmdType::SetString, 0x0102_0304, vec![b'{', b'}']);
    assert_eq!(
        f,
        vec![0x06, 0x06, 0x01, 0x11, 0x01, 0x02, 0x03, 0x04, 0x00, 0x00, 0x00, 0x02, b'{', b'}']
    );
}

#[test]
fn hash_answers_echo_the_sequence_number() {
    let f = ResultHashLen::new(1).to_result(0x0a0b_0c0d, vec![1, 2, 3]);
    assert_eq!(
        f,
        vec![0x06, 0x06, 0x01, 0x25, 0x0a, 0x0b, 0x0c, 0x0d, 0x00, 0x00, 0x00, 0x03, 1, 2, 3]
    );
    assert_eq!(parse_response_header(&f[..12]), Ok(3));
}

#[test]
fn request_header_roundtrip() {
    let body = vec![7u8; 300];
    let f = encode_frame(CmdType::HashGet, 0xdead_beef, body);
    let h = parse_request_header(&f[..12]).unwrap();
    assert_eq!(
        h,
        FrameHeader { version: VERSION, cmd: CmdType::HashGet, seq: 0xdead_beef, body_len: 300 }
    );
    assert_eq!(&f[12..], &vec![7u8; 300][..]);
}

#[test]
fn request_header_errors() {
    let mut f = encode_frame(CmdType::Ping, 1, vec![0]);
    f[0] = 0x07;
    assert_eq!(parse_request_header(&f), Err(HeaderError::BadMagic));
    let mut g = encode_frame(CmdType::Ping, 1, vec![0]);
    g[3] = 0x99;
    assert_eq!(parse_request_header(&g), Err(HeaderError::UnknownCommand(0x99)));
    let e = encode_frame(CmdType::Error, 1, vec![0]);
    assert_eq!(parse_request_header(&e), Err(HeaderError::UnknownCommand(0xff)));
}

#[test]
fn response_header_body_length() {
    let f = encode_frame(CmdType::Keys, 3, vec![0u8; 70000]);
    assert_eq!(parse_response_header(&f[..12]), Ok(70000));
    let mut g = f.clone();
    g[1] = 0;
    assert_eq!(parse_response_header(&g[..12]), Err(HeaderError::BadMagic));
}

#[test]
fn result_frames_carry_their_kind() {
    let pong = Pong::default();
    assert_eq!(pong.timestamp, 0);
    assert_eq!(Pong::new(5).timestamp, 5);
    let f = pong.to_result(9, b"{\"timestamp\":0}".to_vec());
    assert_eq!(f[3], 0x01);
    assert_eq!(&f[4..8], &[0, 0, 0, 9]);
    assert_eq!(&f[8..12], &[0, 0, 0, 15]);

    let e = ResultError::new(0x12, "Bad command: x".to_string());
    assert_eq!(e.cmd, 0x12);
    assert_eq!(e.to_result(1, vec![])[3], 0xff);

    let a = ResultAuthenticate::new(true, "ok".to_string());
    assert_eq!(a.to_result(0, vec![])[3], 0x02);

    let g = ResultGetString::new(Some("v".to_string()), Some(3));
    assert_eq!(g.to_result(2, vec![1])[3], 0x12);

    let h = ResultHashLen::new(4);
    let hf = h.to_result(7, vec![9, 9]);
    assert_eq!(hf, vec![0x06, 0x06, 0x01, 0x25, 0, 0, 0, 7, 0, 0, 0, 2, 9, 9]);
}

use akv::cli::commands::parse_input;
use akv::command::CmdType;
use akv::error::Error;
use akv::frame::encode_frame;
use akv::persistence::{recover, WalEntry};
use akv::session::{
    auth_outcome, auth_step, check_secret, command_step, error_result, unauthorized, AuthStep,
    CommandStep, Session, Step,
};
use akv::state::State;
use akv::strmap::StrMap;
use akv::text::push_decimal;
use akv::value::{Entry, Value};

fn s(x: &str) -> String {
    x.to_string()
}

#[test]
fn auth_phase_steps() {
    let f = encode_frame(CmdType::Authenticate, 4, vec![1, 2, 3]);
    assert!(matches!(auth_step(&f[..12]), AuthStep::ReadSecret { seq: 4, body_len: 3 }));
    let g = encode_frame(CmdType::GetString, 5, vec![1]);
    assert!(matches!(auth_step(&g[..12]), AuthStep::Refuse { seq: 5 }));
    let mut h = g.clone();
    h[3] = 0x77;
    assert!(matches!(auth_step(&h[..12]), AuthStep::Close));
    let mut m = g.clone();
    m[0] = 0;
    assert!(matches!(auth_step(&m[..12]), AuthStep::Close));
}

#[test]
fn secrets_and_refusals() {
    let ok = check_secret(&s("top"), &s("top"));
    assert!(ok.ok);
    assert_eq!(ok.msg, "ok");
    let bad = check_secret(&s("top"), &s("nope"));
    assert!(!bad.ok);
    assert_eq!(bad.msg, "secret error");
    let u = unauthorized();
    assert!(!u.ok);
    assert_eq!(u.msg, "unauthorized");
    assert!(auth_outcome(&ok).is_ok());
    assert_eq!(auth_outcome(&bad).unwrap_err(), "Authentication failed: secret error");
}

#[test]
fn command_phase_steps() {
    let f = encode_frame(CmdType::HashSet, 8, vec![0; 10]);
    assert!(matches!(
        command_step(&f[..12]),
        CommandStep::Run { cmd: CmdType::HashSet, seq: 8, body_len: 10 }
    ));
    let empty = encode_frame(CmdType::Ping, 1, vec![]);
    assert!(matches!(command_step(&empty[..12]), CommandStep::Close));
    let mut unknown = f.clone();
    unknown[3] = 0x30;
    assert!(matches!(command_step(&unknown[..12]), CommandStep::Skip));
    let mut bad = f.clone();
    bad[1] = 9;
    assert!(matches!(command_step(&bad[..12]), CommandStep::Close));
}

#[test]
fn error_results_name_the_command() {
    let r = error_result(CmdType::HashGet, &Error::BadCommand(s("not a hash")));
    assert_eq!(r.cmd, 0x22);
    assert_eq!(r.msg, "Bad command: not a hash");
}

fn db_with(pairs: &[(&str, &str)]) -> StrMap<Entry> {
    let mut d = StrMap::new();
    for (k, v) in pairs {
        d.insert(s(k), Entry { value: Value::String(s(v)), expires_at: None });
    }
    d
}

fn string_at(dbs: &StrMap<StrMap<Entry>>, db: &str, key: &str) -> Option<(String, Option<u64>)> {
    let d = dbs.get(&s(db))?;
    let e = d.get(&s(key))?;
    match &e.value {
        Value::String(v) => Some((v.clone(), e.expires_at)),
        _ => None,
    }
}

#[test]
fn recover_replays_log_over_snapshot() {
    let mut snap: StrMap<StrMap<Entry>> = StrMap::new();
    snap.insert(s("d"), db_with(&[("a", "1"), ("b", "2")]));
    let wal = vec![
        WalEntry::Put { db: s("d"), key: s("c"), entry: Entry { value: Value::String(s("3")), expires_at: None } },
        WalEntry::Delete { db: s("d"), key: s("a") },
        WalEntry::Expire { db: s("d"), key: s("b"), expires_at: 99 },
        WalEntry::Delete { db: s("missing"), key: s("x") },
        WalEntry::Expire { db: s("d"), key: s("missing"), expires_at: 5 },
        WalEntry::Put { db: s("e"), key: s("k"), entry: Entry { value: Value::String(s("v")), expires_at: Some(7) } },
    ];
    let dbs = recover(Some(snap), wal);
    assert_eq!(string_at(&dbs, "d", "a"), None);
    assert_eq!(string_at(&dbs, "d", "b"), Some((s("2"), Some(99))));
    assert_eq!(string_at(&dbs, "d", "c"), Some((s("3"), None)));
    assert_eq!(string_at(&dbs, "e", "k"), Some((s("v"), Some(7))));
    assert!(dbs.get(&s("missing")).is_none());
    assert_eq!(dbs.get(&s("d")).unwrap().len(), 2);
    assert_eq!(dbs.keys(), vec![s("d"), s("e")]);
}

#[test]
fn recover_without_snapshot() {
    let dbs = recover(None, vec![]);
    assert_eq!(dbs.len(), 0);
    let dbs = recover(None, vec![WalEntry::Delete { db: s("d"), key: s("k") }]);
    assert_eq!(dbs.len(), 0);
}

#[test]
fn recovered_keyspaces_serve_requests() {
    let mut snap: StrMap<StrMap<Entry>> = StrMap::new();
    snap.insert(s("d"), db_with(&[("k", "v")]));
    let mut st = State::new(akv::config::Config::default());
    st.databases = recover(Some(snap), vec![]);
    let r = st
        .get_string(akv::command::string::GetString { db: s("d"), key: s("k") }, 0)
        .unwrap();
    assert_eq!(r.value, Some(s("v")));
}

#[test]
fn strmap_basics() {
    let mut m: StrMap<u32> = StrMap::new();
    assert_eq!(m.insert(s("x"), 1), None);
    assert_eq!(m.insert(s("y"), 2), None);
    assert_eq!(m.insert(s("x"), 3), Some(1));
    assert_eq!(m.keys(), vec![s("x"), s("y")]);
    assert_eq!(m.get(&s("x")), Some(&3));
    assert!(m.contains_key(&s("y")));
    assert_eq!(m.find(&s("y")), Some(1));
    assert_eq!(m.key_at(1), "y");
    assert_eq!(*m.value_at(0), 3);
    assert_eq!(m.remove(&s("x")), Some(3));
    assert_eq!(m.remove(&s("x")), None);
    assert_eq!(m.len(), 1);
    assert_eq!(m.remove_at(0), (s("y"), 2));
    assert_eq!(m.len(), 0);
}

#[test]
fn numbers_are_printed_in_decimal() {
    let mut out = s("n=");
    push_decimal(&mut out, 1234567890123);
    assert_eq!(out, "n=1234567890123");
    let mut zero = String::new();
    push_decimal(&mut zero, 0);
    assert_eq!(zero, "0");
}

#[test]
fn printed_ports_read_back() {
    // the address holds the port in decimal, and a port read from the
    // environment is that decimal number
    for port in [0u16, 9, 10, 6000, 65535] {
        let mut c = akv::cli::config::Config::default();
        let mut text = String::new();
        push_decimal(&mut text, port as u64);
        c.parse_env_var(None, Some(text.clone()), None);
        assert_eq!(c.port, port);
        assert_eq!(c.get_address(), format!("127.0.0.1:{}", text));
    }
}

#[test]
fn every_word_is_nonempty() {
    for line in ["", " a  b ", "\"\" x", "\\", "\"a b\" \"\" c"] {
        for w in parse_input(line) {
            assert!(!w.is_empty());
        }
    }
}

fn put(db: &str, key: &str, v: &str) -> WalEntry {
    WalEntry::Put { db: s(db), key: s(key), entry: Entry { value: Value::String(s(v)), expires_at: None } }
}

#[test]
fn replay_in_two_parts_matches_whole() {
    let first = vec![put("d", "a", "1"), put("d", "b", "2"), WalEntry::Delete { db: s("d"), key: s("a") }];
    let second = vec![put("d", "a", "3"), WalEntry::Expire { db: s("d"), key: s("b"), expires_at: 8 }];
    let mut whole = vec![put("d", "a", "1"), put("d", "b", "2"), WalEntry::Delete { db: s("d"), key: s("a") }];
    whole.push(put("d", "a", "3"));
    whole.push(WalEntry::Expire { db: s("d"), key: s("b"), expires_at: 8 });
    let snapshot = recover(None, first);
    let parts = recover(Some(snapshot), second);
    let all = recover(None, whole);
    for key in ["a", "b"] {
        assert_eq!(string_at(&parts, "d", key), string_at(&all, "d", key));
    }
    assert_eq!(string_at(&all, "d", "a"), Some((s("3"), None)));
    assert_eq!(string_at(&all, "d", "b"), Some((s("2"), Some(8))));
}

#[test]
fn session_runs_commands_only_after_the_secret() {
    let get = encode_frame(CmdType::GetString, 3, vec![1, 2]);
    let auth = encode_frame(CmdType::Authenticate, 4, vec![7; 5]);
    let mut sess = Session::new(s("top"));
    assert!(!sess.is_authenticated());
    assert!(matches!(sess.on_header(&get[..12]), Step::Refuse { seq: 3 }));
    assert!(matches!(sess.on_header(&auth[..12]), Step::ReadSecret { seq: 4, body_len: 5 }));
    let bad = sess.on_secret(&s("nope"));
    assert!(!bad.ok);
    assert_eq!(bad.msg, "secret error");
    assert!(!sess.is_authenticated());
    assert!(matches!(sess.on_header(&get[..12]), Step::Refuse { seq: 3 }));
    let ok = sess.on_secret(&s("top"));
    assert!(ok.ok);
    assert_eq!(ok.msg, "ok");
    assert!(sess.is_authenticated());
    assert!(matches!(
        sess.on_header(&get[..12]),
        Step::Run { cmd: CmdType::GetString, seq: 3, body_len: 2 }
    ));
    let mut unknown = get.clone();
    unknown[3] = 0x30;
    assert!(matches!(sess.on_header(&unknown[..12]), Step::Skip));
    let empty = encode_frame(CmdType::Ping, 9, vec![]);
    assert!(matches!(sess.on_header(&empty[..12]), Step::Close));
}

#[test]
fn session_closes_on_unknown_request_before_the_secret() {
    let mut unknown = encode_frame(CmdType::GetString, 3, vec![1]);
    unknown[3] = 0x30;
    let sess = Session::new(s("top"));
    assert!(matches!(sess.on_header(&unknown[..12]), Step::Close));
}

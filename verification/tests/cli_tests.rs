use akv::cli::commands::{
    del_request, exists_request, expire_request, format_count, format_flag, format_listing,
    format_value, get_request, handle_use, hdel_request, hexists_request, hfields_request,
    hget_request, hlen_request, hset_request, keys_request, parse_input, set_request, CliError,
};
use akv::cli::config::{parse_args, ArgsError, ArgsOutcome, Config};

fn s(x: &str) -> String {
    x.to_string()
}

fn words(xs: &[&str]) -> Vec<String> {
    xs.iter().map(|x| x.to_string()).collect()
}

#[test]
fn parse_input_splits_on_whitespace() {
    assert_eq!(parse_input("set  k   v"), words(&["set", "k", "v"]));
    assert_eq!(parse_input("  get\tk \n"), words(&["get", "k"]));
    assert_eq!(parse_input(""), Vec::<String>::new());
    assert_eq!(parse_input("   "), Vec::<String>::new());
}

#[test]
fn parse_input_quotes_and_escapes() {
    assert_eq!(parse_input("set k \"hello world\""), words(&["set", "k", "hello world"]));
    assert_eq!(parse_input("set k a\\ b"), words(&["set", "k", "a b"]));
    assert_eq!(parse_input("set k \\\"q\\\""), words(&["set", "k", "\"q\""]));
    assert_eq!(parse_input("a\"b c\"d"), words(&["ab cd"]));
    assert_eq!(parse_input("\"\""), Vec::<String>::new());
    assert_eq!(parse_input("x\u{3000}y"), words(&["x", "y"]));
    assert_eq!(parse_input("héllo wörld"), words(&["héllo", "wörld"]));
}

#[test]
fn handle_use_switches() {
    let mut db = s("default");
    let r = handle_use(&mut db, &words(&["use", "other"])).unwrap();
    assert_eq!(r, "Switched to database \"other\"");
    assert_eq!(db, "other");
    let e = handle_use(&mut db, &words(&["use"])).unwrap_err();
    assert_eq!(e, "Usage: USE <db>");
    assert_eq!(db, "other");
}

fn usage<T: std::fmt::Debug>(r: Result<T, CliError>) -> String {
    match r {
        Err(CliError::Usage(m)) => m,
        other => panic!("unexpected {:?}", other),
    }
}

#[test]
fn set_request_reads_words() {
    let db = s("d");
    let r = set_request(&db, &words(&["set", "k", "v"])).unwrap();
    assert_eq!((r.db, r.key, r.value, r.expire), (s("d"), s("k"), s("v"), None));
    let r = set_request(&db, &words(&["set", "k", "v", "+30"])).unwrap();
    assert_eq!(r.expire, Some(30));
    assert!(matches!(set_request(&db, &words(&["set", "k", "v", "x"])), Err(CliError::Number(_))));
    assert!(matches!(set_request(&db, &words(&["set", "k", "v", "-1"])), Err(CliError::Number(_))));
    assert_eq!(usage(set_request(&db, &words(&["set", "k"]))), "Usage: SET <key> <value> [expire]");
}

#[test]
fn simple_requests() {
    let db = s("d");
    assert_eq!(get_request(&db, &words(&["get", "k"])).unwrap().key, "k");
    assert_eq!(usage(get_request(&db, &words(&["get"]))), "Usage: GET <key>");
    assert_eq!(del_request(&db, &words(&["del", "k"])).unwrap().db, "d");
    assert_eq!(usage(del_request(&db, &words(&["del"]))), "Usage: DEL <key>");
    assert_eq!(exists_request(&db, &words(&["exists", "k"])).unwrap().key, "k");
    assert_eq!(usage(exists_request(&db, &words(&["exists"]))), "Usage: EXISTS <key>");
    assert_eq!(hlen_request(&db, &words(&["hlen", "h"])).unwrap().key, "h");
    assert_eq!(usage(hlen_request(&db, &words(&["hlen"]))), "Usage: HLEN <key>");
    assert_eq!(hfields_request(&db, &words(&["hfields", "h"])).unwrap().key, "h");
    assert_eq!(usage(hfields_request(&db, &words(&["hfields"]))), "Usage: HFIELDS <key>");
    let g = hget_request(&db, &words(&["hget", "h", "f"])).unwrap();
    assert_eq!((g.key, g.field), (s("h"), s("f")));
    assert_eq!(usage(hget_request(&db, &words(&["hget", "h"]))), "Usage: HGET <key> <field>");
    assert_eq!(hdel_request(&db, &words(&["hdel", "h", "f"])).unwrap().field, "f");
    assert_eq!(usage(hdel_request(&db, &words(&["hdel", "h"]))), "Usage: HDEL <key> <field>");
    assert_eq!(hexists_request(&db, &words(&["hexists", "h", "f"])).unwrap().field, "f");
    assert_eq!(
        usage(hexists_request(&db, &words(&["hexists", "h"]))),
        "Usage: HEXISTS <key> <field>"
    );
}

#[test]
fn expire_request_parses_seconds() {
    let db = s("d");
    assert_eq!(expire_request(&db, &words(&["expire", "k", "12"])).unwrap().expire, 12);
    assert!(matches!(
        expire_request(&db, &words(&["expire", "k", "18446744073709551616"])),
        Err(CliError::Number(_))
    ));
    assert_eq!(
        expire_request(&db, &words(&["expire", "k", "18446744073709551615"])).unwrap().expire,
        u64::MAX
    );
    assert_eq!(usage(expire_request(&db, &words(&["expire", "k"]))), "Usage: EXPIRE <key> <seconds>");
}

#[test]
fn hset_request_reads_words() {
    let db = s("d");
    let r = hset_request(&db, &words(&["hset", "h", "f", "v", "9"])).unwrap();
    assert_eq!((r.key, r.field, r.value, r.expire), (s("h"), s("f"), s("v"), Some(9)));
    assert_eq!(hset_request(&db, &words(&["hset", "h", "f", "v"])).unwrap().expire, None);
    assert!(matches!(hset_request(&db, &words(&["hset", "h", "f", "v", ""])), Err(CliError::Number(_))));
    assert_eq!(
        usage(hset_request(&db, &words(&["hset", "h", "f"]))),
        "Usage: HSET <key> <field> <value> [expire]"
    );
}

#[test]
fn keys_request_defaults() {
    let db = s("d");
    let k = keys_request(&db, &words(&["keys"]));
    assert_eq!((k.page, k.size), (1, 100));
    let k = keys_request(&db, &words(&["keys", "3", "7"]));
    assert_eq!((k.page, k.size), (3, 7));
    let k = keys_request(&db, &words(&["keys", "x", "y"]));
    assert_eq!((k.page, k.size), (1, 100));
}

#[test]
fn formatting() {
    assert_eq!(format_value(Some(s("v"))), "\"v\"");
    assert_eq!(format_value(None), "(nil)");
    assert_eq!(format_flag(true), "1");
    assert_eq!(format_flag(false), "0");
    assert_eq!(format_count(0), "0");
    assert_eq!(format_count(4294967295), "4294967295");
    assert_eq!(format_listing(&words(&["a", "b"]), 2), "Total: 2\n  a\n  b\n");
    assert_eq!(format_listing(&vec![], 10), "Total: 10\n");
}

fn run(r: Result<ArgsOutcome, ArgsError>) -> (Config, Option<String>) {
    match r {
        Ok(ArgsOutcome::Run { config, config_file }) => (config, config_file),
        other => panic!("unexpected {:?}", other),
    }
}

#[test]
fn parse_args_defaults_and_options() {
    let (c, f) = run(parse_args(&words(&["akvc"])));
    assert_eq!((c.host.as_str(), c.port, c.secret.as_str()), ("127.0.0.1", 6000, ""));
    assert_eq!(f, Some(s("./config.toml")));
    let (c, f) = run(parse_args(&words(&[
        "akvc", "-h", "example", "--port", "7001", "-s", "sec", "--config", "c.toml", "stray",
    ])));
    assert_eq!((c.host.as_str(), c.port, c.secret.as_str()), ("example", 7001, "sec"));
    assert_eq!(f, Some(s("c.toml")));
}

#[test]
fn parse_args_errors_and_help() {
    match parse_args(&words(&["akvc", "-c"])) {
        Err(ArgsError::Missing(m)) => assert_eq!(m, "Missing config file path after -c/--config"),
        other => panic!("unexpected {:?}", other),
    }
    match parse_args(&words(&["akvc", "--host"])) {
        Err(ArgsError::Missing(m)) => assert_eq!(m, "Missing host after -h/--host"),
        other => panic!("unexpected {:?}", other),
    }
    match parse_args(&words(&["akvc", "-p"])) {
        Err(ArgsError::Missing(m)) => assert_eq!(m, "Missing port after -p/--port"),
        other => panic!("unexpected {:?}", other),
    }
    match parse_args(&words(&["akvc", "-s"])) {
        Err(ArgsError::Missing(m)) => assert_eq!(m, "Missing secret after -s/--secret"),
        other => panic!("unexpected {:?}", other),
    }
    match parse_args(&words(&["akvc", "-p", "70000"])) {
        Err(ArgsError::Port(e)) => assert_eq!(e.to_string(), "number too large to fit in target type"),
        other => panic!("unexpected {:?}", other),
    }
    assert!(matches!(parse_args(&words(&["akvc", "-h", "x", "--help", "-p"])), Ok(ArgsOutcome::Help)));
    // an error before --help wins
    assert!(matches!(parse_args(&words(&["akvc", "-p", "x", "--help"])), Err(ArgsError::Port(_))));
}

#[test]
fn client_config_merge_env_and_address() {
    let mut c = Config::default();
    c.port = 7000;
    c.merge_file(Config { host: s("file-host"), port: 1, secret: s("file-secret") });
    assert_eq!((c.host.as_str(), c.port, c.secret.as_str()), ("file-host", 7000, "file-secret"));
    c.parse_env_var(Some(s("env-host")), Some(s("8080")), None);
    assert_eq!((c.host.as_str(), c.port, c.secret.as_str()), ("env-host", 8080, "file-secret"));
    c.parse_env_var(None, None, Some(s("env-secret")));
    assert_eq!(c.secret, "env-secret");
    assert_eq!(c.get_address(), "env-host:8080");
}

#[test]
fn server_config_defaults_env_and_address() {
    let mut c = akv::config::Config::default();
    assert_eq!((c.host.as_str(), c.port, c.secret.as_str()), ("127.0.0.1", 60002, ""));
    assert_eq!(c.get_address(), "127.0.0.1:60002");
    c.parse_env_var(Some(s("127.0.0.1")), Some(s("+9")), );
    assert_eq!(c.get_address(), "127.0.0.1:9");
    assert_eq!(akv::config::default_host(), "127.0.0.1");
    assert_eq!(akv::config::default_port(), 60002);
    assert_eq!(akv::config::default_string(), "");
}

#[test]
fn plain_input_matches_split_whitespace() {
    for line in ["", "a", "  set k  v ", "x\u{2003}y\u{3000}z", "get\tkey\nvalue", "héllo wörld !"] {
        let expected: Vec<String> = line.split_whitespace().map(String::from).collect();
        assert_eq!(parse_input(line), expected);
    }
}

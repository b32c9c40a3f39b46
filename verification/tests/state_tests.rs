use akv::command::hash::{HashDel, HashExists, HashFields, HashGet, HashLen, HashSet};
use akv::command::string::{DelString, GetString, SetString};
use akv::command::{Exists, Expire, Keys};
use akv::config::Config;
use akv::error::Error;
use akv::state::State;
use akv::value::Value;

fn s(x: &str) -> String {
    x.to_string()
}

fn fresh() -> State {
    State::new(Config::default())
}

fn set(st: &mut State, db: &str, key: &str, value: &str, expire: Option<u64>, now: u64) {
    let r = st
        .set_string(SetString { db: s(db), key: s(key), value: s(value), expire }, now)
        .unwrap();
    assert!(r.ok);
    assert_eq!(r.msg, "ok");
}

fn get(st: &mut State, db: &str, key: &str, now: u64) -> (Option<String>, Option<u64>) {
    let r = st.get_string(GetString { db: s(db), key: s(key) }, now).unwrap();
    (r.value, r.expire)
}

fn hset(st: &mut State, key: &str, field: &str, value: &str, expire: Option<u64>, now: u64) {
    let r = st
        .hash_set(
            HashSet { db: s("d"), key: s(key), field: s(field), value: s(value), expire },
            now,
        )
        .unwrap();
    assert!(r.ok);
    assert_eq!(r.msg, "ok");
}

fn bad_command(e: Error) -> String {
    match e {
        Error::BadCommand(m) => m,
        Error::Operation(m) => panic!("unexpected operation error {}", m),
    }
}

#[test]
fn get_after_set_returns_value() {
    let mut st = fresh();
    set(&mut st, "d", "k", "v", None, 100);
    assert_eq!(get(&mut st, "d", "k", 100), (Some(s("v")), None));
    assert_eq!(get(&mut st, "d", "k", 5000), (Some(s("v")), None));
}

#[test]
fn get_missing_key_and_fresh_keyspace() {
    let mut st = fresh();
    assert_eq!(get(&mut st, "other", "k", 1), (None, None));
    // the keyspace now exists, with no keys
    let r = st.dbs();
    assert_eq!(r.dbs.len(), 1);
    assert_eq!(r.dbs[0].name, "other");
    assert_eq!(r.dbs[0].count, 0);
}

#[test]
fn ttl_counts_down_and_expiry_drops_the_key() {
    let mut st = fresh();
    set(&mut st, "d", "k", "v", Some(10), 100);
    assert_eq!(get(&mut st, "d", "k", 100), (Some(s("v")), Some(10)));
    assert_eq!(get(&mut st, "d", "k", 107), (Some(s("v")), Some(3)));
    assert_eq!(get(&mut st, "d", "k", 110), (None, None));
    // the expired key was dropped: it is no longer listed
    let keys = st.keys(Keys { db: s("d"), page: 1, size: 10 }).unwrap();
    assert_eq!(keys.total, 0);
    assert!(keys.keys.is_empty());
}

#[test]
fn set_replaces_value_and_expiry() {
    let mut st = fresh();
    set(&mut st, "d", "k", "a", Some(5), 10);
    set(&mut st, "d", "k", "b", None, 11);
    assert_eq!(get(&mut st, "d", "k", 1000), (Some(s("b")), None));
}

#[test]
fn keyspaces_are_separate() {
    let mut st = fresh();
    set(&mut st, "one", "k", "1", None, 0);
    set(&mut st, "two", "k", "2", None, 0);
    assert_eq!(get(&mut st, "one", "k", 0).0, Some(s("1")));
    assert_eq!(get(&mut st, "two", "k", 0).0, Some(s("2")));
}

#[test]
fn get_of_hash_is_refused() {
    let mut st = fresh();
    hset(&mut st, "h", "f", "v", None, 0);
    let e = st.get_string(GetString { db: s("d"), key: s("h") }, 0).unwrap_err();
    assert_eq!(bad_command(e), "not a string");
}

#[test]
fn del_string_answers_and_removes() {
    let mut st = fresh();
    set(&mut st, "d", "k", "v", Some(20), 0);
    let r = st.del_string(DelString { db: s("d"), key: s("k") }, 5).unwrap();
    assert_eq!(r.value, Some(s("v")));
    assert_eq!(r.expire, Some(15));
    assert_eq!(get(&mut st, "d", "k", 5), (None, None));
    let r2 = st.del_string(DelString { db: s("d"), key: s("k") }, 5).unwrap();
    assert_eq!((r2.value, r2.expire), (None, None));
}

#[test]
fn del_string_of_expired_answers_nothing() {
    let mut st = fresh();
    set(&mut st, "d", "k", "v", Some(1), 0);
    let r = st.del_string(DelString { db: s("d"), key: s("k") }, 1).unwrap();
    assert_eq!((r.value, r.expire), (None, None));
}

#[test]
fn del_string_of_hash_removes_it_and_fails() {
    let mut st = fresh();
    hset(&mut st, "h", "f", "v", None, 0);
    match st.del_string(DelString { db: s("d"), key: s("h") }, 0) {
        Err(Error::Operation(m)) => assert_eq!(m, "not a string"),
        other => panic!("unexpected {:?}", other),
    }
    // the hash is gone all the same
    let r = st.hash_len(HashLen { db: s("d"), key: s("h") }, 0).unwrap();
    assert_eq!(r.len, 0);
}

#[test]
fn exists_for_live_keys_of_any_kind() {
    let mut st = fresh();
    set(&mut st, "d", "k", "v", Some(3), 0);
    hset(&mut st, "h", "f", "v", None, 0);
    let ex = |st: &mut State, key: &str, now: u64| {
        st.exists_key(Exists { db: s("d"), key: s(key) }, now).unwrap().exists
    };
    assert!(ex(&mut st, "k", 2));
    assert!(ex(&mut st, "h", 2));
    assert!(!ex(&mut st, "nope", 2));
    assert!(!ex(&mut st, "k", 3));
    assert_eq!(get(&mut st, "d", "k", 0), (None, None));
}

#[test]
fn expire_sets_clears_and_refuses() {
    let mut st = fresh();
    set(&mut st, "d", "k", "v", None, 0);
    let r = st.expire(Expire { db: s("d"), key: s("k"), expire: 30 }, 100).unwrap();
    assert!(r.ok);
    assert_eq!(get(&mut st, "d", "k", 110), (Some(s("v")), Some(20)));
    let r = st.expire(Expire { db: s("d"), key: s("k"), expire: 0 }, 110).unwrap();
    assert!(r.ok);
    assert_eq!(get(&mut st, "d", "k", 9999), (Some(s("v")), None));
    let e = st.expire(Expire { db: s("d"), key: s("missing"), expire: 5 }, 0).unwrap_err();
    assert_eq!(bad_command(e), "key not found");
}

#[test]
fn expire_of_expired_key_drops_it() {
    let mut st = fresh();
    set(&mut st, "d", "k", "v", Some(5), 0);
    let r = st.expire(Expire { db: s("d"), key: s("k"), expire: 100 }, 5).unwrap();
    assert!(!r.ok);
    let e = st.expire(Expire { db: s("d"), key: s("k"), expire: 100 }, 5).unwrap_err();
    assert_eq!(bad_command(e), "key not found");
}

#[test]
fn keys_pages_in_insertion_order() {
    let mut st = fresh();
    for k in ["a", "b", "c", "d", "e"] {
        set(&mut st, "d", k, "v", None, 0);
    }
    let p1 = st.keys(Keys { db: s("d"), page: 1, size: 2 }).unwrap();
    assert_eq!(p1.keys, vec![s("a"), s("b")]);
    assert_eq!(p1.total, 5);
    let p3 = st.keys(Keys { db: s("d"), page: 3, size: 2 }).unwrap();
    assert_eq!(p3.keys, vec![s("e")]);
    let p4 = st.keys(Keys { db: s("d"), page: 4, size: 2 }).unwrap();
    assert!(p4.keys.is_empty());
    let all = st.keys(Keys { db: s("d"), page: 1, size: 100 }).unwrap();
    assert_eq!(all.keys, vec![s("a"), s("b"), s("c"), s("d"), s("e")]);
}

#[test]
fn keys_lists_expired_entries_until_dropped() {
    let mut st = fresh();
    set(&mut st, "d", "old", "v", Some(1), 0);
    set(&mut st, "d", "new", "v", None, 0);
    let r = st.keys(Keys { db: s("d"), page: 1, size: 10 }).unwrap();
    assert_eq!(r.keys, vec![s("old"), s("new")]);
    st.purge_expired(50);
    let r = st.keys(Keys { db: s("d"), page: 1, size: 10 }).unwrap();
    assert_eq!(r.keys, vec![s("new")]);
    assert_eq!(r.total, 1);
}

#[test]
fn purge_drops_expired_in_every_keyspace() {
    let mut st = fresh();
    set(&mut st, "x", "a", "1", Some(10), 0);
    set(&mut st, "x", "b", "2", Some(30), 0);
    set(&mut st, "y", "c", "3", Some(5), 0);
    hset(&mut st, "h", "f", "v", Some(10), 0);
    st.purge_expired(10);
    assert!(st.entry(&s("x"), &s("a")).is_none());
    assert!(st.entry(&s("x"), &s("b")).is_some());
    assert!(st.entry(&s("y"), &s("c")).is_none());
    assert!(st.entry(&s("d"), &s("h")).is_none());
    let r = st.dbs();
    let counts: Vec<(String, u32)> = r.dbs.into_iter().map(|d| (d.name, d.count)).collect();
    assert_eq!(counts, vec![(s("x"), 1), (s("y"), 0), (s("d"), 0)]);
}

#[test]
fn hash_get_after_set() {
    let mut st = fresh();
    hset(&mut st, "h", "f", "v", None, 0);
    hset(&mut st, "h", "g", "w", Some(10), 0);
    let r = st.hash_get(HashGet { db: s("d"), key: s("h"), field: s("f") }, 4).unwrap();
    assert_eq!((r.value, r.expire), (Some(s("v")), Some(6)));
    let r = st.hash_get(HashGet { db: s("d"), key: s("h"), field: s("zz") }, 4).unwrap();
    assert_eq!((r.value, r.expire), (None, Some(6)));
    let r = st.hash_get(HashGet { db: s("d"), key: s("nope"), field: s("f") }, 4).unwrap();
    assert_eq!((r.value, r.expire), (None, None));
}

#[test]
fn hash_set_keeps_expiry_unless_given() {
    let mut st = fresh();
    hset(&mut st, "h", "f", "v", Some(10), 0);
    hset(&mut st, "h", "g", "w", None, 3);
    let e = st.entry(&s("d"), &s("h")).unwrap();
    assert_eq!(e.expires_at, Some(10));
    match &e.value {
        Value::Hash(h) => assert_eq!(h.keys(), vec![s("f"), s("g")]),
        _ => panic!("not a hash"),
    }
}

#[test]
fn hash_set_on_string_is_refused() {
    let mut st = fresh();
    set(&mut st, "d", "k", "v", None, 0);
    let e = st
        .hash_set(
            HashSet { db: s("d"), key: s("k"), field: s("f"), value: s("v"), expire: None },
            0,
        )
        .unwrap_err();
    assert_eq!(bad_command(e), "not a hash");
    assert_eq!(get(&mut st, "d", "k", 0).0, Some(s("v")));
}

#[test]
fn hash_exists_len_fields() {
    let mut st = fresh();
    hset(&mut st, "h", "b", "1", None, 0);
    hset(&mut st, "h", "a", "2", None, 0);
    hset(&mut st, "h", "b", "3", None, 0);
    let ex = st.hash_exists(HashExists { db: s("d"), key: s("h"), field: s("a") }, 0).unwrap();
    assert!(ex.exists);
    let ex = st.hash_exists(HashExists { db: s("d"), key: s("h"), field: s("c") }, 0).unwrap();
    assert!(!ex.exists);
    let len = st.hash_len(HashLen { db: s("d"), key: s("h") }, 0).unwrap();
    assert_eq!(len.len, 2);
    let fields = st.hash_fields(HashFields { db: s("d"), key: s("h") }, 0).unwrap();
    assert_eq!(fields.fields, vec![s("b"), s("a")]);
    assert_eq!(fields.total, 2);
    let none = st.hash_fields(HashFields { db: s("d"), key: s("zz") }, 0).unwrap();
    assert!(none.fields.is_empty());
    assert_eq!(none.total, 0);
}

#[test]
fn hash_reads_of_expired_hash_drop_it() {
    let mut st = fresh();
    hset(&mut st, "h", "f", "v", Some(2), 0);
    let r = st.hash_len(HashLen { db: s("d"), key: s("h") }, 2).unwrap();
    assert_eq!(r.len, 0);
    assert!(st.entry(&s("d"), &s("h")).is_none());
}

#[test]
fn hash_reads_of_string_are_refused() {
    let mut st = fresh();
    set(&mut st, "d", "k", "v", None, 0);
    let e = st.hash_fields(HashFields { db: s("d"), key: s("k") }, 0).unwrap_err();
    assert_eq!(bad_command(e), "not a hash");
    let e = st.hash_exists(HashExists { db: s("d"), key: s("k"), field: s("f") }, 0).unwrap_err();
    assert_eq!(bad_command(e), "not a hash");
    let e = st.hash_get(HashGet { db: s("d"), key: s("k"), field: s("f") }, 0).unwrap_err();
    assert_eq!(bad_command(e), "not a hash");
    let e = st.hash_len(HashLen { db: s("d"), key: s("k") }, 0).unwrap_err();
    assert_eq!(bad_command(e), "not a hash");
}

#[test]
fn hash_del_answers_stored_expiry() {
    let mut st = fresh();
    hset(&mut st, "h", "f", "v", Some(10), 100);
    hset(&mut st, "h", "g", "w", None, 100);
    let r = st.hash_del(HashDel { db: s("d"), key: s("h"), field: s("f") }, 105).unwrap();
    assert_eq!((r.value, r.expire), (Some(s("v")), Some(110)));
    let r = st.hash_get(HashGet { db: s("d"), key: s("h"), field: s("f") }, 105).unwrap();
    assert_eq!(r.value, None);
    let r = st.hash_get(HashGet { db: s("d"), key: s("h"), field: s("g") }, 105).unwrap();
    assert_eq!(r.value, Some(s("w")));
}

#[test]
fn hash_del_errors() {
    let mut st = fresh();
    let e = st.hash_del(HashDel { db: s("d"), key: s("h"), field: s("f") }, 0).unwrap_err();
    assert_eq!(bad_command(e), "key not found");
    set(&mut st, "d", "k", "v", None, 0);
    let e = st.hash_del(HashDel { db: s("d"), key: s("k"), field: s("f") }, 0).unwrap_err();
    assert_eq!(bad_command(e), "not a hash");
}

#[test]
fn hash_del_without_expiry() {
    let mut st = fresh();
    hset(&mut st, "h", "f", "v", None, 0);
    let r = st.hash_del(HashDel { db: s("d"), key: s("h"), field: s("f") }, 0).unwrap();
    assert_eq!((r.value, r.expire), (Some(s("v")), None));
    let r = st.hash_del(HashDel { db: s("d"), key: s("h"), field: s("f") }, 0).unwrap();
    assert_eq!((r.value, r.expire), (None, None));
}

#[test]
fn error_messages() {
    assert_eq!(Error::BadCommand(s("x")).to_string(), "Bad command: x");
    assert_eq!(Error::Operation(s("y")).to_string(), "Operation error: y");
}

#[test]
fn entry_is_expired_at_deadline() {
    let mut st = fresh();
    set(&mut st, "d", "k", "v", Some(5), 10);
    let e = st.entry(&s("d"), &s("k")).unwrap();
    assert!(!e.is_expired(14));
    assert!(e.is_expired(15));
    assert!(e.is_expired(16));
}

#[test]
fn purge_twice_equals_purge_once() {
    let mut st = fresh();
    set(&mut st, "d", "a", "1", Some(3), 0);
    set(&mut st, "d", "b", "2", None, 0);
    st.purge_expired(5);
    let once = st.keys(Keys { db: s("d"), page: 1, size: 10 }).unwrap().keys;
    st.purge_expired(5);
    let twice = st.keys(Keys { db: s("d"), page: 1, size: 10 }).unwrap().keys;
    assert_eq!(once, vec![s("b")]);
    assert_eq!(once, twice);
}

#[test]
fn consecutive_pages_make_a_larger_page() {
    let mut st = fresh();
    for k in ["k1", "k2", "k3", "k4", "k5", "k6", "k7"] {
        set(&mut st, "d", k, "v", None, 0);
    }
    let mut joined = st.keys(Keys { db: s("d"), page: 2, size: 2 }).unwrap().keys;
    joined.extend(st.keys(Keys { db: s("d"), page: 3, size: 2 }).unwrap().keys);
    let big = st.keys(Keys { db: s("d"), page: 2, size: 2 }).unwrap().keys.len()
        + st.keys(Keys { db: s("d"), page: 3, size: 2 }).unwrap().keys.len();
    assert_eq!(big, 4);
    assert_eq!(joined, vec![s("k3"), s("k4"), s("k5"), s("k6")]);
    let all = st.keys(Keys { db: s("d"), page: 1, size: 7 }).unwrap().keys;
    assert_eq!(&all[2..6], &joined[..]);
}

#[test]
fn hash_set_leaves_other_fields_and_keys() {
    let mut st = fresh();
    hset(&mut st, "h", "f", "1", None, 0);
    hset(&mut st, "h", "g", "2", None, 0);
    set(&mut st, "d", "k", "v", None, 0);
    hset(&mut st, "h", "f", "3", None, 0);
    let r = st.hash_get(HashGet { db: s("d"), key: s("h"), field: s("g") }, 0).unwrap();
    assert_eq!(r.value, Some(s("2")));
    let r = st.hash_get(HashGet { db: s("d"), key: s("h"), field: s("f") }, 0).unwrap();
    assert_eq!(r.value, Some(s("3")));
    assert_eq!(get(&mut st, "d", "k", 0).0, Some(s("v")));
}

#[test]
fn hash_get_after_set_with_expiry() {
    let mut st = fresh();
    hset(&mut st, "h", "f", "v", Some(4), 10);
    let r = st.hash_get(HashGet { db: s("d"), key: s("h"), field: s("f") }, 13).unwrap();
    assert_eq!((r.value, r.expire), (Some(s("v")), Some(1)));
    let r = st.hash_get(HashGet { db: s("d"), key: s("h"), field: s("f") }, 14).unwrap();
    assert_eq!((r.value, r.expire), (None, None));
}

#[test]
fn paging_lists_every_key_once() {
    let mut st = fresh();
    let names: Vec<String> = (0..11).map(|i| format!("key{}", i)).collect();
    for n in &names {
        set(&mut st, "d", n, "v", None, 0);
    }
    for size in 1..=12usize {
        let pages = (names.len() + size - 1) / size;
        let mut all: Vec<String> = Vec::new();
        for page in 1..=pages {
            all.extend(st.keys(Keys { db: s("d"), page, size }).unwrap().keys);
        }
        assert_eq!(all, names);
    }
}

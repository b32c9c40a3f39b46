//! The store: named keyspaces of entries, and the commands that read and
//! change them.
//!
//! Every command names a keyspace; a keyspace that does not exist yet is
//! created, empty, by the first command that names it. Times are Unix times in
//! seconds; the caller passes the current time as `now`.
use vstd::prelude::*;

use crate::command::hash::{
    HashDel, HashExists, HashFields, HashGet, HashLen, HashSet, ResultHashDel, ResultHashExists,
    ResultHashFields, ResultHashGet, ResultHashLen, ResultHashSet,
};
use crate::command::string::{
    DelString, GetString, ResultDelString, ResultGetString, ResultSetString, SetString,
};
use crate::command::{DbInfo, Exists, Expire, Keys, ResultDbs, ResultExists, ResultExpire, ResultKeys};
use crate::config::Config;
use crate::error::Error;
use crate::frame::{length_field, length_of};
use crate::strmap::{insert_order, remove_order, StrMap};
use crate::value::{Entry, Value};

verus! {

/// A keyspace: keys and their entries.
pub type Database = StrMap<Entry>;

/// The seconds left until `expires_at`, 0 once it has passed.
pub open spec fn ttl(expires_at: Option<u64>, now: u64) -> Option<u64> {
    match expires_at {
        Some(t) => Some(if t > now { (t - now) as u64 } else { 0 }),
        None => None,
    }
}

/// The expiry time of a value that is to live `expire` seconds from `now`.
pub open spec fn deadline(expire: Option<u64>, now: u64) -> Option<u64> {
    match expire {
        Some(t) => Some((now + t) as u64),
        None => None,
    }
}

/// `now` plus `expire` fits in 64 bits.
pub open spec fn deadline_fits(expire: Option<u64>, now: u64) -> bool {
    match expire {
        Some(t) => now + t <= u64::MAX,
        None => true,
    }
}

/// Key `key` of `d` holds an entry that has expired at `now`.
pub open spec fn expired_in(d: Map<Seq<char>, Entry>, key: Seq<char>, now: u64) -> bool {
    d.contains_key(key) && d[key].spec_is_expired(now)
}

/// `r` is the error `BadCommand(msg)`.
pub open spec fn is_bad_command<T>(r: Result<T, Error>, msg: Seq<char>) -> bool {
    r matches Err(Error::BadCommand(m)) && m@ == msg
}

/// `r` is the error `Operation(msg)`.
pub open spec fn is_operation_error<T>(r: Result<T, Error>, msg: Seq<char>) -> bool {
    r matches Err(Error::Operation(m)) && m@ == msg
}

fn ttl_of(expires_at: Option<u64>, now: u64) -> (r: Option<u64>)
    ensures
        r == ttl(expires_at, now),
{
    match expires_at {
        Some(t) => Some(
            if t > now {
                t - now
            } else {
                0
            },
        ),
        None => None,
    }
}

fn deadline_of(expire: Option<u64>, now: u64) -> (r: Option<u64>)
    requires
        deadline_fits(expire, now),
    ensures
        r == deadline(expire, now),
{
    match expire {
        Some(t) => Some(now + t),
        None => None,
    }
}

fn bad_command(msg: &str) -> (e: Error)
    ensures
        e matches Error::BadCommand(m) && m@ == msg@,
{
    Error::BadCommand(String::from_str(msg))
}

/// An entry that stands in a slot while the entry it replaces is worked on:
/// the empty string, never expiring.
fn placeholder() -> (e: Entry)
    ensures
        e.value matches Value::String(s) && s@ == Seq::<char>::empty(),
        e.expires_at is None,
{
    Entry { value: Value::String(String::new()), expires_at: None }
}

/// The configuration and the keyspaces, by name.
pub struct State {
    pub config: Config,
    pub databases: StrMap<Database>,
}

impl State {
    /// The entries of keyspace `name`; a keyspace that does not exist is empty.
    pub open spec fn db(&self, name: Seq<char>) -> Map<Seq<char>, Entry> {
        if self.databases@.contains_key(name) {
            self.databases@[name]@
        } else {
            Map::empty()
        }
    }

    /// The keys of keyspace `name` in enumeration order; none if it does not
    /// exist.
    pub open spec fn key_order(&self, name: Seq<char>) -> Seq<Seq<char>> {
        if self.databases@.contains_key(name) {
            self.databases@[name].key_seq()
        } else {
            Seq::empty()
        }
    }

    /// `self` is `old` with keyspace `name` present, and no other keyspace
    /// and not the configuration changed.
    pub open spec fn same_elsewhere(&self, old: &State, name: Seq<char>) -> bool {
        &&& self.config == old.config
        &&& self.databases@.contains_key(name)
        &&& self.databases@.remove(name) == old.databases@.remove(name)
    }

    /// `self` is `old` with keyspace `name` present and holding `m`, and
    /// nothing else changed.
    pub open spec fn is_update_of(&self, old: &State, name: Seq<char>, m: Map<Seq<char>, Entry>) -> bool {
        &&& self.same_elsewhere(old, name)
        &&& self.db(name) == m
    }

    /// `self` is `old` with keyspace `name` present; an existing keyspace is
    /// left exactly as it was, key order included.
    pub open spec fn is_touch_of(&self, old: &State, name: Seq<char>) -> bool {
        &&& self.is_update_of(old, name, old.db(name))
        &&& self.key_order(name) == old.key_order(name)
        &&& old.databases@.contains_key(name) ==> self.databases@[name] == old.databases@[name]
    }

    /// Keyspace `name` of `self` holds the entries of keyspace `name` of
    /// `old` that have not expired at `now`, in the same order.
    pub open spec fn is_purge_of(&self, old: &State, name: Seq<char>, now: u64) -> bool {
        &&& self.db(name) == live(old.db(name), now)
        &&& self.key_order(name) == live_order(old.key_order(name), old.db(name), now)
    }

    /// A state with the given configuration and no keyspaces.
    pub fn new(config: Config) -> (s: Self)
        ensures
            s.config == config,
            s.databases@ == Map::<Seq<char>, Database>::empty(),
    {
        State { config, databases: StrMap::new() }
    }

    /// Takes keyspace `name` out, leaving an empty keyspace in its place.
    fn open_db(&mut self, name: &String) -> (d: Database)
        ensures
            d@ == old(self).db(name@),
            d.key_seq() == old(self).key_order(name@),
            old(self).databases@.contains_key(name@) ==> d == old(self).databases@[name@],
            final(self).config == old(self).config,
            final(self).databases@.contains_key(name@),
            final(self).databases@.remove(name@) == old(self).databases@.remove(name@),
            old(self).databases@.contains_key(name@) ==> final(self).databases.key_seq()
                == old(self).databases.key_seq(),
    {
        proof {
            self.databases.lemma_contains(name@);
        }
        let r = self.databases.insert(name.clone(), StrMap::new());
        proof {
            assert(self.databases@.remove(name@) =~= old(self).databases@.remove(name@));
        }
        match r {
            Some(d) => d,
            None => StrMap::new(),
        }
    }

    /// Puts keyspace `name` back.
    fn close_db(&mut self, name: &String, d: Database)
        requires
            old(self).databases@.contains_key(name@),
        ensures
            final(self).config == old(self).config,
            final(self).databases@ == old(self).databases@.insert(name@, d),
            final(self).databases.key_seq() == old(self).databases.key_seq(),
    {
        proof {
            self.databases.lemma_contains(name@);
        }
        self.databases.insert(name.clone(), d);
    }

    /// Keyspace `name`, created empty if it does not exist. The key order of an
    /// existing keyspace is kept.
    fn get_db(&mut self, name: &String)
        ensures
            final(self).is_touch_of(old(self), name@),
    {
        let d = self.open_db(name);
        self.close_db(name, d);
        proof {
            assert(self.databases@.remove(name@) =~= old(self).databases@.remove(name@));
        }
    }

    /// Stores `req.value` as a string under `req.key`, replacing what was
    /// there; it expires `req.expire` seconds from `now`, or never.
    pub fn set_string(&mut self, req: SetString, now: u64) -> (r: Result<ResultSetString, Error>)
        requires
            deadline_fits(req.expire, now),
        ensures
            r matches Ok(res) && res.ok && res.msg@ == "ok"@,
            final(self).is_update_of(
                old(self),
                req.db@,
                old(self).db(req.db@).insert(
                    req.key@,
                    Entry { value: Value::String(req.value), expires_at: deadline(req.expire, now) },
                ),
            ),
            final(self).key_order(req.db@) == insert_order(old(self).key_order(req.db@), req.key@),
    {
        let mut d = self.open_db(&req.db);
        let expires_at = deadline_of(req.expire, now);
        let ghost v = req.value;
        d.insert(req.key.clone(), Entry { value: Value::String(req.value), expires_at });
        self.close_db(&req.db, d);
        proof {
            assert(self.databases@.remove(req.db@) =~= old(self).databases@.remove(req.db@));
        }
        Ok(ResultSetString::new(true, String::from_str("ok")))
    }

    /// `self` is `old` after a read of key `key` of keyspace `name` that drops
    /// the key when `drop` holds; a keyspace left as it was keeps its key
    /// order.
    pub open spec fn is_read_of(&self, old: &State, name: Seq<char>, key: Seq<char>, drop: bool) -> bool {
        if drop {
            &&& self.is_update_of(old, name, old.db(name).remove(key))
            &&& self.key_order(name) == remove_order(old.key_order(name), key)
        } else {
            self.is_touch_of(old, name)
        }
    }

    /// The entry under `key` in keyspace `name`, if there is one.
    pub fn entry(&self, name: &String, key: &String) -> (r: Option<&Entry>)
        ensures
            match r {
                Some(e) => self.db(name@).contains_key(key@) && *e == self.db(name@)[key@],
                None => !self.db(name@).contains_key(key@),
            },
    {
        match self.databases.get(name) {
            Some(d) => d.get(key),
            None => None,
        }
    }

    /// Reads the string under `req.key`. A string that has expired is dropped
    /// and reads as absent.
    pub fn get_string(&mut self, req: GetString, now: u64) -> (r: Result<ResultGetString, Error>)
        ensures
            get_string_answer(old(self).db(req.db@), req.key@, now, r),
            final(self).is_read_of(
                old(self),
                req.db@,
                req.key@,
                drops_expired_string(old(self).db(req.db@), req.key@, now),
            ),
    {
        let mut d = self.open_db(&req.db);
        let r = get_string_in(&mut d, &req.key, now);
        self.close_db(&req.db, d);
        proof {
            assert(self.databases@.remove(req.db@) =~= old(self).databases@.remove(req.db@));
        }
        r
    }
}

/// What reading key `key` of `d` as a string at `now` answers.
pub open spec fn get_string_answer(
    d: Map<Seq<char>, Entry>,
    key: Seq<char>,
    now: u64,
    r: Result<ResultGetString, Error>,
) -> bool {
    if !d.contains_key(key) {
        r == Ok::<ResultGetString, Error>(ResultGetString { value: None, expire: None })
    } else {
        match d[key].value {
            Value::String(s) => if d[key].spec_is_expired(now) {
                r == Ok::<ResultGetString, Error>(ResultGetString { value: None, expire: None })
            } else {
                r == Ok::<ResultGetString, Error>(
                    ResultGetString { value: Some(s), expire: ttl(d[key].expires_at, now) },
                )
            },
            _ => is_bad_command(r, "not a string"@),
        }
    }
}

/// Key `key` of `d` holds a string that has expired at `now`.
pub open spec fn drops_expired_string(d: Map<Seq<char>, Entry>, key: Seq<char>, now: u64) -> bool {
    expired_in(d, key, now) && d[key].value is String
}

fn get_string_in(d: &mut Database, key: &String, now: u64) -> (r: Result<ResultGetString, Error>)
    ensures
        get_string_answer(old(d)@, key@, now, r),
        if drops_expired_string(old(d)@, key@, now) {
            final(d)@ == old(d)@.remove(key@) && final(d).key_seq() == remove_order(old(d).key_seq(), key@)
        } else {
            *final(d) == *old(d)
        },
{
    let (s, expired, expire) = match d.get(key) {
        None => {
            return Ok(ResultGetString::new(None, None));
        },
        Some(e) => match &e.value {
            Value::String(s) => (s.clone(), e.is_expired(now), ttl_of(e.expires_at, now)),
            _ => {
                return Err(bad_command("not a string"));
            },
        },
    };
    if expired {
        d.remove(key);
        return Ok(ResultGetString::new(None, None));
    }
    Ok(ResultGetString::new(Some(s), expire))
}


/// What removing key `key` of `d` as a string at `now` answers; the key is
/// removed whatever it held.
pub open spec fn del_string_answer(
    d: Map<Seq<char>, Entry>,
    key: Seq<char>,
    now: u64,
    r: Result<ResultDelString, Error>,
) -> bool {
    if !d.contains_key(key) {
        r == Ok::<ResultDelString, Error>(ResultDelString { value: None, expire: None })
    } else {
        match d[key].value {
            Value::String(s) => if d[key].spec_is_expired(now) {
                r == Ok::<ResultDelString, Error>(ResultDelString { value: None, expire: None })
            } else {
                r == Ok::<ResultDelString, Error>(
                    ResultDelString { value: Some(s), expire: ttl(d[key].expires_at, now) },
                )
            },
            _ => is_operation_error(r, "not a string"@),
        }
    }
}

fn del_string_in(d: &mut Database, key: &String, now: u64) -> (r: Result<ResultDelString, Error>)
    ensures
        del_string_answer(old(d)@, key@, now, r),
        if old(d)@.contains_key(key@) {
            final(d)@ == old(d)@.remove(key@) && final(d).key_seq() == remove_order(old(d).key_seq(), key@)
        } else {
            *final(d) == *old(d)
        },
{
    if !d.contains_key(key) {
        return Ok(ResultDelString::new(None, None));
    }
    match d.remove(key) {
        None => Ok(ResultDelString::new(None, None)),
        Some(e) => {
            let expired = e.is_expired(now);
            let expire = ttl_of(e.expires_at, now);
            match e.value {
                Value::String(s) => {
                    if expired {
                        Ok(ResultDelString::new(None, None))
                    } else {
                        Ok(ResultDelString::new(Some(s), expire))
                    }
                },
                _ => Err(Error::Operation(String::from_str("not a string"))),
            }
        },
    }
}

/// What asking whether key `key` of `d` exists answers at `now`: it holds an
/// entry of any kind that has not expired.
pub open spec fn exists_answer(d: Map<Seq<char>, Entry>, key: Seq<char>, now: u64) -> bool {
    d.contains_key(key) && !d[key].spec_is_expired(now)
}

fn exists_in(d: &mut Database, key: &String, now: u64) -> (r: bool)
    ensures
        r == exists_answer(old(d)@, key@, now),
        if expired_in(old(d)@, key@, now) {
            final(d)@ == old(d)@.remove(key@) && final(d).key_seq() == remove_order(old(d).key_seq(), key@)
        } else {
            *final(d) == *old(d)
        },
{
    let expired = match d.get(key) {
        None => {
            return false;
        },
        Some(e) => e.is_expired(now),
    };
    if expired {
        d.remove(key);
        return false;
    }
    true
}

/// The expiry time that a time to live of `expire` seconds from `now` sets;
/// 0 means that the key no longer expires.
pub open spec fn new_expiry(expire: u64, now: u64) -> Option<u64> {
    if expire == 0 {
        None
    } else {
        Some((now + expire) as u64)
    }
}

/// Setting a time to live of `expire` seconds on key `key` of `d` at `now`
/// computes `now + expire` only when the key holds an entry that has not
/// expired.
pub open spec fn expire_fits(d: Map<Seq<char>, Entry>, key: Seq<char>, expire: u64, now: u64) -> bool {
    (d.contains_key(key) && !d[key].spec_is_expired(now) && expire != 0) ==> now + expire <= u64::MAX
}

fn expire_in(d: &mut Database, key: &String, expire: u64, now: u64) -> (r: Result<ResultExpire, Error>)
    requires
        expire_fits(old(d)@, key@, expire, now),
    ensures
        if !old(d)@.contains_key(key@) {
            is_bad_command(r, "key not found"@) && *final(d) == *old(d)
        } else if old(d)@[key@].spec_is_expired(now) {
            &&& r matches Ok(res) && !res.ok
            &&& final(d)@ == old(d)@.remove(key@)
            &&& final(d).key_seq() == remove_order(old(d).key_seq(), key@)
        } else {
            &&& r matches Ok(res) && res.ok
            &&& final(d)@ == old(d)@.insert(
                key@,
                Entry { value: old(d)@[key@].value, expires_at: new_expiry(expire, now) },
            )
            &&& final(d).key_seq() == old(d).key_seq()
        },
{
    proof {
        d.lemma_contains(key@);
    }
    let expired = match d.get(key) {
        None => {
            return Err(bad_command("key not found"));
        },
        Some(e) => e.is_expired(now),
    };
    if expired {
        d.remove(key);
        return Ok(ResultExpire::new(false));
    }
    let e = d.insert(key.clone(), placeholder());
    match e {
        Some(e) => {
            let expires_at = if expire == 0 {
                None
            } else {
                Some(now + expire)
            };
            d.insert(key.clone(), Entry { value: e.value, expires_at });
            proof {
                assert(d@ =~= old(d)@.insert(
                    key@,
                    Entry { value: old(d)@[key@].value, expires_at: new_expiry(expire, now) },
                ));
            }
            Ok(ResultExpire::new(true))
        },
        None => {
            proof {
                assert(false);
            }
            Ok(ResultExpire::new(true))
        },
    }
}

impl State {
    /// Removes `req.key` and answers the string that it held, with its time
    /// to live, unless the string had expired.
    pub fn del_string(&mut self, req: DelString, now: u64) -> (r: Result<ResultDelString, Error>)
        ensures
            del_string_answer(old(self).db(req.db@), req.key@, now, r),
            final(self).is_read_of(
                old(self),
                req.db@,
                req.key@,
                old(self).db(req.db@).contains_key(req.key@),
            ),
    {
        let mut d = self.open_db(&req.db);
        let r = del_string_in(&mut d, &req.key, now);
        self.close_db(&req.db, d);
        proof {
            assert(self.databases@.remove(req.db@) =~= old(self).databases@.remove(req.db@));
        }
        r
    }

    /// Whether `req.key` holds an entry, of any kind, that has not expired.
    /// An entry that has expired is dropped.
    pub fn exists_key(&mut self, req: Exists, now: u64) -> (r: Result<ResultExists, Error>)
        ensures
            r matches Ok(res) && res.exists == exists_answer(old(self).db(req.db@), req.key@, now),
            final(self).is_read_of(
                old(self),
                req.db@,
                req.key@,
                expired_in(old(self).db(req.db@), req.key@, now),
            ),
    {
        let mut d = self.open_db(&req.db);
        let b = exists_in(&mut d, &req.key, now);
        self.close_db(&req.db, d);
        proof {
            assert(self.databases@.remove(req.db@) =~= old(self).databases@.remove(req.db@));
        }
        Ok(ResultExists::new(b))
    }

    /// Sets the time to live of `req.key` to `req.expire` seconds from `now`;
    /// 0 makes the key permanent. A key that has already expired is dropped
    /// and the answer is not ok.
    pub fn expire(&mut self, req: Expire, now: u64) -> (r: Result<ResultExpire, Error>)
        requires
            expire_fits(old(self).db(req.db@), req.key@, req.expire, now),
        ensures
            ({
                let d = old(self).db(req.db@);
                let k = req.key@;
                if !d.contains_key(k) {
                    is_bad_command(r, "key not found"@) && final(self).is_touch_of(old(self), req.db@)
                } else if d[k].spec_is_expired(now) {
                    &&& r matches Ok(res) && !res.ok
                    &&& final(self).is_update_of(old(self), req.db@, d.remove(k))
                    &&& final(self).key_order(req.db@) == remove_order(old(self).key_order(req.db@), k)
                } else {
                    &&& r matches Ok(res) && res.ok
                    &&& final(self).is_update_of(
                        old(self),
                        req.db@,
                        d.insert(k, Entry { value: d[k].value, expires_at: new_expiry(req.expire, now) }),
                    )
                    &&& final(self).key_order(req.db@) == old(self).key_order(req.db@)
                }
            }),
    {
        let mut d = self.open_db(&req.db);
        let r = expire_in(&mut d, &req.key, req.expire, now);
        self.close_db(&req.db, d);
        proof {
            assert(self.databases@.remove(req.db@) =~= old(self).databases@.remove(req.db@));
        }
        r
    }
}


/// The fields of the hash under `key` in `d`; none if it holds no hash.
pub open spec fn hash_at(d: Map<Seq<char>, Entry>, key: Seq<char>) -> Map<Seq<char>, String> {
    if d.contains_key(key) {
        match d[key].value {
            Value::Hash(h) => h@,
            _ => Map::empty(),
        }
    } else {
        Map::empty()
    }
}

/// Key `key` of `d` holds something other than a hash.
pub open spec fn holds_other_than_hash(d: Map<Seq<char>, Entry>, key: Seq<char>) -> bool {
    d.contains_key(key) && !(d[key].value is Hash)
}

/// Key `key` of `d` holds a hash that has expired at `now`.
pub open spec fn drops_expired_hash(d: Map<Seq<char>, Entry>, key: Seq<char>, now: u64) -> bool {
    expired_in(d, key, now) && d[key].value is Hash
}

/// The value of `k` in `m`, if any.
pub open spec fn lookup(m: Map<Seq<char>, String>, k: Seq<char>) -> Option<String> {
    if m.contains_key(k) {
        Some(m[k])
    } else {
        None
    }
}

/// `v` holds strings whose views are `ks`, in order.
pub open spec fn strings_are(v: Seq<String>, ks: Seq<Seq<char>>) -> bool {
    &&& v.len() == ks.len()
    &&& forall|i: int| 0 <= i < v.len() ==> #[trigger] v[i]@ == ks[i]
}

/// `d2` is `d` after field `field` of the hash under `key` was set to `value`,
/// the hash created if `key` held nothing; the expiry time is set anew when
/// `expire` is given and kept otherwise.
pub open spec fn hash_set_effect(
    d: Map<Seq<char>, Entry>,
    d2: Map<Seq<char>, Entry>,
    key: Seq<char>,
    field: Seq<char>,
    value: String,
    expire: Option<u64>,
    now: u64,
) -> bool {
    &&& d2.remove(key) == d.remove(key)
    &&& d2.contains_key(key)
    &&& d2[key].value is Hash
    &&& hash_at(d2, key) == hash_at(d, key).insert(field, value)
    &&& d2[key].expires_at == match expire {
        Some(_) => deadline(expire, now),
        None => if d.contains_key(key) {
            d[key].expires_at
        } else {
            None
        },
    }
}

/// `d2` is `d` after field `field` was removed from the hash under `key`.
pub open spec fn hash_del_effect(
    d: Map<Seq<char>, Entry>,
    d2: Map<Seq<char>, Entry>,
    key: Seq<char>,
    field: Seq<char>,
) -> bool {
    &&& d2.remove(key) == d.remove(key)
    &&& d2.contains_key(key)
    &&& d2[key].value is Hash
    &&& hash_at(d2, key) == hash_at(d, key).remove(field)
    &&& d2[key].expires_at == d[key].expires_at
}

fn hash_set_in(
    d: &mut Database,
    key: &String,
    field: String,
    value: String,
    expire: Option<u64>,
    now: u64,
) -> (r: Result<ResultHashSet, Error>)
    requires
        !holds_other_than_hash(old(d)@, key@) ==> deadline_fits(expire, now),
    ensures
        if holds_other_than_hash(old(d)@, key@) {
            is_bad_command(r, "not a hash"@) && *final(d) == *old(d)
        } else {
            &&& r matches Ok(res) && res.ok && res.msg@ == "ok"@
            &&& hash_set_effect(old(d)@, final(d)@, key@, field@, value, expire, now)
            &&& final(d).key_seq() == insert_order(old(d).key_seq(), key@)
        },
{
    proof {
        d.lemma_contains(key@);
    }
    let ghost fv = field@;
    let ghost v = value;
    let kind = match d.get(key) {
        None => None,
        Some(e) => Some(
            match &e.value {
                Value::Hash(_) => true,
                _ => false,
            },
        ),
    };
    match kind {
        Some(false) => Err(bad_command("not a hash")),
        None => {
            let mut h: StrMap<String> = StrMap::new();
            h.insert(field, value);
            let expires_at = deadline_of(expire, now);
            d.insert(key.clone(), Entry { value: Value::Hash(h), expires_at });
            proof {
                assert(d@.remove(key@) =~= old(d)@.remove(key@));
                assert(hash_at(d@, key@) =~= hash_at(old(d)@, key@).insert(fv, v));
            }
            Ok(ResultHashSet::new(true, String::from_str("ok")))
        },
        Some(true) => {
            let e = d.insert(key.clone(), placeholder());
            match e {
                Some(Entry { value: Value::Hash(mut h), expires_at }) => {
                    h.insert(field, value);
                    let expires_at = match expire {
                        Some(t) => Some(now + t),
                        None => expires_at,
                    };
                    d.insert(key.clone(), Entry { value: Value::Hash(h), expires_at });
                    proof {
                        assert(d@.remove(key@) =~= old(d)@.remove(key@));
                    }
                    Ok(ResultHashSet::new(true, String::from_str("ok")))
                },
                _ => {
                    proof {
                        assert(false);
                    }
                    Err(bad_command("not a hash"))
                },
            }
        },
    }
}

/// What reading field `field` of the hash under `key` of `d` answers at `now`.
pub open spec fn hash_get_answer(
    d: Map<Seq<char>, Entry>,
    key: Seq<char>,
    field: Seq<char>,
    now: u64,
    r: Result<ResultHashGet, Error>,
) -> bool {
    if !d.contains_key(key) {
        r == Ok::<ResultHashGet, Error>(ResultHashGet { value: None, expire: None })
    } else {
        match d[key].value {
            Value::Hash(h) => if d[key].spec_is_expired(now) {
                r == Ok::<ResultHashGet, Error>(ResultHashGet { value: None, expire: None })
            } else {
                r == Ok::<ResultHashGet, Error>(
                    ResultHashGet { value: lookup(h@, field), expire: ttl(d[key].expires_at, now) },
                )
            },
            _ => is_bad_command(r, "not a hash"@),
        }
    }
}

fn hash_get_in(d: &mut Database, key: &String, field: &String, now: u64) -> (r: Result<
    ResultHashGet,
    Error,
>)
    ensures
        hash_get_answer(old(d)@, key@, field@, now, r),
        if drops_expired_hash(old(d)@, key@, now) {
            final(d)@ == old(d)@.remove(key@) && final(d).key_seq() == remove_order(old(d).key_seq(), key@)
        } else {
            *final(d) == *old(d)
        },
{
    let (value, expired, expire) = match d.get(key) {
        None => {
            return Ok(ResultHashGet::new(None, None));
        },
        Some(e) => match &e.value {
            Value::Hash(h) => {
                let v = match h.get(field) {
                    Some(s) => Some(s.clone()),
                    None => None,
                };
                (v, e.is_expired(now), ttl_of(e.expires_at, now))
            },
            _ => {
                return Err(bad_command("not a hash"));
            },
        },
    };
    if expired {
        d.remove(key);
        return Ok(ResultHashGet::new(None, None));
    }
    Ok(ResultHashGet::new(value, expire))
}

/// What removing field `field` of the hash under `key` of `d` answers. The
/// expiry time is answered as it is stored, and an expiry time of 0 answers
/// nothing.
pub open spec fn hash_del_answer(
    d: Map<Seq<char>, Entry>,
    key: Seq<char>,
    field: Seq<char>,
    r: Result<ResultHashDel, Error>,
) -> bool {
    if !d.contains_key(key) {
        is_bad_command(r, "key not found"@)
    } else {
        match d[key].value {
            Value::Hash(h) => if d[key].expires_at == Some(0u64) {
                r == Ok::<ResultHashDel, Error>(ResultHashDel { value: None, expire: None })
            } else {
                r == Ok::<ResultHashDel, Error>(
                    ResultHashDel { value: lookup(h@, field), expire: d[key].expires_at },
                )
            },
            _ => is_bad_command(r, "not a hash"@),
        }
    }
}

fn hash_del_in(d: &mut Database, key: &String, field: &String) -> (r: Result<ResultHashDel, Error>)
    ensures
        hash_del_answer(old(d)@, key@, field@, r),
        if old(d)@.contains_key(key@) && old(d)@[key@].value is Hash {
            hash_del_effect(old(d)@, final(d)@, key@, field@) && final(d).key_seq() == old(d).key_seq()
        } else {
            *final(d) == *old(d)
        },
{
    proof {
        d.lemma_contains(key@);
    }
    let is_hash = match d.get(key) {
        None => {
            return Err(bad_command("key not found"));
        },
        Some(e) => match &e.value {
            Value::Hash(_) => true,
            _ => false,
        },
    };
    if !is_hash {
        return Err(bad_command("not a hash"));
    }
    let e = d.insert(key.clone(), placeholder());
    match e {
        Some(Entry { value: Value::Hash(mut h), expires_at }) => {
            let removed = h.remove(field);
            d.insert(key.clone(), Entry { value: Value::Hash(h), expires_at });
            proof {
                assert(d@.remove(key@) =~= old(d)@.remove(key@));
            }
            match expires_at {
                Some(t) => {
                    if t == 0 {
                        Ok(ResultHashDel::new(None, None))
                    } else {
                        Ok(ResultHashDel::new(removed, Some(t)))
                    }
                },
                None => Ok(ResultHashDel::new(removed, None)),
            }
        },
        _ => {
            proof {
                assert(false);
            }
            Err(bad_command("not a hash"))
        },
    }
}

/// What asking whether the hash under `key` of `d` has field `field` answers
/// at `now`.
pub open spec fn hash_exists_answer(
    d: Map<Seq<char>, Entry>,
    key: Seq<char>,
    field: Seq<char>,
    now: u64,
    r: Result<ResultHashExists, Error>,
) -> bool {
    if !d.contains_key(key) {
        r matches Ok(res) && !res.exists
    } else {
        match d[key].value {
            Value::Hash(h) => r matches Ok(res) && res.exists == (!d[key].spec_is_expired(now)
                && h@.contains_key(field)),
            _ => is_bad_command(r, "not a hash"@),
        }
    }
}

fn hash_exists_in(d: &mut Database, key: &String, field: &String, now: u64) -> (r: Result<
    ResultHashExists,
    Error,
>)
    ensures
        hash_exists_answer(old(d)@, key@, field@, now, r),
        if drops_expired_hash(old(d)@, key@, now) {
            final(d)@ == old(d)@.remove(key@) && final(d).key_seq() == remove_order(old(d).key_seq(), key@)
        } else {
            *final(d) == *old(d)
        },
{
    let (has, expired) = match d.get(key) {
        None => {
            return Ok(ResultHashExists::new(false));
        },
        Some(e) => match &e.value {
            Value::Hash(h) => (h.contains_key(field), e.is_expired(now)),
            _ => {
                return Err(bad_command("not a hash"));
            },
        },
    };
    if expired {
        d.remove(key);
        return Ok(ResultHashExists::new(false));
    }
    Ok(ResultHashExists::new(has))
}

/// What asking how many fields the hash under `key` of `d` has answers at
/// `now`; the count is taken modulo 2^32.
pub open spec fn hash_len_answer(
    d: Map<Seq<char>, Entry>,
    key: Seq<char>,
    now: u64,
    r: Result<ResultHashLen, Error>,
) -> bool {
    if !d.contains_key(key) {
        r matches Ok(res) && res.len == 0
    } else {
        match d[key].value {
            Value::Hash(h) => r matches Ok(res) && res.len == (if d[key].spec_is_expired(now) {
                0
            } else {
                length_field(h@.len())
            }),
            _ => is_bad_command(r, "not a hash"@),
        }
    }
}

fn hash_len_in(d: &mut Database, key: &String, now: u64) -> (r: Result<ResultHashLen, Error>)
    ensures
        hash_len_answer(old(d)@, key@, now, r),
        if drops_expired_hash(old(d)@, key@, now) {
            final(d)@ == old(d)@.remove(key@) && final(d).key_seq() == remove_order(old(d).key_seq(), key@)
        } else {
            *final(d) == *old(d)
        },
{
    let (n, expired) = match d.get(key) {
        None => {
            return Ok(ResultHashLen::new(0));
        },
        Some(e) => match &e.value {
            Value::Hash(h) => (length_of(h.len()), e.is_expired(now)),
            _ => {
                return Err(bad_command("not a hash"));
            },
        },
    };
    if expired {
        d.remove(key);
        return Ok(ResultHashLen::new(0));
    }
    Ok(ResultHashLen::new(n))
}

/// What asking for the fields of the hash under `key` of `d` answers at
/// `now`: the fields in enumeration order and their number modulo 2^32.
pub open spec fn hash_fields_answer(
    d: Map<Seq<char>, Entry>,
    key: Seq<char>,
    now: u64,
    r: Result<ResultHashFields, Error>,
) -> bool {
    if !d.contains_key(key) {
        r matches Ok(res) && res.fields@.len() == 0 && res.total == 0
    } else {
        match d[key].value {
            Value::Hash(h) => if d[key].spec_is_expired(now) {
                r matches Ok(res) && res.fields@.len() == 0 && res.total == 0
            } else {
                &&& r matches Ok(res)
                &&& strings_are(r->Ok_0.fields@, h.key_seq())
                &&& h.key_seq().no_duplicates()
                &&& h.key_seq().to_set() == h@.dom()
                &&& r->Ok_0.total == length_field(h@.len())
            },
            _ => is_bad_command(r, "not a hash"@),
        }
    }
}

fn hash_fields_in(d: &mut Database, key: &String, now: u64) -> (r: Result<ResultHashFields, Error>)
    ensures
        hash_fields_answer(old(d)@, key@, now, r),
        if drops_expired_hash(old(d)@, key@, now) {
            final(d)@ == old(d)@.remove(key@) && final(d).key_seq() == remove_order(old(d).key_seq(), key@)
        } else {
            *final(d) == *old(d)
        },
{
    let (fields, expired) = match d.get(key) {
        None => {
            return Ok(ResultHashFields::new(Vec::new(), 0));
        },
        Some(e) => match &e.value {
            Value::Hash(h) => {
                proof {
                    use_type_invariant(h);
                    h.lemma_domain();
                }
                (h.keys(), e.is_expired(now))
            },
            _ => {
                return Err(bad_command("not a hash"));
            },
        },
    };
    if expired {
        d.remove(key);
        return Ok(ResultHashFields::new(Vec::new(), 0));
    }
    let total = length_of(fields.len());
    Ok(ResultHashFields::new(fields, total))
}


/// The keys from position `start` on, at most `size` of them; none when
/// `start` is past the end.
pub open spec fn page_of(ks: Seq<Seq<char>>, start: int, size: int) -> Seq<Seq<char>> {
    let from = if start < ks.len() { start } else { ks.len() as int };
    let to = if from + size < ks.len() { from + size } else { ks.len() as int };
    ks.subrange(from, to)
}

impl State {
    /// Sets field `req.field` of the hash under `req.key` to `req.value`,
    /// creating the hash if the key holds nothing. A given `req.expire` sets
    /// the expiry time to that many seconds from `now`. A key that holds
    /// something other than a hash is refused.
    pub fn hash_set(&mut self, req: HashSet, now: u64) -> (r: Result<ResultHashSet, Error>)
        requires
            !holds_other_than_hash(old(self).db(req.db@), req.key@) ==> deadline_fits(req.expire, now),
        ensures
            if holds_other_than_hash(old(self).db(req.db@), req.key@) {
                is_bad_command(r, "not a hash"@) && final(self).is_touch_of(old(self), req.db@)
            } else {
                &&& r matches Ok(res) && res.ok && res.msg@ == "ok"@
                &&& final(self).same_elsewhere(old(self), req.db@)
                &&& hash_set_effect(
                    old(self).db(req.db@),
                    final(self).db(req.db@),
                    req.key@,
                    req.field@,
                    req.value,
                    req.expire,
                    now,
                )
                &&& final(self).key_order(req.db@) == insert_order(old(self).key_order(req.db@), req.key@)
            },
    {
        let mut d = self.open_db(&req.db);
        let r = hash_set_in(&mut d, &req.key, req.field, req.value, req.expire, now);
        self.close_db(&req.db, d);
        proof {
            assert(self.databases@.remove(req.db@) =~= old(self).databases@.remove(req.db@));
        }
        r
    }

    /// Reads field `req.field` of the hash under `req.key`. A hash that has
    /// expired is dropped and reads as absent.
    pub fn hash_get(&mut self, req: HashGet, now: u64) -> (r: Result<ResultHashGet, Error>)
        ensures
            hash_get_answer(old(self).db(req.db@), req.key@, req.field@, now, r),
            final(self).is_read_of(old(self), req.db@, req.key@, drops_expired_hash(old(self).db(req.db@), req.key@, now)),
    {
        let mut d = self.open_db(&req.db);
        let r = hash_get_in(&mut d, &req.key, &req.field, now);
        self.close_db(&req.db, d);
        proof {
            assert(self.databases@.remove(req.db@) =~= old(self).databases@.remove(req.db@));
        }
        r
    }

    /// Whether the hash under `req.key` has field `req.field`. A hash that has
    /// expired is dropped.
    pub fn hash_exists(&mut self, req: HashExists, now: u64) -> (r: Result<ResultHashExists, Error>)
        ensures
            hash_exists_answer(old(self).db(req.db@), req.key@, req.field@, now, r),
            final(self).is_read_of(old(self), req.db@, req.key@, drops_expired_hash(old(self).db(req.db@), req.key@, now)),
    {
        let mut d = self.open_db(&req.db);
        let r = hash_exists_in(&mut d, &req.key, &req.field, now);
        self.close_db(&req.db, d);
        proof {
            assert(self.databases@.remove(req.db@) =~= old(self).databases@.remove(req.db@));
        }
        r
    }

    /// The number of fields of the hash under `req.key`. A hash that has
    /// expired is dropped.
    pub fn hash_len(&mut self, req: HashLen, now: u64) -> (r: Result<ResultHashLen, Error>)
        ensures
            hash_len_answer(old(self).db(req.db@), req.key@, now, r),
            final(self).is_read_of(old(self), req.db@, req.key@, drops_expired_hash(old(self).db(req.db@), req.key@, now)),
    {
        let mut d = self.open_db(&req.db);
        let r = hash_len_in(&mut d, &req.key, now);
        self.close_db(&req.db, d);
        proof {
            assert(self.databases@.remove(req.db@) =~= old(self).databases@.remove(req.db@));
        }
        r
    }

    /// The fields of the hash under `req.key`, in enumeration order. A hash
    /// that has expired is dropped.
    pub fn hash_fields(&mut self, req: HashFields, now: u64) -> (r: Result<ResultHashFields, Error>)
        ensures
            hash_fields_answer(old(self).db(req.db@), req.key@, now, r),
            final(self).is_read_of(old(self), req.db@, req.key@, drops_expired_hash(old(self).db(req.db@), req.key@, now)),
    {
        let mut d = self.open_db(&req.db);
        let r = hash_fields_in(&mut d, &req.key, now);
        self.close_db(&req.db, d);
        proof {
            assert(self.databases@.remove(req.db@) =~= old(self).databases@.remove(req.db@));
        }
        r
    }

    /// Removes field `req.field` from the hash under `req.key` and answers the
    /// value it had with the stored expiry time. The entry is never dropped,
    /// even once it has expired.
    pub fn hash_del(&mut self, req: HashDel, now: u64) -> (r: Result<ResultHashDel, Error>)
        ensures
            hash_del_answer(old(self).db(req.db@), req.key@, req.field@, r),
            if old(self).db(req.db@).contains_key(req.key@) && old(self).db(req.db@)[req.key@].value is Hash {
                &&& final(self).same_elsewhere(old(self), req.db@)
                &&& hash_del_effect(old(self).db(req.db@), final(self).db(req.db@), req.key@, req.field@)
                &&& final(self).key_order(req.db@) == old(self).key_order(req.db@)
            } else {
                final(self).is_touch_of(old(self), req.db@)
            },
    {
        let mut d = self.open_db(&req.db);
        let r = hash_del_in(&mut d, &req.key, &req.field);
        self.close_db(&req.db, d);
        proof {
            assert(self.databases@.remove(req.db@) =~= old(self).databases@.remove(req.db@));
        }
        r
    }

    /// One page of the keys of keyspace `req.db`, in enumeration order: page
    /// `req.page`, counted from 1, of `req.size` keys; and the number of keys,
    /// modulo 2^32. Keys that have expired are listed too.
    pub fn keys(&mut self, req: Keys) -> (r: Result<ResultKeys, Error>)
        requires
            req.page >= 1,
            (req.page - 1) * req.size <= usize::MAX,
        ensures
            final(self).is_touch_of(old(self), req.db@),
            r matches Ok(res),
            strings_are(
                r->Ok_0.keys@,
                page_of(old(self).key_order(req.db@), (req.page - 1) * req.size, req.size as int),
            ),
            r->Ok_0.total == length_field(old(self).key_order(req.db@).len()),
            old(self).key_order(req.db@).no_duplicates(),
            old(self).key_order(req.db@).to_set() == old(self).db(req.db@).dom(),
    {
        self.get_db(&req.db);
        let d = match self.databases.get(&req.db) {
            Some(d) => d,
            None => {
                proof {
                    assert(false);
                }
                return Ok(ResultKeys::new(Vec::new(), 0));
            },
        };
        let n = d.len();
        let ghost ks = d.key_seq();
        assert(ks == old(self).key_order(req.db@));
        let start = (req.page - 1) * req.size;
        let from = if start < n {
            start
        } else {
            n
        };
        let to = if req.size < n - from {
            from + req.size
        } else {
            n
        };
        let mut keys: Vec<String> = Vec::new();
        let mut i = from;
        while i < to
            invariant
                from <= i <= to <= n,
                n == d.key_seq().len(),
                ks == d.key_seq(),
                keys@.len() == i - from,
                forall|j: int| 0 <= j < keys@.len() ==> #[trigger] keys@[j]@ == ks[from + j],
            decreases to - i,
        {
            keys.push(d.key_at(i).clone());
            i = i + 1;
        }
        proof {
            let p = page_of(ks, start as int, req.size as int);
            assert(p =~= ks.subrange(from as int, to as int));
        }
        Ok(ResultKeys::new(keys, length_of(n)))
    }

    /// The keyspaces, in enumeration order, each with its number of keys
    /// modulo 2^32.
    pub fn dbs(&self) -> (r: ResultDbs)
        ensures
            r.dbs@.len() == self.databases.key_seq().len(),
            forall|i: int|
                0 <= i < r.dbs@.len() ==> {
                    let name = self.databases.key_seq()[i];
                    &&& (#[trigger] r.dbs@[i]).name@ == name
                    &&& r.dbs@[i].count == length_field(self.db(name).len())
                },
    {
        let n = self.databases.len();
        let mut dbs: Vec<DbInfo> = Vec::new();
        let mut i: usize = 0;
        while i < n
            invariant
                i <= n,
                n == self.databases.key_seq().len(),
                dbs@.len() == i,
                forall|j: int|
                    0 <= j < i ==> {
                        let name = self.databases.key_seq()[j];
                        &&& (#[trigger] dbs@[j]).name@ == name
                        &&& dbs@[j].count == length_field(self.db(name).len())
                    },
            decreases n - i,
        {
            let name = self.databases.key_at(i).clone();
            let d = self.databases.value_at(i);
            let count = length_of(d.len());
            dbs.push(DbInfo { name, count });
            i = i + 1;
        }
        ResultDbs::new(dbs)
    }
}


/// The entries of `d` that have not expired at `now`.
pub open spec fn live(d: Map<Seq<char>, Entry>, now: u64) -> Map<Seq<char>, Entry> {
    Map::new(|k: Seq<char>| d.contains_key(k) && !d[k].spec_is_expired(now), |k: Seq<char>| d[k])
}

/// The keys of `ks` whose entries in `d` have not expired at `now`, in order.
pub open spec fn live_order(ks: Seq<Seq<char>>, d: Map<Seq<char>, Entry>, now: u64) -> Seq<Seq<char>> {
    ks.filter(|k: Seq<char>| !expired_in(d, k, now))
}

proof fn lemma_live_order_step(ks: Seq<Seq<char>>, d: Map<Seq<char>, Entry>, now: u64, j: int)
    requires
        0 <= j < ks.len(),
    ensures
        live_order(ks.take(j + 1), d, now) == if expired_in(d, ks[j], now) {
            live_order(ks.take(j), d, now)
        } else {
            live_order(ks.take(j), d, now).push(ks[j])
        },
{
    reveal(Seq::filter);
    assert(ks.take(j + 1).drop_last() =~= ks.take(j));
    assert(ks.take(j + 1).last() == ks[j]);
}

/// Drops every entry of `d` that has expired at `now`; the other keys keep
/// their order.
pub fn purge_expired_in(d: &mut Database, now: u64)
    ensures
        final(d)@ == live(old(d)@, now),
        final(d).key_seq() == live_order(old(d).key_seq(), old(d)@, now),
{
    proof {
        use_type_invariant(&*d);
        d.lemma_domain();
    }
    let ghost ks = d.key_seq();
    let ghost od = d@;
    let ghost mut j: int = 0;
    let mut i: usize = 0;
    proof {
        reveal(Seq::filter);
        assert(ks.take(0) =~= Seq::<Seq<char>>::empty());
        assert(ks.skip(0) =~= ks);
        assert(d.key_seq() =~= live_order(ks.take(0), od, now) + ks.skip(0));
    }
    while i < d.len()
        invariant
            i <= d.key_seq().len(),
            od == old(d)@,
            ks == old(d).key_seq(),
            ks.to_set() == od.dom(),
            0 <= j <= ks.len(),
            i == live_order(ks.take(j), od, now).len(),
            d.key_seq() == live_order(ks.take(j), od, now) + ks.skip(j),
            forall|k: Seq<char>| #[trigger]
                d@.contains_key(k) ==> old(d)@.contains_key(k) && d@[k] == old(d)@[k],
            forall|k: Seq<char>|
                old(d)@.contains_key(k) && !old(d)@[k].spec_is_expired(now) ==> #[trigger] d@.contains_key(k),
            forall|jj: int| 0 <= jj < i ==> !d@[#[trigger] d.key_seq()[jj]].spec_is_expired(now),
        decreases d.key_seq().len() - i,
    {
        proof {
            assert(d.key_seq()[i as int] == ks[j]);
            lemma_live_order_step(ks, od, now, j);
            assert(ks.contains(ks[j]));
            assert(od.contains_key(ks[j]));
        }
        if d.value_at(i).is_expired(now) {
            let ghost before = *d;
            d.remove_at(i);
            proof {
                use_type_invariant(&*d);
                d.lemma_domain();
            }
            proof {
                assert forall|jj: int| 0 <= jj < i implies !d@[#[trigger] d.key_seq()[jj]].spec_is_expired(now) by {
                    assert(d.key_seq()[jj] == before.key_seq()[jj]);
                }
                assert(expired_in(od, ks[j], now));
                assert(ks.skip(j).drop_first() =~= ks.skip(j + 1));
                assert(d.key_seq() =~= live_order(ks.take(j + 1), od, now) + ks.skip(j + 1));
                j = j + 1;
            }
        } else {
            proof {
                assert(!expired_in(od, ks[j], now));
                assert(d.key_seq() =~= live_order(ks.take(j + 1), od, now) + ks.skip(j + 1));
                j = j + 1;
            }
            i = i + 1;
        }
    }
    proof {
        use_type_invariant(&*d);
        d.lemma_domain();
        assert(j == ks.len()) by {
            if j < ks.len() {
                assert(d.key_seq().len() > i);
            }
        }
        assert(ks.take(j) =~= ks);
        assert(d.key_seq() =~= live_order(ks, od, now));
        assert forall|k: Seq<char>| d@.contains_key(k) implies !d@[k].spec_is_expired(now) by {
            assert(d.key_seq().to_set().contains(k));
            let jj = d.key_seq().index_of(k);
            assert(d.key_seq()[jj] == k);
        }
        assert(d@ =~= live(old(d)@, now));
    }
}

impl State {
    /// Drops, in every keyspace, the entries that have expired at `now`.
    pub fn purge_expired(&mut self, now: u64)
        ensures
            final(self).config == old(self).config,
            final(self).databases@.dom() == old(self).databases@.dom(),
            forall|name: Seq<char>|
                #[trigger] old(self).databases@.contains_key(name) ==> final(self).is_purge_of(
                    old(self),
                    name,
                    now,
                ),
    {
        let n = self.databases.len();
        let ghost ks = self.databases.key_seq();
        let mut i: usize = 0;
        while i < n
            invariant
                i <= n,
                n == ks.len(),
                ks.no_duplicates(),
                self.databases.key_seq() == ks,
                self.config == old(self).config,
                self.databases@.dom() == old(self).databases@.dom(),
                old(self).databases@.dom() == ks.to_set(),
                forall|j: int| 0 <= j < i ==> #[trigger] self.is_purge_of(old(self), ks[j], now),
                forall|j: int| i <= j < n ==> #[trigger] self.databases@[ks[j]] == old(self).databases@[ks[j]],
            decreases n - i,
        {
            let name = self.databases.key_at(i).clone();
            let ghost before = self.databases@;
            proof {
                assert(ks.contains(name@)) by {
                    assert(ks[i as int] == name@);
                }
                assert(before.contains_key(name@));
                assert forall|j: int| 0 <= j < i implies before.contains_key(#[trigger] ks[j])
                    && before[ks[j]]@ == live(old(self).db(ks[j]), now) && before[ks[j]].key_seq()
                    == live_order(old(self).key_order(ks[j]), old(self).db(ks[j]), now) by {
                    assert(ks.contains(ks[j]));
                    assert(self.is_purge_of(old(self), ks[j], now));
                }
            }
            let mut d = self.open_db(&name);
            let ghost mid = self.databases@;
            let ghost d0 = d@;
            let ghost o0 = d.key_seq();
            purge_expired_in(&mut d, now);
            let ghost d1 = d@;
            let ghost o1 = d.key_seq();
            self.close_db(&name, d);
            proof {
                assert forall|k: Seq<char>| k != name@ implies #[trigger] self.databases@.contains_key(k)
                    == before.contains_key(k) && (before.contains_key(k) ==> self.databases@[k] == before[k]) by {
                    assert(mid.remove(name@).contains_key(k) == before.remove(name@).contains_key(k));
                    if before.contains_key(k) {
                        assert(mid.remove(name@)[k] == before.remove(name@)[k]);
                    }
                }
                assert forall|j: int| 0 <= j < n && j != i implies ks[j] != name@ by {
                    assert(ks[i as int] == name@);
                }
                assert(self.databases@.dom() =~= old(self).databases@.dom());
                assert(before[name@] == old(self).databases@[ks[i as int]]);
                assert(d0 == old(self).db(name@));
                assert(self.db(name@) == d1);
                assert(o0 == old(self).key_order(name@));
                assert(self.key_order(name@) == o1);
                assert forall|j: int| 0 <= j < i + 1 implies #[trigger] self.is_purge_of(old(self), ks[j], now) by {
                    if j < i {
                        assert(ks[j] != name@);
                        assert(self.databases@.contains_key(ks[j]) == before.contains_key(ks[j]));
                        assert(before.contains_key(ks[j]));
                        assert(self.databases@[ks[j]] == before[ks[j]]);
                    } else {
                        assert(ks[j] == name@);
                    }
                }
                assert forall|j: int| i + 1 <= j < n implies #[trigger] self.databases@[ks[j]] == old(self).databases@[ks[j]] by {
                    assert(ks[j] != name@);
                    assert(self.databases@.contains_key(ks[j]) == before.contains_key(ks[j]));
                    assert(before[ks[j]] == old(self).databases@[ks[j]]);
                }
            }
            i = i + 1;
        }
        proof {
            assert forall|name: Seq<char>| #[trigger] old(self).databases@.contains_key(name) implies self.is_purge_of(
                old(self),
                name,
                now,
            ) by {
                assert(ks.to_set().contains(name));
                let j = ks.index_of(name);
                assert(ks[j] == name);
            }
        }
    }
}


/// The entry that storing string `value` at `now` with time to live `expire`
/// creates.
pub open spec fn string_entry(value: String, expire: Option<u64>, now: u64) -> Entry {
    Entry { value: Value::String(value), expires_at: deadline(expire, now) }
}

/// Reading a key back after a string was stored there answers that string with
/// its remaining time to live until it expires, and nothing afterwards.
pub proof fn law_get_after_set(
    d: Map<Seq<char>, Entry>,
    key: Seq<char>,
    value: String,
    expire: Option<u64>,
    now: u64,
    later: u64,
    r: Result<ResultGetString, Error>,
)
    ensures
        get_string_answer(d.insert(key, string_entry(value, expire, now)), key, later, r) <==> r == (
        if string_entry(value, expire, now).spec_is_expired(later) {
            Ok::<ResultGetString, Error>(ResultGetString { value: None, expire: None })
        } else {
            Ok::<ResultGetString, Error>(
                ResultGetString { value: Some(value), expire: ttl(deadline(expire, now), later) },
            )
        }),
{
}

/// Removing a key after a string was stored there answers that string until
/// it expires, and afterwards the key reads as absent.
pub proof fn law_del_after_set(
    d: Map<Seq<char>, Entry>,
    key: Seq<char>,
    value: String,
    expire: Option<u64>,
    now: u64,
    later: u64,
    r: Result<ResultDelString, Error>,
    r2: Result<ResultGetString, Error>,
)
    ensures
        del_string_answer(d.insert(key, string_entry(value, expire, now)), key, later, r) <==> r == (
        if string_entry(value, expire, now).spec_is_expired(later) {
            Ok::<ResultDelString, Error>(ResultDelString { value: None, expire: None })
        } else {
            Ok::<ResultDelString, Error>(
                ResultDelString { value: Some(value), expire: ttl(deadline(expire, now), later) },
            )
        }),
        get_string_answer(d.insert(key, string_entry(value, expire, now)).remove(key), key, later, r2)
            <==> r2 == Ok::<ResultGetString, Error>(ResultGetString { value: None, expire: None }),
{
}

/// Reading a field back after it was set answers the value that was set, with
/// the remaining time to live of the hash, until the hash expires.
pub proof fn law_hash_get_after_set(
    d: Map<Seq<char>, Entry>,
    d2: Map<Seq<char>, Entry>,
    key: Seq<char>,
    field: Seq<char>,
    value: String,
    expire: Option<u64>,
    now: u64,
    later: u64,
    r: Result<ResultHashGet, Error>,
)
    requires
        !holds_other_than_hash(d, key),
        hash_set_effect(d, d2, key, field, value, expire, now),
    ensures
        hash_get_answer(d2, key, field, later, r) <==> r == (if d2[key].spec_is_expired(later) {
            Ok::<ResultHashGet, Error>(ResultHashGet { value: None, expire: None })
        } else {
            Ok::<ResultHashGet, Error>(
                ResultHashGet { value: Some(value), expire: ttl(d2[key].expires_at, later) },
            )
        }),
{
    assert(hash_at(d2, key).contains_key(field));
}

/// Setting a field leaves the other fields of the hash, and the other keys,
/// as they were.
pub proof fn law_hash_set_keeps_others(
    d: Map<Seq<char>, Entry>,
    d2: Map<Seq<char>, Entry>,
    key: Seq<char>,
    field: Seq<char>,
    value: String,
    expire: Option<u64>,
    now: u64,
    other_key: Seq<char>,
    other_field: Seq<char>,
)
    requires
        !holds_other_than_hash(d, key),
        hash_set_effect(d, d2, key, field, value, expire, now),
    ensures
        other_key != key ==> (d2.contains_key(other_key) == d.contains_key(other_key) && (
        d.contains_key(other_key) ==> d2[other_key] == d[other_key])),
        other_field != field ==> lookup(hash_at(d2, key), other_field) == lookup(
            hash_at(d, key),
            other_field,
        ),
{
    assert(d2.remove(key).contains_key(other_key) == d.remove(key).contains_key(other_key));
    if other_key != key && d.contains_key(other_key) {
        assert(d2.remove(key)[other_key] == d.remove(key)[other_key]);
    }
}

/// After a field is removed, reading it back answers no value.
pub proof fn law_hash_get_after_del(
    d: Map<Seq<char>, Entry>,
    d2: Map<Seq<char>, Entry>,
    key: Seq<char>,
    field: Seq<char>,
    later: u64,
    r: Result<ResultHashGet, Error>,
)
    requires
        hash_del_effect(d, d2, key, field),
        hash_get_answer(d2, key, field, later, r),
    ensures
        r matches Ok(res) && res.value is None,
{
}

/// A hash that has expired has no field any more: asking for any field of it
/// answers that there is none.
pub proof fn law_expired_hash_has_no_field(
    d: Map<Seq<char>, Entry>,
    key: Seq<char>,
    field: Seq<char>,
    now: u64,
    r: Result<ResultHashExists, Error>,
)
    requires
        d.contains_key(key),
        d[key].value is Hash,
        d[key].spec_is_expired(now),
        hash_exists_answer(d, key, field, now, r),
    ensures
        r matches Ok(res) && !res.exists,
{
}

/// Asking whether a field exists and reading it agree: the field exists
/// exactly when reading it gives a value, and both fail together.
pub proof fn law_hash_exists_agrees_with_get(
    d: Map<Seq<char>, Entry>,
    key: Seq<char>,
    field: Seq<char>,
    now: u64,
    re: Result<ResultHashExists, Error>,
    rg: Result<ResultHashGet, Error>,
)
    requires
        hash_exists_answer(d, key, field, now, re),
        hash_get_answer(d, key, field, now, rg),
    ensures
        re is Ok <==> rg is Ok,
        re is Ok ==> (re->Ok_0.exists <==> rg->Ok_0.value is Some),
{
}

/// After a field was set, it exists until the hash expires and not after; in
/// particular it is gone once the time to live given with it has passed.
pub proof fn law_hash_exists_after_set(
    d: Map<Seq<char>, Entry>,
    d2: Map<Seq<char>, Entry>,
    key: Seq<char>,
    field: Seq<char>,
    value: String,
    expire: Option<u64>,
    now: u64,
    later: u64,
    r: Result<ResultHashExists, Error>,
)
    requires
        !holds_other_than_hash(d, key),
        hash_set_effect(d, d2, key, field, value, expire, now),
        hash_exists_answer(d2, key, field, later, r),
    ensures
        r matches Ok(res) && res.exists == !d2[key].spec_is_expired(later),
        (expire matches Some(t) && now + t <= later) ==> !r->Ok_0.exists,
{
    assert(hash_at(d2, key).contains_key(field));
}

/// A hash that has expired lists no fields and counts none.
pub proof fn law_expired_hash_lists_nothing(
    d: Map<Seq<char>, Entry>,
    key: Seq<char>,
    now: u64,
    r: Result<ResultHashFields, Error>,
)
    requires
        d.contains_key(key),
        d[key].value is Hash,
        d[key].spec_is_expired(now),
        hash_fields_answer(d, key, now, r),
    ensures
        r matches Ok(res) && res.fields@.len() == 0 && res.total == 0,
{
}

/// Listing the fields of a hash, counting them and asking for one of them
/// agree: a field is listed exactly when it is said to exist, the count
/// listed is the count answered, and all three fail together.
pub proof fn law_hash_fields_agree(
    d: Map<Seq<char>, Entry>,
    key: Seq<char>,
    field: Seq<char>,
    now: u64,
    rf: Result<ResultHashFields, Error>,
    re: Result<ResultHashExists, Error>,
    rl: Result<ResultHashLen, Error>,
)
    requires
        hash_fields_answer(d, key, now, rf),
        hash_exists_answer(d, key, field, now, re),
        hash_len_answer(d, key, now, rl),
    ensures
        rf is Ok <==> re is Ok,
        rf is Ok <==> rl is Ok,
        rf is Ok ==> rf->Ok_0.total == rl->Ok_0.len,
        rf is Ok ==> ((exists|i: int|
            0 <= i < rf->Ok_0.fields@.len() && #[trigger] rf->Ok_0.fields@[i]@ == field)
            <==> re->Ok_0.exists),
{
    if rf is Ok && d.contains_key(key) && d[key].value is Hash && !d[key].spec_is_expired(now) {
        let h = d[key].value->Hash_0;
        let fs = rf->Ok_0.fields@;
        let ks = h.key_seq();
        if exists|i: int| 0 <= i < fs.len() && #[trigger] fs[i]@ == field {
            let i = choose|i: int| 0 <= i < fs.len() && #[trigger] fs[i]@ == field;
            assert(fs[i]@ == ks[i]);
            assert(ks.contains(field));
            assert(ks.to_set().contains(field));
        }
        if h@.contains_key(field) {
            assert(ks.to_set().contains(field));
            assert(ks.contains(field));
            let i = choose|i: int| 0 <= i < ks.len() && ks[i] == field;
            assert(fs[i]@ == ks[i]);
        }
    }
}

/// After a field was set, the fields listed include it until the hash
/// expires, and none are listed once the time to live given with it has
/// passed.
pub proof fn law_hash_fields_after_set(
    d: Map<Seq<char>, Entry>,
    d2: Map<Seq<char>, Entry>,
    key: Seq<char>,
    field: Seq<char>,
    value: String,
    expire: Option<u64>,
    now: u64,
    later: u64,
    r: Result<ResultHashFields, Error>,
)
    requires
        !holds_other_than_hash(d, key),
        hash_set_effect(d, d2, key, field, value, expire, now),
        hash_fields_answer(d2, key, later, r),
    ensures
        r is Ok,
        d2[key].spec_is_expired(later) ==> r->Ok_0.fields@.len() == 0 && r->Ok_0.total == 0,
        (expire matches Some(t) && now + t <= later) ==> r->Ok_0.fields@.len() == 0,
        !d2[key].spec_is_expired(later) ==> exists|i: int|
            0 <= i < r->Ok_0.fields@.len() && #[trigger] r->Ok_0.fields@[i]@ == field,
{
    assert(hash_at(d2, key).contains_key(field));
    if !d2[key].spec_is_expired(later) {
        let h = d2[key].value->Hash_0;
        let ks = h.key_seq();
        assert(ks.to_set().contains(field));
        assert(ks.contains(field));
        let i = choose|i: int| 0 <= i < ks.len() && ks[i] == field;
        assert(r->Ok_0.fields@[i]@ == ks[i]);
    }
}

/// A key whose entry has expired reads as absent, whatever it holds: it does
/// not exist, a string reads as no value, a hash field as no value and a hash
/// counts no field.
pub proof fn law_expired_key_reads_as_absent(
    d: Map<Seq<char>, Entry>,
    key: Seq<char>,
    field: Seq<char>,
    now: u64,
    rs: Result<ResultGetString, Error>,
    rg: Result<ResultHashGet, Error>,
    rl: Result<ResultHashLen, Error>,
)
    requires
        expired_in(d, key, now),
        get_string_answer(d, key, now, rs),
        hash_get_answer(d, key, field, now, rg),
        hash_len_answer(d, key, now, rl),
    ensures
        !exists_answer(d, key, now),
        d[key].value is String ==> (rs matches Ok(res) && res.value is None),
        d[key].value is Hash ==> (rg matches Ok(res) && res.value is None),
        d[key].value is Hash ==> (rl matches Ok(res) && res.len == 0),
{
}

/// Dropping expired entries twice drops no more than dropping them once.
pub proof fn law_purge_idempotent(d: Map<Seq<char>, Entry>, now: u64)
    ensures
        live(live(d, now), now) == live(d, now),
{
    assert(live(live(d, now), now) =~= live(d, now));
}

/// Consecutive pages of the key listing, put together, are one larger page.
pub proof fn law_pages_concatenate(ks: Seq<Seq<char>>, start: nat, a: nat, b: nat)
    ensures
        page_of(ks, start as int, a as int) + page_of(ks, (start + a) as int, b as int) == page_of(
            ks,
            start as int,
            (a + b) as int,
        ),
{
    assert(page_of(ks, start as int, a as int) + page_of(ks, (start + a) as int, b as int) =~= page_of(
        ks,
        start as int,
        (a + b) as int,
    ));
}


/// Pages 1 to `p` of the key listing `ks`, `size` keys each, put together.
pub open spec fn pages(ks: Seq<Seq<char>>, size: nat, p: nat) -> Seq<Seq<char>>
    decreases p,
{
    if p == 0 {
        Seq::empty()
    } else {
        pages(ks, size, (p - 1) as nat) + page_of(ks, (p - 1) * size, size as int)
    }
}

/// Page `p` ends `size` keys after page `p - 1`.
proof fn lemma_page_end(size: nat, p: nat)
    by (nonlinear_arith)
    requires
        p >= 1,
    ensures
        (p - 1) * size + size == p * size,
        (p - 1) * size <= p * size,
{
}

#[verifier::spinoff_prover]
proof fn lemma_pages_prefix(ks: Seq<Seq<char>>, size: nat, p: nat)
    ensures
        pages(ks, size, p) == ks.subrange(
            0,
            if p * size < ks.len() {
                (p * size) as int
            } else {
                ks.len() as int
            },
        ),
    decreases p,
{
    if p == 0 {
        assert(pages(ks, size, p) =~= ks.subrange(0, 0));
    } else {
        lemma_pages_prefix(ks, size, (p - 1) as nat);
        lemma_page_end(size, p);
        assert(pages(ks, size, p) =~= ks.subrange(
            0,
            if p * size < ks.len() {
                (p * size) as int
            } else {
                ks.len() as int
            },
        ));
    }
}

/// Paging through the listing `ks`, `size` keys a page, from page 1 until
/// the pages cover all keys, lists every key exactly once and in order.
pub proof fn law_pages_cover_listing(ks: Seq<Seq<char>>, size: nat, p: nat)
    requires
        size >= 1,
        p * size >= ks.len(),
    ensures
        pages(ks, size, p) == ks,
{
    lemma_pages_prefix(ks, size, p);
    assert(ks.subrange(0, ks.len() as int) =~= ks);
}

} // verus!

//! Recovery of the keyspaces from a snapshot and the write-ahead log that
//! followed it.
use vstd::prelude::*;

use crate::state::Database;
use crate::strmap::StrMap;
use crate::value::{Entry, Value};

verus! {

/// A record of the write-ahead log.
pub enum WalEntry {
    /// `key` of keyspace `db` was set to `entry`.
    Put { db: String, key: String, entry: Entry },
    /// `key` of keyspace `db` was removed.
    Delete { db: String, key: String },
    /// `key` of keyspace `db` was given the expiry time `expires_at`.
    Expire { db: String, key: String, expires_at: u64 },
}

/// The entries of each keyspace, by name.
pub open spec fn keyspaces(m: StrMap<Database>) -> Map<Seq<char>, Map<Seq<char>, Entry>> {
    Map::new(|n: Seq<char>| m@.contains_key(n), |n: Seq<char>| m@[n]@)
}

/// The keyspaces after one record is applied. Setting a key creates its
/// keyspace; removing a key or giving it an expiry time changes nothing when
/// the keyspace or the key does not exist.
pub open spec fn apply_record(
    s: Map<Seq<char>, Map<Seq<char>, Entry>>,
    e: WalEntry,
) -> Map<Seq<char>, Map<Seq<char>, Entry>> {
    match e {
        WalEntry::Put { db, key, entry } => s.insert(
            db@,
            (if s.contains_key(db@) {
                s[db@]
            } else {
                Map::empty()
            }).insert(key@, entry),
        ),
        WalEntry::Delete { db, key } => if s.contains_key(db@) {
            s.insert(db@, s[db@].remove(key@))
        } else {
            s
        },
        WalEntry::Expire { db, key, expires_at } => if s.contains_key(db@) && s[db@].contains_key(key@) {
            s.insert(
                db@,
                s[db@].insert(key@, Entry { value: s[db@][key@].value, expires_at: Some(expires_at) }),
            )
        } else {
            s
        },
    }
}

/// The keyspaces after the records `es` are applied in order.
pub open spec fn replay(
    s: Map<Seq<char>, Map<Seq<char>, Entry>>,
    es: Seq<WalEntry>,
) -> Map<Seq<char>, Map<Seq<char>, Entry>>
    decreases es.len(),
{
    if es.len() == 0 {
        s
    } else {
        apply_record(replay(s, es.drop_last()), es.last())
    }
}

proof fn lemma_keyspaces_insert(m: StrMap<Database>, m2: StrMap<Database>, n: Seq<char>, d: Database)
    requires
        m2@ == m@.insert(n, d),
    ensures
        keyspaces(m2) == keyspaces(m).insert(n, d@),
{
    assert(keyspaces(m2) =~= keyspaces(m).insert(n, d@));
}

/// Applies one record to the keyspaces.
pub fn apply(dbs: &mut StrMap<Database>, e: WalEntry)
    ensures
        keyspaces(*final(dbs)) == apply_record(keyspaces(*old(dbs)), e),
{
    let ghost e0 = e;
    match e {
        WalEntry::Put { db, key, entry } => {
            let empty: Database = StrMap::new();
            let ghost em = empty;
            let mut d = match dbs.insert(db.clone(), empty) {
                Some(d) => d,
                None => StrMap::new(),
            };
            let ghost mid = *dbs;
            d.insert(key, entry);
            dbs.insert(db, d);
            proof {
                lemma_keyspaces_insert(*old(dbs), mid, db@, em);
                lemma_keyspaces_insert(mid, *dbs, db@, d);
                assert(keyspaces(*dbs) =~= apply_record(keyspaces(*old(dbs)), e0));
            }
        },
        WalEntry::Delete { db, key } => {
            if dbs.contains_key(&db) {
                let mut d = match dbs.insert(db.clone(), StrMap::new()) {
                    Some(d) => d,
                    None => StrMap::new(),
                };
                let ghost mid = *dbs;
                d.remove(&key);
                dbs.insert(db, d);
                proof {
                    lemma_keyspaces_insert(mid, *dbs, db@, d);
                    assert(keyspaces(*dbs) =~= apply_record(keyspaces(*old(dbs)), e0));
                }
            }
        },
        WalEntry::Expire { db, key, expires_at } => {
            let has_key = match dbs.get(&db) {
                Some(d) => d.contains_key(&key),
                None => false,
            };
            if has_key {
                let empty: Database = StrMap::new();
                let ghost em = empty;
                let mut d = match dbs.insert(db.clone(), empty) {
                    Some(d) => d,
                    None => StrMap::new(),
                };
                let ghost mid = *dbs;
                let ghost d0 = d;
                assert(d0@ == old(dbs)@[db@]@);
                let placeholder = Entry { value: Value::String(String::new()), expires_at: None };
                match d.insert(key.clone(), placeholder) {
                    Some(old_entry) => {
                        d.insert(key, Entry { value: old_entry.value, expires_at: Some(expires_at) });
                    },
                    None => {},
                }
                assert(d@ =~= d0@.insert(key@, Entry { value: d0@[key@].value, expires_at: Some(expires_at) }));
                dbs.insert(db, d);
                proof {
                    lemma_keyspaces_insert(*old(dbs), mid, db@, em);
                    lemma_keyspaces_insert(mid, *dbs, db@, d);
                    assert(keyspaces(*dbs) =~= apply_record(keyspaces(*old(dbs)), e0));
                }
            } else {
                proof {
                    assert(keyspaces(*dbs) =~= apply_record(keyspaces(*old(dbs)), e0));
                }
            }
        },
    }
}

/// The keyspaces recovered from a snapshot, if there is one, and the records
/// of the write-ahead log written after it, applied in order.
pub fn recover(snapshot: Option<StrMap<Database>>, wal: Vec<WalEntry>) -> (r: StrMap<Database>)
    ensures
        keyspaces(r) == replay(
            match snapshot {
                Some(s) => keyspaces(s),
                None => Map::empty(),
            },
            wal@,
        ),
{
    let mut dbs = match snapshot {
        Some(s) => s,
        None => StrMap::new(),
    };
    let ghost start = keyspaces(dbs);
    proof {
        assert(start =~= match snapshot {
            Some(s) => keyspaces(s),
            None => Map::empty(),
        });
    }
    let ghost ws = wal@;
    for e in it: wal
        invariant
            it.seq() == ws,
            keyspaces(dbs) == replay(start, ws.take(it.index())),
    {
        proof {
            assert(ws.take(it.index() + 1).drop_last() =~= ws.take(it.index()));
        }
        apply(&mut dbs, e);
    }
    proof {
        assert(ws.take(ws.len() as int) =~= ws);
    }
    dbs
}


/// After a `Put` record its key holds the record's entry, whatever it held
/// before and whether its keyspace existed; every other key and keyspace is
/// as it was.
pub proof fn law_put_overwrites(
    s: Map<Seq<char>, Map<Seq<char>, Entry>>,
    es: Seq<WalEntry>,
    db: String,
    key: String,
    entry: Entry,
    other_db: Seq<char>,
    other_key: Seq<char>,
)
    ensures
        ({
            let before = replay(s, es);
            let after = replay(s, es.push(WalEntry::Put { db, key, entry }));
            &&& after.contains_key(db@)
            &&& after[db@].contains_key(key@)
            &&& after[db@][key@] == entry
            &&& other_key != key@ ==> (after[db@].contains_key(other_key) == (before.contains_key(db@)
                && before[db@].contains_key(other_key)))
            &&& (other_key != key@ && before.contains_key(db@) && before[db@].contains_key(other_key))
                ==> after[db@][other_key] == before[db@][other_key]
            &&& other_db != db@ ==> (after.contains_key(other_db) == before.contains_key(other_db))
            &&& (other_db != db@ && before.contains_key(other_db)) ==> after[other_db] == before[other_db]
        }),
{
    assert(es.push(WalEntry::Put { db, key, entry }).drop_last() =~= es);
}

/// After a `Delete` record its key holds nothing; the other keys of its
/// keyspace are as they were.
pub proof fn law_delete_removes(
    s: Map<Seq<char>, Map<Seq<char>, Entry>>,
    es: Seq<WalEntry>,
    db: String,
    key: String,
    other_key: Seq<char>,
)
    ensures
        ({
            let before = replay(s, es);
            let after = replay(s, es.push(WalEntry::Delete { db, key }));
            &&& after.contains_key(db@) == before.contains_key(db@)
            &&& after.contains_key(db@) ==> !after[db@].contains_key(key@)
            &&& (other_key != key@ && before.contains_key(db@)) ==> (after[db@].contains_key(other_key)
                == before[db@].contains_key(other_key))
            &&& (other_key != key@ && before.contains_key(db@) && before[db@].contains_key(other_key))
                ==> after[db@][other_key] == before[db@][other_key]
        }),
{
    assert(es.push(WalEntry::Delete { db, key }).drop_last() =~= es);
}

/// After an `Expire` record a key that exists keeps its value and has the
/// record's expiry time; a key that does not exist is not created.
pub proof fn law_expire_sets_time(
    s: Map<Seq<char>, Map<Seq<char>, Entry>>,
    es: Seq<WalEntry>,
    db: String,
    key: String,
    expires_at: u64,
)
    ensures
        ({
            let before = replay(s, es);
            let after = replay(s, es.push(WalEntry::Expire { db, key, expires_at }));
            &&& (before.contains_key(db@) && before[db@].contains_key(key@)) ==> {
                &&& after[db@].contains_key(key@)
                &&& after[db@][key@].value == before[db@][key@].value
                &&& after[db@][key@].expires_at == Some(expires_at)
            }
            &&& !(before.contains_key(db@) && before[db@].contains_key(key@)) ==> after == before
        }),
{
    assert(es.push(WalEntry::Expire { db, key, expires_at }).drop_last() =~= es);
}

/// Replaying a log in two parts, the second from where the first left off,
/// gives what replaying it whole gives; so a snapshot taken after the first
/// part may stand in for it.
pub proof fn law_replay_in_parts(
    s: Map<Seq<char>, Map<Seq<char>, Entry>>,
    es1: Seq<WalEntry>,
    es2: Seq<WalEntry>,
)
    ensures
        replay(s, es1 + es2) == replay(replay(s, es1), es2),
    decreases es2.len(),
{
    if es2.len() == 0 {
        assert(es1 + es2 =~= es1);
    } else {
        law_replay_in_parts(s, es1, es2.drop_last());
        assert((es1 + es2).drop_last() =~= es1 + es2.drop_last());
    }
}

} // verus!

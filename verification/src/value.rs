//! The values that the store keeps under its keys.
use vstd::prelude::*;

use std::collections::{BTreeMap, BTreeSet, VecDeque};

use crate::strmap::StrMap;

verus! {

/// A stored value.
#[derive(Debug)]
pub enum Value {
    String(String),
    List(VecDeque<String>),
    Hash(StrMap<String>),
    /// A set of members.
    StrSet(BTreeSet<String>),
    /// Members with their scores; a score is kept as the bit pattern of an
    /// IEEE 754 double.
    SortedSet(BTreeMap<String, u64>),
}

/// A value with the Unix time, in seconds, at which it expires, if it does.
#[derive(Debug)]
pub struct Entry {
    pub value: Value,
    pub expires_at: Option<u64>,
}

impl Entry {
    /// Whether the entry has expired at time `now`: it has an expiry time and
    /// that time is not later than `now`.
    pub open spec fn spec_is_expired(&self, now: u64) -> bool {
        match self.expires_at {
            Some(t) => t <= now,
            None => false,
        }
    }

    /// Whether the entry has expired at time `now`.
    pub fn is_expired(&self, now: u64) -> (b: bool)
        ensures
            b == self.spec_is_expired(now),
    {
        match self.expires_at {
            Some(t) => t <= now,
            None => false,
        }
    }
}

} // verus!

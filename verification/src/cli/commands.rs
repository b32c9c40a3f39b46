//! Reading the client's command lines.
use vstd::prelude::*;

use std::num::ParseIntError;

use crate::command::hash::{HashDel, HashExists, HashFields, HashGet, HashLen, HashSet};
use crate::command::string::{DelString, GetString, SetString};
use crate::command::{Exists, Expire, Keys};
use crate::text::{
    decimal, is_white_space, is_whitespace, parse_u64, parse_unsigned, parse_usize, push_char,
    push_decimal,
};

verus! {


/// The tokenizer's state: the words so far, the word being read, whether a
/// double quote is open, and whether the next character is escaped.
pub type TokenState = (Seq<Seq<char>>, Seq<char>, bool, bool);

/// One character through the tokenizer. A backslash makes the next character
/// literal; a double quote opens or closes a quoted stretch and is dropped;
/// white space outside quotes ends the current word.
pub open spec fn token_step(st: TokenState, c: char) -> TokenState {
    let (parts, cur, in_quotes, escape) = st;
    if escape {
        (parts, cur.push(c), in_quotes, false)
    } else if c == '\\' {
        (parts, cur, in_quotes, true)
    } else if c == '"' {
        (parts, cur, !in_quotes, false)
    } else if is_white_space(c) && !in_quotes {
        if cur.len() > 0 {
            (parts.push(cur), Seq::empty(), in_quotes, false)
        } else {
            (parts, cur, in_quotes, false)
        }
    } else {
        (parts, cur.push(c), in_quotes, false)
    }
}

/// The tokenizer's state after the characters `cs`.
pub open spec fn token_run(cs: Seq<char>) -> TokenState
    decreases cs.len(),
{
    if cs.len() == 0 {
        (Seq::empty(), Seq::empty(), false, false)
    } else {
        token_step(token_run(cs.drop_last()), cs.last())
    }
}

/// The words of a command line.
pub open spec fn tokens(cs: Seq<char>) -> Seq<Seq<char>> {
    let st = token_run(cs);
    if st.1.len() > 0 {
        st.0.push(st.1)
    } else {
        st.0
    }
}

/// Splits a command line into words.
pub fn parse_input(input: &str) -> (parts: Vec<String>)
    ensures
        parts@.len() == tokens(input@).len(),
        forall|i: int| 0 <= i < parts@.len() ==> #[trigger] parts@[i]@ == tokens(input@)[i],
{
    let mut parts: Vec<String> = Vec::new();
    let mut current = String::new();
    let mut in_quotes = false;
    let mut escape = false;
    let ghost cs = input@;
    for ch in it: input.chars()
        invariant
            it.seq() == cs,
            ({
                let st = token_run(cs.take(it.index()));
                &&& parts@.len() == st.0.len()
                &&& forall|i: int| 0 <= i < parts@.len() ==> #[trigger] parts@[i]@ == st.0[i]
                &&& current@ == st.1
                &&& in_quotes == st.2
                &&& escape == st.3
            }),
    {
        assert(cs.take(it.index() + 1).drop_last() =~= cs.take(it.index()));
        if escape {
            push_char(&mut current, ch);
            escape = false;
        } else if ch == '\\' {
            escape = true;
        } else if ch == '"' {
            in_quotes = !in_quotes;
        } else if is_whitespace(ch) && !in_quotes {
            if !current.as_str().is_empty() {
                parts.push(current);
                current = String::new();
            }
        } else {
            push_char(&mut current, ch);
        }
    }
    assert(cs.take(cs.len() as int) =~= cs);
    if !current.as_str().is_empty() {
        parts.push(current);
    }
    parts
}


/// No word of a command line is empty.
pub proof fn law_tokens_not_empty(cs: Seq<char>)
    ensures
        forall|i: int| 0 <= i < tokens(cs).len() ==> #[trigger] tokens(cs)[i].len() > 0,
    decreases cs.len(),
{
    lemma_parts_not_empty(cs);
}

proof fn lemma_parts_not_empty(cs: Seq<char>)
    ensures
        forall|i: int| 0 <= i < token_run(cs).0.len() ==> #[trigger] token_run(cs).0[i].len() > 0,
    decreases cs.len(),
{
    if cs.len() > 0 {
        lemma_parts_not_empty(cs.drop_last());
        let prev = token_run(cs.drop_last());
        let next = token_run(cs);
        assert(next == token_step(prev, cs.last()));
        assert forall|i: int| 0 <= i < next.0.len() implies #[trigger] next.0[i].len() > 0 by {
            if i < prev.0.len() {
                assert(next.0[i] == prev.0[i]);
            }
        }
    }
}

/// `w` written so that the tokenizer reads it back: each double quote and
/// backslash preceded by a backslash.
pub open spec fn escaped(w: Seq<char>) -> Seq<char>
    decreases w.len(),
{
    if w.len() == 0 {
        Seq::empty()
    } else {
        let c = w.last();
        escaped(w.drop_last()) + if c == '"' || c == '\\' {
            seq!['\\', c]
        } else {
            seq![c]
        }
    }
}

proof fn lemma_run_push(cs: Seq<char>, c: char)
    ensures
        token_run(cs.push(c)) == token_step(token_run(cs), c),
{
    assert(cs.push(c).drop_last() =~= cs);
}

/// Inside an open double quote, the escaped form of `w` adds exactly `w` to
/// the word being read.
proof fn lemma_quoted_run(pre: Seq<char>, w: Seq<char>)
    requires
        token_run(pre).2,
        !token_run(pre).3,
    ensures
        token_run(pre + escaped(w)) == (token_run(pre).0, token_run(pre).1 + w, true, false),
    decreases w.len(),
{
    if w.len() == 0 {
        assert(pre + escaped(w) =~= pre);
        assert(token_run(pre).1 + w =~= token_run(pre).1);
    } else {
        let u = w.drop_last();
        let c = w.last();
        lemma_quoted_run(pre, u);
        let st = token_run(pre + escaped(u));
        if c == '"' || c == '\\' {
            let a = (pre + escaped(u)).push('\\');
            assert(pre + escaped(w) =~= a.push(c));
            lemma_run_push(pre + escaped(u), '\\');
            lemma_run_push(a, c);
        } else {
            assert(pre + escaped(w) =~= (pre + escaped(u)).push(c));
            lemma_run_push(pre + escaped(u), c);
        }
        assert(token_run(pre).1 + u + seq![c] =~= token_run(pre).1 + w);
        assert(st.1.push(c) =~= st.1 + seq![c]);
    }
}

/// A word written between double quotes, with each double quote and
/// backslash in it escaped by a backslash, reads back as that one word,
/// whatever characters it holds (white space, quotes, backslashes); an empty
/// one gives no word.
pub proof fn law_quoted_word_reads_back(w: Seq<char>)
    ensures
        tokens(seq!['"'] + escaped(w) + seq!['"']) == if w.len() > 0 {
            seq![w]
        } else {
            Seq::<Seq<char>>::empty()
        },
{
    let open = seq!['"'];
    lemma_run_push(Seq::empty(), '"');
    assert(Seq::<char>::empty().push('"') =~= open);
    lemma_quoted_run(open, w);
    assert(Seq::<char>::empty() + w =~= w);
    lemma_run_push(open + escaped(w), '"');
    assert((open + escaped(w)).push('"') =~= open + escaped(w) + seq!['"']);
}

/// Why a command line could not be turned into a request.
#[derive(Debug)]
pub enum CliError {
    /// Too few words; the message says how the command is used.
    Usage(String),
    /// A number did not parse.
    Number(ParseIntError),
}

/// `r` is the usage error with message `msg`.
pub open spec fn is_usage<T>(r: Result<T, CliError>, msg: Seq<char>) -> bool {
    r matches Err(CliError::Usage(m)) && m@ == msg
}

/// The optional time to live in word `i` of `parts`: absent when there are
/// not that many words.
pub open spec fn expire_word(parts: Seq<String>, i: int) -> Option<Option<nat>> {
    if parts.len() > i {
        match parse_unsigned(parts[i]@, u64::MAX as nat) {
            Some(v) => Some(Some(v)),
            None => None,
        }
    } else {
        Some(None)
    }
}

fn usage<T>(msg: &str) -> (r: Result<T, CliError>)
    ensures
        is_usage(r, msg@),
{
    Err(CliError::Usage(String::from_str(msg)))
}

/// Reads an optional time to live from word `i`.
fn read_expire(parts: &Vec<String>, i: usize) -> (r: Result<Option<u64>, ParseIntError>)
    ensures
        match r {
            Ok(Some(v)) => expire_word(parts@, i as int) == Some(Some(v as nat)),
            Ok(None) => expire_word(parts@, i as int) == Some(None::<nat>),
            Err(_) => expire_word(parts@, i as int) is None,
        },
{
    if parts.len() > i {
        match parse_u64(parts[i].as_str()) {
            Ok(v) => Ok(Some(v)),
            Err(e) => Err(e),
        }
    } else {
        Ok(None)
    }
}

/// `SET <key> <value> [expire]` in keyspace `db`.
pub fn set_request(db: &String, parts: &Vec<String>) -> (r: Result<SetString, CliError>)
    ensures
        parts@.len() < 3 ==> is_usage(r, "Usage: SET <key> <value> [expire]"@),
        parts@.len() >= 3 ==> match r {
            Ok(req) => {
                &&& req.db@ == db@ && req.key@ == parts@[1]@ && req.value@ == parts@[2]@
                &&& expire_word(parts@, 3) == Some(
                    match req.expire {
                        Some(v) => Some(v as nat),
                        None => None::<nat>,
                    },
                )
            },
            Err(CliError::Number(_)) => expire_word(parts@, 3) is None,
            Err(CliError::Usage(_)) => false,
        },
{
    if parts.len() < 3 {
        return usage("Usage: SET <key> <value> [expire]");
    }
    match read_expire(parts, 3) {
        Ok(expire) => Ok(
            SetString { db: db.clone(), key: parts[1].clone(), value: parts[2].clone(), expire },
        ),
        Err(e) => Err(CliError::Number(e)),
    }
}

/// `GET <key>` in keyspace `db`.
pub fn get_request(db: &String, parts: &Vec<String>) -> (r: Result<GetString, CliError>)
    ensures
        parts@.len() < 2 ==> is_usage(r, "Usage: GET <key>"@),
        parts@.len() >= 2 ==> (r matches Ok(req) && req.db@ == db@ && req.key@ == parts@[1]@),
{
    if parts.len() < 2 {
        return usage("Usage: GET <key>");
    }
    Ok(GetString { db: db.clone(), key: parts[1].clone() })
}

/// `DEL <key>` in keyspace `db`.
pub fn del_request(db: &String, parts: &Vec<String>) -> (r: Result<DelString, CliError>)
    ensures
        parts@.len() < 2 ==> is_usage(r, "Usage: DEL <key>"@),
        parts@.len() >= 2 ==> (r matches Ok(req) && req.db@ == db@ && req.key@ == parts@[1]@),
{
    if parts.len() < 2 {
        return usage("Usage: DEL <key>");
    }
    Ok(DelString { db: db.clone(), key: parts[1].clone() })
}

/// `EXISTS <key>` in keyspace `db`.
pub fn exists_request(db: &String, parts: &Vec<String>) -> (r: Result<Exists, CliError>)
    ensures
        parts@.len() < 2 ==> is_usage(r, "Usage: EXISTS <key>"@),
        parts@.len() >= 2 ==> (r matches Ok(req) && req.db@ == db@ && req.key@ == parts@[1]@),
{
    if parts.len() < 2 {
        return usage("Usage: EXISTS <key>");
    }
    Ok(Exists { db: db.clone(), key: parts[1].clone() })
}

/// `EXPIRE <key> <seconds>` in keyspace `db`.
pub fn expire_request(db: &String, parts: &Vec<String>) -> (r: Result<Expire, CliError>)
    ensures
        parts@.len() < 3 ==> is_usage(r, "Usage: EXPIRE <key> <seconds>"@),
        parts@.len() >= 3 ==> match r {
            Ok(req) => req.db@ == db@ && req.key@ == parts@[1]@ && parse_unsigned(
                parts@[2]@,
                u64::MAX as nat,
            ) == Some(req.expire as nat),
            Err(CliError::Number(_)) => parse_unsigned(parts@[2]@, u64::MAX as nat) is None,
            Err(CliError::Usage(_)) => false,
        },
{
    if parts.len() < 3 {
        return usage("Usage: EXPIRE <key> <seconds>");
    }
    match parse_u64(parts[2].as_str()) {
        Ok(expire) => Ok(Expire { db: db.clone(), key: parts[1].clone(), expire }),
        Err(e) => Err(CliError::Number(e)),
    }
}

/// The number in word `i` of `parts`, or `default` when there is no such word
/// or it is not a number.
pub open spec fn number_or(parts: Seq<String>, i: int, default: nat) -> nat {
    if parts.len() > i {
        match parse_unsigned(parts[i]@, usize::MAX as nat) {
            Some(v) => v,
            None => default,
        }
    } else {
        default
    }
}

fn read_number_or(parts: &Vec<String>, i: usize, default: usize) -> (n: usize)
    ensures
        n as nat == number_or(parts@, i as int, default as nat),
{
    if parts.len() > i {
        match parse_usize(parts[i].as_str()) {
            Ok(v) => v,
            Err(_) => default,
        }
    } else {
        default
    }
}

/// `KEYS [page] [size]` in keyspace `db`: page 1 and 100 keys unless given.
pub fn keys_request(db: &String, parts: &Vec<String>) -> (req: Keys)
    ensures
        req.db@ == db@,
        req.page as nat == number_or(parts@, 1, 1),
        req.size as nat == number_or(parts@, 2, 100),
{
    Keys { db: db.clone(), page: read_number_or(parts, 1, 1), size: read_number_or(parts, 2, 100) }
}

/// `HSET <key> <field> <value> [expire]` in keyspace `db`.
pub fn hset_request(db: &String, parts: &Vec<String>) -> (r: Result<HashSet, CliError>)
    ensures
        parts@.len() < 4 ==> is_usage(r, "Usage: HSET <key> <field> <value> [expire]"@),
        parts@.len() >= 4 ==> match r {
            Ok(req) => {
                &&& req.db@ == db@ && req.key@ == parts@[1]@ && req.field@ == parts@[2]@
                &&& req.value@ == parts@[3]@
                &&& expire_word(parts@, 4) == Some(
                    match req.expire {
                        Some(v) => Some(v as nat),
                        None => None::<nat>,
                    },
                )
            },
            Err(CliError::Number(_)) => expire_word(parts@, 4) is None,
            Err(CliError::Usage(_)) => false,
        },
{
    if parts.len() < 4 {
        return usage("Usage: HSET <key> <field> <value> [expire]");
    }
    match read_expire(parts, 4) {
        Ok(expire) => Ok(
            HashSet {
                db: db.clone(),
                key: parts[1].clone(),
                field: parts[2].clone(),
                value: parts[3].clone(),
                expire,
            },
        ),
        Err(e) => Err(CliError::Number(e)),
    }
}

/// `HGET <key> <field>` in keyspace `db`.
pub fn hget_request(db: &String, parts: &Vec<String>) -> (r: Result<HashGet, CliError>)
    ensures
        parts@.len() < 3 ==> is_usage(r, "Usage: HGET <key> <field>"@),
        parts@.len() >= 3 ==> (r matches Ok(req) && req.db@ == db@ && req.key@ == parts@[1]@
            && req.field@ == parts@[2]@),
{
    if parts.len() < 3 {
        return usage("Usage: HGET <key> <field>");
    }
    Ok(HashGet { db: db.clone(), key: parts[1].clone(), field: parts[2].clone() })
}

/// `HDEL <key> <field>` in keyspace `db`.
pub fn hdel_request(db: &String, parts: &Vec<String>) -> (r: Result<HashDel, CliError>)
    ensures
        parts@.len() < 3 ==> is_usage(r, "Usage: HDEL <key> <field>"@),
        parts@.len() >= 3 ==> (r matches Ok(req) && req.db@ == db@ && req.key@ == parts@[1]@
            && req.field@ == parts@[2]@),
{
    if parts.len() < 3 {
        return usage("Usage: HDEL <key> <field>");
    }
    Ok(HashDel { db: db.clone(), key: parts[1].clone(), field: parts[2].clone() })
}

/// `HEXISTS <key> <field>` in keyspace `db`.
pub fn hexists_request(db: &String, parts: &Vec<String>) -> (r: Result<HashExists, CliError>)
    ensures
        parts@.len() < 3 ==> is_usage(r, "Usage: HEXISTS <key> <field>"@),
        parts@.len() >= 3 ==> (r matches Ok(req) && req.db@ == db@ && req.key@ == parts@[1]@
            && req.field@ == parts@[2]@),
{
    if parts.len() < 3 {
        return usage("Usage: HEXISTS <key> <field>");
    }
    Ok(HashExists { db: db.clone(), key: parts[1].clone(), field: parts[2].clone() })
}

/// `HLEN <key>` in keyspace `db`.
pub fn hlen_request(db: &String, parts: &Vec<String>) -> (r: Result<HashLen, CliError>)
    ensures
        parts@.len() < 2 ==> is_usage(r, "Usage: HLEN <key>"@),
        parts@.len() >= 2 ==> (r matches Ok(req) && req.db@ == db@ && req.key@ == parts@[1]@),
{
    if parts.len() < 2 {
        return usage("Usage: HLEN <key>");
    }
    Ok(HashLen { db: db.clone(), key: parts[1].clone() })
}

/// `HFIELDS <key>` in keyspace `db`.
pub fn hfields_request(db: &String, parts: &Vec<String>) -> (r: Result<HashFields, CliError>)
    ensures
        parts@.len() < 2 ==> is_usage(r, "Usage: HFIELDS <key>"@),
        parts@.len() >= 2 ==> (r matches Ok(req) && req.db@ == db@ && req.key@ == parts@[1]@),
{
    if parts.len() < 2 {
        return usage("Usage: HFIELDS <key>");
    }
    Ok(HashFields { db: db.clone(), key: parts[1].clone() })
}

/// `USE <db>`: switches to keyspace `parts[1]` and says so.
pub fn handle_use(db: &mut String, parts: &Vec<String>) -> (r: Result<String, String>)
    ensures
        parts@.len() < 2 ==> (r matches Err(m) && m@ == "Usage: USE <db>"@ && *final(db) == *old(db)),
        parts@.len() >= 2 ==> final(db)@ == parts@[1]@,
        parts@.len() >= 2 ==> (r matches Ok(m) && m@ == "Switched to database \""@ + parts@[1]@
            + "\""@),
{
    if parts.len() < 2 {
        return Err(String::from_str("Usage: USE <db>"));
    }
    *db = parts[1].clone();
    let mut m = String::from_str("Switched to database \"");
    m.append(db.as_str());
    m.append("\"");
    Ok(m)
}

/// How a looked-up value is shown: in double quotes, or `(nil)` when absent.
pub open spec fn shown_value(v: Option<String>) -> Seq<char> {
    match v {
        Some(s) => "\""@ + s@ + "\""@,
        None => "(nil)"@,
    }
}

/// Shows a looked-up value.
pub fn format_value(v: Option<String>) -> (s: String)
    ensures
        s@ == shown_value(v),
{
    match v {
        Some(x) => {
            let mut s = String::from_str("\"");
            s.append(x.as_str());
            s.append("\"");
            s
        },
        None => String::from_str("(nil)"),
    }
}

/// Shows a yes-or-no answer: `1` or `0`.
pub fn format_flag(b: bool) -> (s: String)
    ensures
        s@ == (if b {
            "1"@
        } else {
            "0"@
        }),
{
    if b {
        String::from_str("1")
    } else {
        String::from_str("0")
    }
}

/// Shows a count in decimal.
pub fn format_count(n: u32) -> (s: String)
    ensures
        s@ == decimal(n as nat),
{
    let mut s = String::new();
    push_decimal(&mut s, n as u64);
    proof {
        assert(s@ =~= decimal(n as nat));
    }
    s
}

/// The lines that list `items`, each indented by two spaces.
pub open spec fn item_lines(items: Seq<String>) -> Seq<char>
    decreases items.len(),
{
    if items.len() == 0 {
        Seq::empty()
    } else {
        item_lines(items.drop_last()) + "  "@ + items.last()@ + "\n"@
    }
}

/// Shows a listing: a line with the total, then the items.
pub fn format_listing(items: &Vec<String>, total: u32) -> (s: String)
    ensures
        s@ == "Total: "@ + decimal(total as nat) + "\n"@ + item_lines(items@),
{
    let mut s = String::from_str("Total: ");
    push_decimal(&mut s, total as u64);
    s.append("\n");
    let ghost head = s@;
    let mut i: usize = 0;
    while i < items.len()
        invariant
            i <= items@.len(),
            head == "Total: "@ + decimal(total as nat) + "\n"@,
            s@ == head + item_lines(items@.take(i as int)),
        decreases items@.len() - i,
    {
        assert(items@.take(i + 1).drop_last() =~= items@.take(i as int));
        s.append("  ");
        s.append(items[i].as_str());
        s.append("\n");
        assert(s@ =~= head + item_lines(items@.take(i + 1)));
        i = i + 1;
    }
    assert(items@.take(items@.len() as int) =~= items@);
    s
}


/// The state of splitting on white space: the words so far and the word
/// being read.
pub open spec fn white_space_run(cs: Seq<char>) -> (Seq<Seq<char>>, Seq<char>)
    decreases cs.len(),
{
    if cs.len() == 0 {
        (Seq::empty(), Seq::empty())
    } else {
        let (parts, cur) = white_space_run(cs.drop_last());
        let c = cs.last();
        if is_white_space(c) {
            if cur.len() > 0 {
                (parts.push(cur), Seq::empty())
            } else {
                (parts, cur)
            }
        } else {
            (parts, cur.push(c))
        }
    }
}

/// The maximal stretches of `cs` that hold no white space, in order.
pub open spec fn split_white_space(cs: Seq<char>) -> Seq<Seq<char>> {
    let (parts, cur) = white_space_run(cs);
    if cur.len() > 0 {
        parts.push(cur)
    } else {
        parts
    }
}

proof fn lemma_plain_run(cs: Seq<char>)
    requires
        !cs.contains('"'),
        !cs.contains('\\'),
    ensures
        token_run(cs) == (white_space_run(cs).0, white_space_run(cs).1, false, false),
    decreases cs.len(),
{
    if cs.len() > 0 {
        let prefix = cs.drop_last();
        assert(!prefix.contains('"')) by {
            if prefix.contains('"') {
                let i = choose|i: int| 0 <= i < prefix.len() && prefix[i] == '"';
                assert(cs[i] == '"');
            }
        }
        assert(!prefix.contains('\\')) by {
            if prefix.contains('\\') {
                let i = choose|i: int| 0 <= i < prefix.len() && prefix[i] == '\\';
                assert(cs[i] == '\\');
            }
        }
        lemma_plain_run(prefix);
        assert(cs[cs.len() - 1] == cs.last());
    }
}

/// A command line with no double quote and no backslash splits into the
/// maximal stretches that hold no white space.
pub proof fn law_plain_input_splits_on_white_space(cs: Seq<char>)
    requires
        !cs.contains('"'),
        !cs.contains('\\'),
    ensures
        tokens(cs) == split_white_space(cs),
{
    lemma_plain_run(cs);
}

} // verus!

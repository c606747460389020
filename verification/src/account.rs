//! The account repository's in-memory side: the cache that fronts the
//! durable store, hash-shape validation for registration, and credential
//! matching in constant time.
//!
//! The caller warms the cache from the store on a miss and writes to the
//! store before committing here; each step's effect on the cache is exact.

use vstd::prelude::*;

use crate::entity::Account;
use crate::ext::{bytes_eq, fresh_id};
use crate::text::str_eq;

verus! {

pub open spec fn is_hex_digit(c: char) -> bool {
    ('0' <= c && c <= '9') || ('a' <= c && c <= 'f') || ('A' <= c && c <= 'F')
}

/// The only shape of credential the server ever stores: exactly 64
/// hexadecimal characters, a pre-computed hash.
pub open spec fn is_hash_chars(s: Seq<char>) -> bool {
    s.len() == 64 && forall|i: int| 0 <= i < s.len() ==> is_hex_digit(#[trigger] s[i])
}

/// Shape check used at registration; login never consults it and relies on
/// stored-hash equality instead.
pub fn is_sha256_hash(input: &str) -> (r: bool)
    ensures
        r == is_hash_chars(input@),
{
    let n = input.unicode_len();
    if n != 64 {
        return false;
    }
    let mut i: usize = 0;
    while i < n
        invariant
            0 <= i <= n,
            n == input@.len(),
            forall|j: int| 0 <= j < i ==> is_hex_digit(#[trigger] input@[j]),
        decreases n - i,
    {
        let c = input.get_char(i);
        if !(('0' <= c && c <= '9') || ('a' <= c && c <= 'f') || ('A' <= c && c <= 'F')) {
            return false;
        }
        i = i + 1;
    }
    true
}

/// The first cached account carrying this identity, if any.
pub open spec fn spec_account_by_id(accounts: Seq<Account>, id: Seq<char>) -> Option<Account>
    decreases accounts.len(),
{
    if accounts.len() == 0 {
        None
    } else if accounts[0].id@ == id {
        Some(accounts[0])
    } else {
        spec_account_by_id(accounts.skip(1), id)
    }
}

/// The first account whose name and stored hash both match, if any.
pub open spec fn spec_match_account(
    accounts: Seq<Account>,
    name: Seq<char>,
    password: Seq<char>,
) -> Option<Account>
    decreases accounts.len(),
{
    if accounts.len() == 0 {
        None
    } else if accounts[0].name@ == name && accounts[0].password@ == password {
        Some(accounts[0])
    } else {
        spec_match_account(accounts.skip(1), name, password)
    }
}

/// Load rows read from the store into the cache, keeping their order.
pub fn init_cache(accounts: &mut Vec<Account>, rows: &Vec<Account>)
    ensures
        final(accounts)@ == old(accounts)@ + rows@,
{
    let n = rows.len();
    let mut i: usize = 0;
    while i < n
        invariant
            0 <= i <= n,
            n == rows@.len(),
            accounts@ == old(accounts)@ + rows@.take(i as int),
        decreases n - i,
    {
        accounts.push(rows[i].clone());
        proof {
            assert(old(accounts)@ + rows@.take(i + 1) =~= (old(accounts)@ + rows@.take(
                i as int,
            )).push(rows@[i as int]));
        }
        i = i + 1;
    }
    proof {
        assert(rows@.take(n as int) =~= rows@);
    }
}

/// A new account for this name and hash under a fresh random identity. The
/// caller persists it to the store first and only then commits it to the
/// cache with `insert_account`.
pub fn new_account(name: String, password: String) -> (a: Account)
    ensures
        a.name@ == name@,
        a.password@ == password@,
        a.id@.len() == 36,
{
    Account { id: fresh_id(), name, password }
}

/// Commit one account to the cache; everything already cached stays put.
pub fn insert_account(accounts: &mut Vec<Account>, account: Account)
    ensures
        final(accounts)@ == old(accounts)@.push(account),
{
    accounts.push(account);
}

/// Cache probe of the read path; a miss sends the caller to the store,
/// after which the found row is committed via `insert_account`.
pub fn get_account_by_id(accounts: &Vec<Account>, id: &str) -> (r: Option<Account>)
    ensures
        r == spec_account_by_id(accounts@, id@),
{
    let n = accounts.len();
    let mut i: usize = 0;
    proof {
        assert(accounts@.skip(0) =~= accounts@);
    }
    while i < n
        invariant
            0 <= i <= n,
            n == accounts@.len(),
            spec_account_by_id(accounts@, id@) == spec_account_by_id(
                accounts@.skip(i as int),
                id@,
            ),
        decreases n - i,
    {
        proof {
            assert(accounts@.skip(i as int)[0] == accounts@[i as int]);
            assert(accounts@.skip(i as int).skip(1) =~= accounts@.skip(i + 1));
        }
        if str_eq(accounts[i].id.as_str(), id) {
            return Some(accounts[i].clone());
        }
        i = i + 1;
    }
    proof {
        assert(accounts@.skip(n as int) =~= Seq::<Account>::empty());
    }
    None
}

/// Whether the two strings hold the same characters, decided over their
/// UTF-8 bytes in constant time.
fn password_eq(stored: &str, supplied: &str) -> (r: bool)
    ensures
        r == (stored@ == supplied@),
{
    let r = bytes_eq(stored.as_bytes(), supplied.as_bytes());
    proof {
        vstd::utf8::encode_utf8_decode_utf8(stored@);
        vstd::utf8::encode_utf8_decode_utf8(supplied@);
    }
    r
}

/// Login's cache probe: the first account matching name and hash, the hash
/// compared in constant time. A miss sends the caller to the store, whose
/// rows then go through `match_account_rows`.
pub fn match_and_return_account(accounts: &Vec<Account>, name: &str, password: &str) -> (r: Option<
    Account,
>)
    ensures
        r == spec_match_account(accounts@, name@, password@),
{
    let n = accounts.len();
    let mut i: usize = 0;
    proof {
        assert(accounts@.skip(0) =~= accounts@);
    }
    while i < n
        invariant
            0 <= i <= n,
            n == accounts@.len(),
            spec_match_account(accounts@, name@, password@) == spec_match_account(
                accounts@.skip(i as int),
                name@,
                password@,
            ),
        decreases n - i,
    {
        proof {
            assert(accounts@.skip(i as int)[0] == accounts@[i as int]);
            assert(accounts@.skip(i as int).skip(1) =~= accounts@.skip(i + 1));
        }
        if str_eq(accounts[i].name.as_str(), name) && password_eq(
            accounts[i].password.as_str(),
            password,
        ) {
            return Some(accounts[i].clone());
        }
        i = i + 1;
    }
    proof {
        assert(accounts@.skip(n as int) =~= Seq::<Account>::empty());
    }
    None
}

/// The first store row whose hash matches, compared in constant time; the
/// store already filtered the rows by name.
pub open spec fn spec_match_rows(rows: Seq<Account>, password: Seq<char>) -> Option<Account>
    decreases rows.len(),
{
    if rows.len() == 0 {
        None
    } else if rows[0].password@ == password {
        Some(rows[0])
    } else {
        spec_match_rows(rows.skip(1), password)
    }
}

/// Login's store fall-back: pick the first row whose hash matches and warm
/// the cache with it; with no match the cache stays as it was.
pub fn match_account_rows(accounts: &mut Vec<Account>, rows: &Vec<Account>, password: &str) -> (r:
    Option<Account>)
    ensures
        r == spec_match_rows(rows@, password@),
        r matches Some(a) ==> final(accounts)@ == old(accounts)@.push(a),
        r is None ==> final(accounts)@ == old(accounts)@,
{
    let n = rows.len();
    let mut i: usize = 0;
    proof {
        assert(rows@.skip(0) =~= rows@);
    }
    while i < n
        invariant
            0 <= i <= n,
            n == rows@.len(),
            accounts@ == old(accounts)@,
            spec_match_rows(rows@, password@) == spec_match_rows(rows@.skip(i as int), password@),
        decreases n - i,
    {
        proof {
            assert(rows@.skip(i as int)[0] == rows@[i as int]);
            assert(rows@.skip(i as int).skip(1) =~= rows@.skip(i + 1));
        }
        if password_eq(rows[i].password.as_str(), password) {
            let found = rows[i].clone();
            accounts.push(found.clone());
            return Some(found);
        }
        i = i + 1;
    }
    proof {
        assert(rows@.skip(n as int) =~= Seq::<Account>::empty());
    }
    None
}

/// Law: a freshly registered account logs in with its own hash, and with no
/// other; the lookup that backs login answers by exact name and exact hash.
pub proof fn lemma_login_round_trip(a: Account, h2: Seq<char>)
    requires
        h2 != a.password@,
    ensures
        spec_match_account(seq![a], a.name@, a.password@) == Some(a),
        spec_match_account(seq![a], a.name@, h2) is None,
{
    assert(seq![a][0] == a);
    assert(seq![a].skip(1) =~= Seq::<Account>::empty());
    assert(spec_match_account(Seq::<Account>::empty(), a.name@, h2) is None);
}

} // verus!

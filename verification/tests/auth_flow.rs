use chat_server::account::{
    get_account_by_id, init_cache, insert_account, is_sha256_hash, match_account_rows,
    match_and_return_account, new_account,
};
use chat_server::auth::{issue_session, logout, register};
use chat_server::entity::{Account, ChatError, RegisterDTO};
use chat_server::session::{create_session, match_and_return_session, stop_session};
use chat_server::utils::authorize;

const HASH_A: &str = "aaaaaaaaaaaaaaaaaaaaaaaaaaaaaaaaaaaaaaaaaaaaaaaaaaaaaaaaaaaaaaaa";
const HASH_B: &str = "bbbbbbbbbbbbbbbbbbbbbbbbbbbbbbbbbbbbbbbbbbbbbbbbbbbbbbbbbbbbbbbb";

fn register_ok(name: &str, password: &str) -> Account {
    register(RegisterDTO { name: name.to_string(), password: password.to_string() }).unwrap()
}

#[test]
fn hash_shape_accepts_64_hex_chars() {
    assert!(is_sha256_hash(HASH_A));
    let register_result = register(RegisterDTO {
        name: "alice".to_string(),
        password: HASH_A.to_string(),
    });
    assert!(register_result.is_ok());
}

#[test]
fn hash_shape_rejects_length_63() {
    let short = &HASH_A[..63];
    assert!(!is_sha256_hash(short));
    let register_result = register(RegisterDTO {
        name: "alice".to_string(),
        password: short.to_string(),
    });
    assert_eq!(register_result.unwrap_err(), ChatError::MalformedRequest);
}

#[test]
fn hash_shape_rejects_non_hex_char() {
    let with_g = format!("g{}", &HASH_A[..63]);
    assert!(!is_sha256_hash(&with_g));
    let register_result = register(RegisterDTO {
        name: "alice".to_string(),
        password: with_g,
    });
    assert_eq!(register_result.unwrap_err(), ChatError::MalformedRequest);
}

#[test]
fn hash_shape_accepts_mixed_case_hex() {
    assert!(is_sha256_hash("ABCDEF0123456789ABCDEF0123456789ABCDEF0123456789ABCDEF0123456789"));
}

#[test]
fn fresh_account_ids_look_like_uuids() {
    let a = new_account("alice".to_string(), HASH_A.to_string());
    assert_eq!(a.id.len(), 36);
    let b = new_account("bob".to_string(), HASH_B.to_string());
    assert_ne!(a.id, b.id);
}

#[test]
fn login_round_trip() {
    let mut accounts: Vec<Account> = Vec::new();
    let account = register_ok("alice", HASH_A);
    insert_account(&mut accounts, account.clone());

    let hit = match_and_return_account(&accounts, "alice", HASH_A);
    assert!(hit.is_some());
    let hit = hit.unwrap();
    assert_eq!(hit.id, account.id);
    assert_eq!(hit.name, "alice");

    assert!(match_and_return_account(&accounts, "alice", HASH_B).is_none());
    assert!(match_and_return_account(&accounts, "bob", HASH_A).is_none());

    let mut sessions = Vec::new();
    let dto = issue_session(&mut sessions, &hit);
    assert_eq!(dto.id, account.id);
    assert_eq!(dto.name, "alice");
    assert!(match_and_return_session(&sessions, &dto.id, &dto.token).is_some());
}

#[test]
fn login_falls_back_to_store_rows_and_warms_cache() {
    let mut accounts: Vec<Account> = Vec::new();
    let row = new_account("carol".to_string(), HASH_A.to_string());
    let rows = vec![row.clone()];

    assert!(match_and_return_account(&accounts, "carol", HASH_A).is_none());
    let found = match_account_rows(&mut accounts, &rows, HASH_A);
    assert_eq!(found.unwrap().id, row.id);
    assert_eq!(accounts.len(), 1);

    let missed = match_account_rows(&mut accounts, &rows, HASH_B);
    assert!(missed.is_none());
    assert_eq!(accounts.len(), 1);
}

#[test]
fn cache_read_through_by_id() {
    let mut accounts: Vec<Account> = Vec::new();
    let rows = vec![
        new_account("alice".to_string(), HASH_A.to_string()),
        new_account("bob".to_string(), HASH_B.to_string()),
    ];
    init_cache(&mut accounts, &rows);
    assert_eq!(accounts.len(), 2);
    assert_eq!(get_account_by_id(&accounts, &rows[1].id).unwrap().name, "bob");
    assert!(get_account_by_id(&accounts, "missing").is_none());
}

#[test]
fn revalidation_mints_a_distinct_token_and_keeps_the_old_row() {
    let mut sessions = Vec::new();
    let account = register_ok("alice", HASH_A);
    let first = create_session(&mut sessions, account.id.clone());

    // The "me" flow: prove the supplied pair, then mint a fresh session.
    let proved = match_and_return_session(&sessions, &first.id, &first.token);
    assert!(proved.is_some());
    let reissued = issue_session(&mut sessions, &account);
    assert_ne!(reissued.token, first.token);
    assert!(match_and_return_session(&sessions, &reissued.id, &reissued.token).is_some());

    // The superseded row is not reused: it stays behind until logout.
    assert_eq!(sessions.len(), 2);
    assert!(match_and_return_session(&sessions, &first.id, &first.token).is_some());
}

#[test]
fn logout_revokes_every_session_of_the_account() {
    let mut sessions = Vec::new();
    let s1 = create_session(&mut sessions, "acc-1".to_string());
    let s2 = create_session(&mut sessions, "acc-1".to_string());
    let other = create_session(&mut sessions, "acc-2".to_string());

    assert!(stop_session(&mut sessions, "acc-1"));
    assert!(match_and_return_session(&sessions, "acc-1", &s1.token).is_none());
    assert!(match_and_return_session(&sessions, "acc-1", &s2.token).is_none());
    assert!(match_and_return_session(&sessions, "acc-2", &other.token).is_some());
    assert!(!stop_session(&mut sessions, "acc-1"));
}

#[test]
fn authorize_reads_the_session_cookies() {
    let mut sessions = Vec::new();
    let s = create_session(&mut sessions, "acc-1".to_string());
    let request = format!(
        "POST /api/auth/logout HTTP/1.1\r\nHost: x\r\nCookie: id=acc-1; token={}\r\n\r\n",
        s.token
    );
    let ok = authorize(&sessions, &request).unwrap();
    assert_eq!(ok.id, "acc-1");
    assert_eq!(ok.token, s.token);

    let stale = "POST / HTTP/1.1\r\nCookie: id=acc-1; token=wrong\r\n\r\n";
    assert_eq!(authorize(&sessions, stale).unwrap_err(), ChatError::Unauthenticated);
    let missing = "POST / HTTP/1.1\r\nHost: x\r\n\r\n";
    assert_eq!(authorize(&sessions, missing).unwrap_err(), ChatError::Unauthenticated);
}

#[test]
fn logout_clears_cookies_whether_or_not_authenticated() {
    let mut sessions = Vec::new();
    let s = create_session(&mut sessions, "acc-1".to_string());
    let request = format!("POST /x HTTP/1.1\r\nCookie: id=acc-1; token={}\r\n\r\n", s.token);
    let response = logout(&mut sessions, &request);
    assert!(response.starts_with("HTTP/1.1 302 Found\r\nLocation: /login\r\n"));
    assert!(response.contains("Set-Cookie: id=;"));
    assert!(response.contains("Set-Cookie: token=;"));
    assert!(response.contains("Set-Cookie: name=;"));
    assert!(sessions.is_empty());

    let anonymous = logout(&mut sessions, "POST /x HTTP/1.1\r\n\r\n");
    assert!(anonymous.starts_with("HTTP/1.1 302 Found\r\nLocation: /login\r\n"));
}

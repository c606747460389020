//! The auth controller's decisions: registration's shape check, session
//! issuance for login and re-validation, and logout. The surrounding
//! application parses the JSON bodies, talks to the store, and writes the
//! responses these decisions call for.

use vstd::prelude::*;

use crate::account::{is_hash_chars, is_sha256_hash, new_account};
use crate::entity::{Account, ChatError, RegisterDTO, Session, SessionTokenDTO};
use crate::session::{
    create_session, lemma_find_session_push, spec_find_session, remove_sessions, stop_session,
};
use crate::utils::{authorize, redirect_login_response, spec_authorize, spec_redirect_login};

verus! {

/// Registration's decision: admit exactly the hash-shaped credentials and
/// mint the account to persist; anything else is the client's fault. The
/// caller writes the account to the store before committing it to the
/// cache.
pub fn register(dto: RegisterDTO) -> (r: Result<Account, ChatError>)
    ensures
        r is Ok <==> is_hash_chars(dto.password@),
        r matches Ok(a) ==> a.name@ == dto.name@ && a.password@ == dto.password@,
        r matches Err(e) ==> e == ChatError::MalformedRequest,
{
    if is_sha256_hash(dto.password.as_str()) {
        Ok(new_account(dto.name, dto.password))
    } else {
        Err(ChatError::MalformedRequest)
    }
}

/// Hand a just-authenticated account a fresh session: a new row is
/// appended — never a reused one — and the reply carries the account's
/// identity, its name and the new token.
pub fn issue_session(sessions: &mut Vec<Session>, account: &Account) -> (dto: SessionTokenDTO)
    ensures
        dto.id@ == account.id@,
        dto.name@ == account.name@,
        final(sessions)@.len() == old(sessions)@.len() + 1,
        final(sessions)@.drop_last() == old(sessions)@,
        final(sessions)@.last().id@ == account.id@,
        final(sessions)@.last().token@ == dto.token@,
{
    let session = create_session(sessions, account.id.clone());
    let dto = SessionTokenDTO { id: session.id, name: account.name.clone(), token: session.token };
    proof {
        assert(final(sessions)@.drop_last() =~= old(sessions)@);
    }
    dto
}

/// Logout: whoever the cookies prove the caller to be loses every session,
/// and the answer is the same cookie-clearing redirect whether or not the
/// cookies proved anybody.
pub fn logout(sessions: &mut Vec<Session>, request: &str) -> (r: String)
    ensures
        ({
            let auth = spec_authorize(old(sessions)@, request@);
            match auth {
                Some(s) => final(sessions)@ == remove_sessions(old(sessions)@, s.id@),
                None => final(sessions)@ == old(sessions)@,
            }
        }),
        r@ == spec_redirect_login(),
{
    let checked = authorize(sessions, request);
    match checked {
        Ok(session) => {
            stop_session(sessions, session.id.as_str());
        },
        Err(_) => {},
    }
    redirect_login_response()
}

/// Law: re-validation supersedes without revoking. After a fresh session is
/// appended for an account, the new token validates; and every pair that
/// validated before still validates, so the token the caller supplied keeps
/// working until logout revokes the whole account. The one hypothesis is
/// that the minted token collides with no token already stored.
pub proof fn lemma_revalidation(ss: Seq<Session>, fresh: Session)
    requires
        forall|i: int| 0 <= i < ss.len() ==> (#[trigger] ss[i]).token@ != fresh.token@,
    ensures
        spec_find_session(ss.push(fresh), fresh.id@, fresh.token@) == Some(fresh),
        forall|id: Seq<char>, token: Seq<char>|
            spec_find_session(ss, id, token) is Some ==> spec_find_session(ss.push(fresh), id, token)
                == spec_find_session(ss, id, token),
{
    crate::session::lemma_find_session_props(ss, fresh.id@, fresh.token@);
    assert(spec_find_session(ss, fresh.id@, fresh.token@) is None) by {
        if spec_find_session(ss, fresh.id@, fresh.token@) matches Some(s) {
            let found = spec_find_session(ss, fresh.id@, fresh.token@);
            assert(ss.contains(found.unwrap()));
            let j = choose|j: int| 0 <= j < ss.len() && ss[j] == found.unwrap();
            assert(ss[j].token@ == fresh.token@);
        }
    }
    lemma_find_session_push(ss, fresh, fresh.id@, fresh.token@);
    assert forall|id: Seq<char>, token: Seq<char>|
        spec_find_session(ss, id, token) is Some implies spec_find_session(ss.push(fresh), id, token)
        == spec_find_session(ss, id, token) by {
        lemma_find_session_push(ss, fresh, id, token);
    }
}

} // verus!

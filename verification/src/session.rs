//! The in-memory session table: token issuance, validation and revocation.
//! Sessions live only in memory; an account may hold many at once, and
//! logout revokes every one of them.

use vstd::prelude::*;

use crate::entity::Session;
use crate::ext::fresh_id;
use crate::text::str_eq;

verus! {

/// The first session holding exactly this identity and token, if any.
pub open spec fn spec_find_session(ss: Seq<Session>, id: Seq<char>, token: Seq<char>) -> Option<
    Session,
>
    decreases ss.len(),
{
    if ss.len() == 0 {
        None
    } else if ss[0].id@ == id && ss[0].token@ == token {
        Some(ss[0])
    } else {
        spec_find_session(ss.skip(1), id, token)
    }
}

pub proof fn lemma_find_session_props(ss: Seq<Session>, id: Seq<char>, token: Seq<char>)
    ensures
        spec_find_session(ss, id, token) matches Some(s) ==> s.id@ == id && s.token@ == token
            && ss.contains(s),
        spec_find_session(ss, id, token) is None <==> forall|i: int|
            0 <= i < ss.len() ==> !(#[trigger] ss[i].id@ == id && ss[i].token@ == token),
    decreases ss.len(),
{
    if ss.len() > 0 {
        lemma_find_session_props(ss.skip(1), id, token);
        if ss[0].id@ == id && ss[0].token@ == token {
        } else {
            assert forall|i: int| 1 <= i < ss.len() implies ss.skip(1)[i - 1] == ss[i] by {}
            let r = spec_find_session(ss, id, token);
            if r is Some {
                let s = r.unwrap();
                assert(ss.skip(1).contains(s));
                let j = choose|j: int| 0 <= j < ss.skip(1).len() && ss.skip(1)[j] == s;
                assert(ss[j + 1] == s);
            }
        }
    }
}

/// Appending a session leaves every earlier lookup result in place; the new
/// pair becomes findable as soon as its token collides with no earlier one.
pub proof fn lemma_find_session_push(ss: Seq<Session>, s: Session, id: Seq<char>, token: Seq<char>)
    ensures
        spec_find_session(ss, id, token) is Some ==> spec_find_session(ss.push(s), id, token)
            == spec_find_session(ss, id, token),
        spec_find_session(ss, id, token) is None && s.id@ == id && s.token@ == token
            ==> spec_find_session(ss.push(s), id, token) == Some(s),
        spec_find_session(ss, id, token) is None && !(s.id@ == id && s.token@ == token)
            ==> spec_find_session(ss.push(s), id, token) is None,
    decreases ss.len(),
{
    if ss.len() == 0 {
        assert(ss.push(s)[0] == s);
        assert(ss.push(s).skip(1) =~= ss);
    } else {
        assert(ss.push(s)[0] == ss[0]);
        assert(ss.push(s).skip(1) =~= ss.skip(1).push(s));
        lemma_find_session_push(ss.skip(1), s, id, token);
    }
}

/// Issue a fresh random token for this account and remember the session;
/// nothing already stored moves.
pub fn create_session(sessions: &mut Vec<Session>, id: String) -> (s: Session)
    ensures
        s.id@ == id@,
        final(sessions)@ == old(sessions)@.push(s),
{
    let token = fresh_id();
    let session = Session { id, token };
    let copy = session.clone();
    sessions.push(session);
    copy
}

/// Linear lookup by exact equality of both fields.
pub fn match_and_return_session(sessions: &Vec<Session>, id: &str, token: &str) -> (r: Option<
    Session,
>)
    ensures
        r == spec_find_session(sessions@, id@, token@),
{
    let n = sessions.len();
    let mut i: usize = 0;
    proof {
        assert(sessions@.skip(0) =~= sessions@);
    }
    while i < n
        invariant
            0 <= i <= n,
            n == sessions@.len(),
            spec_find_session(sessions@, id@, token@) == spec_find_session(
                sessions@.skip(i as int),
                id@,
                token@,
            ),
        decreases n - i,
    {
        let ghost suffix = sessions@.skip(i as int);
        proof {
            assert(suffix[0] == sessions@[i as int]);
            assert(suffix.skip(1) =~= sessions@.skip(i + 1));
        }
        if str_eq(sessions[i].id.as_str(), id) && str_eq(sessions[i].token.as_str(), token) {
            return Some(sessions[i].clone());
        }
        i = i + 1;
    }
    proof {
        assert(sessions@.skip(n as int) =~= Seq::<Session>::empty());
    }
    None
}

/// The sessions that survive revoking an account: those of every other id,
/// their order kept.
pub open spec fn remove_sessions(ss: Seq<Session>, id: Seq<char>) -> Seq<Session>
    decreases ss.len(),
{
    if ss.len() == 0 {
        Seq::empty()
    } else if ss.last().id@ == id {
        remove_sessions(ss.drop_last(), id)
    } else {
        remove_sessions(ss.drop_last(), id).push(ss.last())
    }
}

pub proof fn lemma_remove_sessions_props(ss: Seq<Session>, id: Seq<char>)
    ensures
        forall|i: int| 0 <= i < remove_sessions(ss, id).len() ==> #[trigger] remove_sessions(
            ss,
            id,
        )[i].id@ != id,
        remove_sessions(ss, id).len() <= ss.len(),
        remove_sessions(ss, id).len() == ss.len() ==> remove_sessions(ss, id) == ss,
    decreases ss.len(),
{
    if ss.len() > 0 {
        lemma_remove_sessions_props(ss.drop_last(), id);
        if ss.last().id@ != id && remove_sessions(ss, id).len() == ss.len() {
            assert(remove_sessions(ss.drop_last(), id) == ss.drop_last());
            assert(remove_sessions(ss, id) =~= ss);
        }
    }
}

/// No token whatsoever validates for an id that holds no sessions.
pub proof fn lemma_removed_id_never_matches(ss: Seq<Session>, id: Seq<char>)
    ensures
        forall|token: Seq<char>| spec_find_session(remove_sessions(ss, id), id, token) is None,
{
    lemma_remove_sessions_props(ss, id);
    assert forall|token: Seq<char>|
        spec_find_session(remove_sessions(ss, id), id, token) is None by {
        lemma_find_session_props(remove_sessions(ss, id), id, token);
    }
}

/// Logout's revocation step: drop every session of this account. Afterwards
/// no previously issued token for the account validates any more.
pub fn stop_session(sessions: &mut Vec<Session>, id: &str) -> (removed: bool)
    ensures
        final(sessions)@ == remove_sessions(old(sessions)@, id@),
        removed == (final(sessions)@.len() != old(sessions)@.len()),
        forall|token: Seq<char>| spec_find_session(final(sessions)@, id@, token) is None,
{
    let n = sessions.len();
    let mut kept: Vec<Session> = Vec::new();
    let mut i: usize = 0;
    while i < n
        invariant
            0 <= i <= n,
            n == sessions@.len(),
            kept@ == remove_sessions(sessions@.take(i as int), id@),
        decreases n - i,
    {
        let ghost pre = sessions@.take(i as int);
        proof {
            assert(sessions@.take(i + 1).drop_last() =~= pre);
            assert(sessions@.take(i + 1).last() == sessions@[i as int]);
        }
        if !str_eq(sessions[i].id.as_str(), id) {
            kept.push(sessions[i].clone());
        }
        i = i + 1;
    }
    proof {
        assert(sessions@.take(n as int) =~= sessions@);
    }
    let removed = kept.len() != sessions.len();
    *sessions = kept;
    proof {
        lemma_remove_sessions_props(old(sessions)@, id@);
        lemma_removed_id_never_matches(old(sessions)@, id@);
    }
    removed
}

} // verus!

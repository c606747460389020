//! Request-line parsing, the session guard that every protected handler
//! consults, and the redirect that clears the auth cookies.

use vstd::prelude::*;
use vstd::string::*;

use crate::entity::{ChatError, RequestData, Session};
use crate::http_helper::{spec_parse_cookies, parse_cookies, strip_cr, strip_cr_str};
use crate::session::{spec_find_session, match_and_return_session};
use crate::strmap::StringMap;
use crate::text::{split_chars, split_str, lemma_split_chars_len};

verus! {

/// The given pieces with the blank ones dropped, order kept.
pub open spec fn nonblank(parts: Seq<Seq<char>>) -> Seq<Seq<char>>
    decreases parts.len(),
{
    if parts.len() == 0 {
        Seq::empty()
    } else if parts.last().len() == 0 {
        nonblank(parts.drop_last())
    } else {
        nonblank(parts.drop_last()).push(parts.last())
    }
}

/// The whitespace-delimited tokens of a request's first line; for a
/// well-formed request line these are the method, the path, and the
/// protocol version.
pub open spec fn spec_line_tokens(s: Seq<char>) -> Seq<Seq<char>> {
    let first = strip_cr(split_chars(s, '\n')[0]);
    nonblank(split_chars(first, ' '))
}

/// The first line of a raw request, split into its tokens.
#[verifier::loop_isolation(false)]
fn first_line_tokens(request: &str) -> (r: Vec<String>)
    ensures
        r@.len() == spec_line_tokens(request@).len(),
        forall|k: int| 0 <= k < r@.len() ==> r@[k]@ == spec_line_tokens(request@)[k],
{
    proof {
        lemma_split_chars_len(request@, '\n');
    }
    let lines = split_str(request, '\n');
    let first = strip_cr_str(lines[0].as_str());
    let parts = split_str(first.as_str(), ' ');
    let ghost pspec = split_chars(strip_cr(split_chars(request@, '\n')[0]), ' ');
    let n = parts.len();
    let mut out: Vec<String> = Vec::new();
    let mut i: usize = 0;
    while i < n
        invariant
            0 <= i <= n,
            out@.len() == nonblank(pspec.take(i as int)).len(),
            forall|k: int|
                0 <= k < out@.len() ==> out@[k]@ == nonblank(pspec.take(i as int))[k],
        decreases n - i,
    {
        proof {
            assert(pspec.take(i + 1).drop_last() =~= pspec.take(i as int));
            assert(pspec.take(i + 1).last() == pspec[i as int]);
        }
        if !parts[i].as_str().is_empty() {
            out.push(parts[i].clone());
        }
        i = i + 1;
    }
    proof {
        assert(pspec.take(n as int) =~= pspec);
    }
    out
}

/// The request path out of a raw request's first line, when that line holds
/// at least a method and a path.
pub fn extract_path_from_request(request: &str) -> (r: Option<String>)
    ensures
        ({
            let ts = spec_line_tokens(request@);
            if ts.len() >= 2 {
                r matches Some(p) && p@ == ts[1]
            } else {
                r is None
            }
        }),
{
    let mut tokens = first_line_tokens(request);
    if tokens.len() >= 2 {
        Some(tokens.remove(1))
    } else {
        None
    }
}

/// The request envelope for a plain HTTP request: its method and path read
/// off the first line, with no parameters captured yet. A first line of
/// fewer than two tokens is refused as malformed.
pub fn parse_request_line(request: &str) -> (r: Option<RequestData>)
    ensures
        ({
            let ts = spec_line_tokens(request@);
            if ts.len() >= 2 {
                r matches Some(d) && d.method@ == ts[0] && d.path@ == ts[1] && d.params@
                    == Map::<Seq<char>, Seq<char>>::empty()
            } else {
                r is None
            }
        }),
{
    let mut tokens = first_line_tokens(request);
    if tokens.len() >= 2 {
        let path = tokens.remove(1);
        let method = tokens.remove(0);
        Some(RequestData { method, path, params: StringMap::new() })
    } else {
        None
    }
}

/// The session the request's cookies prove, if they prove one.
pub open spec fn spec_authorize(ss: Seq<Session>, req: Seq<char>) -> Option<Session> {
    let cs = spec_parse_cookies(req);
    if cs.contains_key("id"@) && cs.contains_key("token"@) {
        spec_find_session(ss, cs["id"@], cs["token"@])
    } else {
        None
    }
}

/// The auth guard: read the `id` and `token` cookies out of the raw request
/// and look the pair up. A missing cookie and a failed lookup are the same
/// answer on purpose; the caller never learns which it was.
pub fn authorize(sessions: &Vec<Session>, request: &str) -> (r: Result<Session, ChatError>)
    ensures
        r matches Ok(s) ==> spec_authorize(sessions@, request@) == Some(s),
        r matches Err(e) ==> e == ChatError::Unauthenticated && spec_authorize(
            sessions@,
            request@,
        ) is None,
{
    let cookies = parse_cookies(request);
    let id = cookies.get("id");
    let token = cookies.get("token");
    match (id, token) {
        (Some(id), Some(token)) => {
            match match_and_return_session(sessions, id.as_str(), token.as_str()) {
                Some(session) => Ok(session),
                None => Err(ChatError::Unauthenticated),
            }
        },
        _ => Err(ChatError::Unauthenticated),
    }
}

/// The `Set-Cookie` lines that clear the three auth cookies.
pub open spec fn spec_clear_cookies() -> Seq<char> {
    "Set-Cookie: id=; Path=/; Expires=Thu, 01 Jan 1970 00:00:00 GMT; SameSite=Strict\r\n"@
        + "Set-Cookie: token=; Path=/; Expires=Thu, 01 Jan 1970 00:00:00 GMT; SameSite=Strict\r\n"@
        + "Set-Cookie: name=; Path=/; Expires=Thu, 01 Jan 1970 00:00:00 GMT; SameSite=Strict\r\n"@
}

/// The headers that expire `id`, `token` and `name` alike.
pub fn clear_cookies_response() -> (r: String)
    ensures
        r@ == spec_clear_cookies(),
{
    let mut out =
        "Set-Cookie: id=; Path=/; Expires=Thu, 01 Jan 1970 00:00:00 GMT; SameSite=Strict\r\n".to_owned();
    out.append("Set-Cookie: token=; Path=/; Expires=Thu, 01 Jan 1970 00:00:00 GMT; SameSite=Strict\r\n");
    out.append("Set-Cookie: name=; Path=/; Expires=Thu, 01 Jan 1970 00:00:00 GMT; SameSite=Strict\r\n");
    out
}

/// The whole redirect-to-login response, auth cookies cleared.
pub open spec fn spec_redirect_login() -> Seq<char> {
    "HTTP/1.1 302 Found\r\nLocation: /login\r\n"@ + spec_clear_cookies() + "\r\n"@
}

pub fn redirect_login_response() -> (r: String)
    ensures
        r@ == spec_redirect_login(),
{
    let mut out = "HTTP/1.1 302 Found\r\nLocation: /login\r\n".to_owned();
    let cleared = clear_cookies_response();
    out.append(cleared.as_str());
    out.append("\r\n");
    proof {
        assert(out@ =~= spec_redirect_login());
    }
    out
}

} // verus!

//! The route matcher shared by the HTTP and WebSocket routers, and the
//! helpers that pick a request apart: cookies, query strings, the body, and
//! the buffered responses handlers send back.

use vstd::prelude::*;
use vstd::string::*;

use crate::entity::RequestData;
use crate::strmap::StringMap;
use crate::text::{
    find_char, find_in_str, split_chars, split_str, str_eq, starts_with, str_starts_with,
    ends_with, str_ends_with, trim_chars, trim_str, trim_end_char, trim_str_end, dec_of,
    to_decimal,
};

verus! {

/// The request path with any query string cut off at the first '?'.
pub open spec fn strip_query(p: Seq<char>) -> Seq<char> {
    p.take(find_char(p, '?'))
}

/// A route's full expected path: prefix and template joined by exactly one
/// slash when neither side brings one.
pub open spec fn join_path(prefix: Seq<char>, template: Seq<char>) -> Seq<char> {
    if (prefix.len() > 0 && prefix.last() == '/') || (template.len() > 0 && template[0] == '/') {
        prefix + template
    } else {
        prefix + seq!['/'] + template
    }
}

/// A template segment starting with ':' is a named parameter and matches any
/// request segment; any other segment must match byte for byte.
pub open spec fn seg_matches(exp: Seq<char>, got: Seq<char>) -> bool {
    (exp.len() > 0 && exp[0] == ':') || exp == got
}

/// The route matcher's answer: the method matches, and either the template
/// is empty and the stripped path is the prefix with at most one trailing
/// slash, or the paths split into equally many segments that match pairwise.
pub open spec fn spec_is_route(
    method: Seq<char>,
    template: Seq<char>,
    prefix: Seq<char>,
    req_method: Seq<char>,
    req_path: Seq<char>,
) -> bool {
    let path = strip_query(req_path);
    if template.len() == 0 {
        req_method == method && (path == prefix || path == prefix + seq!['/'])
    } else {
        let exp = split_chars(join_path(prefix, template), '/');
        let got = split_chars(path, '/');
        req_method == method && exp.len() == got.len() && (forall|i: int|
            0 <= i < exp.len() ==> seg_matches(#[trigger] exp[i], got[i]))
    }
}

/// A parameter's name: its template segment with the leading colons gone.
pub open spec fn trim_colons(s: Seq<char>) -> Seq<char>
    decreases s.len(),
{
    if s.len() > 0 && s[0] == ':' {
        trim_colons(s.skip(1))
    } else {
        s
    }
}

/// What a successful match binds: each parameter segment's name to the
/// request segment standing in its place, later bindings over earlier ones.
pub open spec fn route_params(exp: Seq<Seq<char>>, got: Seq<Seq<char>>) -> Map<
    Seq<char>,
    Seq<char>,
>
    decreases exp.len(),
{
    if exp.len() == 0 || got.len() == 0 {
        Map::empty()
    } else {
        let m = route_params(exp.drop_last(), got.drop_last());
        if exp.last().len() > 0 && exp.last()[0] == ':' {
            m.insert(trim_colons(exp.last()), got.last())
        } else {
            m
        }
    }
}

fn trim_colons_str(s: &str) -> (r: String)
    ensures
        r@ == trim_colons(s@),
{
    let n = s.unicode_len();
    let mut k: usize = 0;
    proof {
        assert(s@.skip(0) =~= s@);
    }
    while k < n && s.get_char(k) == ':'
        invariant
            0 <= k <= n,
            n == s@.len(),
            trim_colons(s@) == trim_colons(s@.skip(k as int)),
        decreases n - k,
    {
        proof {
            assert(s@.skip(k as int)[0] == s@[k as int]);
            assert(s@.skip(k as int).skip(1) =~= s@.skip(k + 1));
        }
        k = k + 1;
    }
    proof {
        if k < n {
            assert(s@.skip(k as int)[0] == s@[k as int]);
        }
    }
    s.substring_char(k, n).to_owned()
}

/// The matcher shared by every route table. On a hit with a non-empty
/// template the request's parameter map is replaced by exactly the captured
/// bindings; the request line itself never moves.
#[verifier::loop_isolation(false)]
pub fn is_route(method: &str, template: &str, prefix: &str, data: &mut RequestData) -> (r: bool)
    ensures
        r == spec_is_route(method@, template@, prefix@, old(data).method@, old(data).path@),
        final(data).method == old(data).method,
        final(data).path == old(data).path,
        r && template@.len() > 0 ==> final(data).params@ == route_params(
            split_chars(join_path(prefix@, template@), '/'),
            split_chars(strip_query(old(data).path@), '/'),
        ),
        template@.len() == 0 ==> final(data).params == old(data).params,
{
    let path = data.path.clone();
    let q = find_in_str(path.as_str(), '?');
    let request_path = path.as_str().substring_char(0, q);
    let tn = template.unicode_len();

    if tn == 0 {
        let mut prefix_slash = prefix.to_owned();
        prefix_slash.append("/");
        proof {
            reveal_strlit("/");
            assert(prefix_slash@ =~= prefix@ + seq!['/']);
        }
        let hit = (str_eq(request_path, prefix) || str_eq(request_path, prefix_slash.as_str()))
            && str_eq(data.method.as_str(), method);
        return hit;
    }

    let prefn = prefix.unicode_len();
    let joined_plain = prefn > 0 && prefix.get_char(prefn - 1) == '/' || template.get_char(0)
        == '/';
    let mut full_path = prefix.to_owned();
    if !joined_plain {
        full_path.append("/");
        proof {
            reveal_strlit("/");
            assert(full_path@ =~= prefix@ + seq!['/']);
        }
    }
    full_path.append(template);
    proof {
        assert(full_path@ =~= join_path(prefix@, template@));
    }

    if !str_eq(data.method.as_str(), method) {
        return false;
    }

    let exp = split_str(full_path.as_str(), '/');
    let got = split_str(request_path, '/');
    let ghost espec = split_chars(join_path(prefix@, template@), '/');
    let ghost gspec = split_chars(strip_query(old(data).path@), '/');
    let n = exp.len();
    if n != got.len() {
        return false;
    }

    data.params.clear();
    let mut i: usize = 0;
    while i < n
        invariant
            0 <= i <= n,
            n == exp@.len(),
            n == got@.len(),
            n == espec.len(),
            n == gspec.len(),
            forall|k: int| 0 <= k < n ==> exp@[k]@ == espec[k],
            forall|k: int| 0 <= k < n ==> got@[k]@ == gspec[k],
            forall|k: int| 0 <= k < i ==> seg_matches(#[trigger] espec[k], gspec[k]),
            data.params@ == route_params(espec.take(i as int), gspec.take(i as int)),
            data.method == old(data).method,
            data.path == old(data).path,
        decreases n - i,
    {
        proof {
            assert(espec.take(i + 1).drop_last() =~= espec.take(i as int));
            assert(gspec.take(i + 1).drop_last() =~= gspec.take(i as int));
            assert(espec.take(i + 1).last() == espec[i as int]);
            assert(gspec.take(i + 1).last() == gspec[i as int]);
        }
        let seg = &exp[i];
        let segn = seg.as_str().unicode_len();
        if segn > 0 && seg.as_str().get_char(0) == ':' {
            let key = trim_colons_str(seg.as_str());
            data.params.insert(key, got[i].clone());
        } else {
            if !str_eq(seg.as_str(), got[i].as_str()) {
                proof {
                    assert(!seg_matches(espec[i as int], gspec[i as int]));
                }
                return false;
            }
        }
        i = i + 1;
    }
    proof {
        assert(espec.take(n as int) =~= espec);
        assert(gspec.take(n as int) =~= gspec);
    }
    true
}

/// The WebSocket variant: no method and no parameters, only the prefixed
/// path with at most one trailing slash.
pub open spec fn spec_is_ws_route(
    template: Seq<char>,
    prefix: Seq<char>,
    req_path: Seq<char>,
) -> bool {
    let path = strip_query(req_path);
    path == prefix + template || path == prefix + template + seq!['/']
}

pub fn is_ws_route(template: &str, prefix: &str, data_path: &str) -> (r: bool)
    ensures
        r == spec_is_ws_route(template@, prefix@, data_path@),
{
    let q = find_in_str(data_path, '?');
    let request_path = data_path.substring_char(0, q);
    let mut joined = prefix.to_owned();
    joined.append(template);
    let hit_plain = str_eq(request_path, joined.as_str());
    joined.append("/");
    proof {
        reveal_strlit("/");
        assert(joined@ =~= prefix@ + template@ + seq!['/']);
    }
    let hit_slash = str_eq(request_path, joined.as_str());
    hit_plain || hit_slash
}

/// What a query string binds: each `key=value` pair in turn, pairs without
/// a value skipped, later bindings over earlier ones.
pub open spec fn query_params_of(pairs: Seq<Seq<char>>) -> Map<Seq<char>, Seq<char>>
    decreases pairs.len(),
{
    if pairs.len() == 0 {
        Map::empty()
    } else {
        let m = query_params_of(pairs.drop_last());
        let parts = split_chars(pairs.last(), '=');
        if parts.len() >= 2 {
            m.insert(parts[0], parts[1])
        } else {
            m
        }
    }
}

pub open spec fn spec_query_params(q: Seq<char>) -> Map<Seq<char>, Seq<char>> {
    query_params_of(split_chars(q, '&'))
}

#[verifier::loop_isolation(false)]
pub fn get_query_params(query: &str) -> (r: StringMap)
    ensures
        r@ == spec_query_params(query@),
{
    let pairs = split_str(query, '&');
    let ghost pspec = split_chars(query@, '&');
    let n = pairs.len();
    let mut m = StringMap::new();
    let mut i: usize = 0;
    while i < n
        invariant
            0 <= i <= n,
            m@ == query_params_of(pspec.take(i as int)),
        decreases n - i,
    {
        proof {
            assert(pspec.take(i + 1).drop_last() =~= pspec.take(i as int));
            assert(pspec.take(i + 1).last() == pspec[i as int]);
        }
        let parts = split_str(pairs[i].as_str(), '=');
        if parts.len() >= 2 {
            m.insert(parts[0].clone(), parts[1].clone());
        }
        i = i + 1;
    }
    proof {
        assert(pspec.take(n as int) =~= pspec);
    }
    m
}

/// One header line as `str::lines` would hand it out: a trailing carriage
/// return does not belong to it.
pub open spec fn strip_cr(l: Seq<char>) -> Seq<char> {
    if l.len() > 0 && l.last() == '\r' {
        l.drop_last()
    } else {
        l
    }
}

pub(crate) fn strip_cr_str(s: &str) -> (r: String)
    ensures
        r@ == strip_cr(s@),
{
    let n = s.unicode_len();
    if n > 0 && s.get_char(n - 1) == '\r' {
        proof {
            assert(s@.take(n - 1) =~= s@.drop_last());
        }
        s.substring_char(0, n - 1).to_owned()
    } else {
        s.to_owned()
    }
}

/// What a `Cookie:` header binds: each `key=value` pair, both sides
/// trimmed of blanks, pairs without '=' skipped.
pub open spec fn cookie_pairs_of(pairs: Seq<Seq<char>>) -> Map<Seq<char>, Seq<char>>
    decreases pairs.len(),
{
    if pairs.len() == 0 {
        Map::empty()
    } else {
        let m = cookie_pairs_of(pairs.drop_last());
        let p = pairs.last();
        let e = find_char(p, '=');
        if e < p.len() {
            m.insert(trim_chars(p.take(e)), trim_chars(p.skip(e + 1)))
        } else {
            m
        }
    }
}

/// Index of the first header line announcing cookies, or -1.
pub open spec fn first_cookie_line(ls: Seq<Seq<char>>) -> int
    decreases ls.len(),
{
    if ls.len() == 0 {
        -1
    } else if starts_with(strip_cr(ls[0]), "Cookie:"@) {
        0
    } else if first_cookie_line(ls.skip(1)) == -1 {
        -1
    } else {
        1 + first_cookie_line(ls.skip(1))
    }
}

proof fn lemma_first_cookie_line_is(ls: Seq<Seq<char>>, i: int)
    requires
        0 <= i <= ls.len(),
        i < ls.len() ==> starts_with(strip_cr(ls[i]), "Cookie:"@),
        forall|j: int| 0 <= j < i ==> !starts_with(strip_cr(#[trigger] ls[j]), "Cookie:"@),
        i == ls.len() ==> forall|j: int|
            0 <= j < ls.len() ==> !starts_with(strip_cr(#[trigger] ls[j]), "Cookie:"@),
    ensures
        i < ls.len() ==> first_cookie_line(ls) == i,
        i == ls.len() ==> first_cookie_line(ls) == -1,
    decreases ls.len(),
{
    if ls.len() > 0 && !starts_with(strip_cr(ls[0]), "Cookie:"@) {
        assert(forall|j: int| 1 <= j < ls.len() ==> ls.skip(1)[j - 1] == ls[j]);
        if i == ls.len() {
            lemma_first_cookie_line_is(ls.skip(1), i - 1);
        } else {
            lemma_first_cookie_line_is(ls.skip(1), i - 1);
        }
    }
}

/// The cookie map of a raw request: the pairs of the first `Cookie: ` header
/// line, or nothing when no such line is there.
pub open spec fn spec_parse_cookies(s: Seq<char>) -> Map<Seq<char>, Seq<char>> {
    let ls = split_chars(s, '\n');
    let i = first_cookie_line(ls);
    if i == -1 {
        Map::empty()
    } else {
        let l = strip_cr(ls[i]);
        if starts_with(l, "Cookie: "@) {
            cookie_pairs_of(split_chars(l.skip("Cookie: "@.len() as int), ';'))
        } else {
            Map::empty()
        }
    }
}

/// The `Cookie:` header of a raw request picked into a map; the session
/// guard reads `id` and `token` out of it.
#[verifier::loop_isolation(false)]
pub fn parse_cookies(headers: &str) -> (r: StringMap)
    ensures
        r@ == spec_parse_cookies(headers@),
{
    let lines = split_str(headers, '\n');
    let ghost lspec = split_chars(headers@, '\n');
    let n = lines.len();
    let mut m = StringMap::new();
    let mut i: usize = 0;
    while i < n
        invariant
            0 <= i <= n,
            m@ == Map::<Seq<char>, Seq<char>>::empty(),
            forall|j: int| 0 <= j < i ==> !starts_with(strip_cr(#[trigger] lspec[j]), "Cookie:"@),
        decreases n - i,
    {
        let line = strip_cr_str(lines[i].as_str());
        if str_starts_with(line.as_str(), "Cookie:") {
            proof {
                lemma_first_cookie_line_is(lspec, i as int);
            }
            if str_starts_with(line.as_str(), "Cookie: ") {
                let ln = line.as_str().unicode_len();
                proof {
                    reveal_strlit("Cookie: ");
                }
                let rest = line.as_str().substring_char(8, ln);
                proof {
                    assert(rest@ =~= strip_cr(lspec[i as int]).skip("Cookie: "@.len() as int));
                }
                let pairs = split_str(rest, ';');
                let ghost pspec = split_chars(rest@, ';');
                let np = pairs.len();
                let mut k: usize = 0;
                while k < np
                    invariant
                        0 <= k <= np,
                        m@ == cookie_pairs_of(pspec.take(k as int)),
                    decreases np - k,
                {
                    proof {
                        assert(pspec.take(k + 1).drop_last() =~= pspec.take(k as int));
                        assert(pspec.take(k + 1).last() == pspec[k as int]);
                    }
                    let p = pairs[k].as_str();
                    let pn = p.unicode_len();
                    let e = find_in_str(p, '=');
                    if e < pn {
                        let key = trim_str(p.substring_char(0, e));
                        let value = trim_str(p.substring_char(e + 1, pn));
                        m.insert(key, value);
                    }
                    k = k + 1;
                }
                proof {
                    assert(pspec.take(np as int) =~= pspec);
                }
                return m;
            } else {
                return m;
            }
        }
        i = i + 1;
    }
    proof {
        lemma_first_cookie_line_is(lspec, n as int);
    }
    m
}

/// Index of the first occurrence of `p` as a contiguous run in `s`, or -1.
pub open spec fn find_sub(s: Seq<char>, p: Seq<char>) -> int
    decreases s.len(),
{
    if s.len() < p.len() {
        -1
    } else if s.take(p.len() as int) == p {
        0
    } else if s.len() == 0 {
        -1
    } else if find_sub(s.skip(1), p) == -1 {
        -1
    } else {
        1 + find_sub(s.skip(1), p)
    }
}

proof fn lemma_find_sub_found(s: Seq<char>, p: Seq<char>, i: int)
    requires
        0 <= i,
        i + p.len() <= s.len(),
        s.subrange(i, i + p.len()) == p,
        forall|x: int| 0 <= x < i ==> #[trigger] s.subrange(x, x + p.len()) != p,
    ensures
        find_sub(s, p) == i,
    decreases i,
{
    assert(s.take(p.len() as int) =~= s.subrange(0, 0 + p.len() as int));
    if i == 0 {
    } else {
        assert(s.subrange(0, 0 + p.len() as int) != p);
        if p.len() == 0 {
            assert(s.subrange(0, 0 + p.len() as int) =~= p);
        }
        assert(s.skip(1).len() == s.len() - 1);
        assert forall|x: int| 0 <= x < i - 1 implies #[trigger] s.skip(1).subrange(
            x,
            x + p.len(),
        ) != p by {
            assert(s.skip(1).subrange(x, x + p.len()) =~= s.subrange(x + 1, x + 1 + p.len()));
            assert(s.subrange(x + 1, x + 1 + p.len()) != p);
        }
        assert(s.skip(1).subrange(i - 1, i - 1 + p.len()) =~= s.subrange(i, i + p.len()));
        lemma_find_sub_found(s.skip(1), p, i - 1);
    }
}

proof fn lemma_find_sub_none(s: Seq<char>, p: Seq<char>)
    requires
        forall|x: int| 0 <= x <= s.len() - p.len() ==> #[trigger] s.subrange(x, x + p.len()) != p,
    ensures
        find_sub(s, p) == -1,
    decreases s.len(),
{
    if s.len() >= p.len() {
        assert(s.take(p.len() as int) =~= s.subrange(0, 0 + p.len() as int));
        assert(s.subrange(0, 0 + p.len() as int) != p);
        if p.len() == 0 {
            assert(s.subrange(0, 0 + p.len() as int) =~= p);
        }
        assert(s.skip(1).len() == s.len() - 1);
        assert forall|x: int| 0 <= x <= s.skip(1).len() - p.len() implies #[trigger] s.skip(
            1,
        ).subrange(x, x + p.len()) != p by {
            assert(s.skip(1).subrange(x, x + p.len()) =~= s.subrange(x + 1, x + 1 + p.len()));
            assert(s.subrange(x + 1, x + 1 + p.len()) != p);
        }
        lemma_find_sub_none(s.skip(1), p);
    }
}

/// Executable first-occurrence search for a run of characters.
#[verifier::loop_isolation(false)]
fn find_sub_str(s: &str, p: &str) -> (r: Option<usize>)
    ensures
        r matches Some(i) ==> find_sub(s@, p@) == i && i + p@.len() <= s@.len(),
        r is None ==> find_sub(s@, p@) == -1,
{
    let sn = s.unicode_len();
    let pn = p.unicode_len();
    if sn < pn {
        proof {
            lemma_find_sub_none(s@, p@);
        }
        return None;
    }
    if pn == 0 {
        proof {
            assert(s@.subrange(0, 0 + p@.len() as int) =~= p@);
            lemma_find_sub_found(s@, p@, 0);
        }
        return Some(0);
    }
    let mut i: usize = 0;
    while i <= sn - pn
        invariant
            0 <= i <= sn - pn + 1,
            0 < pn,
            forall|x: int| 0 <= x < i ==> #[trigger] s@.subrange(x, x + pn) != p@,
        decreases sn - pn + 1 - i,
    {
        let mut j: usize = 0;
        let mut hit = true;
        while j < pn && hit
            invariant
                0 <= j <= pn,
                0 <= i <= sn - pn,
                hit ==> forall|y: int| 0 <= y < j ==> s@[i + y] == p@[y],
                !hit ==> s@.subrange(i as int, i + pn) != p@,
            decreases (if hit { 1int } else { 0int }), pn - j,
        {
            if s.get_char(i + j) != p.get_char(j) {
                hit = false;
                proof {
                    assert(s@.subrange(i as int, i + pn)[j as int] == s@[i + j]);
                }
            } else {
                j = j + 1;
            }
        }
        if hit {
            proof {
                assert(s@.subrange(i as int, i + pn) =~= p@);
                lemma_find_sub_found(s@, p@, i as int);
            }
            return Some(i);
        }
        i = i + 1;
    }
    proof {
        lemma_find_sub_none(s@, p@);
    }
    None
}

/// A request's body: everything past the first blank line, with the unread
/// tail of the fixed buffer (NUL bytes) and surrounding blanks removed.
/// Nothing comes back when the request has no header/body separator at all.
pub open spec fn spec_body(s: Seq<char>) -> Option<Seq<char>> {
    let i = find_sub(s, "\r\n\r\n"@);
    if i == -1 {
        None
    } else {
        Some(trim_chars(trim_end_char(s.skip(i + "\r\n\r\n"@.len()), '\0')))
    }
}

/// Frame the body out of a raw request; the caller decodes the JSON in it.
pub fn body_of_request(request: &str) -> (r: Option<String>)
    ensures
        ({
            let sb = spec_body(request@);
            match r {
                Some(b) => sb matches Some(x) && b@ == x,
                None => sb is None,
            }
        }),
{
    proof {
        reveal_strlit("\r\n\r\n");
    }
    match find_sub_str(request, "\r\n\r\n") {
        Some(i) => {
            let n = request.unicode_len();
            let tail = request.substring_char(i + 4, n);
            let unpadded = trim_str_end(tail, '\u{0}');
            Some(trim_str(unpadded.as_str()))
        },
        None => None,
    }
}

/// The content type a static asset is served under, decided by its suffix.
pub open spec fn spec_content_type(p: Seq<char>) -> Seq<char> {
    if ends_with(p, ".css"@) {
        "text/css"@
    } else if ends_with(p, ".js"@) {
        "application/javascript"@
    } else if ends_with(p, ".html"@) {
        "text/html"@
    } else if ends_with(p, ".png"@) {
        "image/png"@
    } else if ends_with(p, ".jpg"@) || ends_with(p, ".jpeg"@) {
        "image/jpeg"@
    } else {
        "application/octet-stream"@
    }
}

pub fn get_content_type(file_path: &str) -> (r: &str)
    ensures
        r@ == spec_content_type(file_path@),
{
    if str_ends_with(file_path, ".css") {
        "text/css"
    } else if str_ends_with(file_path, ".js") {
        "application/javascript"
    } else if str_ends_with(file_path, ".html") {
        "text/html"
    } else if str_ends_with(file_path, ".png") {
        "image/png"
    } else if str_ends_with(file_path, ".jpg") || str_ends_with(file_path, ".jpeg") {
        "image/jpeg"
    } else {
        "application/octet-stream"
    }
}

/// A full buffered response: status line, content type, the body's byte
/// length, a blank line, and the body itself.
pub open spec fn spec_http_response(
    status: Seq<char>,
    content_type: Seq<char>,
    byte_len: nat,
    body: Seq<char>,
) -> Seq<char> {
    status + "\r\nContent-Type: "@ + content_type + "\r\nContent-Length: "@ + dec_of(byte_len)
        + "\r\n\r\n"@ + body
}

/// The header section alone, for a response whose payload follows
/// separately — a static asset's raw bytes, for one.
pub open spec fn spec_response_header(
    status: Seq<char>,
    content_type: Seq<char>,
    byte_len: nat,
) -> Seq<char> {
    status + "\r\nContent-Type: "@ + content_type + "\r\nContent-Length: "@ + dec_of(byte_len)
        + "\r\n\r\n"@
}

pub fn response_header(status: &str, content_type: &str, byte_len: usize) -> (r: String)
    ensures
        r@ == spec_response_header(status@, content_type@, byte_len as nat),
{
    let mut out = status.to_owned();
    out.append("\r\nContent-Type: ");
    out.append(content_type);
    out.append("\r\nContent-Length: ");
    let dec = to_decimal(byte_len);
    out.append(dec.as_str());
    out.append("\r\n\r\n");
    proof {
        assert(out@ =~= spec_response_header(status@, content_type@, byte_len as nat));
    }
    out
}

/// Build a response around a body; the advertised length counts the body's
/// UTF-8 bytes, not its characters.
pub fn http_response(status: &str, content_type: &str, body: &str) -> (r: String)
    ensures
        r@ == spec_http_response(
            status@,
            content_type@,
            (body.spec_bytes().len() as usize) as nat,
            body@,
        ),
{
    let byte_len = body.len();
    let mut out = status.to_owned();
    out.append("\r\nContent-Type: ");
    out.append(content_type);
    out.append("\r\nContent-Length: ");
    let dec = to_decimal(byte_len);
    out.append(dec.as_str());
    out.append("\r\n\r\n");
    out.append(body);
    proof {
        assert(out@ =~= spec_http_response(
            status@,
            content_type@,
            (body.spec_bytes().len() as usize) as nat,
            body@,
        ));
    }
    out
}

pub fn ok_response() -> (r: String)
    ensures
        r@ == "HTTP/1.1 200 OK\r\nContent-Length: 0\r\n\r\n"@,
{
    "HTTP/1.1 200 OK\r\nContent-Length: 0\r\n\r\n".to_owned()
}

pub fn not_found_response() -> (r: String)
    ensures
        r@ == "HTTP/1.1 404 NOT_FOUND\r\nContent-Length: 0\r\n\r\n"@,
{
    "HTTP/1.1 404 NOT_FOUND\r\nContent-Length: 0\r\n\r\n".to_owned()
}

pub fn invalid_response() -> (r: String)
    ensures
        r@ == "HTTP/1.1 400 INVALID_REQUEST\r\nContent-Length: 0\r\n\r\n"@,
{
    "HTTP/1.1 400 INVALID_REQUEST\r\nContent-Length: 0\r\n\r\n".to_owned()
}

pub fn unauthenticated_response() -> (r: String)
    ensures
        r@ == "HTTP/1.1 401 UNAUTHENTICATED\r\nContent-Length: 0\r\n\r\n"@,
{
    "HTTP/1.1 401 UNAUTHENTICATED\r\nContent-Length: 0\r\n\r\n".to_owned()
}

} // verus!

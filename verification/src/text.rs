//! Character-sequence utilities shared by the request parsers and the router:
//! first-occurrence search, splitting on a separator, trimming, and equality,
//! each as a spec function with a verified executable counterpart.

use vstd::prelude::*;
use vstd::string::*;

verus! {

/// Index of the first occurrence of `c` in `s`, or `s.len()` when absent.
pub open spec fn find_char(s: Seq<char>, c: char) -> int
    decreases s.len(),
{
    if s.len() == 0 {
        0
    } else if s[0] == c {
        0
    } else {
        1 + find_char(s.skip(1), c)
    }
}

pub proof fn lemma_find_char(s: Seq<char>, c: char)
    ensures
        0 <= find_char(s, c) <= s.len(),
        find_char(s, c) < s.len() ==> s[find_char(s, c)] == c,
        forall|j: int| 0 <= j < find_char(s, c) ==> s[j] != c,
    decreases s.len(),
{
    if s.len() == 0 {
    } else if s[0] == c {
    } else {
        lemma_find_char(s.skip(1), c);
        assert forall|j: int| 0 <= j < find_char(s, c) implies s[j] != c by {
            if j > 0 {
                assert(s.skip(1)[j - 1] == s[j]);
            }
        }
    }
}

/// The first occurrence is pinned by "c at i, none before i".
pub proof fn lemma_find_char_is(s: Seq<char>, c: char, i: int)
    requires
        0 <= i <= s.len(),
        i < s.len() ==> s[i] == c,
        forall|j: int| 0 <= j < i ==> s[j] != c,
        i == s.len() ==> forall|j: int| 0 <= j < s.len() ==> s[j] != c,
    ensures
        find_char(s, c) == i,
{
    lemma_find_char(s, c);
    let f = find_char(s, c);
    if f < i {
        assert(s[f] == c);
    }
    if f > i {
        assert(s[i] != c);
    }
}

/// Splitting on `c`; an empty input gives one empty piece, as `str::split` does.
pub open spec fn split_chars(s: Seq<char>, c: char) -> Seq<Seq<char>>
    decreases s.len(),
{
    let i = find_char(s, c);
    if 0 <= i < s.len() {
        seq![s.take(i)] + split_chars(s.skip(i + 1), c)
    } else {
        seq![s]
    }
}

pub proof fn lemma_split_chars_len(s: Seq<char>, c: char)
    ensures
        split_chars(s, c).len() >= 1,
    decreases s.len(),
{
    let i = find_char(s, c);
    if 0 <= i < s.len() {
        lemma_split_chars_len(s.skip(i + 1), c);
    }
}

/// Executable first-occurrence search.
pub fn find_in_str(s: &str, c: char) -> (r: usize)
    ensures
        r == find_char(s@, c),
        r <= s@.len(),
    decreases s@.len(),
{
    let n = s.unicode_len();
    let mut i: usize = 0;
    while i < n && s.get_char(i) != c
        invariant
            0 <= i <= n,
            n == s@.len(),
            forall|j: int| 0 <= j < i ==> s@[j] != c,
        decreases n - i,
    {
        i = i + 1;
    }
    proof {
        lemma_find_char_is(s@, c, i as int);
    }
    i
}

/// Executable split; the result views are exactly `split_chars`.
pub fn split_str(s: &str, c: char) -> (r: Vec<String>)
    ensures
        r@.len() == split_chars(s@, c).len(),
        forall|k: int| 0 <= k < r@.len() ==> r@[k]@ == split_chars(s@, c)[k],
    decreases s@.len(),
{
    let n = s.unicode_len();
    let i = find_in_str(s, c);
    if i == n {
        let mut out: Vec<String> = Vec::new();
        out.push(s.to_owned());
        proof {
            assert(split_chars(s@, c) =~= seq![s@]);
        }
        out
    } else {
        let head = s.substring_char(0, i).to_owned();
        let tail = s.substring_char(i + 1, n);
        let mut rest = split_str(tail, c);
        let ghost pre = rest@;
        rest.insert(0, head);
        proof {
            let parts = split_chars(s@, c);
            assert(parts =~= seq![s@.take(i as int)] + split_chars(s@.skip(i + 1), c));
            assert(head@ == s@.take(i as int));
            assert forall|k: int| 0 <= k < rest@.len() implies rest@[k]@ == parts[k] by {
                if k > 0 {
                    assert(rest@[k] == pre[k - 1]);
                }
            }
        }
        rest
    }
}

/// Executable string equality, proved character by character.
pub fn str_eq(a: &str, b: &str) -> (r: bool)
    ensures
        r == (a@ == b@),
{
    let an = a.unicode_len();
    let bn = b.unicode_len();
    if an != bn {
        return false;
    }
    let mut i: usize = 0;
    while i < an
        invariant
            0 <= i <= an,
            an == a@.len(),
            an == b@.len(),
            forall|j: int| 0 <= j < i ==> a@[j] == b@[j],
        decreases an - i,
    {
        if a.get_char(i) != b.get_char(i) {
            return false;
        }
        i = i + 1;
    }
    proof {
        assert(a@ =~= b@);
    }
    true
}

pub open spec fn starts_with(s: Seq<char>, p: Seq<char>) -> bool {
    s.len() >= p.len() && s.take(p.len() as int) == p
}

pub fn str_starts_with(s: &str, p: &str) -> (r: bool)
    ensures
        r == starts_with(s@, p@),
{
    let sn = s.unicode_len();
    let pn = p.unicode_len();
    if sn < pn {
        return false;
    }
    let mut i: usize = 0;
    while i < pn
        invariant
            0 <= i <= pn,
            pn == p@.len(),
            sn == s@.len(),
            pn <= sn,
            forall|j: int| 0 <= j < i ==> s@[j] == p@[j],
        decreases pn - i,
    {
        if s.get_char(i) != p.get_char(i) {
            proof {
                assert(s@.take(pn as int)[i as int] == s@[i as int]);
            }
            return false;
        }
        i = i + 1;
    }
    proof {
        assert(s@.take(pn as int) =~= p@);
    }
    true
}

pub open spec fn ends_with(s: Seq<char>, p: Seq<char>) -> bool {
    s.len() >= p.len() && s.skip(s.len() - p.len()) == p
}

pub fn str_ends_with(s: &str, p: &str) -> (r: bool)
    ensures
        r == ends_with(s@, p@),
{
    let sn = s.unicode_len();
    let pn = p.unicode_len();
    if sn < pn {
        return false;
    }
    let mut i: usize = 0;
    while i < pn
        invariant
            0 <= i <= pn,
            pn == p@.len(),
            sn == s@.len(),
            pn <= sn,
            forall|j: int| 0 <= j < i ==> s@[sn - pn + j] == p@[j],
        decreases pn - i,
    {
        if s.get_char(sn - pn + i) != p.get_char(i) {
            proof {
                assert(s@.skip(sn - pn)[i as int] == s@[sn - pn + i]);
            }
            return false;
        }
        i = i + 1;
    }
    proof {
        assert(s@.skip(sn - pn) =~= p@);
    }
    true
}

/// `p` occurs somewhere in `s` as a contiguous run.
pub open spec fn contains_seq(s: Seq<char>, p: Seq<char>) -> bool {
    exists|i: int| 0 <= i <= s.len() - p.len() && #[trigger] s.subrange(i, i + p.len()) == p
}

pub fn str_contains(s: &str, p: &str) -> (r: bool)
    ensures
        r == contains_seq(s@, p@),
{
    let sn = s.unicode_len();
    let pn = p.unicode_len();
    if sn < pn {
        return false;
    }
    if pn == 0 {
        proof {
            assert(s@.subrange(0, 0 + p@.len() as int) =~= p@);
        }
        return true;
    }
    let mut i: usize = 0;
    while i <= sn - pn
        invariant
            0 <= i <= sn - pn + 1,
            0 < pn <= sn,
            sn == s@.len(),
            pn == p@.len(),
            forall|x: int| 0 <= x < i ==> #[trigger] s@.subrange(x, x + pn) != p@,
        decreases sn - pn + 1 - i,
    {
        let mut j: usize = 0;
        let mut hit = true;
        while j < pn && hit
            invariant
                0 <= j <= pn,
                0 <= i <= sn - pn,
                sn == s@.len(),
                pn == p@.len(),
                hit ==> forall|y: int| 0 <= y < j ==> s@[i + y] == p@[y],
                !hit ==> s@.subrange(i as int, i + pn) != p@,
            decreases (if hit { 1int } else { 0int }), pn - j,
        {
            if s.get_char(i + j) != p.get_char(j) {
                hit = false;
                proof {
                    assert(s@.subrange(i as int, i + pn)[j as int] == s@[i + j]);
                }
            } else {
                j = j + 1;
            }
        }
        if hit {
            proof {
                assert(s@.subrange(i as int, i + pn) =~= p@);
            }
            return true;
        }
        i = i + 1;
    }
    false
}

/// Characters treated as blank by the trimming helpers.
pub open spec fn is_blank(c: char) -> bool {
    c == ' ' || c == '\t' || c == '\r' || c == '\n'
}

/// Leading and trailing blanks removed.
pub open spec fn trim_chars(s: Seq<char>) -> Seq<char>
    decreases s.len(),
{
    if s.len() > 0 && is_blank(s[0]) {
        trim_chars(s.skip(1))
    } else if s.len() > 0 && is_blank(s.last()) {
        trim_chars(s.drop_last())
    } else {
        s
    }
}

fn exec_is_blank(c: char) -> (r: bool)
    ensures
        r == is_blank(c),
{
    c == ' ' || c == '\t' || c == '\r' || c == '\n'
}

pub fn trim_str(s: &str) -> (r: String)
    ensures
        r@ == trim_chars(s@),
    decreases s@.len(),
{
    let n = s.unicode_len();
    if n > 0 && exec_is_blank(s.get_char(0)) {
        trim_str(s.substring_char(1, n))
    } else if n > 0 && exec_is_blank(s.get_char(n - 1)) {
        proof {
            assert(s@.take(n - 1) =~= s@.drop_last());
        }
        trim_str(s.substring_char(0, n - 1))
    } else {
        s.to_owned()
    }
}

/// All trailing occurrences of `c` removed.
pub open spec fn trim_end_char(s: Seq<char>, c: char) -> Seq<char>
    decreases s.len(),
{
    if s.len() > 0 && s.last() == c {
        trim_end_char(s.drop_last(), c)
    } else {
        s
    }
}

pub fn trim_str_end(s: &str, c: char) -> (r: String)
    ensures
        r@ == trim_end_char(s@, c),
    decreases s@.len(),
{
    let n = s.unicode_len();
    if n > 0 && s.get_char(n - 1) == c {
        proof {
            assert(s@.take(n - 1) =~= s@.drop_last());
        }
        trim_str_end(s.substring_char(0, n - 1), c)
    } else {
        s.to_owned()
    }
}

/// Decimal digits of `n`, most significant first.
pub open spec fn dec_of(n: nat) -> Seq<char>
    decreases n,
{
    if n < 10 {
        seq![digit_char(n)]
    } else {
        dec_of(n / 10).push(digit_char(n % 10))
    }
}

pub open spec fn digit_char(d: nat) -> char {
    if d == 0 {
        '0'
    } else if d == 1 {
        '1'
    } else if d == 2 {
        '2'
    } else if d == 3 {
        '3'
    } else if d == 4 {
        '4'
    } else if d == 5 {
        '5'
    } else if d == 6 {
        '6'
    } else if d == 7 {
        '7'
    } else if d == 8 {
        '8'
    } else {
        '9'
    }
}

/// Decimal rendering of `n`, proved against `dec_of`.
pub fn to_decimal(n: usize) -> (r: String)
    ensures
        r@ == dec_of(n as nat),
    decreases n,
{
    let digits = "0123456789";
    proof {
        reveal_strlit("0123456789");
    }
    let d = n % 10;
    let piece = digits.substring_char(d, d + 1);
    proof {
        assert(piece@ =~= seq![digits@[d as int]]);
        assert(digits@[d as int] == digit_char(d as nat));
    }
    if n < 10 {
        piece.to_owned()
    } else {
        let mut prefix = to_decimal(n / 10);
        prefix.append(piece);
        proof {
            assert(prefix@ =~= dec_of(n as nat));
        }
        prefix
    }
}

} // verus!

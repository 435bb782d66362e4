//! Verified text scanning: substring search with first-match semantics,
//! decimal digit runs and their values, ASCII case folding, and decimal
//! rendering. Everything works on sequences of characters.

use vstd::prelude::*;
use vstd::string::{StrSliceExecFns, StringExecFns};

verus! {

/// `p` occurs in `t` starting at index `i`.
pub open spec fn match_at(t: Seq<char>, p: Seq<char>, i: int) -> bool {
    &&& 0 <= i
    &&& i + p.len() <= t.len()
    &&& t.subrange(i, i + p.len() as int) == p
}

/// `p` occurs somewhere in `t`.
pub open spec fn contains_seq(t: Seq<char>, p: Seq<char>) -> bool {
    exists|i: int| match_at(t, p, i)
}

/// Index of the first occurrence of `p` in `t` at or after `i`; -1 if none.
pub open spec fn find_from(t: Seq<char>, p: Seq<char>, i: int) -> int
    decreases t.len() - i when 0 <= i <= t.len()
{
    if p.len() == 0 {
        i
    } else if i + p.len() > t.len() {
        -1
    } else if match_at(t, p, i) {
        i
    } else {
        find_from(t, p, i + 1)
    }
}

/// Index of the first occurrence of `p` in `t`; -1 if none.
pub open spec fn find_index(t: Seq<char>, p: Seq<char>) -> int {
    find_from(t, p, 0)
}

/// What `find_from` returns: the least match position at or after `i`,
/// or -1 exactly when no position at or after `i` matches.
pub proof fn lemma_find_from(t: Seq<char>, p: Seq<char>, i: int)
    requires
        0 <= i <= t.len(),
    ensures
        find_from(t, p, i) >= 0 ==> {
            &&& i <= find_from(t, p, i)
            &&& match_at(t, p, find_from(t, p, i))
            &&& forall|j: int| i <= j < find_from(t, p, i) ==> !match_at(t, p, j)
        },
        find_from(t, p, i) < 0 ==> forall|j: int| j >= i ==> !match_at(t, p, j),
    decreases t.len() - i,
{
    if p.len() == 0 {
        assert(t.subrange(i, i) =~= p);
    } else if i + p.len() > t.len() {
        assert forall|j: int| j >= i implies !match_at(t, p, j) by {}
    } else if match_at(t, p, i) {
    } else {
        lemma_find_from(t, p, i + 1);
    }
}

/// The characters of `t`, one by one.
pub fn chars_of(t: &str) -> (v: Vec<char>)
    ensures
        v@ == t@,
{
    let n = t.unicode_len();
    let mut v: Vec<char> = Vec::new();
    let mut i: usize = 0;
    while i < n
        invariant
            i <= n,
            n == t@.len(),
            v@.len() == i,
            forall|k: int| 0 <= k < i ==> v@[k] == t@[k],
        decreases n - i,
    {
        v.push(t.get_char(i));
        i += 1;
    }
    proof {
        assert(v@ =~= t@);
    }
    v
}

/// Whether `pat` occurs in `hay` at position `i`.
pub fn pat_match_at(hay: &Vec<char>, pat: &str, i: usize, m: usize) -> (r: bool)
    requires
        m == pat@.len(),
        i + m <= hay@.len(),
    ensures
        r == match_at(hay@, pat@, i as int),
{
    let n = hay.len();
    let mut j: usize = 0;
    while j < m
        invariant
            j <= m,
            m == pat@.len(),
            n == hay@.len(),
            i + m <= n,
            forall|k: int| 0 <= k < j ==> hay@[i + k] == pat@[k],
        decreases m - j,
    {
        if hay[i + j] != pat.get_char(j) {
            proof {
                assert(!match_at(hay@, pat@, i as int)) by {
                    if match_at(hay@, pat@, i as int) {
                        assert(hay@.subrange(i as int, i + m as int)[j as int] == pat@[j as int]);
                    }
                }
            }
            return false;
        }
        j += 1;
    }
    proof {
        assert(hay@.subrange(i as int, i + m as int) =~= pat@);
    }
    true
}

/// First occurrence of `pat` in `hay` at or after `start`, if any.
pub fn find_sub_from(hay: &Vec<char>, pat: &str, start: usize) -> (r: Option<usize>)
    requires
        start <= hay@.len(),
    ensures
        match r {
            Some(i) => {
                &&& find_from(hay@, pat@, start as int) == i
                &&& start <= i
                &&& match_at(hay@, pat@, i as int)
                &&& forall|j: int| start <= j < i ==> !match_at(hay@, pat@, j)
            },
            None => {
                &&& find_from(hay@, pat@, start as int) == -1
                &&& forall|j: int| j >= start ==> !match_at(hay@, pat@, j)
            },
        },
{
    let n = hay.len();
    let m = pat.unicode_len();
    if m == 0 {
        proof {
            assert(hay@.subrange(start as int, start as int) =~= pat@);
        }
        return Some(start);
    }
    if m > n || start > n - m {
        proof {
            lemma_find_from(hay@, pat@, start as int);
            assert forall|j: int| j >= start implies !match_at(hay@, pat@, j) by {}
            assert(find_from(hay@, pat@, start as int) == -1) by {
                if find_from(hay@, pat@, start as int) >= 0 {
                    assert(match_at(hay@, pat@, find_from(hay@, pat@, start as int)));
                }
            }
        }
        return None;
    }
    let mut i: usize = start;
    while i <= n - m
        invariant
            start <= i <= n - m + 1,
            1 <= m <= n,
            n == hay@.len(),
            m == pat@.len(),
            find_from(hay@, pat@, start as int) == find_from(hay@, pat@, i as int),
            forall|j: int| start <= j < i ==> !match_at(hay@, pat@, j),
        decreases n - i,
    {
        if pat_match_at(hay, pat, i, m) {
            proof {
                assert(find_from(hay@, pat@, i as int) == i);
            }
            return Some(i);
        }
        proof {
            assert(find_from(hay@, pat@, i as int) == find_from(hay@, pat@, i + 1));
        }
        i += 1;
    }
    proof {
        assert(find_from(hay@, pat@, i as int) == -1);
        assert forall|j: int| j >= start implies !match_at(hay@, pat@, j) by {
            if j >= i {
                assert(j + pat@.len() > hay@.len());
            }
        }
    }
    None
}

/// First occurrence of `pat` in `hay`, if any.
pub fn find_sub(hay: &Vec<char>, pat: &str) -> (r: Option<usize>)
    ensures
        match r {
            Some(i) => {
                &&& find_index(hay@, pat@) == i
                &&& match_at(hay@, pat@, i as int)
                &&& forall|j: int| 0 <= j < i ==> !match_at(hay@, pat@, j)
            },
            None => {
                &&& find_index(hay@, pat@) == -1
                &&& !contains_seq(hay@, pat@)
            },
        },
{
    let r = find_sub_from(hay, pat, 0);
    proof {
        if r is None {
            assert(!contains_seq(hay@, pat@)) by {
                if contains_seq(hay@, pat@) {
                    let j = choose|j: int| match_at(hay@, pat@, j);
                    assert(j >= 0);
                }
            }
        }
    }
    r
}

/// Whether `pat` occurs anywhere in `hay`.
pub fn contains_sub(hay: &Vec<char>, pat: &str) -> (r: bool)
    ensures
        r == contains_seq(hay@, pat@),
{
    match find_sub(hay, pat) {
        Some(i) => {
            proof {
                assert(match_at(hay@, pat@, i as int));
            }
            true
        },
        None => false,
    }
}

/// The characters of `hay` between `s` and `e`.
pub fn sub_vec(hay: &Vec<char>, s: usize, e: usize) -> (v: Vec<char>)
    requires
        s <= e <= hay@.len(),
    ensures
        v@ == hay@.subrange(s as int, e as int),
{
    let mut v: Vec<char> = Vec::new();
    let mut i: usize = s;
    while i < e
        invariant
            s <= i <= e <= hay@.len(),
            v@.len() == i - s,
            forall|k: int| 0 <= k < i - s ==> v@[k] == hay@[s + k],
        decreases e - i,
    {
        v.push(hay[i]);
        i += 1;
    }
    proof {
        assert(v@ =~= hay@.subrange(s as int, e as int));
    }
    v
}

/// `c` is a decimal digit character.
pub open spec fn is_digit(c: char) -> bool {
    '0' <= c && c <= '9'
}

/// Numeric value of a decimal digit character.
pub open spec fn digit_val(c: char) -> int {
    c as int - '0' as int
}

/// End of the run of digits beginning at `i`: the first index at or after
/// `i` holding no digit, or the end of `t`.
pub open spec fn digit_run_end(t: Seq<char>, i: int) -> int
    decreases t.len() - i when 0 <= i <= t.len()
{
    if i >= t.len() {
        i
    } else if !is_digit(t[i]) {
        i
    } else {
        digit_run_end(t, i + 1)
    }
}

/// The digit run is a well-delimited all-digit stretch of `t`.
pub proof fn lemma_digit_run_end(t: Seq<char>, i: int)
    requires
        0 <= i <= t.len(),
    ensures
        i <= digit_run_end(t, i) <= t.len(),
        forall|k: int| i <= k < digit_run_end(t, i) ==> is_digit(t[k]),
        digit_run_end(t, i) < t.len() ==> !is_digit(t[digit_run_end(t, i)]),
    decreases t.len() - i,
{
    if i >= t.len() {
    } else if !is_digit(t[i]) {
    } else {
        lemma_digit_run_end(t, i + 1);
    }
}

/// Value of a sequence of decimal digit characters, most significant first.
pub open spec fn dec_value(s: Seq<char>) -> int
    decreases s.len()
{
    if s.len() == 0 {
        0
    } else {
        dec_value(s.drop_last()) * 10 + digit_val(s.last())
    }
}

/// A sequence of digits has a non-negative value.
pub proof fn lemma_dec_value_nonneg(s: Seq<char>)
    requires
        forall|k: int| 0 <= k < s.len() ==> is_digit(s[k]),
    ensures
        dec_value(s) >= 0,
    decreases s.len(),
{
    if s.len() > 0 {
        lemma_dec_value_nonneg(s.drop_last());
    }
}

/// Dropping trailing digits never increases the value.
pub proof fn lemma_dec_value_prefix_le(s: Seq<char>, k: int)
    requires
        forall|j: int| 0 <= j < s.len() ==> is_digit(s[j]),
        0 <= k <= s.len(),
    ensures
        dec_value(s.subrange(0, k)) <= dec_value(s),
    decreases s.len(),
{
    if k == s.len() {
        assert(s.subrange(0, k) =~= s);
    } else {
        let d = s.drop_last();
        assert(d.subrange(0, k) =~= s.subrange(0, k));
        lemma_dec_value_prefix_le(d, k);
        lemma_dec_value_nonneg(d);
    }
}

/// Whether `c` is a decimal digit character.
pub fn is_digit_exec(c: char) -> (r: bool)
    ensures
        r == is_digit(c),
{
    '0' <= c && c <= '9'
}

/// First index at or after `start` holding no digit.
pub fn digit_run_end_exec(hay: &Vec<char>, start: usize) -> (e: usize)
    requires
        start <= hay@.len(),
    ensures
        e == digit_run_end(hay@, start as int),
        start <= e <= hay@.len(),
{
    let n = hay.len();
    let mut e: usize = start;
    while e < n && is_digit_exec(hay[e])
        invariant
            start <= e <= n,
            n == hay@.len(),
            digit_run_end(hay@, start as int) == digit_run_end(hay@, e as int),
        decreases n - e,
    {
        proof {
            assert(digit_run_end(hay@, e as int) == digit_run_end(hay@, e + 1));
        }
        e += 1;
    }
    e
}

/// Value of the digits of `hay` between `s` and `e`, when it is at most
/// `cap`; `None` when it is larger.
pub fn digit_run_value_capped(hay: &Vec<char>, s: usize, e: usize, cap: u64) -> (r: Option<u64>)
    requires
        s <= e <= hay@.len(),
        forall|k: int| s <= k < e ==> is_digit(hay@[k]),
    ensures
        ({
            let v = dec_value(hay@.subrange(s as int, e as int));
            &&& v >= 0
            &&& if v <= cap {
                r == Some(v as u64)
            } else {
                r is None
            }
        }),
{
    proof {
        let full = hay@.subrange(s as int, e as int);
        lemma_dec_value_nonneg(full);
    }
    let mut acc: u64 = 0;
    let mut k: usize = s;
    while k < e
        invariant
            s <= k <= e <= hay@.len(),
            forall|j: int| s <= j < e ==> is_digit(hay@[j]),
            acc == dec_value(hay@.subrange(s as int, k as int)),
            acc <= cap,
        decreases e - k,
    {
        let c = hay[k];
        let d: u64 = (c as u32 - 48) as u64;
        proof {
            assert(is_digit(hay@[k as int]));
            assert(d == digit_val(hay@[k as int]));
            assert(hay@.subrange(s as int, k + 1).drop_last() =~= hay@.subrange(
                s as int,
                k as int,
            ));
            assert(hay@.subrange(s as int, k + 1).last() == hay@[k as int]);
        }
        if d > cap || acc > (cap - d) / 10 {
            proof {
                let full = hay@.subrange(s as int, e as int);
                let pre = hay@.subrange(s as int, k + 1);
                assert(dec_value(pre) == acc * 10 + d);
                assert(dec_value(pre) > cap);
                assert(full.subrange(0, k + 1 - s) =~= pre);
                assert forall|j: int| 0 <= j < full.len() implies is_digit(full[j]) by {}
                lemma_dec_value_prefix_le(full, k + 1 - s);
            }
            return None;
        }
        acc = acc * 10 + d;
        k += 1;
    }
    Some(acc)
}

/// ASCII lowercase of one character; all others are unchanged.
pub open spec fn lower(c: char) -> char {
    if 'A' <= c && c <= 'Z' {
        ((c as u32) + 32) as char
    } else {
        c
    }
}

/// `s` with every character lowercased.
pub open spec fn lower_seq(s: Seq<char>) -> Seq<char> {
    s.map_values(|c: char| lower(c))
}

/// ASCII lowercase of one character.
pub fn lower_char(c: char) -> (r: char)
    ensures
        r == lower(c),
{
    if 'A' <= c && c <= 'Z' {
        let code: u32 = (c as u32) + 32;
        proof {
            assert(code <= 0x7a);
            assert(code as char == lower(c));
        }
        char_from_code(code)
    } else {
        c
    }
}

/// Turns a code point below 128 into its character.
fn char_from_code(code: u32) -> (r: char)
    requires
        code < 128,
    ensures
        r == code as char,
{
    let b: u8 = code as u8;
    b as char
}

/// The characters of `t`, lowercased one by one.
pub fn lower_chars(t: &str) -> (v: Vec<char>)
    ensures
        v@ == lower_seq(t@),
{
    let n = t.unicode_len();
    let mut v: Vec<char> = Vec::new();
    let mut i: usize = 0;
    while i < n
        invariant
            i <= n,
            n == t@.len(),
            v@.len() == i,
            forall|k: int| 0 <= k < i ==> v@[k] == lower(t@[k]),
        decreases n - i,
    {
        v.push(lower_char(t.get_char(i)));
        i += 1;
    }
    proof {
        assert(v@ =~= lower_seq(t@));
    }
    v
}

/// Decimal rendering of a non-negative number, most significant digit first.
pub open spec fn dec_str(n: int) -> Seq<char>
    decreases n when n >= 0
{
    if n < 10 {
        seq![(('0' as int + n) as char)]
    } else {
        dec_str(n / 10).push((('0' as int + n % 10) as char))
    }
}

/// The one-character string of a decimal digit.
fn digit_str(d: u64) -> (r: &'static str)
    requires
        d < 10,
    ensures
        r@ =~= seq![(('0' as int + d) as char)],
{
    proof {
        reveal_strlit("0");
        reveal_strlit("1");
        reveal_strlit("2");
        reveal_strlit("3");
        reveal_strlit("4");
        reveal_strlit("5");
        reveal_strlit("6");
        reveal_strlit("7");
        reveal_strlit("8");
        reveal_strlit("9");
    }
    match d {
        0 => "0",
        1 => "1",
        2 => "2",
        3 => "3",
        4 => "4",
        5 => "5",
        6 => "6",
        7 => "7",
        8 => "8",
        _ => "9",
    }
}

/// Renders a number in decimal.
pub fn u64_to_dec(n: u64) -> (s: String)
    ensures
        s@ == dec_str(n as int),
    decreases n,
{
    if n < 10 {
        digit_str(n).to_owned()
    } else {
        let mut s = u64_to_dec(n / 10);
        s.append(digit_str(n % 10));
        proof {
            assert(s@ =~= dec_str(n as int));
        }
        s
    }
}

} // verus!

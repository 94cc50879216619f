//! Byte-level text utilities for the line protocol: whitespace
//! tokenization, case folding, substring search, trimming, joining,
//! and decimal parsing and formatting. Every function is specified
//! against a recursive mathematical definition.

use vstd::prelude::*;

verus! {

/// ASCII whitespace: space, tab, line feed, vertical tab, form feed,
/// carriage return.
pub open spec fn is_ws(b: u8) -> bool {
    b == 32 || b == 9 || b == 10 || b == 11 || b == 12 || b == 13
}

fn is_ws_byte(b: u8) -> (r: bool)
    ensures
        r == is_ws(b),
{
    b == 32 || b == 9 || b == 10 || b == 11 || b == 12 || b == 13
}

/// Length of the maximal non-whitespace prefix of `s`.
pub open spec fn tok_len(s: Seq<u8>) -> nat
    decreases s.len(),
{
    if s.len() == 0 || is_ws(s[0]) {
        0
    } else {
        1 + tok_len(s.drop_first())
    }
}

proof fn lemma_tok_len_le(s: Seq<u8>)
    ensures
        tok_len(s) <= s.len(),
    decreases s.len(),
{
    if s.len() > 0 && !is_ws(s[0]) {
        lemma_tok_len_le(s.drop_first());
    }
}

/// The whitespace-separated tokens of `s`, in order, each non-empty.
pub open spec fn spec_tokens(s: Seq<u8>) -> Seq<Seq<u8>>
    decreases s.len(),
    via spec_tokens_decreases

{
    if s.len() == 0 {
        Seq::empty()
    } else if is_ws(s[0]) {
        spec_tokens(s.drop_first())
    } else {
        seq![s.take(tok_len(s) as int)] + spec_tokens(s.skip(tok_len(s) as int))
    }
}

#[via_fn]
proof fn spec_tokens_decreases(s: Seq<u8>) {
    if s.len() > 0 && !is_ws(s[0]) {
        assert(tok_len(s) >= 1);
        lemma_tok_len_le(s);
    }
}

/// The views of a vector of byte vectors.
pub open spec fn views_of(ts: Seq<Vec<u8>>) -> Seq<Seq<u8>> {
    ts.map_values(|t: Vec<u8>| t@)
}

proof fn lemma_tok_len_between(s: Seq<u8>, i: int, j: int)
    requires
        0 <= i <= j <= s.len(),
        forall|m: int| i <= m < j ==> !is_ws(s[m]),
        j == s.len() || is_ws(s[j]),
    ensures
        tok_len(s.skip(i)) == j - i,
    decreases j - i,
{
    if i == j {
        if i < s.len() {
            assert(s.skip(i)[0] == s[i]);
        }
    } else {
        assert(s.skip(i)[0] == s[i]);
        assert(s.skip(i).drop_first() =~= s.skip(i + 1));
        lemma_tok_len_between(s, i + 1, j);
    }
}

/// Splits `l` into its whitespace-separated tokens.
pub fn split_ws(l: &[u8]) -> (r: Vec<Vec<u8>>)
    ensures
        views_of(r@) == spec_tokens(l@),
{
    let mut toks: Vec<Vec<u8>> = Vec::new();
    let mut i: usize = 0;
    proof {
        assert(l@.skip(0) =~= l@);
        assert(views_of(toks@) + spec_tokens(l@.skip(0)) =~= spec_tokens(l@));
    }
    while i < l.len()
        invariant
            i <= l@.len(),
            views_of(toks@) + spec_tokens(l@.skip(i as int)) == spec_tokens(l@),
        decreases l@.len() - i,
    {
        if is_ws_byte(l[i]) {
            proof {
                assert(l@.skip(i as int).drop_first() =~= l@.skip(i + 1));
            }
            i += 1;
        } else {
            let start = i;
            i += 1;
            while i < l.len() && !is_ws_byte(l[i])
                invariant
                    start < i <= l@.len(),
                    forall|m: int| start <= m < i ==> !is_ws(l@[m]),
                decreases l@.len() - i,
            {
                i += 1;
            }
            let t: Vec<u8> = vstd::slice::slice_to_vec(
                vstd::slice::slice_subrange(l, start, i),
            );
            proof {
                lemma_tok_len_between(l@, start as int, i as int);
                assert(l@.skip(start as int).take(i - start) =~= l@.subrange(
                    start as int,
                    i as int,
                ));
                assert(l@.skip(start as int).skip(i - start) =~= l@.skip(i as int));
            }
            let ghost old_toks = toks@;
            toks.push(t);
            proof {
                assert(views_of(toks@) =~= views_of(old_toks).push(t@));
                assert(views_of(toks@) + spec_tokens(l@.skip(i as int)) =~= spec_tokens(l@));
            }
        }
    }
    proof {
        assert(spec_tokens(l@.skip(l@.len() as int)) =~= Seq::<Seq<u8>>::empty());
        assert(views_of(toks@) + spec_tokens(l@.skip(l@.len() as int)) =~= views_of(toks@));
    }
    toks
}

/// ASCII upper-casing of one byte.
pub open spec fn upper_byte(b: u8) -> u8 {
    if 97 <= b && b <= 122 {
        (b - 32) as u8
    } else {
        b
    }
}

/// ASCII upper-casing of a byte sequence.
pub open spec fn spec_upper(s: Seq<u8>) -> Seq<u8> {
    s.map_values(|b: u8| upper_byte(b))
}

/// ASCII upper-cases `t`.
pub fn to_upper(t: &[u8]) -> (r: Vec<u8>)
    ensures
        r@ == spec_upper(t@),
{
    let mut r: Vec<u8> = Vec::new();
    let mut i: usize = 0;
    while i < t.len()
        invariant
            i <= t@.len(),
            r@ == spec_upper(t@).take(i as int),
        decreases t@.len() - i,
    {
        let b = t[i];
        if 97 <= b && b <= 122 {
            r.push(b - 32);
        } else {
            r.push(b);
        }
        proof {
            assert(r@ =~= spec_upper(t@).take(i + 1));
        }
        i += 1;
    }
    proof {
        assert(spec_upper(t@).take(t@.len() as int) =~= spec_upper(t@));
    }
    r
}

/// Compares two byte slices for equality.
pub fn bytes_eq(a: &[u8], b: &[u8]) -> (r: bool)
    ensures
        r == (a@ == b@),
{
    if a.len() != b.len() {
        proof {
            assert(a@.len() != b@.len());
        }
        return false;
    }
    let mut i: usize = 0;
    while i < a.len()
        invariant
            i <= a@.len(),
            a@.len() == b@.len(),
            forall|m: int| 0 <= m < i ==> a@[m] == b@[m],
        decreases a@.len() - i,
    {
        if a[i] != b[i] {
            return false;
        }
        i += 1;
    }
    proof {
        assert(a@ =~= b@);
    }
    true
}

/// The position of the first occurrence of `pat` in `s`, if any.
pub open spec fn spec_find(s: Seq<u8>, pat: Seq<u8>) -> Option<int>
    decreases s.len(),
{
    if s.len() < pat.len() {
        None
    } else if s.take(pat.len() as int) == pat {
        Some(0)
    } else if s.len() == 0 {
        None
    } else {
        match spec_find(s.drop_first(), pat) {
            Some(i) => Some(i + 1),
            None => None,
        }
    }
}

/// Finds the first occurrence of `pat` in `l`.
pub fn find_sub(l: &[u8], pat: &[u8]) -> (r: Option<usize>)
    ensures
        match r {
            Some(i) => spec_find(l@, pat@) == Some(i as int),
            None => spec_find(l@, pat@) is None,
        },
{
    if pat.len() == 0 {
        proof {
            assert(l@.take(0) =~= pat@);
        }
        return Some(0);
    }
    if pat.len() > l.len() {
        return None;
    }
    let mut p: usize = 0;
    proof {
        assert(l@.skip(0) =~= l@);
    }
    while p <= l.len() - pat.len()
        invariant
            1 <= pat@.len() <= l@.len(),
            p <= l@.len() - pat@.len() + 1,
            match spec_find(l@.skip(p as int), pat@) {
                Some(i) => spec_find(l@, pat@) == Some(i + p),
                None => spec_find(l@, pat@) is None,
            },
        decreases l@.len() - p,
    {
        let cand = vstd::slice::slice_subrange(l, p, p + pat.len());
        proof {
            assert(l@.skip(p as int).take(pat@.len() as int) =~= l@.subrange(
                p as int,
                p + pat@.len(),
            ));
        }
        if bytes_eq(cand, pat) {
            return Some(p);
        }
        proof {
            assert(l@.skip(p as int).drop_first() =~= l@.skip(p + 1));
        }
        p += 1;
    }
    proof {
        assert(l@.skip(p as int).len() < pat@.len());
    }
    None
}

/// `s` with leading whitespace removed.
pub open spec fn spec_trim_front(s: Seq<u8>) -> Seq<u8>
    decreases s.len(),
{
    if s.len() > 0 && is_ws(s[0]) {
        spec_trim_front(s.drop_first())
    } else {
        s
    }
}

/// `s` with trailing whitespace removed.
pub open spec fn spec_trim_back(s: Seq<u8>) -> Seq<u8>
    decreases s.len(),
{
    if s.len() > 0 && is_ws(s.last()) {
        spec_trim_back(s.drop_last())
    } else {
        s
    }
}

/// `s` with whitespace removed from both ends.
pub open spec fn spec_trim(s: Seq<u8>) -> Seq<u8> {
    spec_trim_back(spec_trim_front(s))
}

/// Trims whitespace from both ends of `l`.
pub fn trim_bytes(l: &[u8]) -> (r: Vec<u8>)
    ensures
        r@ == spec_trim(l@),
{
    let mut a: usize = 0;
    proof {
        assert(l@.skip(0) =~= l@);
    }
    while a < l.len() && is_ws_byte(l[a])
        invariant
            a <= l@.len(),
            spec_trim_front(l@) == spec_trim_front(l@.skip(a as int)),
        decreases l@.len() - a,
    {
        proof {
            assert(l@.skip(a as int)[0] == l@[a as int]);
            assert(l@.skip(a as int).drop_first() =~= l@.skip(a + 1));
        }
        a += 1;
    }
    proof {
        if a < l@.len() {
            assert(l@.skip(a as int)[0] == l@[a as int]);
        }
        assert(spec_trim_front(l@) == l@.skip(a as int));
    }
    let mut b: usize = l.len();
    proof {
        assert(l@.skip(a as int).take(b - a) =~= l@.skip(a as int));
    }
    while b > a && is_ws_byte(l[b - 1])
        invariant
            a <= b <= l@.len(),
            spec_trim_front(l@) == l@.skip(a as int),
            spec_trim_back(l@.skip(a as int)) == spec_trim_back(
                l@.skip(a as int).take(b - a),
            ),
        decreases b,
    {
        proof {
            let cur = l@.skip(a as int).take(b - a);
            assert(cur.last() == l@[b - 1]);
            assert(cur.drop_last() =~= l@.skip(a as int).take(b - 1 - a));
        }
        b -= 1;
    }
    proof {
        let cur = l@.skip(a as int).take(b - a);
        if b > a {
            assert(cur.last() == l@[b - 1]);
        }
        assert(spec_trim_back(cur) == cur);
        assert(l@.skip(a as int).take(b - a) =~= l@.subrange(a as int, b as int));
    }
    vstd::slice::slice_to_vec(vstd::slice::slice_subrange(l, a, b))
}

/// The tokens joined with single spaces.
pub open spec fn spec_join(ts: Seq<Seq<u8>>) -> Seq<u8>
    decreases ts.len(),
{
    if ts.len() == 0 {
        Seq::empty()
    } else if ts.len() == 1 {
        ts[0]
    } else {
        ts[0] + seq![32u8] + spec_join(ts.drop_first())
    }
}

proof fn lemma_join_push(ts: Seq<Seq<u8>>, t: Seq<u8>)
    ensures
        ts.len() == 0 ==> spec_join(ts.push(t)) == t,
        ts.len() > 0 ==> spec_join(ts.push(t)) == spec_join(ts) + seq![32u8] + t,
    decreases ts.len(),
{
    if ts.len() == 0 {
        assert(ts.push(t)[0] =~= t);
    } else if ts.len() == 1 {
        assert(ts.push(t)[0] == ts[0]);
        assert(ts.push(t).drop_first() =~= seq![t]);
        assert(seq![t][0] == t);
        assert(spec_join(seq![t]) == t);
        assert(spec_join(ts.push(t)) == ts[0] + seq![32u8] + t);
    } else {
        assert(ts.push(t).drop_first() =~= ts.drop_first().push(t));
        lemma_join_push(ts.drop_first(), t);
        assert(spec_join(ts.push(t)) == ts[0] + seq![32u8] + (spec_join(ts.drop_first())
            + seq![32u8] + t));
        assert(ts[0] + seq![32u8] + (spec_join(ts.drop_first()) + seq![32u8] + t) =~= (ts[0]
            + seq![32u8] + spec_join(ts.drop_first())) + seq![32u8] + t);
    }
}

/// Joins `toks[from..to]` with single spaces.
pub fn join_tokens(toks: &Vec<Vec<u8>>, from: usize, to: usize) -> (r: Vec<u8>)
    requires
        from <= to <= toks@.len(),
    ensures
        r@ == spec_join(views_of(toks@).subrange(from as int, to as int)),
{
    let mut r: Vec<u8> = Vec::new();
    let mut k: usize = from;
    proof {
        assert(views_of(toks@).subrange(from as int, from as int) =~= Seq::<Seq<u8>>::empty());
    }
    while k < to
        invariant
            from <= k <= to <= toks@.len(),
            r@ == spec_join(views_of(toks@).subrange(from as int, k as int)),
        decreases to - k,
    {
        let ghost pre = views_of(toks@).subrange(from as int, k as int);
        if k > from {
            r.push(32);
        }
        let mut i: usize = 0;
        let ghost r0 = r@;
        while i < toks[k].len()
            invariant
                i <= toks@[k as int]@.len(),
                k < toks@.len(),
                r@ == r0 + toks@[k as int]@.take(i as int),
            decreases toks@[k as int]@.len() - i,
        {
            let b = toks[k][i];
            r.push(b);
            proof {
                assert(r@ =~= r0 + toks@[k as int]@.take(i + 1));
            }
            i += 1;
        }
        proof {
            assert(toks@[k as int]@.take(toks@[k as int]@.len() as int) =~= toks@[k as int]@);
            lemma_join_push(pre, toks@[k as int]@);
            assert(views_of(toks@).subrange(from as int, k + 1) =~= pre.push(
                toks@[k as int]@,
            ));
            if k > from {
                assert(r@ =~= spec_join(pre) + seq![32u8] + toks@[k as int]@);
            } else {
                assert(pre.len() == 0);
                assert(r@ =~= toks@[k as int]@);
            }
        }
        k += 1;
    }
    r
}

/// Whether every byte of `s` is an ASCII decimal digit.
pub open spec fn all_digits(s: Seq<u8>) -> bool {
    forall|i: int| 0 <= i < s.len() ==> 48 <= #[trigger] s[i] <= 57
}

/// The numeric value of a sequence of ASCII decimal digits.
pub open spec fn digits_val(s: Seq<u8>) -> int
    decreases s.len(),
{
    if s.len() == 0 {
        0
    } else {
        digits_val(s.drop_last()) * 10 + (s.last() - 48)
    }
}

proof fn lemma_digits_val_nonneg(s: Seq<u8>)
    requires
        all_digits(s),
    ensures
        digits_val(s) >= 0,
    decreases s.len(),
{
    if s.len() > 0 {
        assert(all_digits(s.drop_last()));
        lemma_digits_val_nonneg(s.drop_last());
        assert(digits_val(s.drop_last()) * 10 >= 0) by (nonlinear_arith)
            requires
                digits_val(s.drop_last()) >= 0,
        ;
    }
}

/// The value a decimal token denotes, by the usual integer syntax:
/// an optional leading plus sign, then at least one digit, rejecting
/// values that do not fit in 64 bits.
pub open spec fn spec_parse_u64(s: Seq<u8>) -> Option<u64> {
    let body = if s.len() > 0 && s[0] == 43 {
        s.drop_first()
    } else {
        s
    };
    if body.len() > 0 && all_digits(body) && digits_val(body) <= u64::MAX {
        Some(digits_val(body) as u64)
    } else {
        None
    }
}

proof fn lemma_digits_val_prefix(s: Seq<u8>, k: int)
    requires
        all_digits(s),
        0 <= k <= s.len(),
    ensures
        digits_val(s.take(k)) <= digits_val(s),
    decreases s.len() - k,
{
    if k < s.len() {
        assert(s.take(k + 1).drop_last() =~= s.take(k));
        assert(s.take(k + 1).last() == s[k]);
        assert(all_digits(s.take(k)));
        lemma_digits_val_nonneg(s.take(k));
        assert(digits_val(s.take(k + 1)) == digits_val(s.take(k)) * 10 + (s[k] - 48));
        assert(digits_val(s.take(k)) * 10 >= digits_val(s.take(k))) by (nonlinear_arith)
            requires
                digits_val(s.take(k)) >= 0,
        ;
        lemma_digits_val_prefix(s, k + 1);
    } else {
        assert(s.take(k) =~= s);
    }
}

fn parse_digits(body: &[u8]) -> (r: Option<u64>)
    ensures
        body@.len() > 0 && all_digits(body@) && digits_val(body@) <= u64::MAX ==> (r matches Some(
            v,
        ) && v == digits_val(body@)),
        !(body@.len() > 0 && all_digits(body@) && digits_val(body@) <= u64::MAX) ==> r is None,
{
    if body.len() == 0 {
        return None;
    }
    let mut acc: u64 = 0;
    let mut i: usize = 0;
    while i < body.len()
        invariant
            i <= body@.len(),
            all_digits(body@.take(i as int)),
            acc == digits_val(body@.take(i as int)),
        decreases body@.len() - i,
    {
        let b = body[i];
        if b < 48 || b > 57 {
            proof {
                assert(!all_digits(body@));
            }
            return None;
        }
        let d: u64 = (b - 48) as u64;
        proof {
            assert(body@.take(i + 1).drop_last() =~= body@.take(i as int));
            assert(body@.take(i + 1).last() == body@[i as int]);
            assert(all_digits(body@.take(i + 1)));
        }
        if acc > (u64::MAX - d) / 10 {
            proof {
                assert(digits_val(body@.take(i + 1)) == acc * 10 + d);
                assert(acc * 10 + d > u64::MAX) by (nonlinear_arith)
                    requires
                        acc > (u64::MAX - d) / 10,
                        0 <= d <= 9,
                ;
                if all_digits(body@) {
                    lemma_digits_val_prefix(body@, i + 1);
                    assert(digits_val(body@) > u64::MAX);
                }
            }
            return None;
        }
        proof {
            assert(acc * 10 + d <= u64::MAX) by (nonlinear_arith)
                requires
                    acc <= (u64::MAX - d) / 10,
                    0 <= d <= 9,
            ;
        }
        acc = acc * 10 + d;
        i += 1;
    }
    proof {
        assert(body@.take(body@.len() as int) =~= body@);
    }
    Some(acc)
}

/// Parses a decimal token as an unsigned 64-bit integer.
pub fn parse_u64(s: &[u8]) -> (r: Option<u64>)
    ensures
        r == spec_parse_u64(s@),
{
    if s.len() > 0 && s[0] == 43 {
        let body = vstd::slice::slice_subrange(s, 1, s.len());
        proof {
            assert(body@ =~= s@.drop_first());
        }
        parse_digits(body)
    } else {
        parse_digits(s)
    }
}

/// The digit character for a value below ten.
pub open spec fn digit_char(d: int) -> char {
    if d == 0 {
        '0'
    } else if d == 1 {
        '1'
    } else if d == 2 {
        '2'
    } else if d == 3 {
        '3'
    } else if d == 4 {
        '4'
    } else if d == 5 {
        '5'
    } else if d == 6 {
        '6'
    } else if d == 7 {
        '7'
    } else if d == 8 {
        '8'
    } else {
        '9'
    }
}

/// The decimal rendering of a non-negative integer.
pub open spec fn spec_dec_u64(n: int) -> Seq<char>
    decreases n,
{
    if n < 10 {
        seq![digit_char(n)]
    } else {
        spec_dec_u64(n / 10) + seq![digit_char(n % 10)]
    }
}

/// The decimal rendering of a signed integer, with a leading minus
/// sign when negative.
pub open spec fn spec_dec_i64(n: int) -> Seq<char> {
    if n < 0 {
        seq!['-'] + spec_dec_u64(-n)
    } else {
        spec_dec_u64(n)
    }
}

fn digit_str(d: u64) -> (r: &'static str)
    requires
        d < 10,
    ensures
        r@ == seq![digit_char(d as int)],
{
    proof {
        reveal_strlit("0");
        reveal_strlit("1");
        reveal_strlit("2");
        reveal_strlit("3");
        reveal_strlit("4");
        reveal_strlit("5");
        reveal_strlit("6");
        reveal_strlit("7");
        reveal_strlit("8");
        reveal_strlit("9");
    }
    let r = match d {
        0 => "0",
        1 => "1",
        2 => "2",
        3 => "3",
        4 => "4",
        5 => "5",
        6 => "6",
        7 => "7",
        8 => "8",
        _ => "9",
    };
    proof {
        assert(r@ =~= seq![digit_char(d as int)]);
    }
    r
}

/// Renders `n` in decimal.
pub fn fmt_u64(n: u64) -> (r: String)
    ensures
        r@ == spec_dec_u64(n as int),
    decreases n,
{
    if n < 10 {
        String::from_str(digit_str(n))
    } else {
        let mut s = fmt_u64(n / 10);
        s.append(digit_str(n % 10));
        s
    }
}

/// Renders `n` in decimal, with a leading minus sign when negative.
pub fn fmt_i64(n: i64) -> (r: String)
    ensures
        r@ == spec_dec_i64(n as int),
{
    if n >= 0 {
        fmt_u64(n as u64)
    } else {
        let m: u64 = ((-1 - n) as u64) + 1;
        proof {
            assert(m as int == -(n as int));
        }
        let mut s = String::from_str("-");
        proof {
            reveal_strlit("-");
            assert("-"@ =~= seq!['-']);
        }
        let d = fmt_u64(m);
        s.append(d.as_str());
        s
    }
}

} // verus!

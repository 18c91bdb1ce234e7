use vstd::prelude::*;

verus! {

// ---------------------------------------------------------------------------
// Character helpers
// ---------------------------------------------------------------------------

/// A decimal digit.
pub open spec fn is_dec_digit(c: char) -> bool {
    48 <= c as u32 <= 57
}

/// The value of a decimal digit.
pub open spec fn digit_value(c: char) -> int {
    c as u32 - 48
}

/// The code point with ASCII upper case letters folded to lower case.
pub open spec fn lower_code(c: char) -> int {
    if 65 <= c as u32 <= 90 {
        c as u32 + 32
    } else {
        c as u32 as int
    }
}

/// Equality of two character sequences up to ASCII case.
pub open spec fn eq_ignore_ascii_case(a: Seq<char>, b: Seq<char>) -> bool {
    a.len() == b.len() && forall|k: int| 0 <= k < a.len() ==> lower_code(a[k]) == lower_code(b[k])
}

/// The views of a sequence of strings.
pub open spec fn str_views(args: Seq<String>) -> Seq<Seq<char>> {
    args.map_values(|a: String| a@)
}

// ---------------------------------------------------------------------------
// String comparison
// ---------------------------------------------------------------------------

/// Exact string equality.
pub fn str_eq(a: &str, b: &str) -> (r: bool)
    ensures
        r == (a@ == b@),
{
    let an = a.unicode_len();
    let bn = b.unicode_len();
    if an != bn {
        return false;
    }
    let mut i: usize = 0;
    while i < an
        invariant
            i <= an,
            an == a@.len(),
            bn == b@.len(),
            an == bn,
            forall|k: int| 0 <= k < i ==> a@[k] == b@[k],
        decreases an - i,
    {
        if a.get_char(i) != b.get_char(i) {
            return false;
        }
        i = i + 1;
    }
    proof {
        assert(a@ =~= b@);
    }
    true
}

/// String equality up to ASCII case.
pub fn str_eq_ignore_case(a: &str, b: &str) -> (r: bool)
    ensures
        r == eq_ignore_ascii_case(a@, b@),
{
    let an = a.unicode_len();
    let bn = b.unicode_len();
    if an != bn {
        return false;
    }
    let mut i: usize = 0;
    while i < an
        invariant
            i <= an,
            an == a@.len(),
            bn == b@.len(),
            an == bn,
            forall|k: int| 0 <= k < i ==> lower_code(a@[k]) == lower_code(b@[k]),
        decreases an - i,
    {
        let ca = a.get_char(i) as u32;
        let cb = b.get_char(i) as u32;
        let fa = if 65 <= ca && ca <= 90 {
            ca + 32
        } else {
            ca
        };
        let fb = if 65 <= cb && cb <= 90 {
            cb + 32
        } else {
            cb
        };
        if fa != fb {
            return false;
        }
        i = i + 1;
    }
    true
}

// ---------------------------------------------------------------------------
// Decimal numerals
// ---------------------------------------------------------------------------

/// The integer a digit sequence denotes.
pub open spec fn dec_value(s: Seq<char>) -> int
    decreases s.len(),
{
    if s.len() == 0 {
        0
    } else {
        dec_value(s.drop_last()) * 10 + digit_value(s.last())
    }
}

/// Every character is a decimal digit.
pub open spec fn all_digits(s: Seq<char>) -> bool {
    forall|k: int| 0 <= k < s.len() ==> is_dec_digit(s[k])
}

proof fn lemma_dec_value_nonneg(s: Seq<char>)
    requires
        all_digits(s),
    ensures
        dec_value(s) >= 0,
    decreases s.len(),
{
    if s.len() > 0 {
        assert(all_digits(s.drop_last()));
        lemma_dec_value_nonneg(s.drop_last());
    }
}

proof fn lemma_dec_value_prefix_le(s: Seq<char>, j: int)
    requires
        all_digits(s),
        0 <= j <= s.len(),
    ensures
        dec_value(s.take(j)) <= dec_value(s),
    decreases s.len() - j,
{
    if j < s.len() {
        let p = s.take(j);
        let q = s.take(j + 1);
        assert(q.drop_last() =~= p);
        assert(all_digits(p));
        lemma_dec_value_nonneg(p);
        assert(dec_value(q) == dec_value(p) * 10 + digit_value(s[j]));
        lemma_dec_value_prefix_le(s, j + 1);
    } else {
        assert(s.take(j) =~= s);
    }
}

/// The digits of the numeral, past an optional leading plus sign.
pub open spec fn numeral_body(s: Seq<char>) -> Seq<char> {
    if s.len() > 0 && s[0] == '+' {
        s.subrange(1, s.len() as int)
    } else {
        s
    }
}

/// Whether the string denotes a `u32`: an optional plus sign, then at
/// least one digit, with a value that fits.
pub open spec fn is_u32_numeral(s: Seq<char>) -> bool {
    let b = numeral_body(s);
    b.len() > 0 && all_digits(b) && dec_value(b) <= u32::MAX
}

/// Parse a decimal `u32`, accepting exactly an optional leading `+`
/// followed by digits whose value fits.
pub fn parse_u32(s: &str) -> (r: Option<u32>)
    ensures
        r is Some <==> is_u32_numeral(s@),
        r matches Some(v) ==> v == dec_value(numeral_body(s@)),
{
    let n = s.unicode_len();
    if n == 0 {
        return None;
    }
    let first = s.get_char(0);
    let start: usize = if first == '+' {
        1
    } else {
        0
    };
    let ghost body = numeral_body(s@);
    proof {
        assert(body =~= s@.subrange(start as int, n as int));
    }
    if start == n {
        return None;
    }
    let mut acc: u32 = 0;
    let mut k: usize = start;
    while k < n
        invariant
            start <= k <= n,
            n == s@.len(),
            start == 0 || start == 1,
            start == 1 ==> s@.len() > 0 && s@[0] == '+',
            start == 0 ==> !(s@.len() > 0 && s@[0] == '+'),
            body == numeral_body(s@),
            body =~= s@.subrange(start as int, n as int),
            all_digits(body.take(k - start)),
            acc == dec_value(body.take(k - start)),
        decreases n - k,
    {
        let c = s.get_char(k);
        let d = c as u32;
        proof {
            assert(body.take(k + 1 - start).drop_last() =~= body.take(k - start));
            assert(body.take(k + 1 - start).last() == s@[k as int]);
        }
        if d < 48 || d > 57 {
            proof {
                assert(!is_dec_digit(body[k - start]));
            }
            return None;
        }
        let dv = d - 48;
        let step = match acc.checked_mul(10) {
            Some(m) => m.checked_add(dv),
            None => None,
        };
        match step {
            Some(v) => {
                acc = v;
            },
            None => {
                proof {
                    assert(dec_value(body.take(k + 1 - start)) > u32::MAX);
                    if all_digits(body) {
                        lemma_dec_value_prefix_le(body, k + 1 - start);
                    }
                }
                return None;
            },
        }
        k = k + 1;
    }
    proof {
        assert(body.take(n - start) =~= body);
    }
    Some(acc)
}

// ---------------------------------------------------------------------------
// Signed numerals
// ---------------------------------------------------------------------------

/// Whether the string carries a leading minus sign.
pub open spec fn is_negative_numeral(s: Seq<char>) -> bool {
    s.len() > 0 && s[0] == '-'
}

/// The digits of a signed numeral, past an optional sign.
pub open spec fn signed_body(s: Seq<char>) -> Seq<char> {
    if s.len() > 0 && (s[0] == '-' || s[0] == '+') {
        s.subrange(1, s.len() as int)
    } else {
        s
    }
}

/// Whether the string denotes an `i32`: an optional sign, then at least
/// one digit, with a value that fits.
pub open spec fn is_i32_numeral(s: Seq<char>) -> bool {
    let b = signed_body(s);
    b.len() > 0 && all_digits(b) && (if is_negative_numeral(s) {
        dec_value(b) <= 0x8000_0000
    } else {
        dec_value(b) <= 0x7FFF_FFFF
    })
}

/// The value an `i32` numeral denotes.
pub open spec fn i32_numeral_value(s: Seq<char>) -> int {
    if is_negative_numeral(s) {
        -dec_value(signed_body(s))
    } else {
        dec_value(signed_body(s))
    }
}

/// Parse a decimal `i32`, accepting exactly an optional sign followed by
/// digits whose value fits.
pub fn parse_i32(s: &str) -> (r: Option<i32>)
    ensures
        r is Some <==> is_i32_numeral(s@),
        r matches Some(v) ==> v == i32_numeral_value(s@),
{
    let n = s.unicode_len();
    if n == 0 {
        return None;
    }
    let first = s.get_char(0);
    let negative = first == '-';
    let start: usize = if first == '-' || first == '+' {
        1
    } else {
        0
    };
    if start == n {
        return None;
    }
    let mag = s.substring_char(start, n);
    proof {
        assert(mag@ =~= signed_body(s@));
    }
    if mag.get_char(0) == '+' {
        return None;
    }
    match parse_u32(mag) {
        Some(v) => {
            proof {
                assert(numeral_body(mag@) =~= mag@);
            }
            if negative {
                if v > 0x8000_0000u32 {
                    return None;
                }
                if v == 0x8000_0000u32 {
                    return Some(i32::MIN);
                }
                return Some(-(v as i32));
            }
            if v > 0x7FFF_FFFFu32 {
                return None;
            }
            Some(v as i32)
        },
        None => {
            proof {
                assert(numeral_body(mag@) =~= mag@);
            }
            None
        },
    }
}

// ---------------------------------------------------------------------------
// Ratio numerals, read at permille resolution
// ---------------------------------------------------------------------------

/// The digit at position `i`, or zero past the end.
pub open spec fn digit_or_zero(f: Seq<char>, i: int) -> int {
    if 0 <= i < f.len() {
        digit_value(f[i])
    } else {
        0
    }
}

/// The permille value of a fraction part: its first three digits, the
/// rest discarded.
pub open spec fn frac_permille(f: Seq<char>) -> int {
    digit_or_zero(f, 0) * 100 + digit_or_zero(f, 1) * 10 + digit_or_zero(f, 2)
}

/// A dotless permille numeral: digits, denoting a whole number.
pub open spec fn plain_permille_ok(b: Seq<char>) -> bool {
    (forall|k: int| 0 <= k < b.len() ==> b[k] != '.') && b.len() > 0 && all_digits(b) && 1000
        * dec_value(b) <= u32::MAX
}

/// A dotted permille numeral split at its single dot.
pub open spec fn dotted_permille_ok(b: Seq<char>, p: int) -> bool {
    &&& 0 <= p < b.len()
    &&& b[p] == '.'
    &&& forall|k: int| 0 <= k < b.len() && k != p ==> b[k] != '.'
    &&& b.len() > 1
    &&& all_digits(b.take(p))
    &&& all_digits(b.skip(p + 1))
    &&& 1000 * dec_value(b.take(p)) + frac_permille(b.skip(p + 1)) <= u32::MAX
}

/// Whether the string denotes a ratio readable at permille resolution:
/// an optional plus sign, digits with at most one decimal dot and at
/// least one digit, with a permille value that fits.
pub open spec fn is_permille_numeral(s: Seq<char>) -> bool {
    let b = numeral_body(s);
    plain_permille_ok(b) || exists|p: int| dotted_permille_ok(b, p)
}

/// The permille value the string denotes: its whole part times a
/// thousand, plus its first three fraction digits.
pub open spec fn permille_value(s: Seq<char>) -> int {
    let b = numeral_body(s);
    if plain_permille_ok(b) {
        1000 * dec_value(b)
    } else {
        let p = choose|p: int| dotted_permille_ok(b, p);
        1000 * dec_value(b.take(p)) + frac_permille(b.skip(p + 1))
    }
}

/// Parse a decimal ratio at permille resolution: `0.6` gives 600,
/// `0.05` gives 50; fraction digits past the third are discarded.
#[verifier::rlimit(50)]
pub fn parse_permille(s: &str) -> (r: Option<u32>)
    ensures
        r is Some <==> is_permille_numeral(s@),
        r matches Some(v) ==> v == permille_value(s@),
{
    let n = s.unicode_len();
    if n == 0 {
        return None;
    }
    let first = s.get_char(0);
    let start: usize = if first == '+' {
        1
    } else {
        0
    };
    let ghost b = numeral_body(s@);
    proof {
        assert(b =~= s@.subrange(start as int, n as int));
    }
    if start == n {
        return None;
    }
    // find the single dot, if any
    let mut dot: Option<usize> = None;
    let mut k: usize = start;
    while k < n
        invariant
            start <= k <= n,
            n == s@.len(),
            start == 0 || start == 1,
            b == numeral_body(s@),
            b =~= s@.subrange(start as int, n as int),
            match dot {
                Some(p) => start <= p < k && s@[p as int] == '.' && forall|m: int|
                    start <= m < k && m != p ==> s@[m] != '.',
                None => forall|m: int| start <= m < k ==> s@[m] != '.',
            },
        decreases n - k,
    {
        if s.get_char(k) == '.' {
            if dot.is_some() {
                proof {
                    let p0 = dot->0 as int;
                    assert(b[p0 - start] == '.');
                    assert(b[k - start] == '.');
                    assert(!plain_permille_ok(b));
                    assert forall|p: int| !dotted_permille_ok(b, p) by {
                        if dotted_permille_ok(b, p) {
                            assert(b[p0 - start] == '.');
                            assert(b[k - start] == '.');
                        }
                    }
                }
                return None;
            }
            dot = Some(k);
        }
        k = k + 1;
    }
    match dot {
        None => {
            let body_str = s.substring_char(start, n);
            proof {
                assert(body_str@ =~= b);
            }
            if body_str.get_char(0) == '+' {
                // a second plus sign is not a digit
                proof {
                    assert(!is_dec_digit(b[0]));
                    assert(!plain_permille_ok(b));
                    assert forall|q: int| !dotted_permille_ok(b, q) by {
                        if dotted_permille_ok(b, q) {
                            assert(b[q] == '.');
                        }
                    }
                    assert(!is_permille_numeral(s@));
                }
                return None;
            }
            proof {
                assert(numeral_body(body_str@) =~= b);
            }
            match parse_u32(body_str) {
                Some(v) => {
                    match v.checked_mul(1000) {
                        Some(t) => {
                            proof {
                                assert(plain_permille_ok(b));
                            }
                            Some(t)
                        },
                        None => {
                            proof {
                                assert(!plain_permille_ok(b));
                                assert forall|p: int| !dotted_permille_ok(b, p) by {
                                    if dotted_permille_ok(b, p) {
                                        assert(b[p] == '.');
                                    }
                                }
                            }
                            None
                        },
                    }
                },
                None => {
                    proof {
                        if plain_permille_ok(b) {
                            assert(dec_value(b) <= u32::MAX);
                        }
                        assert forall|p: int| !dotted_permille_ok(b, p) by {
                            if dotted_permille_ok(b, p) {
                                assert(b[p] == '.');
                            }
                        }
                    }
                    None
                },
            }
        },
        Some(p) => {
            proof {
                assert(b[p - start] == '.');
                assert(!plain_permille_ok(b));
            }
            let ghost only_dot = forall|m: int| start <= m < n && m != p ==> s@[m] != '.';
            let ghost pb = p - start as int;
            let ghost ip = b.take(pb);
            let ghost fp = b.skip(pb + 1);
            // whole part
            let mut ival: u32 = 0;
            let mut i: usize = start;
            proof {
                assert(ip.take(0) =~= Seq::<char>::empty());
            }
            while i < p
                invariant
                    start <= i <= p < n,
                    n == s@.len(),
                    start == 0 || start == 1,
                    b == numeral_body(s@),
                    b =~= s@.subrange(start as int, n as int),
                    pb == p - start,
                    ip == b.take(pb as int),
                    fp == b.skip(pb + 1 as int),
                    s@[p as int] == '.',
                    forall|m: int| start <= m < n && m != p ==> s@[m] != '.',
                    all_digits(ip.take(i - start)),
                    ival == dec_value(ip.take(i - start)),
                decreases p - i,
            {
                let c = s.get_char(i);
                let d = c as u32;
                proof {
                    assert(ip[i - start] == s@[i as int]);
                    assert(ip.take(i + 1 - start).drop_last() =~= ip.take(i - start));
                    assert(ip.take(i + 1 - start).last() == s@[i as int]);
                }
                if d < 48 || d > 57 {
                    proof {
                        assert(!is_dec_digit(ip[i - start]));
                        assert(b[pb] == '.');
                        assert(!plain_permille_ok(b));
                        assert forall|q: int| !dotted_permille_ok(b, q) by {
                            if dotted_permille_ok(b, q) {
                                assert(b[q] == '.');
                                assert(q == pb);
                                assert(is_dec_digit(ip[i - start]));
                            }
                        }
                        assert(!is_permille_numeral(s@));
                    }
                    return None;
                }
                let dv = d - 48;
                let step = match ival.checked_mul(10) {
                    Some(m) => m.checked_add(dv),
                    None => None,
                };
                match step {
                    Some(v) => {
                        ival = v;
                    },
                    None => {
                        proof {
                            assert(dec_value(ip.take(i + 1 - start)) > u32::MAX);
                            assert(b[pb] == '.');
                            assert(!plain_permille_ok(b));
                            assert forall|q: int| !dotted_permille_ok(b, q) by {
                                if dotted_permille_ok(b, q) {
                                    assert(b[q] == '.');
                                    assert(q == pb);
                                    lemma_dec_value_prefix_le(ip, i + 1 - start);
                                    lemma_dec_value_nonneg(ip);
                                    lemma_frac_permille_nonneg(fp);
                                }
                            }
                            assert(!is_permille_numeral(s@));
                        }
                        return None;
                    },
                }
                i = i + 1;
            }
            proof {
                assert(ip.take(p - start as int) =~= ip);
            }
            // fraction part: check digits, read the first three
            let mut frac: u32 = 0;
            let mut scale: u32 = 100;
            let mut j: usize = p + 1;
            while j < n
                invariant
                    p + 1 <= j <= n,
                    n == s@.len(),
                    start == 0 || start == 1,
                    start <= p,
                    b == numeral_body(s@),
                    b =~= s@.subrange(start as int, n as int),
                    pb == p - start,
                    ip == b.take(pb as int),
                    fp == b.skip(pb + 1 as int),
                    s@[p as int] == '.',
                    forall|m: int| start <= m < n && m != p ==> s@[m] != '.',
                    forall|m: int| 0 <= m < j - p - 1 ==> is_dec_digit(fp[m]),
                    frac == digit_or_zero(fp, 0) * 100 * (if j - p - 1 >= 1 { 1int } else { 0int })
                        + digit_or_zero(fp, 1) * 10 * (if j - p - 1 >= 2 { 1int } else { 0int })
                        + digit_or_zero(fp, 2) * (if j - p - 1 >= 3 { 1int } else { 0int }),
                    frac <= 999,
                decreases n - j,
            {
                let c = s.get_char(j);
                let d = c as u32;
                proof {
                    assert(fp[j - p - 1] == s@[j as int]);
                }
                if d < 48 || d > 57 {
                    proof {
                        assert(!is_dec_digit(fp[j - p - 1]));
                        assert(b[pb] == '.');
                        assert(!plain_permille_ok(b));
                        assert forall|q: int| !dotted_permille_ok(b, q) by {
                            if dotted_permille_ok(b, q) {
                                assert(b[q] == '.');
                                assert(q == pb);
                                assert(is_dec_digit(fp[j - p - 1]));
                            }
                        }
                        assert(!is_permille_numeral(s@));
                    }
                    return None;
                }
                if j - p - 1 == 0 {
                    frac = (d - 48) * 100;
                } else if j - p - 1 == 1 {
                    frac = frac + (d - 48) * 10;
                } else if j - p - 1 == 2 {
                    frac = frac + (d - 48);
                }
                j = j + 1;
            }
            if p == start && p + 1 == n {
                // a bare dot has no digit at all
                proof {
                    assert(ip.len() + fp.len() == 0);
                    assert forall|q: int| !dotted_permille_ok(b, q) by {
                        if dotted_permille_ok(b, q) {
                            assert(b[q] == '.');
                            assert(q == pb);
                            assert(b.len() > 1);
                        }
                    }
                }
                return None;
            }
            proof {
                assert(frac == frac_permille(fp));
                assert(all_digits(ip));
                assert(all_digits(fp));
            }
            match ival.checked_mul(1000) {
                Some(t) => {
                    match t.checked_add(frac) {
                        Some(total) => {
                            proof {
                                assert(dotted_permille_ok(b, pb));
                                lemma_dotted_unique(b, pb);
                            }
                            Some(total)
                        },
                        None => {
                            proof {
                                assert forall|q: int| !dotted_permille_ok(b, q) by {
                                    if dotted_permille_ok(b, q) {
                                        assert(b[q] == '.');
                                        assert(q == pb);
                                    }
                                }
                            }
                            None
                        },
                    }
                },
                None => {
                    proof {
                        lemma_frac_permille_nonneg(fp);
                        assert forall|q: int| !dotted_permille_ok(b, q) by {
                            if dotted_permille_ok(b, q) {
                                assert(b[q] == '.');
                                assert(q == pb);
                            }
                        }
                    }
                    None
                },
            }
        },
    }
}

proof fn lemma_frac_permille_nonneg(f: Seq<char>)
    ensures
        all_digits(f) ==> frac_permille(f) >= 0,
{
}

proof fn lemma_dotted_unique(b: Seq<char>, p: int)
    requires
        dotted_permille_ok(b, p),
    ensures
        (choose|q: int| dotted_permille_ok(b, q)) == p,
{
    let q = choose|q: int| dotted_permille_ok(b, q);
    assert(dotted_permille_ok(b, q));
    assert(b[q] == '.');
}

} // verus!

//! Verified parsing of `application/x-www-form-urlencoded` request bodies and
//! query strings, and validation of `YYYY-MM-DD` dates.

use vstd::prelude::*;

use crate::text::{all_digits, digits_value, hex_digit, spec_parse_i64};

verus! {

/// Index of the first occurrence of `c` at or after `i`, or the length of
/// `s` when there is none.
pub open spec fn find_from(s: Seq<char>, i: int, c: char) -> int
    decreases s.len() - i,
{
    if i < 0 || i >= s.len() {
        s.len() as int
    } else if s[i] == c {
        i
    } else {
        find_from(s, i + 1, c)
    }
}

pub proof fn lemma_find_from(s: Seq<char>, i: int, c: char)
    requires
        0 <= i <= s.len(),
    ensures
        i <= find_from(s, i, c) <= s.len(),
        find_from(s, i, c) < s.len() ==> s[find_from(s, i, c)] == c,
        forall|k: int| i <= k < find_from(s, i, c) ==> s[k] != c,
    decreases s.len() - i,
{
    if i < s.len() && s[i] != c {
        lemma_find_from(s, i + 1, c);
    }
}

pub fn find_char(s: &str, from: usize, c: char) -> (r: usize)
    requires
        from <= s@.len(),
    ensures
        r == find_from(s@, from as int, c),
{
    let n = s.unicode_len();
    let mut i = from;
    while i < n
        invariant
            from <= i <= n,
            n == s@.len(),
            find_from(s@, from as int, c) == find_from(s@, i as int, c),
        decreases n - i,
    {
        if s.get_char(i) == c {
            return i;
        }
        i = i + 1;
    }
    n
}

/// Percent-decoding as the form parser applies it to one key or value: `+`
/// becomes a space, `%` followed by two hex digits becomes that byte's
/// character for bytes under 0x80 and the replacement character otherwise,
/// and everything else stays as it is.
pub open spec fn spec_pct_decode(s: Seq<char>) -> Seq<char>
    decreases s.len(),
{
    if s.len() == 0 {
        Seq::empty()
    } else if s[0] == '+' {
        seq![' '] + spec_pct_decode(s.skip(1))
    } else if s[0] == '%' && s.len() >= 3 && hex_digit(s[1]) < 16 && hex_digit(s[2]) < 16 {
        let b = hex_digit(s[1]) * 16 + hex_digit(s[2]);
        seq![
            if b < 0x80 {
                b as u8 as char
            } else {
                '\u{fffd}'
            },
        ] + spec_pct_decode(s.skip(3))
    } else {
        seq![s[0]] + spec_pct_decode(s.skip(1))
    }
}

fn hex_digit_exec(c: char) -> (r: u8)
    ensures
        r == hex_digit(c),
{
    if '0' <= c && c <= '9' {
        (c as u8) - 0x30
    } else if 'a' <= c && c <= 'f' {
        (c as u8) - 0x61 + 10
    } else if 'A' <= c && c <= 'F' {
        (c as u8) - 0x41 + 10
    } else {
        16
    }
}

fn pct_decode_range(s: &str, from: usize, to: usize) -> (r: String)
    requires
        from <= to <= s@.len(),
    ensures
        r@ == spec_pct_decode(s@.subrange(from as int, to as int)),
{
    let ghost whole = s@.subrange(from as int, to as int);
    let mut out = String::new();
    let mut i = from;
    while i < to
        invariant
            from <= i <= to <= s@.len(),
            whole == s@.subrange(from as int, to as int),
            spec_pct_decode(whole) == out@ + spec_pct_decode(s@.subrange(i as int, to as int)),
        decreases to - i,
    {
        let ghost rest = s@.subrange(i as int, to as int);
        let c = s.get_char(i);
        assert(rest[0] == c);
        if c == '+' {
            crate::trusted::push_char(&mut out, ' ');
            assert(rest.skip(1) =~= s@.subrange(i + 1, to as int));
            i = i + 1;
        } else if c == '%' && to - i >= 3 {
            let d1 = hex_digit_exec(s.get_char(i + 1));
            let d2 = hex_digit_exec(s.get_char(i + 2));
            assert(rest[1] == s@[i + 1] && rest[2] == s@[i + 2]);
            if d1 < 16 && d2 < 16 {
                let b: u8 = d1 * 16 + d2;
                let dc: char = if b < 0x80 {
                    (b as char)
                } else {
                    '\u{fffd}'
                };
                crate::trusted::push_char(&mut out, dc);
                assert(rest.skip(3) =~= s@.subrange(i + 3, to as int));
                i = i + 3;
            } else {
                crate::trusted::push_char(&mut out, c);
                assert(rest.skip(1) =~= s@.subrange(i + 1, to as int));
                i = i + 1;
            }
        } else {
            crate::trusted::push_char(&mut out, c);
            assert(rest.skip(1) =~= s@.subrange(i + 1, to as int));
            i = i + 1;
        }
    }
    assert(s@.subrange(to as int, to as int) =~= Seq::<char>::empty());
    assert(out@ =~= spec_pct_decode(whole));
    out
}

/// The decoded (key, value) of one `key=value` segment; a segment without
/// `=` is a key with an empty value.
pub open spec fn spec_pair(seg: Seq<char>) -> (Seq<char>, Seq<char>) {
    let e = find_from(seg, 0, '=');
    if e >= seg.len() {
        (spec_pct_decode(seg), Seq::empty())
    } else {
        (spec_pct_decode(seg.subrange(0, e)), spec_pct_decode(seg.subrange(e + 1, seg.len() as int)))
    }
}

/// The decoded pairs of the `&`-separated segments of `s` from `i` on.
pub open spec fn spec_form_pairs_from(s: Seq<char>, i: int) -> Seq<(Seq<char>, Seq<char>)>
    decreases s.len() - i,
    via spec_form_pairs_from_dec
{
    if i < 0 || i > s.len() {
        Seq::empty()
    } else {
        let j = find_from(s, i, '&');
        let pair = spec_pair(s.subrange(i, j));
        if j >= s.len() {
            seq![pair]
        } else {
            seq![pair] + spec_form_pairs_from(s, j + 1)
        }
    }
}

#[via_fn]
proof fn spec_form_pairs_from_dec(s: Seq<char>, i: int) {
    if 0 <= i <= s.len() {
        lemma_find_from(s, i, '&');
    }
}

pub open spec fn spec_form_pairs(s: Seq<char>) -> Seq<(Seq<char>, Seq<char>)> {
    spec_form_pairs_from(s, 0)
}

/// Split a form-encoded string into decoded (key, value) pairs, exactly as
/// `spec_form_pairs` says.
pub fn parse_form(s: &str) -> (r: Vec<(String, String)>)
    ensures
        r@.len() == spec_form_pairs(s@).len(),
        forall|k: int|
            0 <= k < r@.len() ==> (#[trigger] r@[k]).0@ == spec_form_pairs(s@)[k].0 && r@[k].1@
                == spec_form_pairs(s@)[k].1,
{
    let n = s.unicode_len();
    let mut out: Vec<(String, String)> = Vec::new();
    let mut i: usize = 0;
    let mut done = false;
    while !done
        invariant
            n == s@.len(),
            !done ==> i <= n && spec_form_pairs(s@) =~= out@.map_values(
                |p: (String, String)| (p.0@, p.1@),
            ) + spec_form_pairs_from(s@, i as int),
            done ==> spec_form_pairs(s@) =~= out@.map_values(|p: (String, String)| (p.0@, p.1@)),
        decreases n - i + (if done {
            0int
        } else {
            1int
        }),
    {
        let j = find_char(s, i, '&');
        proof {
            lemma_find_from(s@, i as int, '&');
        }
        let e = find_char(s, i, '=');
        proof {
            lemma_find_from(s@, i as int, '=');
        }
        let ghost seg = s@.subrange(i as int, j as int);
        let pair: (String, String) = if e < j {
            assert(find_from(seg, 0, '=') == e - i) by {
                lemma_find_from_sub(s@, i as int, j as int, '=', e - i);
            }
            let key = pct_decode_range(s, i, e);
            let val = pct_decode_range(s, e + 1, j);
            assert(seg.subrange(0, e - i) =~= s@.subrange(i as int, e as int));
            assert(seg.subrange(e - i + 1, seg.len() as int) =~= s@.subrange(e + 1, j as int));
            (key, val)
        } else {
            assert(find_from(seg, 0, '=') >= seg.len()) by {
                lemma_find_from_none(s@, i as int, j as int, '=');
            }
            let key = pct_decode_range(s, i, j);
            (key, String::new())
        };
        assert((pair.0@, pair.1@) == spec_pair(seg));
        out.push(pair);
        proof {
            assert(out@.map_values(|p: (String, String)| (p.0@, p.1@)) =~= out@.drop_last()
                .map_values(|p: (String, String)| (p.0@, p.1@)).push((out@.last().0@, out@.last().1@)));
        }
        if j >= n {
            done = true;
        } else {
            i = j + 1;
        }
    }
    out
}

proof fn lemma_find_from_sub(s: Seq<char>, i: int, j: int, c: char, k: int)
    requires
        0 <= i <= j <= s.len(),
        0 <= k < j - i,
        s[i + k] == c,
        forall|t: int| i <= t < i + k ==> s[t] != c,
    ensures
        find_from(s.subrange(i, j), 0, c) == k,
{
    let seg = s.subrange(i, j);
    lemma_find_from(seg, 0, c);
    assert(seg[k] == c);
    if find_from(seg, 0, c) < k {
        assert(s[i + find_from(seg, 0, c)] == c);
    }
}

proof fn lemma_find_from_none(s: Seq<char>, i: int, j: int, c: char)
    requires
        0 <= i <= j <= s.len(),
        forall|t: int| i <= t < j ==> s[t] != c,
    ensures
        find_from(s.subrange(i, j), 0, c) >= j - i,
{
    let seg = s.subrange(i, j);
    lemma_find_from(seg, 0, c);
    if find_from(seg, 0, c) < j - i {
        assert(s[i + find_from(seg, 0, c)] == c);
    }
}

/// First value for `key` among the decoded pairs, if any.
pub open spec fn first_value(pairs: Seq<(Seq<char>, Seq<char>)>, key: Seq<char>) -> Option<
    Seq<char>,
>
    decreases pairs.len(),
{
    if pairs.len() == 0 {
        None
    } else if pairs[0].0 == key {
        Some(pairs[0].1)
    } else {
        first_value(pairs.drop_first(), key)
    }
}

/// How many pairs carry `key`; the body deserializer refuses a duplicate.
pub open spec fn key_count(pairs: Seq<(Seq<char>, Seq<char>)>, key: Seq<char>) -> int
    decreases pairs.len(),
{
    if pairs.len() == 0 {
        0
    } else {
        (if pairs[0].0 == key {
            1int
        } else {
            0int
        }) + key_count(pairs.drop_first(), key)
    }
}

/// Character-exact string comparison.
pub fn str_eq(a: &str, b: &str) -> (r: bool)
    ensures
        r == (a@ == b@),
{
    let n = a.unicode_len();
    let m = b.unicode_len();
    if n != m {
        return false;
    }
    let mut i: usize = 0;
    while i < n
        invariant
            i <= n,
            n == a@.len() == b@.len(),
            forall|k: int| 0 <= k < i ==> a@[k] == b@[k],
        decreases n - i,
    {
        if a.get_char(i) != b.get_char(i) {
            return false;
        }
        i = i + 1;
    }
    assert(a@ =~= b@);
    true
}

/// Find `key` in a parsed form, demanding that it occurs at most once; the
/// result is `Err(())` on a duplicate, `Ok(None)` when absent.
pub fn form_get(pairs: &Vec<(String, String)>, key: &str) -> (r: Result<Option<String>, ()>)
    ensures
        ({
            let ps = pairs@.map_values(|p: (String, String)| (p.0@, p.1@));
            match r {
                Err(_) => key_count(ps, key@) > 1,
                Ok(None) => key_count(ps, key@) == 0,
                Ok(Some(v)) => key_count(ps, key@) == 1 && first_value(ps, key@) == Some(v@),
            }
        }),
{
    let ghost ps = pairs@.map_values(|p: (String, String)| (p.0@, p.1@));
    let mut found: Option<String> = None;
    let mut i: usize = 0;
    while i < pairs.len()
        invariant
            i <= pairs@.len(),
            ps == pairs@.map_values(|p: (String, String)| (p.0@, p.1@)),
            found is None ==> key_count(ps.subrange(0, i as int), key@) == 0,
            found is Some ==> key_count(ps.subrange(0, i as int), key@) == 1 && first_value(
                ps.subrange(0, i as int),
                key@,
            ) == Some(found->0@),
        decreases pairs@.len() - i,
    {
        assert(ps[i as int] == (pairs@[i as int].0@, pairs@[i as int].1@));
        if str_eq(pairs[i].0.as_str(), key) {
            if found.is_some() {
                proof {
                    lemma_key_count_grow(ps, i as int, key@, true);
                    lemma_key_count_rest_nonneg(ps, i + 1, key@);
                }
                return Err(());
            }
            found = Some(pairs[i].1.clone());
            assert(found->0@ == ps[i as int].1);
            proof {
                lemma_count_zero_first_none(ps.subrange(0, i as int), key@);
            }
        }
        proof {
            lemma_key_count_grow(ps, i as int, key@, ps[i as int].0 == key@);
        }
        i = i + 1;
    }
    proof {
        assert(ps.subrange(0, ps.len() as int) =~= ps);
    }
    Ok(found)
}

proof fn lemma_key_count_nonneg(ps: Seq<(Seq<char>, Seq<char>)>, key: Seq<char>)
    ensures
        key_count(ps, key) >= 0,
    decreases ps.len(),
{
    if ps.len() > 0 {
        lemma_key_count_nonneg(ps.drop_first(), key);
    }
}

proof fn lemma_count_zero_first_none(ps: Seq<(Seq<char>, Seq<char>)>, key: Seq<char>)
    requires
        key_count(ps, key) == 0,
    ensures
        first_value(ps, key) is None,
    decreases ps.len(),
{
    if ps.len() > 0 {
        lemma_key_count_nonneg(ps.drop_first(), key);
        lemma_count_zero_first_none(ps.drop_first(), key);
    }
}

proof fn lemma_key_count_grow(ps: Seq<(Seq<char>, Seq<char>)>, i: int, key: Seq<char>, hit: bool)
    requires
        0 <= i < ps.len(),
        hit == (ps[i].0 == key),
    ensures
        key_count(ps.subrange(0, i + 1), key) == key_count(ps.subrange(0, i), key) + (if hit {
            1int
        } else {
            0int
        }),
        first_value(ps.subrange(0, i + 1), key) == (if first_value(ps.subrange(0, i), key) is Some {
            first_value(ps.subrange(0, i), key)
        } else if hit {
            Some(ps[i].1)
        } else {
            None
        }),
    decreases i,
{
    if i == 0 {
        assert(ps.subrange(0, 1).drop_first() =~= ps.subrange(0, 0));
    } else {
        lemma_key_count_grow(ps.drop_first(), i - 1, key, hit);
        assert(ps.subrange(0, i + 1).drop_first() =~= ps.drop_first().subrange(0, i));
        assert(ps.subrange(0, i).drop_first() =~= ps.drop_first().subrange(0, i - 1));
        assert(ps.drop_first()[i - 1] == ps[i]);
    }
}

proof fn lemma_key_count_rest_nonneg(ps: Seq<(Seq<char>, Seq<char>)>, i: int, key: Seq<char>)
    requires
        0 <= i <= ps.len(),
    ensures
        key_count(ps, key) >= key_count(ps.subrange(0, i), key),
    decreases ps.len() - i,
{
    if i < ps.len() {
        lemma_key_count_grow(ps, i, key, ps[i].0 == key);
        lemma_key_count_rest_nonneg(ps, i + 1, key);
    } else {
        assert(ps.subrange(0, i) =~= ps);
    }
}

/// A day in the proleptic Gregorian calendar, written `YYYY-MM-DD` (the year
/// may have 1 to 4 digits).
pub open spec fn spec_valid_date(s: Seq<char>) -> bool {
    let i = find_from(s, 0, '-');
    let j = find_from(s, i + 1, '-');
    let y = s.subrange(0, i);
    let m = s.subrange(i + 1, j);
    let d = s.subrange(j + 1, s.len() as int);
    &&& i < s.len()
    &&& j < s.len()
    &&& 1 <= y.len() <= 4
    &&& 1 <= m.len() <= 2
    &&& 1 <= d.len() <= 2
    &&& all_digits(y)
    &&& all_digits(m)
    &&& all_digits(d)
    &&& 1 <= digits_value(m) <= 12
    &&& 1 <= digits_value(d) <= days_in_month(digits_value(y), digits_value(m))
}

pub open spec fn leap_year(y: int) -> bool {
    y % 4 == 0 && (y % 100 != 0 || y % 400 == 0)
}

pub open spec fn days_in_month(y: int, m: int) -> int {
    if m == 2 {
        if leap_year(y) {
            29
        } else {
            28
        }
    } else if m == 4 || m == 6 || m == 9 || m == 11 {
        30
    } else {
        31
    }
}

fn all_digits_range(s: &str, from: usize, to: usize) -> (r: bool)
    requires
        from <= to <= s@.len(),
    ensures
        r == all_digits(s@.subrange(from as int, to as int)),
{
    let mut i = from;
    while i < to
        invariant
            from <= i <= to <= s@.len(),
            forall|k: int| from <= k < i ==> '0' <= #[trigger] s@[k] && s@[k] <= '9',
        decreases to - i,
    {
        let c = s.get_char(i);
        if !('0' <= c && c <= '9') {
            assert(s@.subrange(from as int, to as int)[i - from] == c);
            return false;
        }
        i = i + 1;
    }
    assert(forall|k: int|
        0 <= k < to - from ==> #[trigger] s@.subrange(from as int, to as int)[k] == s@[from + k]);
    true
}

fn digits_value_range(s: &str, from: usize, to: usize) -> (r: i64)
    requires
        from <= to <= s@.len(),
        to - from <= 4,
        all_digits(s@.subrange(from as int, to as int)),
    ensures
        r == digits_value(s@.subrange(from as int, to as int)),
        0 <= r <= 9999,
{
    let ghost whole = s@.subrange(from as int, to as int);
    let mut acc: i64 = 0;
    let mut i = from;
    while i < to
        invariant
            from <= i <= to <= s@.len(),
            to - from <= 4,
            whole == s@.subrange(from as int, to as int),
            all_digits(whole),
            acc == digits_value(whole.subrange(0, i - from)),
            0 <= acc < pow10((i - from) as nat),
        decreases to - i,
    {
        let c = s.get_char(i);
        assert(whole[i - from] == c);
        let d = (c as u8) - 0x30;
        assert(whole.subrange(0, i + 1 - from).drop_last() =~= whole.subrange(0, i - from));
        assert(whole.subrange(0, i + 1 - from).last() == c);
        proof {
            reveal_with_fuel(pow10, 5);
        }
        acc = acc * 10 + (d as i64);
        i = i + 1;
    }
    assert(whole.subrange(0, to - from) =~= whole);
    proof {
        reveal_with_fuel(pow10, 5);
    }
    acc
}

pub open spec fn pow10(k: nat) -> int
    decreases k,
{
    if k == 0 {
        1
    } else {
        10 * pow10((k - 1) as nat)
    }
}

/// Is `s` a well-formed `YYYY-MM-DD` date, exactly as `spec_valid_date` says?
pub fn is_valid_date(s: &str) -> (r: bool)
    ensures
        r == spec_valid_date(s@),
{
    let n = s.unicode_len();
    let i = find_char(s, 0, '-');
    proof {
        lemma_find_from(s@, 0, '-');
    }
    if i >= n {
        return false;
    }
    let j = find_char(s, i + 1, '-');
    proof {
        lemma_find_from(s@, i + 1, '-');
    }
    if j >= n {
        return false;
    }
    if !(1 <= i && i <= 4 && 1 <= j - i - 1 && j - i - 1 <= 2 && 1 <= n - j - 1 && n - j - 1 <= 2) {
        return false;
    }
    if !all_digits_range(s, 0, i) {
        return false;
    }
    if !all_digits_range(s, i + 1, j) {
        return false;
    }
    if !all_digits_range(s, j + 1, n) {
        return false;
    }
    let y = digits_value_range(s, 0, i);
    let m = digits_value_range(s, i + 1, j);
    let d = digits_value_range(s, j + 1, n);
    if !(1 <= m && m <= 12) {
        return false;
    }
    let dim: i64 = if m == 2 {
        if y % 4 == 0 && (y % 100 != 0 || y % 400 == 0) {
            29
        } else {
            28
        }
    } else if m == 4 || m == 6 || m == 9 || m == 11 {
        30
    } else {
        31
    };
    1 <= d && d <= dim
}

} // verus!

//! Small verified text utilities: ASCII case folding, the substring match
//! the listing filter uses, and parsers for decimal numbers and hyphenated
//! ids.

use vstd::prelude::*;

verus! {

/// ASCII lower-casing of one character; other characters are untouched.
pub open spec fn lower_char(c: char) -> char {
    if 'A' <= c && c <= 'Z' {
        ((c as u8) + 0x20) as char
    } else {
        c
    }
}

pub open spec fn lower_seq(s: Seq<char>) -> Seq<char> {
    s.map_values(|c: char| lower_char(c))
}

/// The text filter of the listing endpoints: `q` occurs in `text`, compared
/// ASCII-case-insensitively. An empty `q` matches every text.
pub open spec fn like_match(text: Seq<char>, q: Seq<char>) -> bool {
    exists|i: int|
        0 <= i && i + q.len() <= text.len() && lower_seq(
            #[trigger] text.subrange(i, i + q.len()),
        ) == lower_seq(q)
}

fn lower_char_exec(c: char) -> (r: char)
    ensures
        r == lower_char(c),
{
    if 'A' <= c && c <= 'Z' {
        (((c as u8) + 0x20) as char)
    } else {
        c
    }
}

/// Does `q` occur in `text`, ignoring ASCII case?
pub fn contains_ci(text: &str, q: &str) -> (r: bool)
    ensures
        r == like_match(text@, q@),
{
    let n = text.unicode_len();
    let m = q.unicode_len();
    if m > n {
        assert(!like_match(text@, q@));
        return false;
    }
    let mut i: usize = 0;
    while i <= n - m
        invariant
            m <= n <= usize::MAX,
            n == text@.len(),
            m == q@.len(),
            i <= n - m + 1,
            forall|k: int|
                0 <= k < i ==> lower_seq(#[trigger] text@.subrange(k, k + q@.len()))
                    != lower_seq(q@),
        decreases n - m - i + 1,
    {
        let mut j: usize = 0;
        let mut all_eq = true;
        while j < m
            invariant
                m <= n == text@.len(),
                m == q@.len(),
                i + m <= n,
                j <= m,
                all_eq == forall|k: int|
                    0 <= k < j ==> lower_char(#[trigger] text@[i + k]) == lower_char(q@[k]),
            decreases m - j,
        {
            let tc = lower_char_exec(text.get_char(i + j));
            let qc = lower_char_exec(q.get_char(j));
            if tc != qc {
                all_eq = false;
                assert(lower_char(text@[i + j as int]) != lower_char(q@[j as int]));
                j = m;
            } else {
                assert(lower_char(text@[i + j as int]) == lower_char(q@[j as int]));
                j = j + 1;
            }
        }
        if all_eq {
            assert(lower_seq(text@.subrange(i as int, i + q@.len())) =~= lower_seq(q@)) by {
                assert(forall|k: int|
                    0 <= k < q@.len() ==> #[trigger] text@.subrange(i as int, i + q@.len())[k]
                        == text@[i + k]);
            }
            return true;
        }
        assert(lower_seq(text@.subrange(i as int, i + q@.len())) != lower_seq(q@)) by {
            if lower_seq(text@.subrange(i as int, i + q@.len())) == lower_seq(q@) {
                let k = choose|k: int|
                    0 <= k < m && lower_char(text@[i + k]) != lower_char(q@[k]);
                assert(lower_seq(text@.subrange(i as int, i + q@.len()))[k] == lower_char(
                    text@[i + k],
                ));
            }
        }
        i = i + 1;
    }
    assert(!like_match(text@, q@));
    false
}

/// Value of a sequence of decimal digits, most significant first.
pub open spec fn digits_value(s: Seq<char>) -> int
    decreases s.len(),
{
    if s.len() == 0 {
        0
    } else {
        digits_value(s.drop_last()) * 10 + (s.last() as int - '0' as int)
    }
}

pub open spec fn all_digits(s: Seq<char>) -> bool {
    forall|i: int| 0 <= i < s.len() ==> '0' <= #[trigger] s[i] && s[i] <= '9'
}

/// What a decimal string denotes as an `i64`: an optional `-` sign, then one
/// or more digits, the value in range.
pub open spec fn spec_parse_i64(s: Seq<char>) -> Option<i64> {
    let (neg, digits) = if s.len() > 0 && s[0] == '-' {
        (true, s.drop_first())
    } else {
        (false, s)
    };
    if digits.len() == 0 || !all_digits(digits) {
        None
    } else {
        let v = if neg {
            -digits_value(digits)
        } else {
            digits_value(digits)
        };
        if i64::MIN <= v <= i64::MAX {
            Some(v as i64)
        } else {
            None
        }
    }
}

proof fn lemma_digits_value_bounds(s: Seq<char>)
    requires
        all_digits(s),
    ensures
        0 <= digits_value(s),
    decreases s.len(),
{
    if s.len() > 0 {
        assert(all_digits(s.drop_last()));
        lemma_digits_value_bounds(s.drop_last());
    }
}

/// Parse a decimal `i64`; `None` on an empty string, a stray character, or
/// overflow, exactly as `spec_parse_i64` says.
pub fn parse_i64(s: &str) -> (r: Option<i64>)
    ensures
        r == spec_parse_i64(s@),
{
    let n = s.unicode_len();
    let mut i: usize = 0;
    let mut neg = false;
    if n > 0 && s.get_char(0) == '-' {
        neg = true;
        i = 1;
    }
    let ghost digits = if neg {
        s@.drop_first()
    } else {
        s@
    };
    if i >= n {
        assert(digits.len() == 0);
        return None;
    }
    // accumulate into i128 so that both i64::MIN and overflow detection are exact
    let mut acc: i128 = 0;
    while i < n
        invariant
            n == s@.len(),
            (if neg {
                1int
            } else {
                0int
            }) <= i <= n,
            neg == (s@.len() > 0 && s@[0] == '-'),
            digits == (if neg {
                s@.drop_first()
            } else {
                s@
            }),
            all_digits(digits.subrange(0, i - (if neg {
                1int
            } else {
                0int
            }))),
            acc == digits_value(digits.subrange(0, i - (if neg {
                1int
            } else {
                0int
            }))),
            0 <= acc <= i64::MAX as i128 + 1,
        decreases n - i,
    {
        let ghost off: int = if neg {
            1int
        } else {
            0int
        };
        let c = s.get_char(i);
        proof {
            if neg {
                assert(digits[i - off] == s@[i as int]);
            }
        }
        if !('0' <= c && c <= '9') {
            assert(digits[i - off] == c);
            assert(!all_digits(digits));
            return None;
        }
        let d = (c as u8) - 0x30;
        proof {
            lemma_digits_value_bounds(digits.subrange(0, i - off));
        }
        let next = acc * 10 + (d as i128);
        assert(digits.subrange(0, i + 1 - off).drop_last() =~= digits.subrange(0, i - off));
        assert(digits.subrange(0, i + 1 - off).last() == c);
        if next > (i64::MAX as i128) + 1 {
            // every longer digit string only grows the value
            proof {
                assert(all_digits(digits.subrange(0, i + 1 - off)));
                assert(digits_value(digits.subrange(0, i + 1 - off)) == next);
                lemma_digits_prefix_monotone(digits, i + 1 - off);
            }
            assert(spec_parse_i64(s@) is None);
            return None;
        }
        acc = next;
        i = i + 1;
    }
    assert(digits.subrange(0, digits.len() as int) =~= digits);
    if neg {
        if acc > (i64::MAX as i128) {
            // exactly i64::MIN
            assert(-acc == i64::MIN as i128);
            return Some(i64::MIN);
        }
        Some(-(acc as i64))
    } else {
        if acc > (i64::MAX as i128) {
            return None;
        }
        Some(acc as i64)
    }
}

proof fn lemma_digits_prefix_monotone(s: Seq<char>, k: int)
    requires
        all_digits(s.subrange(0, k)),
        0 <= k <= s.len(),
    ensures
        all_digits(s) ==> digits_value(s) >= digits_value(s.subrange(0, k)),
    decreases s.len() - k,
{
    if all_digits(s) {
        if k < s.len() {
            assert(all_digits(s.subrange(0, k + 1)));
            lemma_digits_prefix_monotone(s, k + 1);
            assert(s.subrange(0, k + 1).drop_last() =~= s.subrange(0, k));
            lemma_digits_value_bounds(s.subrange(0, k));
            assert(digits_value(s.subrange(0, k + 1)) == digits_value(s.subrange(0, k)) * 10 + (
            s.subrange(0, k + 1).last() as int - '0' as int));
        } else {
            assert(s.subrange(0, k) =~= s);
        }
    }
}


/// Hex digit value, case-insensitive; 16 for a non-hex character.
pub open spec fn hex_digit(c: char) -> int {
    if '0' <= c && c <= '9' {
        c as int - '0' as int
    } else if 'a' <= c && c <= 'f' {
        c as int - 'a' as int + 10
    } else if 'A' <= c && c <= 'F' {
        c as int - 'A' as int + 10
    } else {
        16
    }
}

pub open spec fn all_hex(s: Seq<char>) -> bool {
    forall|i: int| 0 <= i < s.len() ==> hex_digit(#[trigger] s[i]) < 16
}

pub open spec fn hex_value(s: Seq<char>) -> int
    decreases s.len(),
{
    if s.len() == 0 {
        0
    } else {
        hex_value(s.drop_last()) * 16 + hex_digit(s.last())
    }
}

pub open spec fn pow16(k: nat) -> int
    decreases k,
{
    if k == 0 {
        1
    } else {
        16 * pow16((k - 1) as nat)
    }
}

proof fn lemma_hex_value_bound(s: Seq<char>)
    requires
        all_hex(s),
    ensures
        0 <= hex_value(s) < pow16(s.len()),
    decreases s.len(),
{
    if s.len() > 0 {
        assert(all_hex(s.drop_last()));
        lemma_hex_value_bound(s.drop_last());
    }
}

/// The 32 hex digits of an id string: either the 8-4-4-4-12 hyphenated form
/// or the plain 32-digit form.
pub open spec fn uuid_hex_chars(s: Seq<char>) -> Option<Seq<char>> {
    if s.len() == 36 && s[8] == '-' && s[13] == '-' && s[18] == '-' && s[23] == '-' {
        Some(
            s.subrange(0, 8) + s.subrange(9, 13) + s.subrange(14, 18) + s.subrange(19, 23)
                + s.subrange(24, 36),
        )
    } else if s.len() == 32 {
        Some(s)
    } else {
        None
    }
}

/// What an id string denotes: the 128-bit value of its 32 hex digits.
pub open spec fn spec_parse_uuid(s: Seq<char>) -> Option<u128> {
    match uuid_hex_chars(s) {
        Some(h) => if all_hex(h) {
            Some(hex_value(h) as u128)
        } else {
            None
        },
        None => None,
    }
}

fn hex_digit_exec(c: char) -> (r: u8)
    ensures
        r == hex_digit(c),
{
    if '0' <= c && c <= '9' {
        (c as u8) - 0x30
    } else if 'a' <= c && c <= 'f' {
        (c as u8) - 0x61 + 10
    } else if 'A' <= c && c <= 'F' {
        (c as u8) - 0x41 + 10
    } else {
        16
    }
}

/// Parse an id in hyphenated or plain hex form, exactly as `spec_parse_uuid`
/// says.
pub fn parse_uuid(s: &str) -> (r: Option<u128>)
    ensures
        r == spec_parse_uuid(s@),
{
    let n = s.unicode_len();
    let hyphenated = n == 36;
    if hyphenated {
        if !(s.get_char(8) == '-' && s.get_char(13) == '-' && s.get_char(18) == '-' && s.get_char(
            23,
        ) == '-') {
            return None;
        }
    } else if n != 32 {
        return None;
    }
    let ghost h = uuid_hex_chars(s@)->0;
    assert(h.len() == 32);
    let mut acc: u128 = 0;
    let mut k: usize = 0;
    while k < 32
        invariant
            n == s@.len(),
            (n == 36 && s@[8] == '-' && s@[13] == '-' && s@[18] == '-' && s@[23] == '-') || (n
                == 32 && !(n == 36)),
            hyphenated == (n == 36),
            h == uuid_hex_chars(s@)->0,
            h.len() == 32,
            k <= 32,
            forall|j: int|
                0 <= j < 32 ==> #[trigger] h[j] == s@[if n == 32 {
                    j
                } else if j < 8 {
                    j
                } else if j < 12 {
                    j + 1
                } else if j < 16 {
                    j + 2
                } else if j < 20 {
                    j + 3
                } else {
                    j + 4
                }],
            all_hex(h.subrange(0, k as int)),
            acc == hex_value(h.subrange(0, k as int)),
            acc < pow16(k as nat),
        decreases 32 - k,
    {
        let pos: usize = if !hyphenated {
            k
        } else if k < 8 {
            k
        } else if k < 12 {
            k + 1
        } else if k < 16 {
            k + 2
        } else if k < 20 {
            k + 3
        } else {
            k + 4
        };
        let c = s.get_char(pos);
        assert(h[k as int] == c);
        let d = hex_digit_exec(c);
        if d >= 16 {
            assert(!all_hex(h));
            return None;
        }
        proof {
            lemma_pow16_le_max(k as nat);
            assert(h.subrange(0, k + 1).drop_last() =~= h.subrange(0, k as int));
            assert(h.subrange(0, k + 1).last() == c);
        }
        acc = acc * 16 + (d as u128);
        k = k + 1;
    }
    assert(h.subrange(0, 32) =~= h);
    Some(acc)
}

proof fn lemma_pow16_le_max(k: nat)
    requires
        k < 32,
    ensures
        pow16(k) * 16 <= pow16(32),
        pow16(32) == 0x100000000000000000000000000000000,
    decreases 32 - k,
{
    assert(pow16(32) == 0x100000000000000000000000000000000) by {
        reveal_with_fuel(pow16, 33);
    }
    if k == 31 {
    } else {
        lemma_pow16_le_max(k + 1);
        assert(pow16((k + 1) as nat) == 16 * pow16(k));
    }
}

/// The character for one hex digit, lower case.
pub open spec fn hex_char(d: int) -> char {
    if d < 10 {
        (d + '0' as int) as char
    } else {
        (d - 10 + 'a' as int) as char
    }
}

fn append_hex_u128(out: &mut String, v: u128, digits: usize)
    requires
        digits <= 32,
        v < pow16(digits as nat),
    ensures
        final(out)@ == old(out)@ + hex_chars_of(v as int, digits as nat),
    decreases digits,
{
    if digits == 0 {
        assert(final(out)@ =~= old(out)@ + hex_chars_of(v as int, 0));
        return ;
    }
    proof {
        lemma_pow16_pos((digits - 1) as nat);
    }
    let high: u128 = v / 16;
    let low: u128 = v % 16;
    proof {
        lemma_div_bound(v as int, digits as int);
    }
    append_hex_u128(out, high, digits - 1);
    let d: u8 = low as u8;
    let c: char = if d < 10 {
        ((d + 0x30) as char)
    } else {
        ((d - 10 + 0x61) as char)
    };
    assert(c == hex_char(low as int));
    crate::trusted::push_char(out, c);
    assert(final(out)@ =~= old(out)@ + hex_chars_of(v as int, digits as nat));
}

proof fn lemma_pow16_pos(k: nat)
    ensures
        pow16(k) >= 1,
    decreases k,
{
    if k > 0 {
        lemma_pow16_pos((k - 1) as nat);
    }
}

proof fn lemma_div_bound(v: int, digits: int)
    requires
        digits >= 1,
        0 <= v < pow16(digits as nat),
    ensures
        v / 16 < pow16((digits - 1) as nat),
{
    assert(pow16(digits as nat) == 16 * pow16((digits - 1) as nat));
}

/// The `digits`-character lower-case hex spelling of `v`, most significant
/// digit first.
pub open spec fn hex_chars_of(v: int, digits: nat) -> Seq<char>
    decreases digits,
{
    if digits == 0 {
        Seq::empty()
    } else {
        hex_chars_of(v / 16, (digits - 1) as nat).push(hex_char(v % 16))
    }
}

proof fn lemma_hex_chars_len(v: int, digits: nat)
    ensures
        hex_chars_of(v, digits).len() == digits,
    decreases digits,
{
    if digits > 0 {
        lemma_hex_chars_len(v / 16, (digits - 1) as nat);
    }
}

/// The canonical hyphenated spelling of an id.
pub open spec fn spec_format_uuid(v: u128) -> Seq<char> {
    let h = hex_chars_of(v as int, 32);
    h.subrange(0, 8) + seq!['-'] + h.subrange(8, 12) + seq!['-'] + h.subrange(12, 16) + seq!['-']
        + h.subrange(16, 20) + seq!['-'] + h.subrange(20, 32)
}

/// Format an id in the canonical hyphenated lower-case hex form.
pub fn format_uuid(v: u128) -> (r: String)
    ensures
        r@ == spec_format_uuid(v),
{
    let mut parts = String::new();
    proof {
        lemma_pow16_le_max(31);
        assert(v < pow16(32));
    }
    append_hex_u128(&mut parts, v, 32);
    proof {
        lemma_hex_chars_len(v as int, 32);
    }
    let h = parts.as_str();
    assert(h@.len() == 32);
    let mut out = String::new();
    out.append(h.substring_char(0, 8));
    crate::trusted::push_char(&mut out, '-');
    out.append(h.substring_char(8, 12));
    crate::trusted::push_char(&mut out, '-');
    out.append(h.substring_char(12, 16));
    crate::trusted::push_char(&mut out, '-');
    out.append(h.substring_char(16, 20));
    crate::trusted::push_char(&mut out, '-');
    out.append(h.substring_char(20, 32));
    assert(out@ =~= spec_format_uuid(v));
    out
}

} // verus!

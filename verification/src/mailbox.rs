//! Extraction of the unread-message count from a mailbox file's text.
//!
//! A mailbox file is an append-only key/value log in a legacy
//! semi-structured text format. The unread count is the value of one
//! fixed key: the literal byte sequence `(^A2=` is followed by a
//! hexadecimal value terminated by a closing parenthesis. The key is
//! written many times; only the last occurrence holds the current value.
//! The extraction is tolerant: a missing marker, a missing terminator or
//! a malformed value all yield zero rather than an error.

use vstd::prelude::*;
use vstd::slice::slice_subrange;

verus! {

/// The marker `(^A2=` stands at position `i` of `t`.
pub open spec fn marker_match_at(t: Seq<u8>, i: int) -> bool {
    &&& 0 <= i
    &&& i + 5 <= t.len()
    &&& t[i] == 40u8
    &&& t[i + 1] == 94u8
    &&& t[i + 2] == 65u8
    &&& t[i + 3] == 50u8
    &&& t[i + 4] == 61u8
}

/// The position of the last marker occurrence strictly before `i`, if any.
pub open spec fn last_marker_before(t: Seq<u8>, i: nat) -> Option<int>
    decreases i,
{
    if i == 0 {
        None
    } else if marker_match_at(t, i - 1) {
        Some(i - 1)
    } else {
        last_marker_before(t, (i - 1) as nat)
    }
}

/// The position of the last marker occurrence in `t`, if any.
pub open spec fn last_marker(t: Seq<u8>) -> Option<int> {
    last_marker_before(t, t.len())
}

/// The position of the first closing parenthesis at or after `i`, if any.
pub open spec fn first_close_from(t: Seq<u8>, i: nat) -> Option<int>
    decreases t.len() - i,
{
    if i >= t.len() {
        None
    } else if t[i as int] == 41u8 {
        Some(i as int)
    } else {
        first_close_from(t, i + 1)
    }
}

/// The value token of `t`: the bytes between the last marker occurrence
/// and the next closing parenthesis. Empty when the marker is absent or
/// no closing parenthesis follows it.
pub open spec fn unread_token(t: Seq<u8>) -> Seq<u8> {
    match last_marker(t) {
        None => Seq::empty(),
        Some(m) => match first_close_from(t, (m + 5) as nat) {
            None => Seq::empty(),
            Some(c) => t.subrange(m + 5, c),
        },
    }
}

/// True for the byte of a hexadecimal digit.
pub open spec fn is_hex_digit(b: u8) -> bool {
    (48 <= b <= 57) || (65 <= b <= 70) || (97 <= b <= 102)
}

/// The value of one hexadecimal digit byte.
pub open spec fn hex_digit_val(b: u8) -> nat {
    if 48 <= b <= 57 {
        (b - 48) as nat
    } else if 65 <= b <= 70 {
        (b - 55) as nat
    } else if 97 <= b <= 102 {
        (b - 87) as nat
    } else {
        0
    }
}

/// Every byte of `s` is a hexadecimal digit.
pub open spec fn all_hex_digits(s: Seq<u8>) -> bool {
    forall|i: int| 0 <= i < s.len() ==> is_hex_digit(#[trigger] s[i])
}

/// The number denoted by a sequence of hexadecimal digit bytes.
pub open spec fn hex_value(s: Seq<u8>) -> nat
    decreases s.len(),
{
    if s.len() == 0 {
        0
    } else {
        hex_value(s.drop_last()) * 16 + hex_digit_val(s.last())
    }
}

/// What parsing `s` as a base-16 unsigned 32-bit number yields: an
/// optional leading sign, then one or more hexadecimal digits, with the
/// value in range. A minus sign is only accepted on a value of zero.
pub open spec fn spec_parse_hex_u32(s: Seq<u8>) -> Option<u32> {
    if s.len() == 0 {
        None
    } else {
        let digits = if s[0] == 43u8 || s[0] == 45u8 {
            s.drop_first()
        } else {
            s
        };
        if digits.len() == 0 || !all_hex_digits(digits) {
            None
        } else if s[0] == 45u8 {
            if hex_value(digits) == 0 {
                Some(0)
            } else {
                None
            }
        } else if hex_value(digits) > u32::MAX {
            None
        } else {
            Some(hex_value(digits) as u32)
        }
    }
}

/// The unread count of a mailbox text: the parsed value token, or zero
/// when the token is absent or malformed.
pub open spec fn unread_count_of(t: Seq<u8>) -> u32 {
    match spec_parse_hex_u32(unread_token(t)) {
        Some(v) => v,
        None => 0,
    }
}

proof fn lemma_hex_value_zero(s: Seq<u8>)
    requires
        forall|i: int| 0 <= i < s.len() ==> hex_digit_val(#[trigger] s[i]) == 0,
    ensures
        hex_value(s) == 0,
    decreases s.len(),
{
    if s.len() > 0 {
        lemma_hex_value_zero(s.drop_last());
    }
}

proof fn lemma_hex_value_positive(s: Seq<u8>, k: int)
    requires
        0 <= k < s.len(),
        hex_digit_val(s[k]) > 0,
    ensures
        hex_value(s) > 0,
    decreases s.len(),
{
    if k == s.len() - 1 {
    } else {
        lemma_hex_value_positive(s.drop_last(), k);
    }
}

proof fn lemma_hex_value_prefix_le(s: Seq<u8>, p: int)
    requires
        0 <= p <= s.len(),
    ensures
        hex_value(s.take(p)) <= hex_value(s),
    decreases s.len(),
{
    if p == s.len() {
        assert(s.take(p) =~= s);
    } else {
        lemma_hex_value_prefix_le(s.drop_last(), p);
        assert(s.drop_last().take(p) =~= s.take(p));
    }
}

/// Parses `s` as a base-16 unsigned 32-bit number, accepting an optional
/// leading sign before the digits.
pub fn parse_hex_u32(s: &[u8]) -> (r: Option<u32>)
    ensures
        r == spec_parse_hex_u32(s@),
{
    let n = s.len();
    if n == 0 {
        return None;
    }
    let b0 = s[0];
    let signed = b0 == 43 || b0 == 45;
    let start: usize = if signed {
        1
    } else {
        0
    };
    let ghost digits = if signed {
        s@.drop_first()
    } else {
        s@
    };
    proof {
        assert(digits =~= s@.subrange(start as int, n as int));
    }
    if start >= n {
        return None;
    }
    if b0 == 45 {
        let mut i: usize = start;
        while i < n
            invariant
                start <= i <= n,
                n == s@.len(),
                start == 1,
                s@[0] == 45u8,
                digits =~= s@.subrange(start as int, n as int),
                forall|k: int| 0 <= k < i - start ==> is_hex_digit(#[trigger] digits[k])
                    && hex_digit_val(digits[k]) == 0,
            decreases n - i,
        {
            let b = s[i];
            if !((48 <= b && b <= 57) || (65 <= b && b <= 70) || (97 <= b && b <= 102)) {
                proof {
                    assert(digits[i - start] == b);
                    assert(!all_hex_digits(digits));
                }
                return None;
            }
            if b != 48 {
                proof {
                    assert(digits[i - start] == b);
                    if all_hex_digits(digits) {
                        lemma_hex_value_positive(digits, i - start);
                    }
                }
                return None;
            }
            i = i + 1;
        }
        proof {
            assert(forall|k: int|
                0 <= k < digits.len() ==> hex_digit_val(#[trigger] digits[k]) == 0);
            lemma_hex_value_zero(digits);
        }
        return Some(0);
    }
    let mut acc: u32 = 0;
    let mut i: usize = start;
    while i < n
        invariant
            start <= i <= n,
            n == s@.len(),
            start == (if s@[0] == 43u8 || s@[0] == 45u8 { 1int } else { 0int }),
            s@[0] != 45u8,
            digits =~= s@.subrange(start as int, n as int),
            forall|k: int| 0 <= k < i - start ==> is_hex_digit(#[trigger] digits[k]),
            acc as nat == hex_value(digits.take(i - start)),
        decreases n - i,
    {
        let b = s[i];
        let d: u32;
        if 48 <= b && b <= 57 {
            d = (b - 48) as u32;
        } else if 65 <= b && b <= 70 {
            d = (b - 55) as u32;
        } else if 97 <= b && b <= 102 {
            d = (b - 87) as u32;
        } else {
            proof {
                assert(digits[i - start] == b);
                assert(!all_hex_digits(digits));
            }
            return None;
        }
        proof {
            assert(digits[i - start] == b);
            assert(d == hex_digit_val(b));
        }
        if acc > (u32::MAX - d) / 16 {
            proof {
                let p = i - start;
                assert(digits.take(p + 1).drop_last() =~= digits.take(p));
                assert(digits.take(p + 1).last() == digits[p]);
                assert(hex_value(digits.take(p + 1)) == (acc as nat) * 16 + d);
                assert((acc as nat) * 16 + d > u32::MAX) by (nonlinear_arith)
                    requires
                        acc > (u32::MAX - d) / 16,
                        d <= 15,
                ;
                assert(digits == (if s@[0] == 43u8 || s@[0] == 45u8 {
                    s@.drop_first()
                } else {
                    s@
                }));
                if all_hex_digits(digits) {
                    lemma_hex_value_prefix_le(digits, p + 1);
                    assert(hex_value(digits) > u32::MAX);
                    assert(spec_parse_hex_u32(s@) is None);
                } else {
                    assert(spec_parse_hex_u32(s@) is None);
                }
            }
            return None;
        }
        proof {
            assert((acc as nat) * 16 + d <= u32::MAX) by (nonlinear_arith)
                requires
                    acc <= (u32::MAX - d) / 16,
                    d <= 15,
            ;
            let p = i - start;
            assert(digits.take(p + 1).drop_last() =~= digits.take(p));
            assert(digits.take(p + 1).last() == digits[p]);
        }
        acc = acc * 16 + d;
        i = i + 1;
    }
    proof {
        assert(digits.take(n - start) =~= digits);
        assert(digits.len() > 0);
        assert(all_hex_digits(digits));
    }
    Some(acc)
}

/// Reports the unread-message count recorded in the given mailbox text:
/// the hexadecimal value between the last occurrence of the marker
/// `(^A2=` and the next closing parenthesis, or zero when no such
/// well-formed value exists.
pub fn mailbox_count_unread(text: &[u8]) -> (count: u32)
    ensures
        count == unread_count_of(text@),
{
    let n = text.len();
    let mut i: usize = 0;
    let mut last: Option<usize> = None;
    while i < n
        invariant
            i <= n,
            n == text@.len(),
            (match last {
                Some(m) => last_marker_before(text@, i as nat) == Some(m as int),
                None => last_marker_before(text@, i as nat) is None,
            }),
        decreases n - i,
    {
        if n - i >= 5 && text[i] == 40 && text[i + 1] == 94 && text[i + 2] == 65 && text[i + 3]
            == 50 && text[i + 4] == 61 {
            last = Some(i);
        } else {
            proof {
                assert(!marker_match_at(text@, i as int));
            }
        }
        i = i + 1;
    }
    let m = match last {
        None => {
            proof {
                assert(unread_token(text@) =~= Seq::<u8>::empty());
                assert(spec_parse_hex_u32(Seq::<u8>::empty()) is None);
            }
            return 0;
        },
        Some(m) => m,
    };
    proof {
        lemma_last_marker_before_properties(text@, n as nat);
        assert(marker_match_at(text@, m as int));
    }
    let mut j: usize = m + 5;
    while j < n
        invariant
            m + 5 <= j <= n,
            n == text@.len(),
            last_marker(text@) == Some(m as int),
            marker_match_at(text@, m as int),
            first_close_from(text@, (m + 5) as nat) == first_close_from(text@, j as nat),
        decreases n - j,
    {
        if text[j] == 41 {
            proof {
                assert(first_close_from(text@, j as nat) == Some(j as int));
                assert(unread_token(text@) == text@.subrange(m + 5, j as int));
            }
            let token = slice_subrange(text, m + 5, j);
            let parsed = parse_hex_u32(token);
            match parsed {
                Some(v) => {
                    return v;
                },
                None => {
                    return 0;
                },
            }
        }
        j = j + 1;
    }
    proof {
        assert(first_close_from(text@, (m + 5) as nat) is None);
        assert(unread_token(text@) =~= Seq::<u8>::empty());
        assert(spec_parse_hex_u32(Seq::<u8>::empty()) is None);
    }
    0
}

/// Each occurrence position that `last_marker_before` reports is a match
/// with no later match below the bound, and a `None` report means no
/// match below the bound.
pub proof fn lemma_last_marker_before_properties(t: Seq<u8>, i: nat)
    requires
        i <= t.len(),
    ensures
        (match last_marker_before(t, i) {
            Some(m) => 0 <= m < i && marker_match_at(t, m) && forall|j: int|
                m < j < i ==> !marker_match_at(t, j),
            None => forall|j: int| 0 <= j < i ==> !marker_match_at(t, j),
        }),
    decreases i,
{
    if i > 0 {
        lemma_last_marker_before_properties(t, (i - 1) as nat);
    }
}

/// Extraction determinism: when a marker occurrence has no later
/// occurrence after it, it is the one the extraction reads, however many
/// occurrences with other values stand before it.
pub proof fn lemma_extraction_last_match_wins(t: Seq<u8>, m: int)
    requires
        marker_match_at(t, m),
        forall|j: int| j > m ==> !marker_match_at(t, j),
    ensures
        last_marker(t) == Some(m),
        (match first_close_from(t, (m + 5) as nat) {
            Some(c) => unread_token(t) == t.subrange(m + 5, c),
            None => unread_token(t) == Seq::<u8>::empty(),
        }),
{
    lemma_last_marker_before_properties(t, t.len());
    match last_marker_before(t, t.len()) {
        Some(m2) => {
            if m2 < m {
                assert(marker_match_at(t, m));
                assert(false);
            } else if m2 > m {
                assert(!marker_match_at(t, m2));
                assert(false);
            }
        },
        None => {
            assert(!marker_match_at(t, m));
            assert(false);
        },
    }
}

/// Extraction tolerance: a text without the marker, a marker without a
/// closing parenthesis after it, and a value token that is not a
/// hexadecimal number all yield a count of zero.
pub proof fn lemma_extraction_tolerance(t: Seq<u8>)
    ensures
        (forall|i: int| !marker_match_at(t, i)) ==> unread_count_of(t) == 0,
        (last_marker(t) matches Some(m) && first_close_from(t, (m + 5) as nat) is None)
            ==> unread_count_of(t) == 0,
        spec_parse_hex_u32(unread_token(t)) is None ==> unread_count_of(t) == 0,
{
    lemma_last_marker_before_properties(t, t.len());
    if forall|i: int| !marker_match_at(t, i) {
        match last_marker(t) {
            Some(m) => {
                assert(marker_match_at(t, m));
                assert(false);
            },
            None => {
                assert(unread_token(t) =~= Seq::<u8>::empty());
            },
        }
    }
}

} // verus!

//! Assembly of the printed output.
//!
//! After extraction, the counts are summed and one total line is built:
//! the optional text before, the decimal total (or nothing, when zero is
//! suppressed), the optional text after; the whole string is optionally
//! stripped of surrounding whitespace and usually followed by a newline.
//! A location line pairs one mailbox's count with its path.

use vstd::prelude::*;

use crate::settings::{Settings, SettingsView};

verus! {

/// The value of an optional flag: unset means off.
pub open spec fn opt_flag(o: Option<bool>) -> bool {
    match o {
        Some(b) => b,
        None => false,
    }
}

/// The value of an optional text: unset means empty.
pub open spec fn opt_text(o: Option<Seq<char>>) -> Seq<char> {
    match o {
        Some(t) => t,
        None => Seq::empty(),
    }
}

/// The character of one decimal digit.
pub open spec fn dec_digit_char(d: nat) -> char {
    if d == 0 {
        '0'
    } else if d == 1 {
        '1'
    } else if d == 2 {
        '2'
    } else if d == 3 {
        '3'
    } else if d == 4 {
        '4'
    } else if d == 5 {
        '5'
    } else if d == 6 {
        '6'
    } else if d == 7 {
        '7'
    } else if d == 8 {
        '8'
    } else {
        '9'
    }
}

/// The decimal rendering of a number, most significant digit first.
pub open spec fn dec_str(n: nat) -> Seq<char>
    decreases n,
{
    if n < 10 {
        seq![dec_digit_char(n)]
    } else {
        dec_str(n / 10) + seq![dec_digit_char(n % 10)]
    }
}

fn digit_str(d: u32) -> (s: &'static str)
    requires
        d < 10,
    ensures
        s@ == seq![dec_digit_char(d as nat)],
{
    proof {
        reveal_strlit("0");
        reveal_strlit("1");
        reveal_strlit("2");
        reveal_strlit("3");
        reveal_strlit("4");
        reveal_strlit("5");
        reveal_strlit("6");
        reveal_strlit("7");
        reveal_strlit("8");
        reveal_strlit("9");
        assert("0"@ =~= seq![dec_digit_char(0)]);
        assert("1"@ =~= seq![dec_digit_char(1)]);
        assert("2"@ =~= seq![dec_digit_char(2)]);
        assert("3"@ =~= seq![dec_digit_char(3)]);
        assert("4"@ =~= seq![dec_digit_char(4)]);
        assert("5"@ =~= seq![dec_digit_char(5)]);
        assert("6"@ =~= seq![dec_digit_char(6)]);
        assert("7"@ =~= seq![dec_digit_char(7)]);
        assert("8"@ =~= seq![dec_digit_char(8)]);
        assert("9"@ =~= seq![dec_digit_char(9)]);
    }
    if d == 0 {
        "0"
    } else if d == 1 {
        "1"
    } else if d == 2 {
        "2"
    } else if d == 3 {
        "3"
    } else if d == 4 {
        "4"
    } else if d == 5 {
        "5"
    } else if d == 6 {
        "6"
    } else if d == 7 {
        "7"
    } else if d == 8 {
        "8"
    } else {
        "9"
    }
}

/// Renders a number in decimal.
pub fn u32_to_dec(n: u32) -> (s: String)
    ensures
        s@ == dec_str(n as nat),
    decreases n,
{
    if n < 10 {
        let s = String::from_str(digit_str(n));
        s
    } else {
        let mut s = u32_to_dec(n / 10);
        s.append(digit_str(n % 10));
        s
    }
}

/// True for a whitespace character, by its Unicode White_Space property.
pub open spec fn is_space_char(c: char) -> bool {
    let u = c as u32;
    (9 <= u <= 13) || u == 32 || u == 0x85 || u == 0xA0 || u == 0x1680 || (0x2000 <= u <= 0x200A)
        || u == 0x2028 || u == 0x2029 || u == 0x202F || u == 0x205F || u == 0x3000
}

fn is_space(c: char) -> (r: bool)
    ensures
        r == is_space_char(c),
{
    let u = c as u32;
    (9 <= u && u <= 13) || u == 32 || u == 0x85 || u == 0xA0 || u == 0x1680 || (0x2000 <= u && u
        <= 0x200A) || u == 0x2028 || u == 0x2029 || u == 0x202F || u == 0x205F || u == 0x3000
}

/// The text without its leading whitespace.
pub open spec fn trim_start_spec(s: Seq<char>) -> Seq<char>
    decreases s.len(),
{
    if s.len() == 0 || !is_space_char(s[0]) {
        s
    } else {
        trim_start_spec(s.drop_first())
    }
}

/// The text without its trailing whitespace.
pub open spec fn trim_end_spec(s: Seq<char>) -> Seq<char>
    decreases s.len(),
{
    if s.len() == 0 || !is_space_char(s.last()) {
        s
    } else {
        trim_end_spec(s.drop_last())
    }
}

/// The text without its surrounding whitespace.
pub open spec fn trim_spec(s: Seq<char>) -> Seq<char> {
    trim_end_spec(trim_start_spec(s))
}

proof fn lemma_trim_start_skip(s: Seq<char>, a: int)
    requires
        0 <= a <= s.len(),
        forall|i: int| 0 <= i < a ==> is_space_char(#[trigger] s[i]),
        a == s.len() || !is_space_char(s[a]),
    ensures
        trim_start_spec(s) == s.subrange(a, s.len() as int),
    decreases a,
{
    if a == 0 {
        assert(s.subrange(0, s.len() as int) =~= s);
    } else {
        lemma_trim_start_skip(s.drop_first(), a - 1);
        assert(s.drop_first().subrange(a - 1, s.len() - 1) =~= s.subrange(a, s.len() as int));
    }
}

proof fn lemma_trim_end_take(s: Seq<char>, b: int)
    requires
        0 <= b <= s.len(),
        forall|i: int| b <= i < s.len() ==> is_space_char(#[trigger] s[i]),
        b == 0 || !is_space_char(s[b - 1]),
    ensures
        trim_end_spec(s) == s.subrange(0, b),
    decreases s.len() - b,
{
    if b == s.len() {
        assert(s.subrange(0, s.len() as int) =~= s);
    } else {
        lemma_trim_end_take(s.drop_last(), b);
        assert(s.drop_last().subrange(0, b) =~= s.subrange(0, b));
    }
}

/// Strips surrounding whitespace.
pub fn trim_string(s: &str) -> (r: String)
    ensures
        r@ == trim_spec(s@),
{
    let len = s.unicode_len();
    let mut a: usize = 0;
    while a < len && is_space(s.get_char(a))
        invariant
            a <= len,
            len == s@.len(),
            forall|i: int| 0 <= i < a ==> is_space_char(#[trigger] s@[i]),
        decreases len - a,
    {
        a = a + 1;
    }
    if a == len {
        proof {
            lemma_trim_start_skip(s@, a as int);
            assert(s@.subrange(len as int, len as int) =~= Seq::<char>::empty());
        }
        return String::new();
    }
    let mut b: usize = len;
    while b > a && is_space(s.get_char(b - 1))
        invariant
            a <= b <= len,
            len == s@.len(),
            forall|i: int| b <= i < len ==> is_space_char(#[trigger] s@[i]),
        decreases b,
    {
        b = b - 1;
    }
    let sub = s.substring_char(a, b);
    let r = String::from_str(sub);
    proof {
        lemma_trim_start_skip(s@, a as int);
        let t = s@.subrange(a as int, len as int);
        assert(b > a);
        assert(!is_space_char(t[b - a - 1]));
        assert forall|i: int| b - a <= i < t.len() implies is_space_char(#[trigger] t[i]) by {
            assert(t[i] == s@[a + i]);
        }
        lemma_trim_end_take(t, b - a);
        assert(t.subrange(0, b - a) =~= s@.subrange(a as int, b as int));
    }
    r
}

/// The middle of the total line: the text before, the decimal total
/// (left out when it is zero and zero is suppressed), the text after.
pub open spec fn output_body(s: SettingsView, total: u32) -> Seq<char> {
    opt_text(s.before) + (if opt_flag(s.no_zero) && total == 0 {
        Seq::<char>::empty()
    } else {
        dec_str(total as nat)
    }) + opt_text(s.after)
}

/// The whole printed total: the body, stripped of surrounding whitespace
/// when trimming is on, followed by a newline unless suppressed.
pub open spec fn final_output(s: SettingsView, total: u32) -> Seq<char> {
    let body = if opt_flag(s.trim) {
        trim_spec(output_body(s, total))
    } else {
        output_body(s, total)
    };
    if opt_flag(s.no_newline) {
        body
    } else {
        body + "\n"@
    }
}

/// The location line of one mailbox: its count and its path, when
/// location reporting is on and the count is not a suppressed zero.
pub open spec fn location_line_of(s: SettingsView, count: u32, path: Seq<char>) -> Option<
    Seq<char>,
> {
    if opt_flag(s.location) && !(opt_flag(s.no_zero) && count == 0) {
        Some(dec_str(count as nat) + " "@ + path)
    } else {
        None
    }
}

impl Settings {
    /// Builds the printed total for these settings.
    pub fn format_output(&self, total: u32) -> (out: String)
        ensures
            out@ == final_output(self@, total),
    {
        let mut body = String::new();
        match &self.before {
            Some(t) => body.append(t.as_str()),
            None => {},
        }
        let no_zero = match self.no_zero {
            Some(b) => b,
            None => false,
        };
        if !(no_zero && total == 0) {
            let d = u32_to_dec(total);
            body.append(d.as_str());
        }
        match &self.after {
            Some(t) => body.append(t.as_str()),
            None => {},
        }
        proof {
            assert(body@ =~= output_body(self@, total));
        }
        let do_trim = match self.trim {
            Some(b) => b,
            None => false,
        };
        let mut out = if do_trim {
            trim_string(body.as_str())
        } else {
            body
        };
        let no_newline = match self.no_newline {
            Some(b) => b,
            None => false,
        };
        if !no_newline {
            out.append("\n");
        }
        out
    }

    /// Builds the location line for one mailbox, when one is to be
    /// printed.
    pub fn location_line(&self, count: u32, path: &String) -> (r: Option<String>)
        ensures
            (match r {
                Some(l) => location_line_of(self@, count, path@) == Some(l@),
                None => location_line_of(self@, count, path@) is None,
            }),
    {
        let location = match self.location {
            Some(b) => b,
            None => false,
        };
        let no_zero = match self.no_zero {
            Some(b) => b,
            None => false,
        };
        if location && !(no_zero && count == 0) {
            let mut l = u32_to_dec(count);
            l.append(" ");
            l.append(path.as_str());
            Some(l)
        } else {
            None
        }
    }
}

/// The sum of a sequence of counts.
pub open spec fn sum_of(s: Seq<u32>) -> int
    decreases s.len(),
{
    if s.len() == 0 {
        0
    } else {
        sum_of(s.drop_last()) + s.last()
    }
}

proof fn lemma_sum_of_prefix_le(s: Seq<u32>, p: int)
    requires
        0 <= p <= s.len(),
    ensures
        sum_of(s.take(p)) <= sum_of(s),
    decreases s.len(),
{
    if p == s.len() {
        assert(s.take(p) =~= s);
    } else {
        lemma_sum_of_prefix_le(s.drop_last(), p);
        assert(s.drop_last().take(p) =~= s.take(p));
    }
}

/// Sums the per-mailbox counts, reporting when the total does not fit.
pub fn sum_counts(counts: &Vec<u32>) -> (r: Option<u32>)
    ensures
        (match r {
            Some(t) => t == sum_of(counts@),
            None => sum_of(counts@) > u32::MAX,
        }),
{
    let mut acc: u32 = 0;
    let mut i: usize = 0;
    while i < counts.len()
        invariant
            i <= counts@.len(),
            acc == sum_of(counts@.take(i as int)),
        decreases counts.len() - i,
    {
        let c = counts[i];
        proof {
            assert(counts@.take(i + 1).drop_last() =~= counts@.take(i as int));
            assert(counts@.take(i + 1).last() == counts@[i as int]);
        }
        if acc > u32::MAX - c {
            proof {
                lemma_sum_of_prefix_le(counts@, i + 1);
            }
            return None;
        }
        acc = acc + c;
        i = i + 1;
    }
    proof {
        assert(counts@.take(counts@.len() as int) =~= counts@);
    }
    Some(acc)
}

} // verus!

use vstd::prelude::*;
use vstd::string::StringSliceAdditionalSpecFns;
use vstd::utf8::encode_utf8_decode_utf8;

verus! {

/// Two texts with the same UTF-8 encoding are the same text.
pub proof fn lemma_same_bytes_same_text(a: Seq<char>, b: Seq<char>)
    requires
        vstd::utf8::encode_utf8(a) == vstd::utf8::encode_utf8(b),
    ensures
        a == b,
{
    encode_utf8_decode_utf8(a);
    encode_utf8_decode_utf8(b);
}

/// Whether two strings hold the same characters.
pub fn same_text(a: &str, b: &str) -> (r: bool)
    ensures
        r == (a@ == b@),
{
    let left = a.as_bytes();
    let right = b.as_bytes();
    if left.len() != right.len() {
        return false;
    }
    let mut i: usize = 0;
    while i < left.len()
        invariant
            i <= left.len(),
            left.len() == right.len(),
            left@ == a.spec_bytes(),
            right@ == b.spec_bytes(),
            forall|k: int| 0 <= k < i ==> left@[k] == right@[k],
        decreases left.len() - i,
    {
        if left[i] != right[i] {
            return false;
        }
        i = i + 1;
    }
    proof {
        assert(left@ =~= right@);
        lemma_same_bytes_same_text(a@, b@);
    }
    true
}

/// The texts of a list of strings.
pub open spec fn strings_view(strings: Seq<String>) -> Seq<Seq<char>> {
    Seq::new(strings.len(), |i: int| strings[i]@)
}

/// The texts of a list of strings with one more string at its end.
pub proof fn lemma_strings_view_push(strings: Seq<String>, last: String)
    ensures
        strings_view(strings.push(last)) == strings_view(strings).push(last@),
{
    assert(strings_view(strings.push(last)) =~= strings_view(strings).push(last@));
}

/// The parts of a list written one after the other, with `sep` between each
/// two of them.
pub open spec fn joined(parts: Seq<Seq<char>>, sep: Seq<char>) -> Seq<char>
    decreases parts.len(),
{
    if parts.len() == 0 {
        Seq::empty()
    } else if parts.len() == 1 {
        parts[0]
    } else {
        joined(parts.drop_last(), sep) + sep + parts.last()
    }
}

/// Writes the strings of a list one after the other, with `sep` between each
/// two of them.
pub fn join(parts: &Vec<String>, sep: &str) -> (r: String)
    ensures
        r@ == joined(strings_view(parts@), sep@),
{
    let ghost texts = strings_view(parts@);
    let mut out = String::new();
    let mut i: usize = 0;
    proof {
        assert(texts.take(0) =~= Seq::empty());
    }
    while i < parts.len()
        invariant
            i <= parts.len(),
            texts == strings_view(parts@),
            out@ == joined(texts.take(i as int), sep@),
        decreases parts.len() - i,
    {
        proof {
            assert(texts.take(i + 1).drop_last() =~= texts.take(i as int));
            assert(texts.take(i + 1).last() == parts[i as int]@);
            if i == 0 {
                assert(Seq::<char>::empty() + parts[i as int]@ =~= parts[i as int]@);
            }
        }
        if i > 0 {
            out.append(sep);
        }
        out.append(parts[i].as_str());
        i = i + 1;
    }
    proof {
        assert(texts.take(i as int) =~= texts);
    }
    out
}

/// Whether a character is one of the ten decimal digits.
pub open spec fn is_digit(c: char) -> bool {
    '0' <= c && c <= '9'
}

/// The number that a decimal digit stands for.
pub open spec fn digit_value(c: char) -> int {
    c as int - '0' as int
}

/// Whether a text holds decimal digits only.
pub open spec fn all_digits(s: Seq<char>) -> bool {
    forall|i: int| 0 <= i < s.len() ==> is_digit(#[trigger] s[i])
}

/// The number that a text of decimal digits denotes.
pub open spec fn decimal_value(s: Seq<char>) -> int
    decreases s.len(),
{
    if s.len() == 0 {
        0
    } else {
        10 * decimal_value(s.drop_last()) + digit_value(s.last())
    }
}

/// Whether a text starts with a plus or a minus sign.
pub open spec fn has_sign(s: Seq<char>) -> bool {
    s.len() > 0 && (s[0] == '+' || s[0] == '-')
}

/// The integer that a text denotes: an optional sign and then at least one
/// decimal digit, nothing before, between or behind them.
pub open spec fn integer_value(s: Seq<char>) -> Option<int> {
    let digits = if has_sign(s) {
        s.skip(1)
    } else {
        s
    };
    if digits.len() == 0 || !all_digits(digits) {
        None
    } else if s[0] == '-' {
        Some(-decimal_value(digits))
    } else {
        Some(decimal_value(digits))
    }
}

/// The 32-bit integer that a text denotes, where it denotes an integer that
/// fits.
pub open spec fn parsed_i32(s: Seq<char>) -> Option<i32> {
    match integer_value(s) {
        Some(v) => if i32::MIN <= v <= i32::MAX {
            Some(v as i32)
        } else {
            None
        },
        None => None,
    }
}

/// More digits never denote a smaller number.
pub proof fn lemma_decimal_value_grows(s: Seq<char>, k: int)
    requires
        all_digits(s),
        0 <= k <= s.len(),
    ensures
        0 <= decimal_value(s.take(k)) <= decimal_value(s),
    decreases s.len() - k,
{
    lemma_decimal_value_nonnegative(s.take(k));
    if k < s.len() {
        lemma_decimal_value_grows(s, k + 1);
        let longer = s.take(k + 1);
        assert(longer.drop_last() =~= s.take(k));
        assert(is_digit(s[k]));
        assert(longer.last() == s[k]);
    } else {
        assert(s.take(k) =~= s);
    }
}

/// A text of digits denotes no negative number.
pub proof fn lemma_decimal_value_nonnegative(s: Seq<char>)
    requires
        all_digits(s),
    ensures
        0 <= decimal_value(s),
    decreases s.len(),
{
    if s.len() > 0 {
        assert(is_digit(s[s.len() - 1]));
        lemma_decimal_value_nonnegative(s.drop_last());
    }
}

/// The number that a decimal digit stands for.
fn digit_of(c: char) -> (d: i64)
    requires
        is_digit(c),
    ensures
        d == digit_value(c),
        0 <= d <= 9,
{
    let code: u32 = c as u32;
    (code - 48) as i64
}

/// Reads a 32-bit integer in decimal notation: an optional sign, then digits.
/// `None` where the text is no such number or the number does not fit.
pub fn parse_i32(s: &str) -> (r: Option<i32>)
    ensures
        r == parsed_i32(s@),
{
    let n = s.unicode_len();
    if n == 0 {
        return None;
    }
    let first = s.get_char(0);
    let negative = first == '-';
    let start: usize = if first == '-' || first == '+' {
        1
    } else {
        0
    };
    if start == n {
        return None;
    }
    let ghost digits = s@.skip(start as int);
    let mut acc: i64 = 0;
    let mut i: usize = start;
    proof {
        assert(digits.take(0) =~= Seq::<char>::empty());
    }
    while i < n
        invariant
            start <= i <= n,
            n == s@.len(),
            start == if has_sign(s@) { 1nat } else { 0nat },
            negative == (s@[0] == '-'),
            digits == s@.skip(start as int),
            all_digits(digits.take(i - start)),
            acc == decimal_value(digits.take(i - start)),
            0 <= acc <= 2147483648,
        decreases n - i,
    {
        let c = s.get_char(i);
        let ghost seen = digits.take(i - start);
        let ghost more = digits.take(i - start + 1);
        assert(c == digits[i - start]);
        if c < '0' || c > '9' {
            proof {
                assert(s@.skip(0) =~= s@);
            }
            return None;
        }
        proof {
            assert(more.drop_last() =~= seen);
            assert(more.last() == c);
            assert forall|k: int| 0 <= k < more.len() implies is_digit(#[trigger] more[k]) by {
                if k < seen.len() {
                    assert(more[k] == seen[k]);
                }
            }
        }
        acc = acc * 10 + digit_of(c);
        if acc > 2147483648 {
            proof {
                assert(s@.skip(0) =~= s@);
                if all_digits(digits) {
                    lemma_decimal_value_grows(digits, i - start + 1);
                }
            }
            return None;
        }
        i = i + 1;
    }
    proof {
        assert(digits.take(i - start) =~= digits);
        assert(s@.skip(0) =~= s@);
    }
    if negative {
        Some((0 - acc) as i32)
    } else if acc > 2147483647 {
        None
    } else {
        Some(acc as i32)
    }
}

} // verus!

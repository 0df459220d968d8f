//! Text helpers shared by the serializer and the deserializer.

use vstd::prelude::*;
use vstd::string::*;

verus! {

/// The decimal digit character for `d` (which must be below ten).
pub open spec fn digit_char(d: nat) -> char {
    (d + 48) as char
}

/// The decimal digits of a natural number, most significant first, without leading zeros.
pub open spec fn digits_text(n: nat) -> Seq<char>
    decreases n,
{
    if n < 10 {
        seq![digit_char(n)]
    } else {
        digits_text(n / 10) + seq![digit_char(n % 10)]
    }
}

/// The decimal text of an integer: a minus sign for negative values, then the digits.
pub open spec fn int_text(i: int) -> Seq<char> {
    if i < 0 {
        seq!['-'] + digits_text((-i) as nat)
    } else {
        digits_text(i as nat)
    }
}

/// Formats a signed integer with `itoa::Buffer::format`.
///
/// itoa documents that it converts an integer primitive to its decimal string,
/// as the standard library's `Display` does: a leading `-` for negative values,
/// then the digits without leading zeros. The contract states exactly that.
#[verifier::external_body]
pub(crate) fn format_signed(value: i128) -> (text: String)
    ensures
        text@ == int_text(value as int),
{
    let mut buffer = itoa::Buffer::new();
    buffer.format(value).to_string()
}

/// Formats an unsigned integer with `itoa::Buffer::format`.
///
/// The contract claims the decimal digits of the value, as itoa documents.
#[verifier::external_body]
pub(crate) fn format_unsigned(value: u128) -> (text: String)
    ensures
        text@ == int_text(value as int),
{
    let mut buffer = itoa::Buffer::new();
    buffer.format(value).to_string()
}

/// Makes an owned copy of a string slice.
pub fn owned(s: &str) -> (r: String)
    ensures
        r@ == s@,
{
    s.to_string()
}

/// The text `format!("{:?}", s)` gives for a string: the string in double
/// quotes, each character escaped as `char::escape_debug` escapes it.
pub uninterp spec fn debug_str_text(s: Seq<char>) -> Seq<char>;

/// Formats a string with the standard library's `Debug` implementation for `str`.
///
/// The contract names the result and states what the standard library documents
/// of every outcome: it begins and ends with a double quote.
#[verifier::external_body]
pub(crate) fn debug_str(s: &str) -> (text: String)
    ensures
        text@ == debug_str_text(s@),
        text@.len() >= 2,
        text@[0] == '"',
        text@.last() == '"',
{
    format!("{s:?}")
}

/// The text `format!("{:?}", c)` gives for a character: the character in single
/// quotes, escaped as `char::escape_debug` escapes it.
pub uninterp spec fn debug_char_text(c: char) -> Seq<char>;

/// Formats a character with the standard library's `Debug` implementation for `char`.
///
/// The contract names the result and states what the standard library documents
/// of every outcome: it begins and ends with a single quote.
#[verifier::external_body]
pub(crate) fn debug_char(c: char) -> (text: String)
    ensures
        text@ == debug_char_text(c),
        text@.len() >= 2,
        text@[0] == '\'',
        text@.last() == '\'',
{
    format!("{c:?}")
}

/// The decimal digits of a number, most significant first.
pub fn decimal_text(n: u128) -> (text: String)
    ensures
        text@ == digits_text(n as nat),
    decreases n,
{
    let mut text = if n < 10 {
        String::new()
    } else {
        decimal_text(n / 10)
    };
    let d = (n % 10) as u8;
    let c = (d + 48) as char;
    assert(c == digit_char((n % 10) as nat));
    push_char(&mut text, c);
    proof {
        if n < 10 {
            assert(text@ =~= seq![digit_char(n as nat)]);
        }
    }
    text
}

/// The decimal text of an index.
pub fn usize_text(n: usize) -> (text: String)
    ensures
        text@ == int_text(n as int),
{
    decimal_text(n as u128)
}

/// The decimal text of a signed integer: a minus sign when it is below zero, then its digits.
pub fn i64_text(v: i64) -> (text: String)
    ensures
        text@ == int_text(v as int),
{
    if v < 0 {
        let mut text = String::new();
        push_char(&mut text, '-');
        let digits = decimal_text((-(v as i128)) as u128);
        text.append(digits.as_str());
        assert(text@ =~= seq!['-'] + digits_text((-v) as nat));
        text
    } else {
        decimal_text(v as u128)
    }
}

/// The decimal text of an unsigned integer.
pub fn u64_text(v: u64) -> (text: String)
    ensures
        text@ == int_text(v as int),
{
    decimal_text(v as u128)
}

/// Appends a character with the standard library's `String::push`.
///
/// The contract claims what `String::push` documents: the character is added at the end.
#[verifier::external_body]
pub(crate) fn push_char(s: &mut String, c: char)
    ensures
        final(s)@ == old(s)@.push(c),
{
    s.push(c)
}

/// Whether a character is a decimal digit.
pub open spec fn is_digit(c: char) -> bool {
    '0' <= c && c <= '9'
}

/// The number written by a sequence of decimal digits.
pub open spec fn digits_value(s: Seq<char>) -> nat
    decreases s.len(),
{
    if s.len() == 0 {
        0
    } else {
        digits_value(s.drop_last()) * 10 + ((s.last() as int) - 48) as nat
    }
}

/// The sign and the digits of an integer's text: an optional `+` (or `-` when
/// `signed`) then the rest.
pub open spec fn int_parts(s: Seq<char>, signed: bool) -> (bool, Seq<char>) {
    if s.len() > 0 && s[0] == '+' {
        (false, s.drop_first())
    } else if signed && s.len() > 0 && s[0] == '-' {
        (true, s.drop_first())
    } else {
        (false, s)
    }
}

/// The integer the standard library's `FromStr` reads from `s`, before checking
/// that it fits the type: an optional sign, then one or more decimal digits.
pub open spec fn parse_int_text(s: Seq<char>, signed: bool) -> Option<int> {
    let neg = int_parts(s, signed).0;
    let digits = int_parts(s, signed).1;
    if digits.len() == 0 || !(forall|i: int| 0 <= i < digits.len() ==> #[trigger] is_digit(digits[i])) {
        None
    } else {
        Some(if neg { -(digits_value(digits) as int) } else { digits_value(digits) as int })
    }
}

/// What the standard library's `FromStr` for an integer type from `lo` to `hi` reads from `s`.
pub open spec fn parse_int_in(s: Seq<char>, signed: bool, lo: int, hi: int) -> Option<int> {
    match parse_int_text(s, signed) {
        Some(v) => if lo <= v && v <= hi { Some(v) } else { None },
        None => None,
    }
}

/// Reads an integer's sign and magnitude as the standard library's `FromStr` does;
/// `None` when the text is no integer, or its magnitude does not fit in a `u128`.
pub fn parse_int_magnitude(s: &str, signed: bool) -> (r: Option<(bool, u128)>)
    ensures
        match r {
            Some((neg, m)) => parse_int_text(s@, signed) == Some(if neg { -(m as int) } else { m as int }) && (neg
                == int_parts(s@, signed).0),
            None => parse_int_text(s@, signed) is None || digits_value(int_parts(s@, signed).1) > u128::MAX,
        },
{
    let n = s.unicode_len();
    let mut start: usize = 0;
    let mut neg = false;
    if n > 0 {
        let c0 = s.get_char(0);
        if c0 == '+' {
            start = 1;
        } else if signed && c0 == '-' {
            start = 1;
            neg = true;
        }
    }
    let ghost digits = int_parts(s@, signed).1;
    proof {
        assert(digits =~= s@.subrange(start as int, n as int));
    }
    if start == n {
        return None;
    }
    let mut m: u128 = 0;
    let mut i: usize = start;
    while i < n
        invariant
            start <= i <= n,
            n == s@.len(),
            digits == int_parts(s@, signed).1,
            neg == int_parts(s@, signed).0,
            digits == s@.subrange(start as int, n as int),
            m as nat == digits_value(s@.subrange(start as int, i as int)),
            forall|j: int| start <= j < i ==> #[trigger] is_digit(s@[j]),
        decreases n - i,
    {
        let c = s.get_char(i);
        if !('0' <= c && c <= '9') {
            proof {
                assert(digits[i - start] == c);
                assert(!is_digit(digits[i - start]));
                assert(!(forall|j: int| 0 <= j < digits.len() ==> #[trigger] is_digit(digits[j])));
                assert(parse_int_text(s@, signed) is None);
            }
            return None;
        }
        let d = (c as u32 - 48) as u128;
        let ghost prefix = s@.subrange(start as int, i + 1);
        proof {
            assert(prefix.drop_last() =~= s@.subrange(start as int, i as int));
            assert(digits_value(prefix) == m * 10 + d);
        }
        match m.checked_mul(10) {
            Some(m10) => match m10.checked_add(d) {
                Some(next) => {
                    m = next;
                },
                None => {
                    proof {
                        if forall|j: int| 0 <= j < digits.len() ==> #[trigger] is_digit(digits[j]) {
                            lemma_digits_value_prefix(digits, (i + 1 - start) as nat);
                            assert(digits.subrange(0, (i + 1 - start) as int) =~= prefix);
                        }
                    }
                    return None;
                },
            },
            None => {
                proof {
                    if forall|j: int| 0 <= j < digits.len() ==> #[trigger] is_digit(digits[j]) {
                        lemma_digits_value_prefix(digits, (i + 1 - start) as nat);
                        assert(digits.subrange(0, (i + 1 - start) as int) =~= prefix);
                    }
                }
                return None;
            },
        }
        i = i + 1;
    }
    proof {
        assert(s@.subrange(start as int, n as int) =~= digits);
        assert forall|j: int| 0 <= j < digits.len() implies #[trigger] is_digit(digits[j]) by {
            assert(digits[j] == s@[start + j]);
        }
    }
    Some((neg, m))
}

/// The value of a prefix of digits is at most the value of all of them.
pub proof fn lemma_digits_value_prefix(s: Seq<char>, k: nat)
    requires
        k <= s.len(),
        forall|j: int| 0 <= j < s.len() ==> #[trigger] is_digit(s[j]),
    ensures
        digits_value(s.subrange(0, k as int)) <= digits_value(s),
    decreases s.len() - k,
{
    if k < s.len() {
        lemma_digits_value_prefix(s, k + 1);
        let p = s.subrange(0, k + 1int);
        assert(p.drop_last() =~= s.subrange(0, k as int));
    } else {
        assert(s.subrange(0, k as int) =~= s);
    }
}


/// Every character of a number's decimal text is a digit.
pub proof fn lemma_digits_text_digits(n: nat)
    ensures
        digits_text(n).len() > 0,
        forall|i: int| 0 <= i < digits_text(n).len() ==> #[trigger] is_digit(digits_text(n)[i]),
    decreases n,
{
    if n >= 10 {
        lemma_digits_text_digits(n / 10);
        let d = digit_char(n % 10);
        assert(is_digit(d));
        assert forall|i: int| 0 <= i < digits_text(n).len() implies #[trigger] is_digit(digits_text(n)[i]) by {
            if i < digits_text(n / 10).len() {
                assert(digits_text(n)[i] == digits_text(n / 10)[i]);
            } else {
                assert(digits_text(n)[i] == d);
            }
        }
    } else {
        assert(is_digit(digit_char(n)));
    }
}

/// Reading a number's decimal text gives the number back.
pub proof fn lemma_digits_text_value(n: nat)
    ensures
        digits_value(digits_text(n)) == n,
    decreases n,
{
    if n >= 10 {
        lemma_digits_text_value(n / 10);
        let t = digits_text(n);
        assert(t.drop_last() =~= digits_text(n / 10));
        assert(((t.last() as int) - 48) == n % 10);
        assert(digits_value(t.drop_last()) == n / 10);
        assert(n == (n / 10) * 10 + n % 10);
        assert(digits_value(t) == digits_value(t.drop_last()) * 10 + ((t.last() as int) - 48) as nat);
    } else {
        let t = digits_text(n);
        assert(t.drop_last() =~= Seq::<char>::empty());
        assert(((t.last() as int) - 48) == n);
        assert(digits_value(t.drop_last()) == 0);
        assert(digits_value(t) == digits_value(t.drop_last()) * 10 + ((t.last() as int) - 48) as nat);
    }
}

/// The standard library reads the decimal text of any integer back as that
/// integer (as a signed type), and of any natural number (as an unsigned type).
pub proof fn lemma_parse_int_text(v: int, signed: bool)
    requires
        signed || v >= 0,
    ensures
        parse_int_text(int_text(v), signed) == Some(v),
{
    let n: nat = if v < 0 { (-v) as nat } else { v as nat };
    lemma_digits_text_digits(n);
    lemma_digits_text_value(n);
    let d = digits_text(n);
    assert(d[0] != '+' && d[0] != '-') by {
        assert(is_digit(d[0]));
    }
    if v < 0 {
        assert((seq!['-'] + d).drop_first() =~= d);
    }
}
} // verus!

//! Reading the detective's typed answers: single letters and numbers.

use vstd::prelude::*;

verus! {

/// A decimal digit, `'0'` to `'9'`.
pub open spec fn is_digit(c: char) -> bool {
    48 <= c as u32 <= 57
}

/// The number that a string of decimal digits spells.
pub open spec fn decimal_value(digits: Seq<char>) -> nat
    decreases digits.len(),
{
    if digits.len() == 0 {
        0
    } else {
        decimal_value(digits.drop_last()) * 10 + (digits.last() as u32 - 48) as nat
    }
}

/// `text` without the one `+` it may start with.
pub open spec fn unsigned_digits(text: Seq<char>) -> Seq<char> {
    if text.len() > 0 && text[0] == '+' {
        text.drop_first()
    } else {
        text
    }
}

/// Every character of `text` is a decimal digit.
pub open spec fn all_digits(text: Seq<char>) -> bool {
    forall|i: int| 0 <= i < text.len() ==> is_digit(#[trigger] text[i])
}

/// What `str::parse::<usize>` makes of `text`: an optional `+`, then one
/// or more decimal digits whose value fits in a `usize`; anything else is
/// refused.
pub open spec fn parsed_usize(text: Seq<char>) -> Option<usize> {
    let digits = unsigned_digits(text);
    if digits.len() > 0 && all_digits(digits) && decimal_value(digits) <= usize::MAX {
        Some(decimal_value(digits) as usize)
    } else {
        None
    }
}

/// Reading more digits never makes the number smaller.
proof fn lemma_decimal_prefix(digits: Seq<char>, j: int)
    requires
        0 <= j <= digits.len(),
        forall|i: int| 0 <= i < digits.len() ==> is_digit(#[trigger] digits[i]),
    ensures
        decimal_value(digits.take(j)) <= decimal_value(digits),
    decreases digits.len(),
{
    if j == digits.len() {
        assert(digits.take(j) =~= digits);
    } else {
        let shorter = digits.drop_last();
        assert forall|i: int| 0 <= i < shorter.len() implies is_digit(#[trigger] shorter[i]) by {
            assert(shorter[i] == digits[i]);
        }
        lemma_decimal_prefix(shorter, j);
        assert(shorter.take(j) =~= digits.take(j));
    }
}

/// Reads a decimal number the way std's `str::parse::<usize>` does: an
/// optional `+`, then one or more digits whose value fits in a `usize`.
pub fn parse_usize(text: &str) -> (r: Option<usize>)
    ensures
        r == parsed_usize(text@),
{
    let len = text.unicode_len();
    let start: usize = if len > 0 && text.get_char(0) == '+' {
        1
    } else {
        0
    };
    let ghost digits = text@.subrange(start as int, len as int);
    proof {
        if start == 1 {
            assert(digits =~= text@.drop_first());
        } else {
            assert(digits =~= text@);
        }
    }
    if start >= len {
        return None;
    }
    let mut value: usize = 0;
    let mut i: usize = start;
    while i < len
        invariant
            len == text@.len(),
            start <= i <= len,
            start < len,
            digits == text@.subrange(start as int, len as int),
            digits == unsigned_digits(text@),
            forall|k: int| 0 <= k < i - start ==> is_digit(#[trigger] digits[k]),
            value == decimal_value(digits.take(i - start)),
        decreases len - i,
    {
        let c = text.get_char(i);
        assert(c == digits[i - start]);
        if !('0' <= c && c <= '9') {
            proof {
                assert(!is_digit(digits[i - start]));
            }
            return None;
        }
        let d = (c as u32 - 48) as usize;
        let ghost prefix = digits.take(i + 1 - start);
        proof {
            assert(prefix.drop_last() =~= digits.take(i - start));
            assert(prefix.last() == c);
        }
        let next = match value.checked_mul(10) {
            Some(tens) => tens.checked_add(d),
            None => None,
        };
        match next {
            Some(v) => {
                value = v;
            },
            None => {
                proof {
                    assert(decimal_value(prefix) == value * 10 + d);
                    assert(decimal_value(prefix) > usize::MAX);
                    if all_digits(digits) {
                        lemma_decimal_prefix(digits, i + 1 - start);
                    }
                }
                return None;
            },
        }
        i = i + 1;
    }
    proof {
        assert(digits.take(len - start) =~= digits);
    }
    Some(value)
}

/// Whitespace as std's `char::is_whitespace` knows it: the characters with
/// Unicode's White_Space property.
pub open spec fn is_white_space(c: char) -> bool {
    let u = c as u32;
    ||| 0x09 <= u <= 0x0d
    ||| u == 0x20
    ||| u == 0x85
    ||| u == 0xa0
    ||| u == 0x1680
    ||| 0x2000 <= u <= 0x200a
    ||| u == 0x2028
    ||| u == 0x2029
    ||| u == 0x202f
    ||| u == 0x205f
    ||| u == 0x3000
}

/// `text` without the whitespace at its start.
pub open spec fn trimmed_start(text: Seq<char>) -> Seq<char>
    decreases text.len(),
{
    if text.len() > 0 && is_white_space(text[0]) {
        trimmed_start(text.drop_first())
    } else {
        text
    }
}

/// `text` without the whitespace at its end.
pub open spec fn trimmed_end(text: Seq<char>) -> Seq<char>
    decreases text.len(),
{
    if text.len() > 0 && is_white_space(text.last()) {
        trimmed_end(text.drop_last())
    } else {
        text
    }
}

/// `text` without the whitespace at either end, as std's `str::trim`
/// leaves it.
pub open spec fn trimmed(text: Seq<char>) -> Seq<char> {
    trimmed_end(trimmed_start(text))
}

/// What std's `str::to_uppercase` makes of `text`.
pub uninterp spec fn upper_cased(text: Seq<char>) -> Seq<char>;

/// Strips leading and trailing whitespace with std's `str::trim`, which its
/// documentation defines by Unicode's White_Space property, as `trimmed`
/// states.
#[verifier::external_body]
fn trim_text(text: &str) -> (r: &str)
    ensures
        r@ == trimmed(text@),
{
    text.trim()
}

/// Maps every character to upper case with std's `str::to_uppercase`. The
/// result is a function of the text alone, named `upper_cased`; the Unicode
/// case tables it follows are left to that name.
#[verifier::external_body]
fn upper_case(text: &str) -> (r: String)
    ensures
        r@ == upper_cased(text@),
{
    text.to_uppercase()
}

/// A typed line as the game reads it: trimmed, then in upper case, so that
/// `" q\n"` means `Q`.
pub fn normalize_input(line: &str) -> (r: String)
    ensures
        r@ == upper_cased(trimmed(line@)),
{
    upper_case(trim_text(line))
}

/// The digit character for `d`, below ten.
pub open spec fn digit_char(d: nat) -> char {
    (48 + d) as char
}

/// `n` written in decimal, without sign or leading zeros.
pub open spec fn decimal_text(n: nat) -> Seq<char>
    decreases n,
{
    if n < 10 {
        seq![digit_char(n)]
    } else {
        decimal_text(n / 10).push(digit_char(n % 10))
    }
}

/// The decimal text of a number is one or more digits spelling that number,
/// and never starts with a `+`.
pub proof fn lemma_decimal_text_spells(n: nat)
    ensures
        decimal_text(n).len() > 0,
        all_digits(decimal_text(n)),
        decimal_value(decimal_text(n)) == n,
        decimal_text(n)[0] != '+',
    decreases n,
{
    if n >= 10 {
        lemma_decimal_text_spells(n / 10);
        let t = decimal_text(n);
        let head = decimal_text(n / 10);
        assert(t.drop_last() =~= head);
        assert forall|i: int| 0 <= i < t.len() implies is_digit(#[trigger] t[i]) by {
            if i < head.len() {
                assert(t[i] == head[i]);
            }
        }
        assert(t[0] == head[0]);
        let d = n % 10;
        assert(t.last() == digit_char(d));
        assert(digit_char(d) as u32 == 48 + d);
        assert(n == (n / 10) * 10 + d);
        assert(decimal_value(t) == decimal_value(head) * 10 + (t.last() as u32 - 48) as nat);
        assert((t.last() as u32 - 48) as nat == d);
    } else {
        let t = decimal_text(n);
        assert(t.drop_last() =~= Seq::<char>::empty());
        assert(digit_char(n) as u32 == 48 + n);
        assert(decimal_value(t) == decimal_value(t.drop_last()) * 10 + (t.last() as u32 - 48) as nat);
        assert(decimal_value(Seq::<char>::empty()) == 0);
    }
}

/// Every number a `usize` holds, written in decimal, is read back as itself.
pub proof fn lemma_decimal_text_read_back(n: usize)
    ensures
        parsed_usize(decimal_text(n as nat)) == Some(n),
{
    lemma_decimal_text_spells(n as nat);
    assert(unsigned_digits(decimal_text(n as nat)) == decimal_text(n as nat));
}

/// Whether `text` is exactly the single character `c`.
pub fn is_key(text: &str, c: char) -> (r: bool)
    ensures
        r == (text@ == seq![c]),
{
    if text.unicode_len() == 1 {
        let first = text.get_char(0);
        proof {
            if first == c {
                assert(text@ =~= seq![c]);
            }
        }
        first == c
    } else {
        false
    }
}

} // verus!

use vstd::prelude::*;

use crate::text::chars_of;

verus! {

/// The characters of the Unicode `White_Space` property.
pub open spec fn is_white_space(c: char) -> bool {
    let u = c as u32;
    (0x9 <= u && u <= 0xD) || u == 0x20 || u == 0x85 || u == 0xA0 || u == 0x1680 || (0x2000 <= u && u <= 0x200A)
        || u == 0x2028 || u == 0x2029 || u == 0x202F || u == 0x205F || u == 0x3000
}

/// `s` without its leading white space.
pub open spec fn trim_start(s: Seq<char>) -> Seq<char>
    decreases s.len(),
{
    if s.len() > 0 && is_white_space(s[0]) {
        trim_start(s.drop_first())
    } else {
        s
    }
}

/// `s` without its trailing white space.
pub open spec fn trim_end(s: Seq<char>) -> Seq<char>
    decreases s.len(),
{
    if s.len() > 0 && is_white_space(s.last()) {
        trim_end(s.drop_last())
    } else {
        s
    }
}

/// A text without leading and trailing white space.
pub open spec fn trimmed(s: Seq<char>) -> Seq<char> {
    trim_end(trim_start(s))
}

/// Relies on `str::trim`: it removes leading and trailing characters of the
/// Unicode `White_Space` property.
#[verifier::external_body]
pub(crate) fn trim(s: &str) -> (r: &str)
    ensures
        r@ == trimmed(s@),
{
    s.trim()
}

pub open spec fn is_digit(c: char) -> bool {
    '0' <= c && c <= '9'
}

/// The number that a sequence of decimal digits spells.
pub open spec fn digits_value(s: Seq<char>) -> nat
    decreases s.len(),
{
    if s.len() == 0 {
        0
    } else {
        digits_value(s.drop_last()) * 10 + (s.last() as nat - '0' as nat) as nat
    }
}

/// The digits of a count: the text without one leading `+`.
pub open spec fn count_digits(s: Seq<char>) -> Seq<char> {
    if s.len() > 0 && s[0] == '+' {
        s.drop_first()
    } else {
        s
    }
}

/// The number written in `s`: an optional `+` then one or more decimal
/// digits, nothing else.
pub open spec fn parsed_number(s: Seq<char>) -> Option<nat> {
    let d = count_digits(s);
    if d.len() > 0 && forall|i: int| 0 <= i < d.len() ==> #[trigger] is_digit(d[i]) {
        Some(digits_value(d))
    } else {
        None
    }
}

/// `r` is the count read from `s`: its number when there is one that fits
/// in a `usize`.
pub open spec fn count_read(s: Seq<char>, r: Option<usize>) -> bool {
    match parsed_number(s) {
        Some(v) => if v <= usize::MAX {
            r == Some(v as usize)
        } else {
            r is None
        },
        None => r is None,
    }
}

/// Reads a count written in decimal, with an optional leading `+`.
pub fn parse_decimal(s: &str) -> (r: Option<usize>)
    ensures
        count_read(s@, r),
{
    let chars = chars_of(s);
    let n = chars.len();
    let start: usize = if n > 0 && chars[0] == '+' { 1 } else { 0 };
    let ghost d = count_digits(s@);
    proof {
        assert(d =~= chars@.skip(start as int));
    }
    if start == n {
        proof {
            assert(d.len() == 0);
        }
        return None;
    }
    let mut value: usize = 0;
    let mut overflow = false;
    let mut i = start;
    while i < n
        invariant
            chars@ == s@,
            n == chars@.len(),
            start <= i <= n,
            d == chars@.skip(start as int),
            d == count_digits(s@),
            forall|j: int| start <= j < i ==> #[trigger] is_digit(chars@[j]),
            !overflow ==> value == digits_value(chars@.subrange(start as int, i as int)),
            overflow ==> digits_value(chars@.subrange(start as int, i as int)) > usize::MAX,
        decreases n - i,
    {
        let c = chars[i];
        if !('0' <= c && c <= '9') {
            proof {
                assert(d[i - start] == chars@[i as int]);
                assert(!is_digit(d[i - start]));
                assert(!(forall|j: int| 0 <= j < d.len() ==> #[trigger] is_digit(d[j])));
                assert(count_digits(s@) == d);
                assert(parsed_number(s@) is None);
            }
            return None;
        }
        let digit = (c as u32 - '0' as u32) as usize;
        proof {
            assert(chars@.subrange(start as int, i + 1).drop_last() =~= chars@.subrange(start as int, i as int));
            let prev = digits_value(chars@.subrange(start as int, i as int));
            assert(digits_value(chars@.subrange(start as int, i + 1)) == prev * 10 + digit);
            if overflow {
                assert(prev * 10 + digit > usize::MAX) by (nonlinear_arith)
                    requires
                        prev > usize::MAX,
                ;
            }
        }
        if !overflow {
            match value.checked_mul(10) {
                Some(v) => match v.checked_add(digit) {
                    Some(w) => {
                        value = w;
                    },
                    None => {
                        overflow = true;
                    },
                },
                None => {
                    overflow = true;
                    proof {
                        assert(value * 10 + digit > usize::MAX);
                    }
                },
            }
        }
        i = i + 1;
    }
    proof {
        assert(chars@.subrange(start as int, n as int) =~= d);
        assert forall|j: int| 0 <= j < d.len() implies #[trigger] is_digit(d[j]) by {
            assert(d[j] == chars@[start + j]);
        }
    }
    proof {
        assert(d.len() > 0);
        assert(parsed_number(s@) == Some(digits_value(d)));
    }
    if overflow {
        None
    } else {
        Some(value)
    }
}

/// Reads the count typed at a prompt, ignoring surrounding whitespace.
pub fn parse_count(input: &str) -> (r: Option<usize>)
    ensures
        count_read(trimmed(input@), r),
{
    parse_decimal(trim(input))
}

/// A prompt's answer: an empty line cancels.
pub fn accept_input(line: String) -> (r: Option<String>)
    ensures
        line@.len() == 0 ==> r is None,
        line@.len() > 0 ==> (r matches Some(s) && s@ == line@),
{
    if line.as_str().is_empty() {
        None
    } else {
        Some(line)
    }
}

} // verus!

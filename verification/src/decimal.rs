//! Whole numbers as decimal text: how a version number is written to the
//! settings and read back.

use vstd::prelude::*;
use vstd::string::*;

verus! {

/// Whether `c` is one of the digits `0` to `9`.
pub open spec fn is_digit(c: char) -> bool {
    48 <= c as u32 <= 57
}

/// The number that the digit `c` stands for.
pub open spec fn digit_value(c: char) -> int {
    c as u32 - 48
}

/// The digit that stands for `d`.
pub open spec fn digit_char(d: int) -> char {
    if d == 0 {
        '0'
    } else if d == 1 {
        '1'
    } else if d == 2 {
        '2'
    } else if d == 3 {
        '3'
    } else if d == 4 {
        '4'
    } else if d == 5 {
        '5'
    } else if d == 6 {
        '6'
    } else if d == 7 {
        '7'
    } else if d == 8 {
        '8'
    } else {
        '9'
    }
}

/// Whether `s` holds digits only.
pub open spec fn all_digits(s: Seq<char>) -> bool {
    forall|i: int| 0 <= i < s.len() ==> is_digit(#[trigger] s[i])
}

/// The number that the digits `s` write, most significant first.
pub open spec fn digits_value(s: Seq<char>) -> int
    decreases s.len(),
{
    if s.len() == 0 {
        0
    } else {
        digits_value(s.drop_last()) * 10 + digit_value(s.last())
    }
}

/// The number that `s` writes, where `s` is an optional sign followed by at
/// least one digit and the number fits 64 bits; else `None`.
pub open spec fn parsed_i64(s: Seq<char>) -> Option<int> {
    if s.len() == 0 {
        None
    } else {
        let digits = if s[0] == '-' || s[0] == '+' {
            s.skip(1)
        } else {
            s
        };
        let value = if s[0] == '-' {
            -digits_value(digits)
        } else {
            digits_value(digits)
        };
        if digits.len() == 0 || !all_digits(digits) {
            None
        } else if i64::MIN <= value <= i64::MAX {
            Some(value)
        } else {
            None
        }
    }
}

/// The digits that write `n`, without leading zeros.
pub open spec fn digits_of(n: nat) -> Seq<char>
    decreases n,
{
    if n < 10 {
        seq![digit_char(n as int)]
    } else {
        digits_of(n / 10).push(digit_char((n % 10) as int))
    }
}

/// The decimal text of `v`: its digits, after a minus sign where it is
/// negative.
pub open spec fn decimal_text(v: int) -> Seq<char> {
    if v < 0 {
        seq!['-'] + digits_of((-v) as nat)
    } else {
        digits_of(v as nat)
    }
}

/// The digits of a number are digits, begin with no sign, and write that
/// number.
pub proof fn lemma_digits_of(n: nat)
    ensures
        digits_of(n).len() >= 1,
        all_digits(digits_of(n)),
        digits_value(digits_of(n)) == n,
    decreases n,
{
    if n < 10 {
        let s = digits_of(n);
        assert(s.drop_last() =~= Seq::<char>::empty());
        assert(digits_value(s.drop_last()) == 0);
    } else {
        lemma_digits_of(n / 10);
        let s = digits_of(n);
        assert(s.drop_last() =~= digits_of(n / 10));
        assert forall|i: int| 0 <= i < s.len() implies is_digit(#[trigger] s[i]) by {
            if i < s.len() - 1 {
                assert(s[i] == digits_of(n / 10)[i]);
            }
        }
    }
}

/// Reading the decimal text of a 64-bit number gives the number back.
pub proof fn lemma_parse_of_text(v: i64)
    ensures
        parsed_i64(decimal_text(v as int)) == Some(v as int),
{
    let s = decimal_text(v as int);
    if v < 0 {
        let d = digits_of((-v) as nat);
        lemma_digits_of((-v) as nat);
        assert(s.skip(1) =~= d);
        assert(s[0] == '-');
    } else {
        lemma_digits_of(v as nat);
        assert(is_digit(s[0]));
    }
}

/// The number that `text` writes: an optional sign followed by at least one
/// digit, and nothing else. Text that does not have that form, or writes a
/// number beyond 64 bits, gives `None`.
pub fn parse_i64(text: &str) -> (value: Option<i64>)
    ensures
        match value {
            Some(v) => parsed_i64(text@) == Some(v as int),
            None => parsed_i64(text@) is None,
        },
{
    let n = text.unicode_len();
    if n == 0 {
        return None;
    }
    let first = text.get_char(0);
    let negative = first == '-';
    let start: usize = if first == '-' || first == '+' {
        1
    } else {
        0
    };
    let ghost digits = if first == '-' || first == '+' {
        text@.skip(1)
    } else {
        text@
    };
    assert(digits =~= text@.skip(start as int));
    if start == n {
        return None;
    }
    let mut total: i128 = 0;
    let mut beyond = false;
    let mut i: usize = start;
    assert(digits.take(0) =~= Seq::<char>::empty());
    while i < n
        invariant
            start <= i <= n,
            start < n,
            n == text@.len(),
            digits =~= text@.skip(start as int),
            digits == if text@[0] == '-' || text@[0] == '+' {
                text@.skip(1)
            } else {
                text@
            },
            negative == (text@[0] == '-'),
            all_digits(digits.take(i - start)),
            !beyond ==> total == digits_value(digits.take(i - start)) && 0 <= total
                <= 0x8000_0000_0000_0000,
            beyond ==> digits_value(digits.take(i - start)) > 0x8000_0000_0000_0000,
        decreases n - i,
    {
        let c = text.get_char(i);
        let code: u32 = c as u32;
        let ghost shorter = digits.take(i - start);
        let ghost longer = digits.take(i + 1 - start);
        proof {
            assert(longer.drop_last() =~= shorter);
            assert(longer.last() == c);
        }
        if code < 48 || code > 57 {
            assert(!is_digit(digits[i - start]));
            return None;
        }
        assert forall|j: int| 0 <= j < longer.len() implies is_digit(#[trigger] longer[j]) by {
            if j < shorter.len() {
                assert(longer[j] == shorter[j]);
            }
        }
        if !beyond {
            total = total * 10 + (code - 48) as i128;
            if total > 0x8000_0000_0000_0000 {
                beyond = true;
            }
        } else {
            assert(digits_value(longer) >= digits_value(shorter));
        }
        i += 1;
    }
    assert(digits.take(n - start) =~= digits);
    if beyond {
        None
    } else if negative {
        Some((-total) as i64)
    } else if total > 0x7fff_ffff_ffff_ffff {
        None
    } else {
        Some(total as i64)
    }
}

/// The text of one digit.
fn digit_text(d: u8) -> (text: &'static str)
    requires
        d < 10,
    ensures
        text@ == seq![digit_char(d as int)],
{
    proof {
        reveal_strlit("0");
        reveal_strlit("1");
        reveal_strlit("2");
        reveal_strlit("3");
        reveal_strlit("4");
        reveal_strlit("5");
        reveal_strlit("6");
        reveal_strlit("7");
        reveal_strlit("8");
        reveal_strlit("9");
    }
    let text = if d == 0 {
        "0"
    } else if d == 1 {
        "1"
    } else if d == 2 {
        "2"
    } else if d == 3 {
        "3"
    } else if d == 4 {
        "4"
    } else if d == 5 {
        "5"
    } else if d == 6 {
        "6"
    } else if d == 7 {
        "7"
    } else if d == 8 {
        "8"
    } else {
        "9"
    };
    assert(text@ =~= seq![digit_char(d as int)]);
    text
}

/// The digits of `n`, least significant first.
fn reversed_digits(n: u64) -> (digits: Vec<u8>)
    ensures
        digits@.len() == digits_of(n as nat).len(),
        forall|i: int| 0 <= i < digits@.len() ==> (#[trigger] digits@[i]) < 10,
        forall|i: int|
            0 <= i < digits@.len() ==> digit_char((#[trigger] digits@[i]) as int) == digits_of(
                n as nat,
            )[digits@.len() - 1 - i],
    decreases n,
{
    if n < 10 {
        let mut digits: Vec<u8> = Vec::new();
        digits.push(n as u8);
        digits
    } else {
        let higher = reversed_digits(n / 10);
        let mut digits: Vec<u8> = Vec::new();
        digits.push((n % 10) as u8);
        let mut i: usize = 0;
        while i < higher.len()
            invariant
                i <= higher@.len(),
                digits@.len() == i + 1,
                digits@[0] == (n % 10) as u8,
                forall|j: int| 0 <= j < i ==> digits@[j + 1] == higher@[j],
            decreases higher@.len() - i,
        {
            digits.push(higher[i]);
            i += 1;
        }
        proof {
            let all = digits_of(n as nat);
            let most = digits_of((n / 10) as nat);
            assert(all == most.push(digit_char((n % 10) as int)));
            assert forall|i: int| 0 <= i < digits@.len() implies digit_char(
                (#[trigger] digits@[i]) as int,
            ) == all[digits@.len() - 1 - i] by {
                if i > 0 {
                    assert(digits@[i] == higher@[i - 1]);
                    assert(all[digits@.len() - 1 - i] == most[higher@.len() - 1 - (i - 1)]);
                }
            }
            assert forall|i: int| 0 <= i < digits@.len() implies (#[trigger] digits@[i]) < 10 by {
                if i > 0 {
                    assert(digits@[i] == higher@[i - 1]);
                }
            }
        }
        digits
    }
}

/// The decimal text of `v`.
pub fn format_i64(v: i64) -> (text: String)
    ensures
        text@ == decimal_text(v as int),
{
    let magnitude: u64 = if v < 0 {
        (-(v as i128)) as u64
    } else {
        v as u64
    };
    let digits = reversed_digits(magnitude);
    let mut text = String::new();
    if v < 0 {
        proof {
            reveal_strlit("-");
        }
        text.append("-");
        assert(text@ =~= seq!['-']);
    }
    let ghost sign = text@;
    let ghost all = digits_of(magnitude as nat);
    let mut i: usize = digits.len();
    assert(all.take(0) =~= Seq::<char>::empty());
    while i > 0
        invariant
            i <= digits@.len(),
            digits@.len() == all.len(),
            forall|j: int| 0 <= j < digits@.len() ==> (#[trigger] digits@[j]) < 10,
            forall|j: int|
                0 <= j < digits@.len() ==> digit_char((#[trigger] digits@[j]) as int)
                    == all[digits@.len() - 1 - j],
            text@ == sign + all.take(digits@.len() - i),
        decreases i,
    {
        i -= 1;
        let ghost before = text@;
        text.append(digit_text(digits[i]));
        proof {
            let k = digits@.len() - 1 - i;
            assert(all.take(k + 1) =~= all.take(k).push(all[k]));
            assert(text@ =~= sign + all.take(k + 1));
        }
    }
    proof {
        assert(all.take(all.len() as int) =~= all);
        assert(text@ =~= decimal_text(v as int));
    }
    text
}

} // verus!

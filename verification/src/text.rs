//! Text helpers: the equality of names and the decimal text of integers.
use vstd::prelude::*;
use vstd::string::StringExecFns;

verus! {

/// `str`'s equality: two string slices are equal exactly when they hold the
/// same characters.
pub assume_specification[ <str as PartialEq>::eq ](a: &str, b: &str) -> (r: bool)
    ensures
        r == (a@ == b@),
;

/// Whether two names are the same text.
pub fn same_name(a: &str, b: &str) -> (r: bool)
    ensures
        r == (a@ == b@),
{
    a.eq(b)
}

/// The character of a decimal digit.
pub open spec fn digit_char(digit: int) -> char {
    if digit == 0 {
        '0'
    } else if digit == 1 {
        '1'
    } else if digit == 2 {
        '2'
    } else if digit == 3 {
        '3'
    } else if digit == 4 {
        '4'
    } else if digit == 5 {
        '5'
    } else if digit == 6 {
        '6'
    } else if digit == 7 {
        '7'
    } else if digit == 8 {
        '8'
    } else {
        '9'
    }
}

/// The decimal digits of a natural number, the most significant first,
/// without leading zeros; `0` for zero.
pub open spec fn digits_of(n: nat) -> Seq<char>
    decreases n,
{
    if n < 10 {
        seq![digit_char(n as int)]
    } else {
        digits_of(n / 10).push(digit_char((n % 10) as int))
    }
}

/// The decimal text of an integer: a minus sign for a negative number, and
/// the digits of its magnitude.
pub open spec fn decimal_text(value: i64) -> Seq<char> {
    if value < 0 {
        seq!['-'] + digits_of((-value) as nat)
    } else {
        digits_of(value as nat)
    }
}

/// The digits that are still to come before those already taken off a
/// number: none once nothing is left of it.
pub open spec fn leading_digits(rest: nat) -> Seq<char> {
    if rest == 0 {
        Seq::empty()
    } else {
        digits_of(rest)
    }
}

/// The text of a sequence of digits that holds the least significant digit
/// first.
pub open spec fn text_of_digits(digits: Seq<u8>) -> Seq<char>
    decreases digits.len(),
{
    if digits.len() == 0 {
        Seq::empty()
    } else {
        text_of_digits(digits.drop_first()).push(digit_char(digits[0] as int))
    }
}

/// A more significant digit, put behind the digits, comes first in the
/// text.
pub proof fn lemma_text_of_digits_push(digits: Seq<u8>, digit: u8)
    ensures
        text_of_digits(digits.push(digit)) == seq![digit_char(digit as int)] + text_of_digits(
            digits,
        ),
    decreases digits.len(),
{
    if digits.len() == 0 {
        assert(digits.push(digit).drop_first() =~= Seq::<u8>::empty());
        assert(text_of_digits(Seq::<u8>::empty()) =~= Seq::<char>::empty());
        assert(text_of_digits(digits) =~= Seq::<char>::empty());
        assert((digits.push(digit))[0] == digit);
        assert(text_of_digits(digits.push(digit)) =~= seq![digit_char(digit as int)]
            + text_of_digits(digits));
    } else {
        lemma_text_of_digits_push(digits.drop_first(), digit);
        assert(digits.push(digit).drop_first() =~= digits.drop_first().push(digit));
        assert((digits.push(digit))[0] == digits[0]);
        assert(text_of_digits(digits.push(digit)) =~= seq![digit_char(digit as int)]
            + text_of_digits(digits));
    }
}

/// The text of one digit.
pub fn digit_text(digit: u8) -> (text: &'static str)
    requires
        digit < 10,
    ensures
        text@ == seq![digit_char(digit as int)],
{
    proof {
        reveal_strlit("0");
        reveal_strlit("1");
        reveal_strlit("2");
        reveal_strlit("3");
        reveal_strlit("4");
        reveal_strlit("5");
        reveal_strlit("6");
        reveal_strlit("7");
        reveal_strlit("8");
        reveal_strlit("9");
    }
    let text = if digit == 0 {
        "0"
    } else if digit == 1 {
        "1"
    } else if digit == 2 {
        "2"
    } else if digit == 3 {
        "3"
    } else if digit == 4 {
        "4"
    } else if digit == 5 {
        "5"
    } else if digit == 6 {
        "6"
    } else if digit == 7 {
        "7"
    } else if digit == 8 {
        "8"
    } else {
        "9"
    };
    assert(text@ =~= seq![digit_char(digit as int)]);
    text
}

/// The digits of `n`, the least significant first.
pub fn digits_of_number(n: u64) -> (digits: Vec<u8>)
    ensures
        digits@.len() >= 1,
        forall|i: int| 0 <= i < digits@.len() ==> digits@[i] < 10,
        text_of_digits(digits@) == digits_of(n as nat),
{
    let mut digits: Vec<u8> = Vec::new();
    let first = (n % 10) as u8;
    digits.push(first);
    let mut rest: u64 = n / 10;
    proof {
        lemma_text_of_digits_push(Seq::<u8>::empty(), first);
        assert(digits@ =~= Seq::<u8>::empty().push(first));
        assert(leading_digits(rest as nat) + text_of_digits(digits@) =~= digits_of(n as nat));
    }
    while rest > 0
        invariant
            digits@.len() >= 1,
            forall|i: int| 0 <= i < digits@.len() ==> digits@[i] < 10,
            leading_digits(rest as nat) + text_of_digits(digits@) == digits_of(n as nat),
        decreases rest,
    {
        let digit = (rest % 10) as u8;
        proof {
            lemma_text_of_digits_push(digits@, digit);
            assert(leading_digits((rest / 10) as nat) + (seq![digit_char(digit as int)]
                + text_of_digits(digits@)) =~= leading_digits(rest as nat) + text_of_digits(
                digits@,
            ));
        }
        digits.push(digit);
        rest = rest / 10;
    }
    assert(leading_digits(0) + text_of_digits(digits@) =~= text_of_digits(digits@));
    digits
}

/// The magnitude of an integer.
pub fn magnitude(value: i64) -> (m: u64)
    ensures
        m == if value < 0 {
            -value
        } else {
            value as int
        },
{
    if value < 0 {
        (-(value as i128)) as u64
    } else {
        value as u64
    }
}

/// The decimal text of an integer.
pub fn int_to_text(value: i64) -> (s: String)
    ensures
        s@ == decimal_text(value),
{
    let digits = digits_of_number(magnitude(value));
    let mut s = String::new();
    if value < 0 {
        proof {
            reveal_strlit("-");
        }
        s.append("-");
        assert(s@ =~= seq!['-']);
    }
    let ghost sign = s@;
    let mut i: usize = digits.len();
    assert(digits@.subrange(i as int, digits@.len() as int) =~= Seq::<u8>::empty());
    while i > 0
        invariant
            i <= digits@.len(),
            forall|k: int| 0 <= k < digits@.len() ==> digits@[k] < 10,
            s@ == sign + text_of_digits(digits@.subrange(i as int, digits@.len() as int)),
        decreases i,
    {
        i = i - 1;
        proof {
            let shorter = digits@.subrange(i + 1, digits@.len() as int);
            let longer = digits@.subrange(i as int, digits@.len() as int);
            assert(longer.drop_first() =~= shorter);
            assert(sign + text_of_digits(longer) =~= (sign + text_of_digits(shorter)).push(
                digit_char(digits@[i as int] as int),
            ));
        }
        s.append(digit_text(digits[i]));
    }
    assert(digits@.subrange(0, digits@.len() as int) =~= digits@);
    assert(sign + text_of_digits(digits@) =~= decimal_text(value));
    s
}

} // verus!

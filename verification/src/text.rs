//! Numbers as text.
use vstd::prelude::*;
use vstd::string::{StrSliceExecFns, StringExecFns};

verus! {

/// The character of a decimal digit.
pub open spec fn digit(value: int) -> char {
    ('0' as int + value) as char
}

/// The decimal digits of a number, without leading zeros.
pub open spec fn digits_of(n: nat) -> Seq<char>
    decreases n,
{
    if n < 10 {
        seq![digit(n as int)]
    } else {
        digits_of(n / 10).push(digit((n % 10) as int))
    }
}

/// Returns the text of a digit.
fn digit_text(value: u64) -> (text: &'static str)
    requires
        value < 10,
    ensures
        text@ == seq![digit(value as int)],
{
    proof {
        reveal_strlit("0");
        reveal_strlit("1");
        reveal_strlit("2");
        reveal_strlit("3");
        reveal_strlit("4");
        reveal_strlit("5");
        reveal_strlit("6");
        reveal_strlit("7");
        reveal_strlit("8");
        reveal_strlit("9");
    }
    let text = match value {
        0 => "0",
        1 => "1",
        2 => "2",
        3 => "3",
        4 => "4",
        5 => "5",
        6 => "6",
        7 => "7",
        8 => "8",
        _ => "9",
    };
    assert(text@ =~= seq![digit(value as int)]);
    text
}

/// Returns the decimal digits of a number.
pub fn decimal(n: u64) -> (text: String)
    ensures
        text@ == digits_of(n as nat),
    decreases n,
{
    if n < 10 {
        String::from_str(digit_text(n))
    } else {
        let text = decimal(n / 10).concat(digit_text(n % 10));
        assert(text@ =~= digits_of(n as nat));
        text
    }
}

/// Why a text is not a number.
#[derive(Debug, Clone, Copy, PartialEq, Eq, Structural)]
pub enum NumberError {
    /// There is no character at all.
    Empty,
    /// There is a character that is not a digit, or no digit after the sign.
    InvalidDigit,
    /// The number is too large.
    Overflow,
}

impl NumberError {
    /// What to say of the error.
    pub open spec fn text(self) -> Seq<char> {
        match self {
            NumberError::Empty => "cannot parse integer from empty string"@,
            NumberError::InvalidDigit => "invalid digit found in string"@,
            NumberError::Overflow => "number too large to fit in target type"@,
        }
    }

    /// Returns what to say of the error.
    pub fn message(&self) -> (message: &'static str)
        ensures
            message@ == self.text(),
    {
        match self {
            NumberError::Empty => "cannot parse integer from empty string",
            NumberError::InvalidDigit => "invalid digit found in string",
            NumberError::Overflow => "number too large to fit in target type",
        }
    }
}

/// A character is a decimal digit.
pub open spec fn is_digit(c: char) -> bool {
    '0' <= c <= '9'
}

/// The number that digits denote, or the error at the first character that does not go on with a
/// number that fits.
pub open spec fn number_of_digits(text: Seq<char>) -> Result<u64, NumberError>
    decreases text.len(),
{
    if text.len() == 0 {
        Ok(0)
    } else {
        match number_of_digits(text.drop_last()) {
            Err(error) => Err(error),
            Ok(leading) => if !is_digit(text.last()) {
                Err(NumberError::InvalidDigit)
            } else {
                let value = leading * 10 + (text.last() as int - '0' as int);
                if value > u64::MAX {
                    Err(NumberError::Overflow)
                } else {
                    Ok(value as u64)
                }
            },
        }
    }
}

/// The number that a text denotes: digits, which a plus sign may precede.
pub open spec fn number_of(text: Seq<char>) -> Result<u64, NumberError> {
    if text.len() == 0 {
        Err(NumberError::Empty)
    } else if text[0] != '+' {
        number_of_digits(text)
    } else if text.len() == 1 {
        Err(NumberError::InvalidDigit)
    } else {
        number_of_digits(text.skip(1))
    }
}

/// An error in the first characters is the error of the whole.
proof fn lemma_error_stays(text: Seq<char>, n: int)
    requires
        0 <= n <= text.len(),
        number_of_digits(text.take(n)) is Err,
    ensures
        number_of_digits(text) == number_of_digits(text.take(n)),
    decreases text.len() - n,
{
    if n == text.len() {
        assert(text.take(n) =~= text);
    } else {
        assert(text.take(n + 1).drop_last() =~= text.take(n));
        lemma_error_stays(text, n + 1);
    }
}

/// Parses a number of at most 64 bits.
pub fn parse_number(text: &str) -> (result: Result<u64, NumberError>)
    ensures
        result == number_of(text@),
{
    let length: usize = text.unicode_len();
    if length == 0 {
        return Err(NumberError::Empty);
    }
    let mut start: usize = 0;
    if text.get_char(0) == '+' {
        if length == 1 {
            return Err(NumberError::InvalidDigit);
        }
        start = 1;
    }
    let ghost digits = if start == 0 {
        text@
    } else {
        text@.skip(1)
    };
    let mut value: u64 = 0;
    let mut i: usize = start;
    assert(digits.take(0) =~= Seq::<char>::empty());
    while i < length
        invariant
            start <= i <= length,
            start <= 1,
            length == text@.len(),
            digits == (if start == 0 {
                text@
            } else {
                text@.skip(1)
            }),
            digits.len() == length - start,
            number_of(text@) == number_of_digits(digits),
            number_of_digits(digits.take(i - start)) == Ok::<u64, NumberError>(value),
        decreases length - i,
    {
        let c = text.get_char(i);
        proof {
            assert(digits[i - start] == c);
            assert(digits.take(i - start + 1).drop_last() =~= digits.take(i - start));
        }
        if !('0' <= c && c <= '9') {
            proof {
                lemma_error_stays(digits, i - start + 1);
            }
            return Err(NumberError::InvalidDigit);
        }
        let next: u128 = value as u128 * 10 + (c as u128 - '0' as u128);
        if next > u64::MAX as u128 {
            proof {
                lemma_error_stays(digits, i - start + 1);
            }
            return Err(NumberError::Overflow);
        }
        value = next as u64;
        i += 1;
    }
    assert(digits.take(i - start) =~= digits);
    Ok(value)
}

/// The digits of a number are never empty, and each of them is a digit.
proof fn lemma_digits(n: nat)
    ensures
        digits_of(n).len() >= 1,
        forall|i: int| 0 <= i < digits_of(n).len() ==> is_digit(#[trigger] digits_of(n)[i]),
    decreases n,
{
    if n >= 10 {
        lemma_digits(n / 10);
    }
}

/// The digits of a number denote it.
proof fn lemma_digits_denote(n: u64)
    ensures
        number_of_digits(digits_of(n as nat)) == Ok::<u64, NumberError>(n),
    decreases n,
{
    if n < 10 {
        assert(digits_of(n as nat).drop_last() =~= Seq::<char>::empty());
        assert(number_of_digits(digits_of(n as nat).drop_last()) == Ok::<u64, NumberError>(0));
    } else {
        lemma_digits_denote(n / 10);
        assert(digits_of(n as nat).drop_last() =~= digits_of((n / 10) as nat));
    }
}

/// Parsing gives back the number whose digits have been written.
pub proof fn law_parse_reads_decimal(n: u64)
    ensures
        number_of(digits_of(n as nat)) == Ok::<u64, NumberError>(n),
{
    lemma_digits(n as nat);
    lemma_digits_denote(n);
}

/// A number of zeros.
pub open spec fn zeros(count: nat) -> Seq<char> {
    Seq::new(count, |i: int| '0')
}

/// Zeros denote zero, and change nothing where they precede digits.
proof fn lemma_zeros(count: nat, text: Seq<char>)
    ensures
        number_of_digits(zeros(count) + text) == number_of_digits(text),
    decreases count + text.len(),
{
    let whole = zeros(count) + text;
    if text.len() > 0 {
        lemma_zeros(count, text.drop_last());
        assert(whole.drop_last() =~= zeros(count) + text.drop_last());
    } else if count > 0 {
        lemma_zeros((count - 1) as nat, text);
        assert(whole.drop_last() =~= zeros((count - 1) as nat) + text);
    } else {
        assert(whole =~= text);
    }
}

/// A number may have leading zeros, and a plus sign before them.
pub proof fn law_leading_zeros_and_sign_change_nothing(count: nat, n: u64)
    ensures
        number_of(zeros(count) + digits_of(n as nat)) == Ok::<u64, NumberError>(n),
        number_of(seq!['+'] + zeros(count) + digits_of(n as nat)) == Ok::<u64, NumberError>(n),
{
    let text = zeros(count) + digits_of(n as nat);
    lemma_digits(n as nat);
    lemma_digits_denote(n);
    lemma_zeros(count, digits_of(n as nat));
    assert(is_digit(text[0]));
    assert((seq!['+'] + zeros(count) + digits_of(n as nat)).skip(1) =~= text);
}

/// What digits denote is written by these digits, but for leading zeros.
proof fn lemma_denoted(text: Seq<char>) -> (count: nat)
    requires
        text.len() > 0,
        number_of_digits(text) is Ok,
    ensures
        text == zeros(count) + digits_of(number_of_digits(text)->Ok_0 as nat),
    decreases text.len(),
{
    let n = number_of_digits(text)->Ok_0;
    let leading = text.drop_last();
    let last = text.last();
    assert(text =~= leading.push(last));
    assert(digit(last as int - '0' as int) == last);
    if leading.len() == 0 {
        assert(text =~= zeros(0) + digits_of(n as nat));
        0
    } else {
        let count = lemma_denoted(leading);
        let before = number_of_digits(leading)->Ok_0;
        assert(n == before * 10 + (last as int - '0' as int));
        if before == 0 {
            assert(text =~= zeros(count + 1) + digits_of(n as nat));
            count + 1
        } else {
            assert(n / 10 == before);
            assert(text =~= zeros(count) + digits_of(n as nat));
            count
        }
    }
}

/// Only what has been written as a number is read as one: the digits of the number, which zeros and a
/// plus sign may precede.
pub proof fn law_only_numbers_are_read(text: Seq<char>)
    requires
        number_of(text) is Ok,
    ensures
        exists|count: nat|
            {
                let digits = #[trigger] zeros(count) + digits_of(number_of(text)->Ok_0 as nat);
                text == digits || text == seq!['+'] + digits
            },
{
    let n = number_of(text)->Ok_0 as nat;
    if text[0] != '+' {
        let count = lemma_denoted(text);
        assert(text == zeros(count) + digits_of(n));
    } else {
        let count = lemma_denoted(text.skip(1));
        assert(text =~= seq!['+'] + (zeros(count) + digits_of(n)));
    }
}

/// Which error there is for a text that is not a number.
proof fn lemma_errors(text: Seq<char>)
    ensures
        number_of_digits(text) is Ok ==> forall|i: int|
            0 <= i < text.len() ==> is_digit(#[trigger] text[i]),
        number_of_digits(text) == Err::<u64, NumberError>(NumberError::InvalidDigit) ==> exists|i: int|
            0 <= i < text.len() && !is_digit(#[trigger] text[i]),
        !(number_of_digits(text) == Err::<u64, NumberError>(NumberError::Empty)),
    decreases text.len(),
{
    if text.len() > 0 {
        let leading = text.drop_last();
        lemma_errors(leading);
        if number_of_digits(text) is Ok {
            assert forall|i: int| 0 <= i < text.len() implies is_digit(#[trigger] text[i]) by {
                if i < leading.len() {
                    assert(is_digit(leading[i]));
                }
            }
        }
        if number_of_digits(leading) == Err::<u64, NumberError>(NumberError::InvalidDigit) {
            let i = choose|i: int| 0 <= i < leading.len() && !is_digit(#[trigger] leading[i]);
            assert(!is_digit(text[i]));
        } else if number_of_digits(leading) is Ok && !is_digit(text.last()) {
            assert(!is_digit(text[text.len() - 1]));
        }
    }
}

/// Why a text is not a number: there is nothing in it; or it is a sign alone, or has a character that is
/// no digit; and where all characters are digits, only the size of the number can be wrong.
pub proof fn law_errors_tell_what_is_wrong(text: Seq<char>)
    ensures
        number_of(text) == Err::<u64, NumberError>(NumberError::Empty) <==> text.len() == 0,
        text == seq!['+'] ==> number_of(text) == Err::<u64, NumberError>(NumberError::InvalidDigit),
        text.len() > 0 && (forall|i: int| 0 <= i < text.len() ==> is_digit(#[trigger] text[i]))
            ==> number_of(text) is Ok || number_of(text) == Err::<u64, NumberError>(
            NumberError::Overflow,
        ),
        forall|i: int|
            1 <= i < text.len() && !is_digit(#[trigger] text[i]) ==> number_of(text) is Err,
        forall|i: int|
            #![trigger text[i]]
            0 <= i < text.len() && !is_digit(text[i]) && number_of_digits(text.take(i)) is Ok && (i
                > 0 || text[i] != '+') && text[0] != '+' ==> number_of(text) == Err::<
                u64,
                NumberError,
            >(NumberError::InvalidDigit),
{
    lemma_errors(text);
    if text.len() > 0 {
        lemma_errors(text.skip(1));
        if forall|i: int| 0 <= i < text.len() ==> is_digit(#[trigger] text[i]) {
            assert(is_digit(text[0]));
        }
        assert forall|i: int| 1 <= i < text.len() && !is_digit(#[trigger] text[i]) implies number_of(
            text,
        ) is Err by {
            assert(text.skip(1)[i - 1] == text[i]);
        }
        assert forall|i: int|
            #![trigger text[i]]
            0 <= i < text.len() && !is_digit(text[i]) && number_of_digits(text.take(i)) is Ok && (i
                > 0 || text[i] != '+') && text[0] != '+' implies number_of(text) == Err::<
            u64,
            NumberError,
        >(NumberError::InvalidDigit) by {
            assert(text.take(i + 1).drop_last() =~= text.take(i));
            lemma_error_stays(text, i + 1);
        }
    }
}

} // verus!

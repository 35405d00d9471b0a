//! How many worker threads a process is told to run.

use vstd::prelude::*;
use vstd::string::*;

use crate::text;
use crate::text::{join3, trim};

verus! {

/// The character is an ASCII digit.
pub open spec fn is_digit(c: char) -> bool {
    '0' as int <= c as int <= '9' as int
}

/// The number that digits write.
pub open spec fn digits_value(digits: Seq<char>) -> nat
    decreases digits.len(),
{
    if digits.len() == 0 {
        0
    } else {
        10 * digits_value(digits.drop_last()) + (digits.last() as int - '0' as int) as nat
    }
}

/// The digits of a number: a plus sign in front of them is allowed.
pub open spec fn digits_of(text: Seq<char>) -> Seq<char> {
    if text.len() > 0 && text[0] == '+' {
        text.skip(1)
    } else {
        text
    }
}

/// The text writes a number.
pub open spec fn writes_number(text: Seq<char>) -> bool {
    &&& digits_of(text).len() > 0
    &&& forall|i: int| 0 <= i < digits_of(text).len() ==> is_digit(#[trigger] digits_of(text)[i])
}

/// The number that a text writes, where it fits.
pub open spec fn parsed(text: Seq<char>) -> Option<nat> {
    if writes_number(text) && digits_value(digits_of(text)) <= usize::MAX {
        Some(digits_value(digits_of(text)))
    } else {
        None
    }
}

proof fn lemma_value_grows(digits: Seq<char>, i: int)
    requires
        0 <= i <= digits.len(),
    ensures
        digits_value(digits.take(i)) <= digits_value(digits),
    decreases digits.len(),
{
    if i == digits.len() {
        assert(digits.take(i) =~= digits);
    } else {
        lemma_value_grows(digits.drop_last(), i);
        assert(digits.drop_last().take(i) =~= digits.take(i));
    }
}

/// Reads a number.
pub fn parse_number(text: &str) -> (number: Option<usize>)
    ensures
        match number {
            Some(value) => parsed(text@) == Some(value as nat),
            None => parsed(text@) is None,
        },
{
    let length: usize = text.unicode_len();
    let mut i: usize = 0;
    if length > 0 && text.get_char(0) == '+' {
        i = 1;
    }
    let ghost digits = digits_of(text@);
    let ghost skipped = i;
    if i == length {
        assert(digits.len() == 0);
        return None;
    }
    let mut value: usize = 0;
    assert(digits.take(0) =~= Seq::<char>::empty());
    while i < length
        invariant
            length == text@.len(),
            digits == digits_of(text@),
            skipped <= i <= length,
            digits.len() == length - skipped,
            forall|k: int| 0 <= k < digits.len() ==> digits[k] == #[trigger] text@[k + skipped],
            value == digits_value(digits.take(i - skipped)),
            forall|k: int| 0 <= k < i - skipped ==> is_digit(#[trigger] digits[k]),
        decreases length - i,
    {
        let c = text.get_char(i);
        assert(c == digits[i - skipped]) by {
            assert(text@[(i - skipped) + skipped] == digits[i - skipped]);
        }
        if c < '0' || c > '9' {
            assert(!is_digit(digits[i - skipped]));
            return None;
        }
        let digit: usize = c as usize - '0' as usize;
        proof {
            let next = digits.take(i - skipped + 1);
            assert(next.drop_last() =~= digits.take(i - skipped));
            assert(digits_value(next) == 10 * value + digit);
            lemma_value_grows(digits, i - skipped + 1);
        }
        if value > (usize::MAX - digit) / 10 {
            assert(10 * value + digit > usize::MAX);
            return None;
        }
        value = value * 10 + digit;
        i = i + 1;
    }
    assert(digits.take(i - skipped) =~= digits);
    Some(value)
}

/// A number that is written in decimal is read back as it is, with a plus sign or without one.
pub proof fn numbers_are_read_as_they_are_written(n: nat)
    requires
        n <= usize::MAX,
    ensures
        parsed(text::decimal(n)) == Some(n),
        parsed(seq!['+'] + text::decimal(n)) == Some(n),
{
    lemma_decimal_digits(n);
    assert((seq!['+'] + text::decimal(n)).skip(1) =~= text::decimal(n));
    assert(is_digit(text::decimal(n)[0]));
}

proof fn lemma_decimal_digits(n: nat)
    ensures
        text::decimal(n).len() > 0,
        digits_value(text::decimal(n)) == n,
        forall|i: int| 0 <= i < text::decimal(n).len() ==> is_digit(#[trigger] text::decimal(n)[i]),
    decreases n,
{
    let written = text::decimal(n);
    let last = text::digit_char(n % 10);
    assert(last as int == '0' as int + n % 10);
    if n < 10 {
        assert(written.drop_last() =~= Seq::<char>::empty());
        assert(digits_value(written.drop_last()) == 0);
    } else {
        lemma_decimal_digits(n / 10);
        assert(written.drop_last() =~= text::decimal(n / 10));
    }
}

/// What is configured is a positive number, or nothing where the setting is missing or blank.
pub proof fn configured_threads_are_positive(
    env_key: Seq<char>,
    setting: Option<Seq<char>>,
    result: Result<Option<usize>, String>,
)
    requires
        configured(env_key, setting, result),
    ensures
        result matches Ok(Some(threads)) ==> threads > 0 && (setting matches Some(value) && parsed(
            text::trimmed(value),
        ) == Some(threads as nat)),
        result matches Ok(None) <==> (setting matches Some(value) ==> text::trimmed(value).len()
            == 0),
        result is Err ==> (setting matches Some(value) && (parsed(text::trimmed(value)) is None
            || parsed(text::trimmed(value)) == Some(0nat))),
{
}

/// What is said of a value that is no positive number.
pub open spec fn invalid_worker_threads(env_key: Seq<char>, value: Seq<char>) -> Seq<char> {
    env_key + " must be a positive integer when set, got: "@ + value
}

/// What is configured: nothing where the setting is missing or blank.
pub open spec fn configured(
    env_key: Seq<char>,
    setting: Option<Seq<char>>,
    result: Result<Option<usize>, String>,
) -> bool {
    match setting {
        None => result matches Ok(None),
        Some(value) => {
            let value = text::trimmed(value);
            if value.len() == 0 {
                result matches Ok(None)
            } else {
                match parsed(value) {
                    Some(number) if number > 0 => result matches Ok(Some(threads)) && threads
                        == number,
                    _ => result matches Err(message) && message@ == invalid_worker_threads(
                        env_key,
                        value,
                    ),
                }
            }
        },
    }
}

/// The view of a setting.
pub open spec fn setting_view(setting: Option<&str>) -> Option<Seq<char>> {
    match setting {
        Some(value) => Some(value@),
        None => None,
    }
}

/// How many worker threads are configured by a setting, under the name of the setting.
pub fn configured_worker_threads(env_key: &str, setting: Option<&str>) -> (result: Result<
    Option<usize>,
    String,
>)
    ensures
        configured(env_key@, setting_view(setting), result),
{
    let value = match setting {
        None => {
            return Ok(None);
        },
        Some(value) => trim(value),
    };
    if value.is_empty() {
        return Ok(None);
    }
    match parse_number(value) {
        Some(number) if number > 0 => Ok(Some(number)),
        _ => Err(join3(env_key, " must be a positive integer when set, got: ", value)),
    }
}

} // verus!

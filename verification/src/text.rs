//! Text building blocks: decimal and hexadecimal rendering, byte order, trimming.

use vstd::prelude::*;
use vstd::string::*;
use vstd::utf8::*;

verus! {

/// The decimal digit `d`, for `d` below ten.
pub open spec fn digit_char(d: nat) -> char {
    if d == 0 {
        '0'
    } else if d == 1 {
        '1'
    } else if d == 2 {
        '2'
    } else if d == 3 {
        '3'
    } else if d == 4 {
        '4'
    } else if d == 5 {
        '5'
    } else if d == 6 {
        '6'
    } else if d == 7 {
        '7'
    } else if d == 8 {
        '8'
    } else {
        '9'
    }
}

/// `n` in decimal, without leading zeros.
pub open spec fn decimal(n: nat) -> Seq<char>
    decreases n,
{
    if n < 10 {
        seq![digit_char(n)]
    } else {
        decimal(n / 10).push(digit_char(n % 10))
    }
}

/// The `width` low decimal digits of `n`, zero-padded on the left.
pub open spec fn fixed_decimal(n: nat, width: nat) -> Seq<char>
    decreases width,
{
    if width == 0 {
        Seq::empty()
    } else {
        fixed_decimal(n / 10, (width - 1) as nat).push(digit_char(n % 10))
    }
}

/// The lower-case hexadecimal digit `d`, for `d` below sixteen.
pub open spec fn hex_char(d: nat) -> char {
    if d < 10 {
        digit_char(d)
    } else if d == 10 {
        'a'
    } else if d == 11 {
        'b'
    } else if d == 12 {
        'c'
    } else if d == 13 {
        'd'
    } else if d == 14 {
        'e'
    } else {
        'f'
    }
}

/// Two hexadecimal digits for each byte, high half first.
pub open spec fn hex(bytes: Seq<u8>) -> Seq<char> {
    Seq::new(
        2 * bytes.len(),
        |i: int|
            if i % 2 == 0 {
                hex_char(bytes[i / 2] as nat / 16)
            } else {
                hex_char(bytes[i / 2] as nat % 16)
            },
    )
}

/// Appends one character: what `String::push` does.
pub assume_specification[ String::push ](s: &mut String, c: char)
    ensures
        final(s)@ == old(s)@.push(c),
;

pub fn digit(d: u64) -> (c: char)
    requires
        d < 10,
    ensures
        c == digit_char(d as nat),
{
    if d == 0 {
        '0'
    } else if d == 1 {
        '1'
    } else if d == 2 {
        '2'
    } else if d == 3 {
        '3'
    } else if d == 4 {
        '4'
    } else if d == 5 {
        '5'
    } else if d == 6 {
        '6'
    } else if d == 7 {
        '7'
    } else if d == 8 {
        '8'
    } else {
        '9'
    }
}

fn hex_digit(d: u8) -> (c: char)
    requires
        d < 16,
    ensures
        c == hex_char(d as nat),
{
    if d < 10 {
        digit(d as u64)
    } else if d == 10 {
        'a'
    } else if d == 11 {
        'b'
    } else if d == 12 {
        'c'
    } else if d == 13 {
        'd'
    } else if d == 14 {
        'e'
    } else {
        'f'
    }
}

/// Appends `n` in decimal.
pub fn push_decimal(out: &mut String, n: u64)
    ensures
        final(out)@ == old(out)@ + decimal(n as nat),
    decreases n,
{
    if n < 10 {
        out.push(digit(n));
        assert(out@ =~= old(out)@ + seq![digit_char(n as nat)]);
    } else {
        push_decimal(out, n / 10);
        out.push(digit(n % 10));
        assert(out@ =~= old(out)@ + decimal(n as nat / 10).push(digit_char(n as nat % 10)));
    }
}

/// Appends the `width` low decimal digits of `n`, zero-padded on the left.
pub fn push_fixed_decimal(out: &mut String, n: u64, width: u32)
    ensures
        final(out)@ == old(out)@ + fixed_decimal(n as nat, width as nat),
    decreases width,
{
    if width == 0 {
        assert(out@ =~= old(out)@ + Seq::<char>::empty());
    } else {
        push_fixed_decimal(out, n / 10, width - 1);
        out.push(digit(n % 10));
        assert(out@ =~= old(out)@ + fixed_decimal(n as nat, width as nat));
    }
}

/// `bytes` in hexadecimal.
pub fn encode_hex(bytes: &[u8]) -> (out: String)
    ensures
        out@ == hex(bytes@),
{
    let mut out = String::new();
    let mut i: usize = 0;
    while i < bytes.len()
        invariant
            i <= bytes.len(),
            out@ == hex(bytes@.take(i as int)),
        decreases bytes.len() - i,
    {
        let byte: u8 = bytes[i];
        out.push(hex_digit(byte / 16));
        out.push(hex_digit(byte % 16));
        assert(out@ =~= hex(bytes@.take(i + 1))) by {
            let before = bytes@.take(i as int);
            let after = bytes@.take(i + 1);
            assert forall|k: int| 0 <= k < 2 * (i + 1) implies out@[k] == hex(after)[k] by {
                if k < 2 * i {
                    assert(hex(before)[k] == hex(after)[k]);
                }
            }
        }
        i = i + 1;
    }
    assert(bytes@.take(i as int) =~= bytes@);
    out
}

/// The characters with the Unicode property White_Space.
pub open spec fn char_is_whitespace(c: char) -> bool {
    ||| '\u{9}' <= c <= '\u{d}'
    ||| c == ' '
    ||| c == '\u{85}'
    ||| c == '\u{a0}'
    ||| c == '\u{1680}'
    ||| '\u{2000}' <= c <= '\u{200a}'
    ||| c == '\u{2028}'
    ||| c == '\u{2029}'
    ||| c == '\u{202f}'
    ||| c == '\u{205f}'
    ||| c == '\u{3000}'
}

/// `char::is_whitespace`: whether the character has the Unicode property White_Space.
pub assume_specification[ char::is_whitespace ](c: char) -> (answer: bool)
    ensures
        answer == char_is_whitespace(c),
;

/// Nothing but whitespace.
pub open spec fn blank(text: Seq<char>) -> bool {
    forall|i: int| 0 <= i < text.len() ==> char_is_whitespace(#[trigger] text[i])
}

/// Whether the text holds nothing but whitespace.
pub fn is_blank(text: &str) -> (answer: bool)
    ensures
        answer == blank(text@),
{
    let length: usize = text.unicode_len();
    let mut i: usize = 0;
    while i < length
        invariant
            length == text@.len(),
            i <= length,
            forall|k: int| 0 <= k < i ==> char_is_whitespace(#[trigger] text@[k]),
        decreases length - i,
    {
        if !text.get_char(i).is_whitespace() {
            return false;
        }
        i = i + 1;
    }
    true
}

/// Where the text begins after leading whitespace.
pub open spec fn trim_start_at(text: Seq<char>) -> int
    decreases text.len(),
{
    if text.len() == 0 || !char_is_whitespace(text[0]) {
        0
    } else {
        1 + trim_start_at(text.drop_first())
    }
}

/// Where the text ends before trailing whitespace.
pub open spec fn trim_end_at(text: Seq<char>) -> int
    decreases text.len(),
{
    if text.len() == 0 || !char_is_whitespace(text.last()) {
        text.len() as int
    } else {
        trim_end_at(text.drop_last())
    }
}

/// The text without leading and trailing whitespace.
pub open spec fn trimmed(text: Seq<char>) -> Seq<char> {
    let rest = text.skip(trim_start_at(text));
    rest.take(trim_end_at(rest))
}

proof fn lemma_trim_start_bounds(text: Seq<char>)
    ensures
        0 <= trim_start_at(text) <= text.len(),
    decreases text.len(),
{
    if text.len() > 0 {
        lemma_trim_start_bounds(text.drop_first());
    }
}

proof fn lemma_trim_start_step(text: Seq<char>, i: int)
    requires
        0 <= i < text.len(),
    ensures
        trim_start_at(text.skip(i)) == if char_is_whitespace(text[i]) {
            1 + trim_start_at(text.skip(i + 1))
        } else {
            0
        },
{
    assert(text.skip(i).drop_first() =~= text.skip(i + 1));
}

proof fn lemma_trim_end_bounds(text: Seq<char>)
    ensures
        0 <= trim_end_at(text) <= text.len(),
    decreases text.len(),
{
    if text.len() > 0 {
        lemma_trim_end_bounds(text.drop_last());
    }
}

/// The text without leading and trailing whitespace.
#[verifier::spinoff_prover]
#[verifier::rlimit(40)]
pub fn trim(text: &str) -> (out: &str)
    ensures
        out@ == trimmed(text@),
{
    let length: usize = text.unicode_len();
    let mut start: usize = 0;
    assert(text@.skip(0) =~= text@);
    while start < length && text.get_char(start).is_whitespace()
        invariant
            length == text@.len(),
            start <= length,
            trim_start_at(text@) == start + trim_start_at(text@.skip(start as int)),
        decreases length - start,
    {
        proof {
            lemma_trim_start_step(text@, start as int);
        }
        start = start + 1;
    }
    proof {
        if start < length {
            lemma_trim_start_step(text@, start as int);
        }
    }
    let ghost rest = text@.skip(start as int);
    let mut end: usize = length;
    assert(rest.take(rest.len() as int) =~= rest);
    while start < end && text.get_char(end - 1).is_whitespace()
        invariant
            length == text@.len(),
            start <= end <= length,
            rest == text@.skip(start as int),
            trim_end_at(rest) == trim_end_at(rest.take(end - start)),
        decreases end,
    {
        assert(rest.take(end - start).drop_last() =~= rest.take(end - start - 1));
        end = end - 1;
    }
    assert(text@.subrange(start as int, end as int) =~= rest.take(end - start));
    text.substring_char(start, end)
}

/// An ASCII upper-case letter in lower case; any other character as it is.
pub open spec fn ascii_lower_char(c: char) -> char {
    if 'A' <= c && c <= 'Z' {
        (c as u32 + 32) as char
    } else {
        c
    }
}

/// ASCII upper-case letters in lower case, everything else as it is.
pub open spec fn ascii_lower(text: Seq<char>) -> Seq<char> {
    text.map_values(|c: char| ascii_lower_char(c))
}

fn lower_char(c: char) -> (out: char)
    ensures
        out == ascii_lower_char(c),
{
    if 'A' <= c && c <= 'Z' {
        ((c as u8) + 32) as char
    } else {
        c
    }
}

/// ASCII upper-case letters in lower case, everything else as it is.
pub fn to_ascii_lower(text: &str) -> (out: String)
    ensures
        out@ == ascii_lower(text@),
{
    let length: usize = text.unicode_len();
    let mut out = String::new();
    let mut i: usize = 0;
    while i < length
        invariant
            length == text@.len(),
            i <= length,
            out@ == ascii_lower(text@.take(i as int)),
        decreases length - i,
    {
        out.push(lower_char(text.get_char(i)));
        assert(ascii_lower(text@.take(i + 1)) =~= ascii_lower(text@.take(i as int)).push(
            ascii_lower_char(text@[i as int]),
        ));
        i = i + 1;
    }
    assert(text@.take(i as int) =~= text@);
    out
}

/// Byte order, as texts are ordered: the first byte that differs decides, and a prefix comes
/// first.
pub open spec fn bytes_before(a: Seq<u8>, b: Seq<u8>) -> bool
    decreases a.len(),
{
    if b.len() == 0 {
        false
    } else if a.len() == 0 {
        true
    } else if a[0] != b[0] {
        a[0] < b[0]
    } else {
        bytes_before(a.drop_first(), b.drop_first())
    }
}

/// Whether the first byte string comes strictly before the second.
pub fn bytes_less(a: &[u8], b: &[u8]) -> (answer: bool)
    ensures
        answer == bytes_before(a@, b@),
{
    let mut i: usize = 0;
    assert(a@.skip(0) =~= a@ && b@.skip(0) =~= b@);
    loop
        invariant
            i <= a@.len(),
            i <= b@.len(),
            bytes_before(a@, b@) == bytes_before(a@.skip(i as int), b@.skip(i as int)),
        decreases a@.len() - i,
    {
        if i >= b.len() {
            return false;
        }
        if i >= a.len() {
            return true;
        }
        if a[i] != b[i] {
            return a[i] < b[i];
        }
        assert(a@.skip(i as int).drop_first() =~= a@.skip(i + 1));
        assert(b@.skip(i as int).drop_first() =~= b@.skip(i + 1));
        i = i + 1;
    }
}

/// Text order: the order of the UTF-8 bytes.
pub open spec fn text_before(a: Seq<char>, b: Seq<char>) -> bool {
    bytes_before(encode_utf8(a), encode_utf8(b))
}

/// Whether the first text comes strictly before the second.
pub fn text_less(a: &str, b: &str) -> (answer: bool)
    ensures
        answer == text_before(a@, b@),
{
    bytes_less(a.as_bytes(), b.as_bytes())
}

/// Nothing comes before itself.
pub proof fn bytes_before_irreflexive(a: Seq<u8>)
    ensures
        !bytes_before(a, a),
    decreases a.len(),
{
    if a.len() > 0 {
        bytes_before_irreflexive(a.drop_first());
    }
}

/// Of two different byte strings exactly one comes first.
pub proof fn bytes_before_total(a: Seq<u8>, b: Seq<u8>)
    ensures
        a != b ==> bytes_before(a, b) || bytes_before(b, a),
        !(bytes_before(a, b) && bytes_before(b, a)),
    decreases a.len(),
{
    if a.len() > 0 && b.len() > 0 {
        bytes_before_total(a.drop_first(), b.drop_first());
        if a[0] == b[0] && a.drop_first() == b.drop_first() {
            assert(a =~= seq![a[0]] + a.drop_first());
            assert(b =~= seq![b[0]] + b.drop_first());
        }
    } else if a.len() == 0 && b.len() == 0 {
        assert(a =~= b);
    }
}

/// The order is transitive.
pub proof fn bytes_before_transitive(a: Seq<u8>, b: Seq<u8>, c: Seq<u8>)
    requires
        bytes_before(a, b),
        bytes_before(b, c),
    ensures
        bytes_before(a, c),
    decreases a.len(),
{
    if a.len() > 0 && a[0] == b[0] && b[0] == c[0] {
        bytes_before_transitive(a.drop_first(), b.drop_first(), c.drop_first());
    }
}

/// Text order is a strict total order.
pub proof fn text_order_is_total(a: Seq<char>, b: Seq<char>, c: Seq<char>)
    ensures
        !text_before(a, a),
        a != b ==> text_before(a, b) || text_before(b, a),
        !(text_before(a, b) && text_before(b, a)),
        text_before(a, b) && text_before(b, c) ==> text_before(a, c),
{
    bytes_before_irreflexive(encode_utf8(a));
    bytes_before_total(encode_utf8(a), encode_utf8(b));
    encode_utf8_decode_utf8(a);
    encode_utf8_decode_utf8(b);
    if text_before(a, b) && text_before(b, c) {
        bytes_before_transitive(encode_utf8(a), encode_utf8(b), encode_utf8(c));
    }
}

/// Whether the text begins with the prefix.
pub fn starts_with(text: &str, prefix: &str) -> (answer: bool)
    ensures
        answer == prefix@.is_prefix_of(text@),
{
    let length: usize = prefix.unicode_len();
    if text.unicode_len() < length {
        return false;
    }
    let mut i: usize = 0;
    while i < length
        invariant
            length == prefix@.len(),
            length <= text@.len(),
            i <= length,
            forall|k: int| 0 <= k < i ==> text@[k] == prefix@[k],
        decreases length - i,
    {
        if text.get_char(i) != prefix.get_char(i) {
            return false;
        }
        i = i + 1;
    }
    assert(text@.subrange(0, length as int) =~= prefix@);
    true
}

/// `n` in decimal.
pub fn decimal_text(n: u64) -> (out: String)
    ensures
        out@ == decimal(n as nat),
{
    let mut out = String::new();
    push_decimal(&mut out, n);
    assert(out@ =~= decimal(n as nat));
    out
}

/// `n` in decimal, with a sign where it is negative.
pub open spec fn signed_decimal(n: int) -> Seq<char> {
    if n < 0 {
        "-"@ + decimal((-n) as nat)
    } else {
        decimal(n as nat)
    }
}

/// `n` in decimal, with a sign where it is negative.
pub fn signed_decimal_text(n: i64) -> (out: String)
    ensures
        out@ == signed_decimal(n as int),
{
    if n < 0 {
        let size: i128 = -(n as i128);
        let mut out = "-".to_owned();
        push_decimal(&mut out, size as u64);
        out
    } else {
        decimal_text(n as u64)
    }
}

proof fn lemma_decimal_digits(n: nat)
    ensures
        decimal(n).len() > 0,
        forall|i: int| 0 <= i < decimal(n).len() ==> '0' <= #[trigger] decimal(n)[i] <= '9',
    decreases n,
{
    if n >= 10 {
        lemma_decimal_digits(n / 10);
    }
}

proof fn lemma_digits_are_distinct(a: nat, b: nat)
    requires
        a < 10,
        b < 10,
        digit_char(a) == digit_char(b),
    ensures
        a == b,
{
}

/// Different numbers are written differently.
pub proof fn decimals_are_distinct(a: nat, b: nat)
    requires
        decimal(a) == decimal(b),
    ensures
        a == b,
    decreases a,
{
    let text = decimal(a);
    if a < 10 {
        if b >= 10 {
            lemma_decimal_digits(b / 10);
            assert(decimal(b).len() >= 2);
        }
        assert(decimal(a)[0] == digit_char(a));
        assert(decimal(b)[0] == digit_char(b));
        lemma_digits_are_distinct(a, b);
    } else {
        if b < 10 {
            lemma_decimal_digits(a / 10);
            assert(decimal(a).len() >= 2);
        }
        assert(text.last() == digit_char(a % 10));
        assert(text.last() == digit_char(b % 10));
        lemma_digits_are_distinct(a % 10, b % 10);
        assert(text.drop_last() =~= decimal(a / 10));
        assert(text.drop_last() =~= decimal(b / 10));
        decimals_are_distinct(a / 10, b / 10);
    }
}

/// Different numbers are written differently, negative ones too.
pub proof fn signed_decimals_are_distinct(a: int, b: int)
    requires
        signed_decimal(a) == signed_decimal(b),
    ensures
        a == b,
{
    reveal_strlit("-");
    lemma_decimal_digits(if a < 0 {
        (-a) as nat
    } else {
        a as nat
    });
    lemma_decimal_digits(if b < 0 {
        (-b) as nat
    } else {
        b as nat
    });
    if a < 0 && b < 0 {
        assert(signed_decimal(a).skip(1) =~= decimal((-a) as nat));
        assert(signed_decimal(b).skip(1) =~= decimal((-b) as nat));
        decimals_are_distinct((-a) as nat, (-b) as nat);
    } else if a >= 0 && b >= 0 {
        decimals_are_distinct(a as nat, b as nat);
    } else {
        let (negative, positive) = if a < 0 {
            (a, b)
        } else {
            (b, a)
        };
        assert(signed_decimal(negative)[0] == '-');
        assert(signed_decimal(positive)[0] == decimal(positive as nat)[0]);
        assert('-' < '0');
    }
}

/// Two texts in a row.
pub fn join2(a: &str, b: &str) -> (out: String)
    ensures
        out@ == a@ + b@,
{
    let mut out = a.to_owned();
    out.append(b);
    out
}

/// Three texts in a row.
pub fn join3(a: &str, b: &str, c: &str) -> (out: String)
    ensures
        out@ == a@ + b@ + c@,
{
    let mut out = a.to_owned();
    out.append(b);
    out.append(c);
    out
}

/// Four texts in a row.
pub fn join4(a: &str, b: &str, c: &str, d: &str) -> (out: String)
    ensures
        out@ == a@ + b@ + c@ + d@,
{
    let mut out = join3(a, b, c);
    out.append(d);
    out
}

/// Five texts in a row.
pub fn join5(a: &str, b: &str, c: &str, d: &str, e: &str) -> (out: String)
    ensures
        out@ == a@ + b@ + c@ + d@ + e@,
{
    let mut out = join3(a, b, c);
    out.append(d);
    out.append(e);
    out
}

/// `text` ends with `suffix`.
pub open spec fn has_suffix(text: Seq<char>, suffix: Seq<char>) -> bool {
    suffix.len() <= text.len() && text.skip(text.len() - suffix.len()) == suffix
}

/// Whether `text` ends with `suffix`.
pub fn ends_with(text: &str, suffix: &str) -> (answer: bool)
    ensures
        answer == has_suffix(text@, suffix@),
{
    let length: usize = text.unicode_len();
    let suffix_length: usize = suffix.unicode_len();
    if suffix_length > length {
        return false;
    }
    let start: usize = length - suffix_length;
    let mut i: usize = 0;
    while i < suffix_length
        invariant
            length == text@.len(),
            suffix_length == suffix@.len(),
            start + suffix_length == length,
            i <= suffix_length,
            forall|k: int| 0 <= k < i ==> text@.skip(start as int)[k] == suffix@[k],
        decreases suffix_length - i,
    {
        if text.get_char(start + i) != suffix.get_char(i) {
            assert(text@.skip(start as int)[i as int] != suffix@[i as int]);
            return false;
        }
        i = i + 1;
    }
    assert(text@.skip(start as int) =~= suffix@);
    true
}

/// What is said of bytes that are not UTF-8.
pub uninterp spec fn utf8_fault(bytes: Seq<u8>) -> Seq<char>;

/// The text that the bytes hold: `String::from_utf8`, which succeeds exactly on valid UTF-8. What
/// its error says of other bytes is left to the name.
#[verifier::external_body]
pub(crate) fn text_from_utf8(bytes: Vec<u8>) -> (text: Result<String, String>)
    ensures
        (match text {
            Ok(chars) => valid_utf8(bytes@) && chars@ == decode_utf8(bytes@),
            Err(fault) => !valid_utf8(bytes@) && fault@ == utf8_fault(bytes@),
        }),
{
    match String::from_utf8(bytes) {
        Ok(text) => Ok(text),
        Err(error) => Err(error.to_string()),
    }
}

/// Trimming takes whitespace off both ends of a text, and all of it.
pub proof fn trimming_takes_whitespace_off_the_ends(text: Seq<char>)
    ensures
        exists|start: int, end: int|
            0 <= start <= end <= text.len() && trimmed(text) == #[trigger] text.subrange(start, end)
                && blank(text.take(start)) && blank(text.skip(end)),
        trimmed(text).len() > 0 ==> !char_is_whitespace(trimmed(text)[0]) && !char_is_whitespace(
            trimmed(text).last(),
        ),
{
    let start = trim_start_at(text);
    let rest = text.skip(start);
    let length = trim_end_at(rest);
    lemma_trim_start_splits(text);
    lemma_trim_end_splits(rest);
    assert(trimmed(text) =~= text.subrange(start, start + length));
    assert(text.skip(start + length) =~= rest.skip(length));
}

proof fn lemma_trim_start_splits(text: Seq<char>)
    ensures
        0 <= trim_start_at(text) <= text.len(),
        blank(text.take(trim_start_at(text))),
        trim_start_at(text) < text.len() ==> !char_is_whitespace(text[trim_start_at(text)]),
    decreases text.len(),
{
    if text.len() > 0 && char_is_whitespace(text[0]) {
        let rest = text.drop_first();
        lemma_trim_start_splits(rest);
        assert forall|i: int| 0 <= i < trim_start_at(text) implies char_is_whitespace(
            #[trigger] text.take(trim_start_at(text))[i],
        ) by {
            if i > 0 {
                assert(text[i] == rest.take(trim_start_at(rest))[i - 1]);
            }
        }
    }
}

proof fn lemma_trim_end_splits(text: Seq<char>)
    ensures
        0 <= trim_end_at(text) <= text.len(),
        blank(text.skip(trim_end_at(text))),
        trim_end_at(text) > 0 ==> !char_is_whitespace(text[trim_end_at(text) - 1]),
    decreases text.len(),
{
    if text.len() > 0 && char_is_whitespace(text.last()) {
        let rest = text.drop_last();
        lemma_trim_end_splits(rest);
        let end = trim_end_at(text);
        assert forall|i: int| 0 <= i < text.skip(end).len() implies char_is_whitespace(
            #[trigger] text.skip(end)[i],
        ) by {
            if end + i < rest.len() {
                assert(text[end + i] == rest.skip(end)[i]);
            }
        }
    }
}

/// Lower case moves the letters from A to Z by thirty-two and leaves every other character alone.
pub proof fn lower_case_moves_letters_only(text: Seq<char>, i: int)
    requires
        0 <= i < text.len(),
    ensures
        ascii_lower(text).len() == text.len(),
        65 <= text[i] as int <= 90 ==> ascii_lower(text)[i] as int == text[i] as int + 32,
        !(65 <= text[i] as int <= 90) ==> ascii_lower(text)[i] == text[i],
        ascii_lower(ascii_lower(text)) == ascii_lower(text),
{
    assert(ascii_lower(ascii_lower(text)) =~= ascii_lower(text));
}

/// The value of a hexadecimal digit.
pub open spec fn hex_value(c: char) -> int {
    if c as int <= '9' as int {
        c as int - '0' as int
    } else {
        c as int - 'a' as int + 10
    }
}

/// Every byte can be read off its two hexadecimal digits.
pub proof fn hexadecimal_digits_read_back(bytes: Seq<u8>, i: int)
    requires
        0 <= i < bytes.len(),
    ensures
        hex(bytes).len() == 2 * bytes.len(),
        hex_value(hex(bytes)[2 * i]) * 16 + hex_value(hex(bytes)[2 * i + 1]) == bytes[i],
{
    assert((2 * i) / 2 == i && (2 * i + 1) / 2 == i);
}

/// The first byte that differs decides, and a byte string comes before every longer one that begins
/// with it.
pub proof fn the_first_difference_decides(common: Seq<u8>, a: Seq<u8>, b: Seq<u8>)
    ensures
        a.len() > 0 && b.len() > 0 && a[0] != b[0] ==> (bytes_before(common + a, common + b)
            <==> a[0] < b[0]),
        bytes_before(common, common + b) <==> b.len() > 0,
    decreases common.len(),
{
    if common.len() > 0 {
        assert((common + a).drop_first() =~= common.drop_first() + a);
        assert((common + b).drop_first() =~= common.drop_first() + b);
        the_first_difference_decides(common.drop_first(), a, b);
    } else {
        assert(common + a =~= a);
        assert(common + b =~= b);
    }
}

} // verus!

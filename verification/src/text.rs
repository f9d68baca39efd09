//! Text building blocks: decimal numbers, and pattern matching by the
//! `regex` crate.

use regex::RegexBuilder;
use vstd::prelude::*;
use vstd::string::*;

verus! {

/// The character of a decimal digit.
pub open spec fn digit_char(d: int) -> char {
    if d == 0 {
        '0'
    } else if d == 1 {
        '1'
    } else if d == 2 {
        '2'
    } else if d == 3 {
        '3'
    } else if d == 4 {
        '4'
    } else if d == 5 {
        '5'
    } else if d == 6 {
        '6'
    } else if d == 7 {
        '7'
    } else if d == 8 {
        '8'
    } else {
        '9'
    }
}

/// Whether the character is one of `0` to `9`.
pub open spec fn is_digit(c: char) -> bool {
    '0' <= c && c <= '9'
}

/// The value of a decimal digit.
pub open spec fn digit_value(c: char) -> int {
    c as int - '0' as int
}

/// The decimal digits of a number, without leading zeros.
pub open spec fn decimal_digits(n: nat) -> Seq<char>
    decreases n,
{
    if n < 10 {
        seq![digit_char(n as int)]
    } else {
        decimal_digits(n / 10).push(digit_char((n % 10) as int))
    }
}

/// The number that a row of decimal digits spells.
pub open spec fn decimal_value(digits: Seq<char>) -> nat
    decreases digits.len(),
{
    if digits.len() == 0 {
        0
    } else {
        (decimal_value(digits.drop_last()) * 10 + digit_value(digits.last())) as nat
    }
}

/// Whether the text is made of decimal digits, at least one.
pub open spec fn all_digits(text: Seq<char>) -> bool {
    text.len() > 0 && forall|i: int| 0 <= i < text.len() ==> is_digit(#[trigger] text[i])
}

/// The number that a text spells where it is made of digits and the
/// number fits into 32 bits, and zero for any other text.
pub open spec fn number_or_zero(text: Seq<char>) -> nat {
    if all_digits(text) && decimal_value(text) <= u32::MAX {
        decimal_value(text)
    } else {
        0
    }
}

fn digit_text(d: u64) -> (r: &'static str)
    requires
        d < 10,
    ensures
        r@ == seq![digit_char(d as int)],
{
    proof {
        reveal_strlit("0");
        reveal_strlit("1");
        reveal_strlit("2");
        reveal_strlit("3");
        reveal_strlit("4");
        reveal_strlit("5");
        reveal_strlit("6");
        reveal_strlit("7");
        reveal_strlit("8");
        reveal_strlit("9");
    }
    let r = if d == 0 {
        "0"
    } else if d == 1 {
        "1"
    } else if d == 2 {
        "2"
    } else if d == 3 {
        "3"
    } else if d == 4 {
        "4"
    } else if d == 5 {
        "5"
    } else if d == 6 {
        "6"
    } else if d == 7 {
        "7"
    } else if d == 8 {
        "8"
    } else {
        "9"
    };
    assert(r@ =~= seq![digit_char(d as int)]);
    r
}

/// Writes a number in decimal digits.
pub fn decimal(n: u64) -> (r: String)
    ensures
        r@ == decimal_digits(n as nat),
    decreases n,
{
    if n < 10 {
        digit_text(n).to_owned()
    } else {
        let mut text = decimal(n / 10);
        text.append(digit_text(n % 10));
        assert(text@ =~= decimal_digits((n / 10) as nat).push(digit_char((n % 10) as int)));
        text
    }
}

/// The digits read so far never spell more than the whole text does.
proof fn lemma_value_grows(digits: Seq<char>, i: int)
    requires
        all_digits(digits),
        0 <= i <= digits.len(),
    ensures
        decimal_value(digits.subrange(0, i)) <= decimal_value(digits),
    decreases digits.len() - i,
{
    if i < digits.len() {
        let longer = digits.subrange(0, i + 1);
        assert(longer.drop_last() =~= digits.subrange(0, i));
        assert(longer.last() == digits[i]);
        assert(is_digit(digits[i]));
        lemma_value_grows(digits, i + 1);
    } else {
        assert(digits.subrange(0, i) =~= digits);
    }
}

/// Reads a number written in decimal digits. A text that holds anything
/// else, or spells a number beyond 32 bits, reads as zero.
pub fn parse_number(text: &str) -> (r: u32)
    ensures
        r == number_or_zero(text@),
{
    let n = text.unicode_len();
    if n == 0 {
        return 0;
    }
    let mut value: u64 = 0;
    let mut i: usize = 0;
    assert(text@.subrange(0, 0) =~= Seq::<char>::empty());
    while i < n
        invariant
            i <= n,
            n == text@.len(),
            n > 0,
            forall|j: int| 0 <= j < i ==> is_digit(#[trigger] text@[j]),
            value == decimal_value(text@.subrange(0, i as int)),
            value <= u32::MAX,
        decreases n - i,
    {
        let c = text.get_char(i);
        if c < '0' || c > '9' {
            assert(!is_digit(text@[i as int]));
            return 0;
        }
        let ghost longer = text@.subrange(0, i as int + 1);
        assert(longer.drop_last() =~= text@.subrange(0, i as int));
        assert(longer.last() == c);
        let d: u64 = (c as u64) - ('0' as u64);
        value = value * 10 + d;
        i += 1;
        if value > 0xffff_ffff {
            proof {
                if all_digits(text@) {
                    lemma_value_grows(text@, i as int);
                }
            }
            return 0;
        }
    }
    assert(text@.subrange(0, n as int) =~= text@);
    value as u32
}

/// The view of an optional text.
pub open spec fn optional_text(text: Option<String>) -> Option<Seq<char>> {
    match text {
        Some(text) => Some(text@),
        None => None,
    }
}

/// What a replacement leaves: the replaced text, or the text as it was
/// where the pattern could not be used.
pub open spec fn replaced_or_same(replaced: Option<Seq<char>>, text: Seq<char>) -> Seq<char> {
    match replaced {
        Some(replaced) => replaced,
        None => text,
    }
}

/// Takes the replaced text, or the text as it was where there is none.
pub fn take_replaced(replaced: Option<String>, text: &str) -> (r: String)
    ensures
        r@ == replaced_or_same(optional_text(replaced), text@),
{
    match replaced {
        Some(replaced) => replaced,
        None => text.to_owned(),
    }
}

/// The views of a list of optional texts.
pub open spec fn optional_texts(texts: Seq<Option<String>>) -> Seq<Option<Seq<char>>> {
    Seq::new(texts.len(), |i: int| optional_text(texts[i]))
}

/// The view of an optional list of optional texts.
pub open spec fn optional_groups(groups: Option<Vec<Option<String>>>) -> Option<
    Seq<Option<Seq<char>>>,
> {
    match groups {
        Some(groups) => Some(optional_texts(groups@)),
        None => None,
    }
}

/// What `regex::Regex::replace_all` makes of `text` for a pattern built
/// with the two flags; nothing where the pattern does not compile.
pub uninterp spec fn regex_replaced_all(
    pattern: Seq<char>,
    case_insensitive: bool,
    multi_line: bool,
    text: Seq<char>,
    replacement: Seq<char>,
) -> Option<Seq<char>>;

/// What `regex::Regex::replace` makes of `text` for a pattern built with
/// the two flags; nothing where the pattern does not compile.
pub uninterp spec fn regex_replaced_first(
    pattern: Seq<char>,
    case_insensitive: bool,
    multi_line: bool,
    text: Seq<char>,
    replacement: Seq<char>,
) -> Option<Seq<char>>;

/// What the first group holds in each match that
/// `regex::Regex::captures_iter` finds in `text`, in order; nothing where
/// the pattern does not compile.
pub uninterp spec fn regex_first_groups(
    pattern: Seq<char>,
    case_insensitive: bool,
    multi_line: bool,
    text: Seq<char>,
) -> Option<Seq<Option<Seq<char>>>>;

/// Builds the pattern with `regex::RegexBuilder` and calls
/// `regex::Regex::replace_all`: every match in `text`, leftmost first and
/// without overlap, gives way to the replacement, in which `$1` stands for
/// the first group. The contract only names that result.
#[verifier::external_body]
pub(crate) fn replace_all(
    pattern: &str,
    case_insensitive: bool,
    multi_line: bool,
    text: &str,
    replacement: &str,
) -> (r: Option<String>)
    ensures
        optional_text(r) == regex_replaced_all(
            pattern@,
            case_insensitive,
            multi_line,
            text@,
            replacement@,
        ),
{
    let mut builder = RegexBuilder::new(pattern);
    let compiled = builder.case_insensitive(case_insensitive).multi_line(multi_line).build().ok()?;
    Some(compiled.replace_all(text, replacement).into_owned())
}

/// Builds the pattern with `regex::RegexBuilder` and calls
/// `regex::Regex::replace`, which replaces the leftmost match only. The
/// contract only names that result.
#[verifier::external_body]
pub(crate) fn replace_first(
    pattern: &str,
    case_insensitive: bool,
    multi_line: bool,
    text: &str,
    replacement: &str,
) -> (r: Option<String>)
    ensures
        optional_text(r) == regex_replaced_first(
            pattern@,
            case_insensitive,
            multi_line,
            text@,
            replacement@,
        ),
{
    let mut builder = RegexBuilder::new(pattern);
    let compiled = builder.case_insensitive(case_insensitive).multi_line(multi_line).build().ok()?;
    Some(compiled.replace(text, replacement).into_owned())
}

/// Builds the pattern with `regex::RegexBuilder`, calls
/// `regex::Regex::captures_iter` and hands out the text of the first group
/// of every match. The contract only names that result.
#[verifier::external_body]
pub(crate) fn first_groups(pattern: &str, case_insensitive: bool, multi_line: bool, text: &str) -> (r:
    Option<Vec<Option<String>>>)
    ensures
        optional_groups(r) == regex_first_groups(pattern@, case_insensitive, multi_line, text@),
{
    let mut builder = RegexBuilder::new(pattern);
    let compiled = builder.case_insensitive(case_insensitive).multi_line(multi_line).build().ok()?;
    let found = compiled.captures_iter(text);
    Some(found.map(|groups| groups.get(1).map(|group| group.as_str().to_owned())).collect())
}

} // verus!

//! Building strings: the operations taken from std, and the renderings of
//! numbers and lists of lines built on them.

use vstd::prelude::*;

verus! {

/// The decimal digit character for `d < 10`.
pub open spec fn digit_char(d: nat) -> char {
    if d == 0 {
        '0'
    } else if d == 1 {
        '1'
    } else if d == 2 {
        '2'
    } else if d == 3 {
        '3'
    } else if d == 4 {
        '4'
    } else if d == 5 {
        '5'
    } else if d == 6 {
        '6'
    } else if d == 7 {
        '7'
    } else if d == 8 {
        '8'
    } else {
        '9'
    }
}

/// The decimal representation of `n`, without leading zeros.
pub open spec fn decimal(n: nat) -> Seq<char>
    decreases n,
{
    if n < 10 {
        seq![digit_char(n)]
    } else {
        decimal(n / 10).push(digit_char(n % 10))
    }
}

/// Relies on std's `ToString` for `u64`, which writes the number in decimal.
#[verifier::external_body]
pub fn decimal_string(n: u64) -> (r: String)
    ensures
        r@ == decimal(n as nat),
{
    n.to_string()
}

/// Relies on std's `format!`: the two strings one after the other.
#[verifier::external_body]
pub fn concat(a: &str, b: &str) -> (r: String)
    ensures
        r@ == a@ + b@,
{
    format!("{}{}", a, b)
}

/// What `str::to_lowercase` yields for `s`.
pub uninterp spec fn lower_of(s: Seq<char>) -> Seq<char>;

/// Relies on std's `str::to_lowercase`: the lowercase form of `s`, which
/// depends on its characters alone.
#[verifier::external_body]
pub fn lowercase(s: &str) -> (r: String)
    ensures
        r@ == lower_of(s@),
{
    s.to_lowercase()
}

/// Two decimal digits of `d < 100`, with a leading zero below ten.
pub open spec fn two_digits(d: nat) -> Seq<char> {
    if d < 10 {
        "0"@ + decimal(d)
    } else {
        decimal(d)
    }
}

/// A value in thousandths as a percentage with one decimal: 853 is "85.3%".
pub open spec fn percent(x: nat) -> Seq<char> {
    decimal(x / 10) + "."@ + decimal(x % 10) + "%"@
}

/// A value in thousandths with two decimals: 1234 is "1.23".
pub open spec fn hundredths(x: nat) -> Seq<char> {
    decimal(x / 1000) + "."@ + two_digits((x % 1000) / 10)
}

/// Writes `x` thousandths as a percentage with one decimal.
pub fn percent_text(x: u64) -> (r: String)
    ensures
        r@ == percent(x as nat),
{
    let a = concat(decimal_string(x / 10).as_str(), ".");
    let b = concat(a.as_str(), decimal_string(x % 10).as_str());
    concat(b.as_str(), "%")
}

/// Writes `x` thousandths with two decimals.
pub fn hundredths_text(x: u64) -> (r: String)
    ensures
        r@ == hundredths(x as nat),
{
    let d = (x % 1000) / 10;
    let frac = if d < 10 {
        concat("0", decimal_string(d).as_str())
    } else {
        decimal_string(d)
    };
    let a = concat(decimal_string(x / 1000).as_str(), ".");
    concat(a.as_str(), frac.as_str())
}

/// The text of each string.
pub open spec fn texts(s: Seq<String>) -> Seq<Seq<char>> {
    s.map_values(|x: String| x@)
}

/// Appends `text` to `out`.
pub fn push_text(out: &mut Vec<String>, text: String)
    ensures
        texts(final(out)@) == texts(old(out)@).push(text@),
{
    let ghost before = out@;
    out.push(text);
    assert(texts(out@) =~= texts(before).push(text@));
}

} // verus!

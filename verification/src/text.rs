use vstd::prelude::*;

verus! {

/// `String::push`: appends one character.
#[verifier::external_body]
pub fn push_char(s: &mut String, c: char)
    ensures
        final(s)@ == old(s)@.push(c),
{
    s.push(c);
}

/// The decimal digits of a natural number, most significant first, without leading zeros
/// ("0" for zero).
pub open spec fn decimal(n: nat) -> Seq<char>
    decreases n,
{
    if n < 10 {
        seq![(48 + n) as char]
    } else {
        decimal(n / 10).push((48 + n % 10) as char)
    }
}

/// Appends the decimal digits of `n`.
pub fn push_decimal(s: &mut String, n: u64)
    ensures
        final(s)@ == old(s)@ + decimal(n as nat),
    decreases n,
{
    if n < 10 {
        let c = (48u8 + n as u8) as char;
        push_char(s, c);
        assert(old(s)@ + decimal(n as nat) =~= old(s)@.push(c));
    } else {
        push_decimal(s, n / 10);
        let c = (48u8 + (n % 10) as u8) as char;
        push_char(s, c);
        assert(old(s)@ + decimal(n as nat) =~= old(s)@ + decimal((n / 10) as nat) + seq![c]);
    }
}

/// Appends a string slice.
pub fn push_str(s: &mut String, t: &str)
    ensures
        final(s)@ == old(s)@ + t@,
{
    s.append(t);
}

/// The text with every occurrence of `from` replaced by `to`.
pub uninterp spec fn replaced_all(s: Seq<char>, from: Seq<char>, to: Seq<char>) -> Seq<char>;

/// `str::replace`: every occurrence of `from` in `s` replaced by `to`, left to right.
#[verifier::external_body]
pub fn replace_all(s: &str, from: &str, to: &str) -> (r: String)
    ensures
        r@ == replaced_all(s@, from@, to@),
{
    s.replace(from, to)
}

} // verus!

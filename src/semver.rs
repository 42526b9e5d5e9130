use vstd::prelude::*;

verus! {

/// A semantic version: major, minor and patch numbers, ordered field by field.
#[derive(Copy, Clone, Debug, Default, Hash, PartialEq, Eq, Structural, PartialOrd, Ord)]
pub struct SemVer {
    pub major: u32,
    pub minor: u32,
    pub patch: u32,
}

/// The decimal digits of `n`, most significant first.
pub open spec fn decimal(n: nat) -> Seq<char>
    decreases n,
{
    let digit = seq!['0', '1', '2', '3', '4', '5', '6', '7', '8', '9'][(n % 10) as int];
    if n < 10 {
        seq![digit]
    } else {
        decimal(n / 10).push(digit)
    }
}

/// `major.minor.patch`, each number in decimal.
pub open spec fn version_text(v: SemVer) -> Seq<char> {
    decimal(v.major as nat) + seq!['.'] + decimal(v.minor as nat) + seq!['.'] + decimal(v.patch as nat)
}

/// The digit for `d`, below ten.
fn digit_char(d: u32) -> (c: char)
    requires
        d < 10,
    ensures
        c == seq!['0', '1', '2', '3', '4', '5', '6', '7', '8', '9'][d as int],
{
    if d == 0 { '0' }
    else if d == 1 { '1' }
    else if d == 2 { '2' }
    else if d == 3 { '3' }
    else if d == 4 { '4' }
    else if d == 5 { '5' }
    else if d == 6 { '6' }
    else if d == 7 { '7' }
    else if d == 8 { '8' }
    else { '9' }
}

/// Appends the decimal digits of `n` to `out`.
fn push_decimal(out: &mut Vec<char>, n: u32)
    ensures
        final(out)@ == old(out)@ + decimal(n as nat),
    decreases n,
{
    if n >= 10 {
        push_decimal(out, n / 10);
    }
    out.push(digit_char(n % 10));
    proof {
        if n >= 10 {
            assert(decimal(n as nat) == decimal((n / 10) as nat).push(
                seq!['0', '1', '2', '3', '4', '5', '6', '7', '8', '9'][(n % 10) as int]));
        }
        assert(final(out)@ =~= old(out)@ + decimal(n as nat));
    }
}

/// Relies on std's `String: FromIterator<char>`: the string holds the
/// characters in order.
#[verifier::external_body]
fn string_from_chars(chars: &Vec<char>) -> (r: String)
    ensures
        r@ == chars@,
{
    chars.iter().collect()
}

impl SemVer {
    /// Version 1.0.0.
    #[allow(non_snake_case)]
    pub fn V1_0_0() -> (r: SemVer)
        ensures
            r.major == 1,
            r.minor == 0,
            r.patch == 0,
    {
        SemVer { major: 1, minor: 0, patch: 0 }
    }

    /// The version as text, `major.minor.patch`.
    pub fn to_string(&self) -> (r: String)
        ensures
            r@ == version_text(*self),
    {
        let mut chars: Vec<char> = Vec::new();
        push_decimal(&mut chars, self.major);
        chars.push('.');
        push_decimal(&mut chars, self.minor);
        chars.push('.');
        push_decimal(&mut chars, self.patch);
        proof {
            assert(chars@ =~= version_text(*self));
        }
        string_from_chars(&chars)
    }

    pub fn new(major: u32, minor: u32, patch: u32) -> (r: SemVer)
        ensures
            r.major == major,
            r.minor == minor,
            r.patch == patch,
    {
        SemVer { major, minor, patch }
    }
}

} // verus!

use vstd::prelude::*;
use vstd::string::StrSliceExecFns;
use vstd::string::StringExecFns;
use crate::error::AppError;

verus! {

/// The address family of a stored network: IPv4 or IPv6.
#[derive(Clone, Copy, Debug, PartialEq, Eq, Structural, Hash)]
pub enum IpVersion {
    Ipv4,
    Ipv6,
}

/// ASCII lowercasing of one character; characters outside `A`..`Z` are kept.
pub open spec fn lower_char_spec(c: char) -> char {
    match c {
        'A' => 'a',
        'B' => 'b',
        'C' => 'c',
        'D' => 'd',
        'E' => 'e',
        'F' => 'f',
        'G' => 'g',
        'H' => 'h',
        'I' => 'i',
        'J' => 'j',
        'K' => 'k',
        'L' => 'l',
        'M' => 'm',
        'N' => 'n',
        'O' => 'o',
        'P' => 'p',
        'Q' => 'q',
        'R' => 'r',
        'S' => 's',
        'T' => 't',
        'U' => 'u',
        'V' => 'v',
        'W' => 'w',
        'X' => 'x',
        'Y' => 'y',
        'Z' => 'z',
        _ => c,
    }
}

/// ASCII lowercasing of a character sequence.
pub open spec fn lowered_spec(s: Seq<char>) -> Seq<char> {
    s.map_values(|c: char| lower_char_spec(c))
}

/// The version tag that a piece of text names, compared after ASCII
/// lowercasing: `"ipv4"` and `"ipv6"` in any letter case, nothing else.
pub open spec fn version_of_text(s: Seq<char>) -> Option<IpVersion> {
    if lowered_spec(s) == "ipv4"@ {
        Some(IpVersion::Ipv4)
    } else if lowered_spec(s) == "ipv6"@ {
        Some(IpVersion::Ipv6)
    } else {
        None
    }
}

/// ASCII lowercasing of one character.
fn ascii_lower(c: char) -> (r: char)
    ensures
        r == lower_char_spec(c),
{
    match c {
        'A' => 'a',
        'B' => 'b',
        'C' => 'c',
        'D' => 'd',
        'E' => 'e',
        'F' => 'f',
        'G' => 'g',
        'H' => 'h',
        'I' => 'i',
        'J' => 'j',
        'K' => 'k',
        'L' => 'l',
        'M' => 'm',
        'N' => 'n',
        'O' => 'o',
        'P' => 'p',
        'Q' => 'q',
        'R' => 'r',
        'S' => 's',
        'T' => 't',
        'U' => 'u',
        'V' => 'v',
        'W' => 'w',
        'X' => 'x',
        'Y' => 'y',
        'Z' => 'z',
        _ => c,
    }
}

/// Whether `s`, lowercased ASCII-wise, equals `t`.
fn eq_lowered(s: &str, t: &str) -> (r: bool)
    ensures
        r == (lowered_spec(s@) == t@),
{
    let n = s.unicode_len();
    if n != t.unicode_len() {
        proof {
            assert(lowered_spec(s@).len() == s@.len());
            assert(lowered_spec(s@) != t@);
        }
        return false;
    }
    let mut i: usize = 0;
    while i < n
        invariant
            i <= n,
            n == s@.len(),
            n == t@.len(),
            forall|j: int| 0 <= j < i ==> lower_char_spec(s@[j]) == t@[j],
        decreases n - i,
    {
        if ascii_lower(s.get_char(i)) != t.get_char(i) {
            proof {
                assert(lowered_spec(s@)[i as int] != t@[i as int]);
            }
            return false;
        }
        i += 1;
    }
    proof {
        assert(lowered_spec(s@) =~= t@);
    }
    true
}

/// The decimal digit character for `d`.
pub open spec fn dec_digit(d: int) -> char {
    if d == 0 {
        '0'
    } else if d == 1 {
        '1'
    } else if d == 2 {
        '2'
    } else if d == 3 {
        '3'
    } else if d == 4 {
        '4'
    } else if d == 5 {
        '5'
    } else if d == 6 {
        '6'
    } else if d == 7 {
        '7'
    } else if d == 8 {
        '8'
    } else {
        '9'
    }
}

/// The decimal digits of a non-negative number, most significant first.
pub open spec fn decimal_nat_spec(n: int) -> Seq<char>
    recommends
        n >= 0,
    decreases n,
{
    if n < 10 {
        seq![dec_digit(n)]
    } else {
        decimal_nat_spec(n / 10).push(dec_digit(n % 10))
    }
}

/// The decimal rendering of an integer, a `-` before a negative value.
pub open spec fn decimal_spec(n: int) -> Seq<char> {
    if n < 0 {
        seq!['-'] + decimal_nat_spec(-n)
    } else {
        decimal_nat_spec(n)
    }
}

/// One decimal digit as text.
fn digit_str(d: u16) -> (r: &'static str)
    requires
        d < 10,
    ensures
        r@ == seq![dec_digit(d as int)],
{
    let r: &'static str = match d {
        0 => "0",
        1 => "1",
        2 => "2",
        3 => "3",
        4 => "4",
        5 => "5",
        6 => "6",
        7 => "7",
        8 => "8",
        _ => "9",
    };
    proof {
        reveal_strlit("0");
        reveal_strlit("1");
        reveal_strlit("2");
        reveal_strlit("3");
        reveal_strlit("4");
        reveal_strlit("5");
        reveal_strlit("6");
        reveal_strlit("7");
        reveal_strlit("8");
        reveal_strlit("9");
        assert(r@ =~= seq![dec_digit(d as int)]);
    }
    r
}

/// Appends the decimal digits of `n`.
fn push_decimal(out: &mut String, n: u16)
    ensures
        final(out)@ == old(out)@ + decimal_nat_spec(n as int),
    decreases n,
{
    if n < 10 {
        out.append(digit_str(n));
        proof {
            assert(old(out)@ + seq![dec_digit(n as int)] =~= old(out)@ + decimal_nat_spec(
                n as int,
            ));
        }
    } else {
        push_decimal(out, n / 10);
        out.append(digit_str(n % 10));
        proof {
            assert((old(out)@ + decimal_nat_spec(n as int / 10)).push(dec_digit(n as int % 10))
                =~= old(out)@ + decimal_nat_spec(n as int));
            assert((old(out)@ + decimal_nat_spec(n as int / 10)) + seq![
                dec_digit(n as int % 10),
            ] =~= (old(out)@ + decimal_nat_spec(n as int / 10)).push(dec_digit(n as int % 10)));
        }
    }
}

impl IpVersion {
    /// The textual form of the version tag: `"ipv4"` or `"ipv6"`.
    pub open spec fn text_spec(self) -> Seq<char> {
        match self {
            IpVersion::Ipv4 => "ipv4"@,
            IpVersion::Ipv6 => "ipv6"@,
        }
    }

    /// The opposite address family.
    pub open spec fn other(self) -> IpVersion {
        match self {
            IpVersion::Ipv4 => IpVersion::Ipv6,
            IpVersion::Ipv6 => IpVersion::Ipv4,
        }
    }

    /// The wire code that the database column stores for this tag.
    pub open spec fn code_spec(self) -> i16 {
        match self {
            IpVersion::Ipv4 => 0,
            IpVersion::Ipv6 => 1,
        }
    }

    /// Renders the version tag as its lowercase text.
    pub fn as_str(&self) -> (r: &'static str)
        ensures
            r@ == self.text_spec(),
    {
        match self {
            IpVersion::Ipv4 => "ipv4",
            IpVersion::Ipv6 => "ipv6",
        }
    }

    /// Parses a version tag, accepting `"ipv4"` and `"ipv6"` in any ASCII
    /// letter case; every other input is rejected as a parse error.
    pub fn from_str(s: &str) -> (r: Result<IpVersion, AppError>)
        ensures
            match version_of_text(s@) {
                Some(v) => r matches Ok(got) && got == v,
                None => r matches Err(e) && (e matches AppError::ParseError(m) && m@
                    == "Unknown IP version "@ + s@),
            },
    {
        if eq_lowered(s, "ipv4") {
            Ok(IpVersion::Ipv4)
        } else if eq_lowered(s, "ipv6") {
            Ok(IpVersion::Ipv6)
        } else {
            Err(AppError::ParseError("Unknown IP version ".to_owned().concat(s)))
        }
    }

    /// Decodes the database wire code: `0` is IPv4, `1` is IPv6, anything
    /// else is an unrecognized stored value and is rejected with a message
    /// naming the offending code.
    pub fn from_code(code: i16) -> (r: Result<IpVersion, AppError>)
        ensures
            code == 0 ==> (r matches Ok(v) && v == IpVersion::Ipv4),
            code == 1 ==> (r matches Ok(v) && v == IpVersion::Ipv6),
            !(code == 0 || code == 1) ==> (r matches Err(e) && (e matches AppError::ParseError(m)
                && m@ == "Unrecognized variant "@ + decimal_spec(code as int))),
    {
        if code == 0 {
            Ok(IpVersion::Ipv4)
        } else if code == 1 {
            Ok(IpVersion::Ipv6)
        } else {
            let mut m = "Unrecognized variant ".to_owned();
            if code < 0 {
                m.append("-");
                let mag: u16 = (-(code as i32)) as u16;
                push_decimal(&mut m, mag);
                proof {
                    reveal_strlit("-");
                    assert("-"@ =~= seq!['-']);
                    assert(mag as int == -(code as int));
                    assert(m@ =~= "Unrecognized variant "@ + decimal_spec(code as int));
                }
            } else {
                push_decimal(&mut m, code as u16);
                proof {
                    assert(m@ =~= "Unrecognized variant "@ + decimal_spec(code as int));
                }
            }
            Err(AppError::ParseError(m))
        }
    }

    /// Encodes the tag as its database wire code.
    pub fn code(&self) -> (r: i16)
        ensures
            r == self.code_spec(),
    {
        match self {
            IpVersion::Ipv4 => 0,
            IpVersion::Ipv6 => 1,
        }
    }
}

} // verus!

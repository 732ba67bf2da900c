//! Geographic coordinates in degrees, minutes and seconds.
//!
//! Splitting a floating-point coordinate into its parts is left to the
//! caller; this module holds the parts and writes them out, as in
//! `51°30'18"N 0°5'24"W`.
use vstd::prelude::*;

verus! {

/// A coordinate split into sign, whole degrees, minutes and seconds.
#[derive(Clone, Copy, Debug, PartialEq, Eq)]
pub struct CoordParts {
    pub sign: i8,
    pub degrees: i16,
    pub minutes: i8,
    pub seconds: i8,
}

/// A latitude and a longitude, ready to be written out.
#[derive(Clone, Copy, Debug)]
pub struct DelayedFormattedGeoCoords {
    lat: CoordParts,
    lon: CoordParts,
}

/// The character of the decimal digit `d`.
pub open spec fn digit_char(d: nat) -> char {
    if d == 0 {
        '0'
    } else if d == 1 {
        '1'
    } else if d == 2 {
        '2'
    } else if d == 3 {
        '3'
    } else if d == 4 {
        '4'
    } else if d == 5 {
        '5'
    } else if d == 6 {
        '6'
    } else if d == 7 {
        '7'
    } else if d == 8 {
        '8'
    } else {
        '9'
    }
}

/// The decimal digits of `n`, most significant first, without leading
/// zeros (`0` for zero).
pub open spec fn digits(n: nat) -> Seq<char>
    decreases n,
{
    if n < 10 {
        seq![digit_char(n)]
    } else {
        digits(n / 10) + seq![digit_char(n % 10)]
    }
}

/// `n` written in decimal, as `Display` writes an integer.
pub open spec fn decimal(n: int) -> Seq<char> {
    if n < 0 {
        seq!['-'] + digits((-n) as nat)
    } else {
        digits(n as nat)
    }
}

/// One coordinate written out: `{degrees}°{minutes}'{seconds}"{hemisphere}`.
pub open spec fn coord_text(c: CoordParts, hemisphere: char) -> Seq<char> {
    decimal(c.degrees as int) + seq!['\u{b0}'] + decimal(c.minutes as int) + seq!['\''] + decimal(
        c.seconds as int,
    ) + seq!['"', hemisphere]
}

/// The value of the decimal digit character `c`.
pub open spec fn digit_value(c: char) -> int {
    c as int - 0x30
}

/// The number that a string of decimal digit characters spells, most
/// significant first.
pub open spec fn decimal_value(s: Seq<char>) -> int
    decreases s.len(),
{
    if s.len() == 0 {
        0
    } else {
        10 * decimal_value(s.drop_last()) + digit_value(s.last())
    }
}

/// The character of a decimal digit is the ASCII digit: code `0x30 + d`.
pub proof fn lemma_digit_char(d: nat)
    requires
        d < 10,
    ensures
        digit_char(d) as int == 0x30 + d,
{
}

/// `digits(n)` is the decimal representation of `n`: it is made of ASCII
/// digits, does not start with a zero unless it is `0`, and spells `n`.
pub proof fn lemma_digits_spell(n: nat)
    ensures
        digits(n).len() >= 1,
        digits(n).len() == 1 <==> n < 10,
        forall|i: int| 0 <= i < digits(n).len() ==> 0x30 <= #[trigger] (digits(n)[i] as int) <= 0x39,
        digits(n).len() > 1 ==> digits(n)[0] != '0',
        decimal_value(digits(n)) == n,
    decreases n,
{
    if n < 10 {
        lemma_digit_char(n);
        assert(digits(n).drop_last() =~= Seq::<char>::empty());
        assert(decimal_value(digits(n)) == 10 * decimal_value(digits(n).drop_last()) + digit_value(
            digits(n).last(),
        ));
    } else {
        lemma_digits_spell(n / 10);
        lemma_digit_char(n % 10);
        let p = digits(n / 10);
        assert(digits(n).drop_last() =~= p);
        assert forall|i: int| 0 <= i < digits(n).len() implies 0x30 <= #[trigger] (digits(
            n,
        )[i] as int) <= 0x39 by {
            if i < p.len() {
                assert(digits(n)[i] == p[i]);
            }
        }
        if n / 10 < 10 {
            lemma_digit_char(n / 10);
            assert(p[0] as int != 0x30);
            assert('0' as int == 0x30);
        }
        assert(digits(n)[0] == p[0]);
        assert(digits(n).last() == digit_char(n % 10));
        assert(digit_value(digits(n).last()) == n % 10);
        assert(decimal_value(digits(n)) == 10 * decimal_value(p) + digit_value(digits(n).last()));
        assert(n == 10 * (n / 10) + n % 10);
    }
}

/// Both coordinates written out: latitude (`N` or `S` by its sign) and
/// longitude (`E` or `W`), separated by a space.
pub open spec fn geo_text(lat: CoordParts, lon: CoordParts) -> Seq<char> {
    coord_text(lat, if lat.sign >= 0 { 'N' } else { 'S' }) + seq![' '] + coord_text(
        lon,
        if lon.sign >= 0 { 'E' } else { 'W' },
    )
}

fn push_digit(out: &mut String, d: u32)
    requires
        d < 10,
    ensures
        final(out)@ == old(out)@ + seq![digit_char(d as nat)],
{
    if d == 0 {
        out.append("0");
        proof {
            reveal_strlit("0");
        }
    } else if d == 1 {
        out.append("1");
        proof {
            reveal_strlit("1");
        }
    } else if d == 2 {
        out.append("2");
        proof {
            reveal_strlit("2");
        }
    } else if d == 3 {
        out.append("3");
        proof {
            reveal_strlit("3");
        }
    } else if d == 4 {
        out.append("4");
        proof {
            reveal_strlit("4");
        }
    } else if d == 5 {
        out.append("5");
        proof {
            reveal_strlit("5");
        }
    } else if d == 6 {
        out.append("6");
        proof {
            reveal_strlit("6");
        }
    } else if d == 7 {
        out.append("7");
        proof {
            reveal_strlit("7");
        }
    } else if d == 8 {
        out.append("8");
        proof {
            reveal_strlit("8");
        }
    } else {
        out.append("9");
        proof {
            reveal_strlit("9");
        }
    }
    assert(out@ =~= old(out)@ + seq![digit_char(d as nat)]);
}

fn push_digits(out: &mut String, n: u32)
    ensures
        final(out)@ == old(out)@ + digits(n as nat),
    decreases n,
{
    if n >= 10 {
        push_digits(out, n / 10);
    }
    push_digit(out, n % 10);
    assert(out@ =~= old(out)@ + digits(n as nat));
}

fn push_decimal(out: &mut String, n: i32)
    requires
        n > i32::MIN,
    ensures
        final(out)@ == old(out)@ + decimal(n as int),
{
    if n < 0 {
        out.append("-");
        proof {
            reveal_strlit("-");
        }
        push_digits(out, (-n) as u32);
    } else {
        push_digits(out, n as u32);
    }
    assert(out@ =~= old(out)@ + decimal(n as int));
}

/// The hemisphere letter: `positive` when the sign is not negative.
fn push_hemisphere(out: &mut String, non_negative: bool, positive: &str, negative: &str) -> (r: Ghost<char>)
    requires
        positive@.len() == 1,
        negative@.len() == 1,
    ensures
        r@ == if non_negative { positive@[0] } else { negative@[0] },
        final(out)@ == old(out)@ + seq![r@],
{
    if non_negative {
        out.append(positive);
        assert(out@ =~= old(out)@ + seq![positive@[0]]);
        Ghost(positive@[0])
    } else {
        out.append(negative);
        assert(out@ =~= old(out)@ + seq![negative@[0]]);
        Ghost(negative@[0])
    }
}

fn push_coord(out: &mut String, c: &CoordParts, positive: &str, negative: &str)
    requires
        positive@.len() == 1,
        negative@.len() == 1,
    ensures
        final(out)@ == old(out)@ + coord_text(
            *c,
            if c.sign >= 0 { positive@[0] } else { negative@[0] },
        ),
{
    push_decimal(out, c.degrees as i32);
    out.append("\u{b0}");
    push_decimal(out, c.minutes as i32);
    out.append("'");
    push_decimal(out, c.seconds as i32);
    out.append("\"");
    let hemisphere = push_hemisphere(out, c.sign >= 0, positive, negative);
    proof {
        reveal_strlit("\u{b0}");
        reveal_strlit("'");
        reveal_strlit("\"");
    }
    assert(out@ =~= old(out)@ + coord_text(*c, hemisphere@));
}

impl DelayedFormattedGeoCoords {
    /// Holds a latitude and a longitude.
    pub fn new(lat: CoordParts, lon: CoordParts) -> (r: DelayedFormattedGeoCoords)
        ensures
            r.latitude() == lat,
            r.longitude() == lon,
    {
        DelayedFormattedGeoCoords { lat, lon }
    }

    pub closed spec fn latitude(&self) -> CoordParts {
        self.lat
    }

    pub closed spec fn longitude(&self) -> CoordParts {
        self.lon
    }

    /// The coordinates written out, as in `51°30'18"N 0°5'24"W`.
    pub fn to_string(&self) -> (r: String)
        ensures
            r@ == geo_text(self.latitude(), self.longitude()),
    {
        proof {
            reveal_strlit("N");
            reveal_strlit("S");
            reveal_strlit("E");
            reveal_strlit("W");
            reveal_strlit(" ");
        }
        let mut out = String::new();
        push_coord(&mut out, &self.lat, "N", "S");
        out.append(" ");
        push_coord(&mut out, &self.lon, "E", "W");
        assert(out@ =~= geo_text(self.lat, self.lon));
        out
    }
}

} // verus!

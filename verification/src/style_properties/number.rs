//! Numbers of style values, held to the millionth.

use vstd::prelude::*;
use crate::text::push_char;

verus! {

/// A decimal number with six places behind the point, held as a count of
/// millionths.
#[derive(Clone, Copy, Debug, PartialEq, Eq, Structural)]
pub struct Number {
    pub micros: i64,
}

/// How many millionths make one.
pub const MICROS: i64 = 1_000_000;

/// `v`, or the bound of `i64` that is nearest to it.
pub open spec fn clamp(v: int) -> int {
    if v < i64::MIN {
        i64::MIN as int
    } else if v > i64::MAX {
        i64::MAX as int
    } else {
        v
    }
}

/// The character of a decimal digit.
pub open spec fn digit_char(d: int) -> char {
    if d == 0 {
        '0'
    } else if d == 1 {
        '1'
    } else if d == 2 {
        '2'
    } else if d == 3 {
        '3'
    } else if d == 4 {
        '4'
    } else if d == 5 {
        '5'
    } else if d == 6 {
        '6'
    } else if d == 7 {
        '7'
    } else if d == 8 {
        '8'
    } else {
        '9'
    }
}

/// A natural number in decimal digits, without leading zeros.
pub open spec fn nat_text(n: nat) -> Seq<char>
    decreases n,
{
    if n < 10 {
        seq![digit_char(n as int)]
    } else {
        nat_text(n / 10).push(digit_char((n % 10) as int))
    }
}

/// The digits behind the point of `f / (10 * unit)`, without trailing
/// zeros; `unit` is the weight of the first of them.
pub open spec fn fraction_text(f: nat, unit: nat) -> Seq<char>
    decreases unit,
{
    if unit == 0 || f == 0 {
        Seq::empty()
    } else {
        seq![digit_char((f / unit) as int)] + fraction_text(f % unit, unit / 10)
    }
}

/// A count of millionths as a decimal number: a minus sign where it is
/// negative, the whole part, and, where there is one, a point and the
/// fraction without trailing zeros.
pub open spec fn decimal_text(micros: int) -> Seq<char> {
    let magnitude = if micros < 0 {
        (-micros) as nat
    } else {
        micros as nat
    };
    let sign = if micros < 0 {
        seq!['-']
    } else {
        Seq::empty()
    };
    let whole = nat_text(magnitude / 1_000_000);
    if magnitude % 1_000_000 == 0 {
        sign + whole
    } else {
        sign + whole + seq!['.'] + fraction_text(magnitude % 1_000_000, 100_000)
    }
}

/// The character of a decimal digit.
fn digit(d: u8) -> (c: char)
    requires
        d < 10,
    ensures
        c == digit_char(d as int),
{
    if d == 0 {
        '0'
    } else if d == 1 {
        '1'
    } else if d == 2 {
        '2'
    } else if d == 3 {
        '3'
    } else if d == 4 {
        '4'
    } else if d == 5 {
        '5'
    } else if d == 6 {
        '6'
    } else if d == 7 {
        '7'
    } else if d == 8 {
        '8'
    } else {
        '9'
    }
}

/// Appends a natural number in decimal digits.
fn push_nat(s: &mut String, n: u64)
    ensures
        final(s)@ == old(s)@ + nat_text(n as nat),
    decreases n,
{
    if n >= 10 {
        push_nat(s, n / 10);
    }
    push_char(s, digit((n % 10) as u8));
    proof {
        if n >= 10 {
            assert(s@ =~= old(s)@ + nat_text(n as nat));
        } else {
            assert(s@ =~= old(s)@ + nat_text(n as nat));
        }
    }
}

/// Appends the digits of a fraction of less than a million millionths.
fn push_fraction(s: &mut String, f: u64)
    requires
        f < 1_000_000,
    ensures
        final(s)@ == old(s)@ + fraction_text(f as nat, 100_000),
{
    let mut rest = f;
    let mut unit: u64 = 100_000;
    let ghost done: Seq<char> = Seq::empty();
    while unit != 0 && rest != 0
        invariant
            rest < 10 * unit || (unit == 0 && rest == 0),
            unit == 100_000 || unit == 10_000 || unit == 1_000 || unit == 100 || unit == 10
                || unit == 1 || unit == 0,
            s@ == old(s)@ + done,
            done + fraction_text(rest as nat, unit as nat) == fraction_text(f as nat, 100_000),
        decreases unit,
    {
        let d = rest / unit;
        assert(d < 10) by (nonlinear_arith)
            requires
                d == rest / unit,
                rest < 10 * unit,
                unit > 0,
        ;
        push_char(s, digit(d as u8));
        proof {
            let next = done.push(digit_char(d as int));
            assert(next + fraction_text((rest % unit) as nat, (unit / 10) as nat) =~= done
                + fraction_text(rest as nat, unit as nat));
            done = next;
        }
        rest = rest % unit;
        unit = unit / 10;
    }
    proof {
        assert(fraction_text(rest as nat, unit as nat) =~= Seq::<char>::empty());
        assert(done + Seq::<char>::empty() =~= done);
    }
}

impl Number {
    /// The number of that many millionths.
    pub fn from_micros(micros: i64) -> (n: Number)
        ensures
            n.micros == micros,
    {
        Number { micros }
    }

    /// The whole number `n`.
    pub fn from_integer(n: i32) -> (r: Number)
        ensures
            r.micros == n * 1_000_000,
    {
        Number { micros: (n as i64) * MICROS }
    }

    /// The number times `by`; a product that `i64` cannot hold is held at
    /// the bound nearest to it.
    pub fn scale(self, by: i64) -> (r: Number)
        ensures
            r.micros == clamp(self.micros * by),
    {
        assert(-0x4000_0000_0000_0000_0000_0000_0000_0000 <= self.micros * by
            <= 0x4000_0000_0000_0000_0000_0000_0000_0000) by (nonlinear_arith)
            requires
                -0x8000_0000_0000_0000 <= self.micros <= 0x7fff_ffff_ffff_ffff,
                -0x8000_0000_0000_0000 <= by <= 0x7fff_ffff_ffff_ffff,
        ;
        let product: i128 = (self.micros as i128) * (by as i128);
        if product < i64::MIN as i128 {
            Number { micros: i64::MIN }
        } else if product > i64::MAX as i128 {
            Number { micros: i64::MAX }
        } else {
            Number { micros: product as i64 }
        }
    }

    /// The number as decimal text.
    pub fn to_text(self) -> (s: String)
        ensures
            s@ == decimal_text(self.micros as int),
    {
        let mut s = String::new();
        let magnitude: u64 = if self.micros < 0 {
            push_char(&mut s, '-');
            (-(self.micros as i128)) as u64
        } else {
            self.micros as u64
        };
        push_nat(&mut s, magnitude / 1_000_000);
        let fraction = magnitude % 1_000_000;
        if fraction != 0 {
            push_char(&mut s, '.');
            push_fraction(&mut s, fraction);
        }
        proof {
            assert(s@ =~= decimal_text(self.micros as int));
        }
        s
    }
}

} // verus!

//! Rational constants of the language, carried as sign, numerator and
//! denominator; comparison and display are those of `fraction::Fraction`.

use crate::text::nat_text;
use vstd::prelude::*;

verus! {

/// A rational number `(-1)^negative * numer / denom`, with `denom > 0`.
#[derive(Clone, Copy)]
pub struct Rational {
    negative: bool,
    numer: u64,
    denom: u64,
}

/// Two rationals denote the same number.
pub open spec fn same_value(a: Rational, b: Rational) -> bool {
    (a.numer_of() == 0 && b.numer_of() == 0) || (a.is_negative() == b.is_negative()
        && a.numer_of() * b.denom_of() == b.numer_of() * a.denom_of())
}

/// The greatest common divisor of `a` and `b` (Euclid's algorithm).
pub open spec fn gcd(a: nat, b: nat) -> nat
    decreases b,
{
    if b == 0 {
        a
    } else {
        gcd(b, a % b)
    }
}

/// The text that `fraction::Fraction`'s `Display` gives for the fraction of
/// this sign, numerator and denominator (the denominator positive): `-`
/// when negative, zero included, then the numerator reduced by the greatest
/// common divisor, then `/` and the reduced denominator unless the
/// numerator is zero or the reduced denominator is one.
pub open spec fn fraction_display(negative: bool, numer: u64, denom: u64) -> Seq<char> {
    let g = gcd(numer as nat, denom as nat);
    let n = numer as nat / g;
    let d = denom as nat / g;
    (if negative {
        seq!['-']
    } else {
        seq![]
    }) + nat_text(n) + if n != 0 && d != 1 {
        seq!['/'] + nat_text(d)
    } else {
        seq![]
    }
}

/// `==` of two `fraction::Fraction` values built by `Fraction::new_generic`
/// from these signs, numerators and denominators: with positive
/// denominators, the crate compares the numbers (both zero, or same sign and
/// equal ratios).
#[verifier::external_body]
fn fraction_eq(a: Rational, b: Rational) -> (r: bool)
    requires
        a.denom_of() > 0,
        b.denom_of() > 0,
    ensures
        r == same_value(a, b),
{
    let sa = if a.negative { fraction::Sign::Minus } else { fraction::Sign::Plus };
    let sb = if b.negative { fraction::Sign::Minus } else { fraction::Sign::Plus };
    fraction::Fraction::new_generic(sa, a.numer, a.denom) == fraction::Fraction::new_generic(
        sb,
        b.numer,
        b.denom,
    )
}

/// `fraction::Fraction`'s `Display` of the fraction built by
/// `Fraction::new_generic` from this sign, numerator and denominator: the
/// crate reduces the ratio by the greatest common divisor and writes the
/// sign, the numerator and, unless the numerator is zero or the reduced
/// denominator is one, `/` and the denominator (`fraction_display`).
#[verifier::external_body]
fn fraction_text(negative: bool, numer: u64, denom: u64) -> (r: String)
    requires
        denom > 0,
    ensures
        r@ == fraction_display(negative, numer, denom),
{
    let s = if negative { fraction::Sign::Minus } else { fraction::Sign::Plus };
    fraction::Fraction::new_generic(s, numer, denom).unwrap().to_string()
}

impl Rational {
    /// The denominator is positive.
    #[verifier::type_invariant]
    spec fn wf(self) -> bool {
        self.denom > 0
    }

    pub closed spec fn is_negative(self) -> bool {
        self.negative
    }

    pub closed spec fn numer_of(self) -> u64 {
        self.numer
    }

    pub closed spec fn denom_of(self) -> u64 {
        self.denom
    }

    /// The rational of this sign, numerator and denominator; none when the
    /// denominator is zero.
    pub fn new(negative: bool, numer: u64, denom: u64) -> (r: Option<Rational>)
        ensures
            r is Some <==> denom > 0,
            r matches Some(x) ==> x.is_negative() == negative && x.numer_of() == numer
                && x.denom_of() == denom,
    {
        if denom > 0 {
            Some(Rational { negative, numer, denom })
        } else {
            None
        }
    }

    pub fn negative(&self) -> (r: bool)
        ensures
            r == self.is_negative(),
    {
        self.negative
    }

    pub fn numer(&self) -> (r: u64)
        ensures
            r == self.numer_of(),
    {
        self.numer
    }

    pub fn denom(&self) -> (r: u64)
        ensures
            r == self.denom_of(),
            r > 0,
    {
        proof {
            use_type_invariant(self);
        }
        self.denom
    }

    /// Whether two rationals denote the same number.
    pub fn same(&self, other: &Rational) -> (r: bool)
        ensures
            r == same_value(*self, *other),
    {
        proof {
            use_type_invariant(self);
            use_type_invariant(other);
        }
        fraction_eq(*self, *other)
    }

    /// The text of the rational, as `fraction::Fraction` displays it.
    pub fn to_text(&self) -> (r: String)
        ensures
            r@ == fraction_display(self.is_negative(), self.numer_of(), self.denom_of()),
    {
        proof {
            use_type_invariant(self);
        }
        fraction_text(self.negative, self.numer, self.denom)
    }
}

/// Denoting the same number is an equivalence between rationals with
/// positive denominators: reflexive, symmetric and transitive.
pub proof fn law_same_value_equivalence(a: Rational, b: Rational, c: Rational)
    requires
        a.denom_of() > 0,
        b.denom_of() > 0,
        c.denom_of() > 0,
    ensures
        same_value(a, a),
        same_value(a, b) == same_value(b, a),
        same_value(a, b) && same_value(b, c) ==> same_value(a, c),
{
    let (an, ad, bn, bd, cn, cd) = (
        a.numer_of() as int,
        a.denom_of() as int,
        b.numer_of() as int,
        b.denom_of() as int,
        c.numer_of() as int,
        c.denom_of() as int,
    );
    if same_value(a, b) && same_value(b, c) {
        if an == 0 && bn == 0 {
            if !(cn == 0) {
                assert(bn * cd == cn * bd);
                assert(cn * bd != 0) by (nonlinear_arith)
                    requires
                        cn != 0,
                        bd > 0,
                        cn >= 0,
                ;
            }
        } else if bn == 0 && cn == 0 {
            assert(an * bd == bn * ad);
            assert(an == 0) by (nonlinear_arith)
                requires
                    an * bd == 0,
                    bd > 0,
            ;
        } else {
            assert(an * cd == cn * ad) by (nonlinear_arith)
                requires
                    an * bd == bn * ad,
                    bn * cd == cn * bd,
                    bd > 0,
            {
                assert(an * bd * cd == bn * ad * cd);
                assert(bn * cd * ad == cn * bd * ad);
                assert((an * cd) * bd == (cn * ad) * bd);
            }
        }
    }
}

} // verus!

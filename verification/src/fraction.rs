//! Ratios of whole numbers, compared exactly.

use vstd::prelude::*;

verus! {

/// A ratio of two whole numbers; the second is not zero.
#[derive(Debug, Clone, Copy)]
pub struct Fraction {
    numerator: u64,
    denominator: u64,
}

/// Whether `part` is at least the share `num / den` of `whole`.
pub open spec fn share_reached(part: nat, whole: nat, num: nat, den: nat) -> bool {
    part * den >= num * whole
}

/// Whether `part` is more than the share `num / den` of `whole`.
pub open spec fn share_exceeded(part: nat, whole: nat, num: nat, den: nat) -> bool {
    part * den > num * whole
}

proof fn lemma_product_fits(a: u64, b: u64)
    ensures
        0 <= a * b <= u128::MAX,
{
    assert(0 <= a * b <= 0xffff_ffff_ffff_ffff * 0xffff_ffff_ffff_ffff) by (nonlinear_arith)
        requires
            0 <= a <= 0xffff_ffff_ffff_ffff,
            0 <= b <= 0xffff_ffff_ffff_ffff,
    ;
}

/// Multiplies without overflow.
pub fn widening_mul(a: u64, b: u64) -> (r: u128)
    ensures
        r == a * b,
{
    proof {
        lemma_product_fits(a, b);
    }
    (a as u128) * (b as u128)
}

impl Fraction {
    #[verifier::type_invariant]
    spec fn well_formed(self) -> bool {
        self.denominator > 0
    }

    pub closed spec fn num(self) -> nat {
        self.numerator as nat
    }

    pub closed spec fn den(self) -> nat {
        self.denominator as nat
    }

    /// The ratio of two numbers.
    pub closed spec fn of(numerator: u64, denominator: u64) -> Fraction {
        Fraction { numerator, denominator }
    }

    /// The share of `whole` that `part` is; nothing where `whole` is zero.
    pub open spec fn share_of(part: u64, whole: u64) -> Fraction {
        if whole == 0 {
            Fraction::of(0, 1)
        } else {
            Fraction::of(part, whole)
        }
    }

    /// The two numbers of a ratio.
    pub broadcast proof fn lemma_of(numerator: u64, denominator: u64)
        ensures
            (#[trigger] Fraction::of(numerator, denominator)).num() == numerator,
            Fraction::of(numerator, denominator).den() == denominator,
    {
    }

    /// The ratio of two numbers, where the second is not zero.
    pub fn new(numerator: u64, denominator: u64) -> (r: Option<Fraction>)
        ensures
            r is Some <==> denominator > 0,
            r matches Some(f) ==> f == Fraction::of(numerator, denominator),
            r matches Some(f) ==> f.num() == numerator && f.den() == denominator,
    {
        if denominator > 0 {
            Some(Fraction { numerator, denominator })
        } else {
            None
        }
    }

    /// So many hundredths.
    pub fn percent(hundredths: u64) -> (r: Fraction)
        ensures
            r == Fraction::of(hundredths, 100),
            r.num() == hundredths,
            r.den() == 100,
    {
        Fraction { numerator: hundredths, denominator: 100 }
    }

    /// The share of `whole` that `part` is; nothing where `whole` is zero.
    pub fn share(part: u64, whole: u64) -> (r: Fraction)
        ensures
            r == Fraction::share_of(part, whole),
            whole > 0 ==> r.num() == part && r.den() == whole,
            whole == 0 ==> r.num() == 0 && r.den() == 1,
    {
        if whole == 0 {
            Fraction { numerator: 0, denominator: 1 }
        } else {
            Fraction { numerator: part, denominator: whole }
        }
    }

    pub fn numerator(&self) -> (r: u64)
        ensures
            r == self.num(),
    {
        self.numerator
    }

    pub fn denominator(&self) -> (r: u64)
        ensures
            r == self.den(),
            r > 0,
    {
        proof {
            use_type_invariant(self);
        }
        self.denominator
    }

    /// Whether the ratio is at least `threshold`.
    pub fn at_least(&self, threshold: &Fraction) -> (r: bool)
        ensures
            r == share_reached(self.num(), self.den(), threshold.num(), threshold.den()),
    {
        widening_mul(self.numerator, threshold.denominator) >= widening_mul(
            threshold.numerator,
            self.denominator,
        )
    }

    /// Whether the ratio is more than `threshold`.
    pub fn exceeds(&self, threshold: &Fraction) -> (r: bool)
        ensures
            r == share_exceeded(self.num(), self.den(), threshold.num(), threshold.den()),
    {
        widening_mul(self.numerator, threshold.denominator) > widening_mul(
            threshold.numerator,
            self.denominator,
        )
    }
}

} // verus!

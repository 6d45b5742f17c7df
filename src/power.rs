use vstd::prelude::*;

use crate::votes::power;

verus! {

/// The weight of a motion, the decimal `mantissa / 10^scale`: a no vote counts
/// this many times against a yes vote.
#[derive(Clone, Copy, Debug, PartialEq, Eq, Structural)]
pub struct Power {
    pub mantissa: u64,
    pub scale: u32,
}

impl Power {
    /// Positive, with a scale whose power of ten fits a `u64`.
    pub open spec fn wf(&self) -> bool {
        self.mantissa > 0 && self.scale <= 19
    }

    pub fn new(mantissa: u64, scale: u32) -> (r: Option<Power>)
        ensures
            r is Some <==> mantissa > 0 && scale <= 19,
            r is Some ==> r->0 == (Power { mantissa, scale }),
    {
        if mantissa > 0 && scale <= 19 {
            Some(Power { mantissa, scale })
        } else {
            None
        }
    }

    /// A whole-number weight.
    pub fn from_integer(n: u64) -> (r: Option<Power>)
        ensures
            r is Some <==> n > 0,
            r is Some ==> r->0 == (Power { mantissa: n, scale: 0 }),
    {
        Power::new(n, 0)
    }
}

pub fn pow10(e: u32) -> (r: u64)
    requires
        e <= 19,
    ensures
        r as int == power(10, e as nat),
{
    proof {
        reveal_with_fuel(power, 20);
        assert(power(10, 19) == 10000000000000000000);
    }
    let mut r: u64 = 1;
    let mut i: u32 = 0;
    while i < e
        invariant
            i <= e <= 19,
            r as int == power(10, i as nat),
            r * power(10, (19 - i) as nat) == 10000000000000000000,
        decreases e - i,
    {
        proof {
            assert(power(10, (19 - i) as nat) == 10 * power(10, (19 - i - 1) as nat));
            lemma_pow10_pos((19 - i - 1) as nat);
            let p = power(10, (19 - i - 1) as nat);
            assert(10 * r <= 10000000000000000000) by (nonlinear_arith)
                requires
                    r * (10 * p) == 10000000000000000000,
                    p >= 1,
                    r >= 0,
            ;
            assert((10 * r) * p == 10000000000000000000) by (nonlinear_arith)
                requires
                    r * (10 * p) == 10000000000000000000,
            ;
        }
        r = r * 10;
        i = i + 1;
    }
    r
}

proof fn lemma_pow10_pos(e: nat)
    ensures
        power(10, e) >= 1,
    decreases e,
{
    if e > 0 {
        lemma_pow10_pos((e - 1) as nat);
    }
}

/// Whether a motion with these totals passes: the no votes, weighted by the
/// power, are fewer than the yes votes.
pub open spec fn wins(yes_votes: int, no_votes: int, power: Power) -> bool {
    no_votes * power.mantissa < yes_votes * crate::votes::power(10, power.scale as nat)
}

pub fn is_win(yes_votes: i64, no_votes: i64, power: &Power) -> (r: bool)
    requires
        power.wf(),
    ensures
        r == wins(yes_votes as int, no_votes as int, *power),
{
    let ten = pow10(power.scale);
    let m = power.mantissa;
    proof {
        assert(-0x8000_0000_0000_0000 * 0xffff_ffff_ffff_ffff <= no_votes * m <= 0x7fff_ffff_ffff_ffff
            * 0xffff_ffff_ffff_ffff) by (nonlinear_arith)
            requires
                -0x8000_0000_0000_0000 <= no_votes <= 0x7fff_ffff_ffff_ffff,
                0 <= m <= 0xffff_ffff_ffff_ffff,
        ;
        assert(-0x8000_0000_0000_0000 * 0xffff_ffff_ffff_ffff <= yes_votes * ten <= 0x7fff_ffff_ffff_ffff
            * 0xffff_ffff_ffff_ffff) by (nonlinear_arith)
            requires
                -0x8000_0000_0000_0000 <= yes_votes <= 0x7fff_ffff_ffff_ffff,
                0 <= ten <= 0xffff_ffff_ffff_ffff,
        ;
    }
    let lhs: i128 = no_votes as i128 * m as i128;
    let rhs: i128 = yes_votes as i128 * ten as i128;
    lhs < rhs
}

/// How a motion of this power is called.
pub open spec fn label_of(power: Power) -> Seq<char> {
    let one = crate::votes::power(10, power.scale as nat);
    if power.mantissa > one {
        "Supermotion"@
    } else if power.mantissa < one {
        "Submotion"@
    } else {
        "Simple motion"@
    }
}

pub fn motion_label(power: &Power) -> (r: String)
    requires
        power.wf(),
    ensures
        r@ == label_of(*power),
{
    let one = pow10(power.scale);
    if power.mantissa > one {
        String::from_str("Supermotion")
    } else if power.mantissa < one {
        String::from_str("Submotion")
    } else {
        String::from_str("Simple motion")
    }
}

} // verus!

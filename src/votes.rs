use vstd::prelude::*;

verus! {

/// What the first vote of a user on a motion costs.
pub const VOTE_BASE_COST: u64 = 40;

/// Vote costs must stay below this bound (2 to the 62nd).
pub const VOTE_COST_LIMIT: i64 = 4611686018427387904;

pub open spec fn power(b: int, e: nat) -> int
    decreases e,
{
    if e == 0 {
        1
    } else {
        b * power(b, (e - 1) as nat)
    }
}

/// The cost of a user's `n`-th vote on a motion: the base cost grown by five
/// percent for each earlier vote, rounded down.
pub open spec fn vote_cost(n: int) -> int {
    (VOTE_BASE_COST * power(21, (n - 1) as nat)) / power(20, (n - 1) as nat)
}

/// The cost of the `count` votes with ordinals `first`, `first + 1`, ...
pub open spec fn votes_total(first: int, count: nat) -> int
    decreases count,
{
    if count == 0 {
        0
    } else {
        votes_total(first, (count - 1) as nat) + vote_cost(first + count - 1)
    }
}

/// Whether each of those votes has a cost below the limit and every running
/// sum of their costs fits an `i64`.
pub open spec fn votes_affordable(first: int, count: nat) -> bool {
    forall|i: nat|
        #![trigger vote_cost(first + i)]
        #![trigger votes_total(first, i + 1)]
        i < count ==> vote_cost(first + i) < VOTE_COST_LIMIT && votes_total(first, i + 1)
            <= i64::MAX
}

/// The value of little-endian base-20 digits.
spec fn val20(d: Seq<u8>) -> int
    decreases d.len(),
{
    if d.len() == 0 {
        0
    } else {
        d[0] + 20 * val20(d.subrange(1, d.len() as int))
    }
}

spec fn base20(d: Seq<u8>) -> bool {
    forall|i: int| 0 <= i < d.len() ==> d[i] < 20
}

proof fn lemma_power_pos(b: int, e: nat)
    requires
        b > 0,
    ensures
        power(b, e) > 0,
    decreases e,
{
    if e > 0 {
        lemma_power_pos(b, (e - 1) as nat);
        assert(b * power(b, (e - 1) as nat) > 0) by (nonlinear_arith)
            requires
                b > 0,
                power(b, (e - 1) as nat) > 0,
        ;
    }
}

proof fn lemma_power_adds(b: int, e1: nat, e2: nat)
    ensures
        power(b, e1 + e2) == power(b, e1) * power(b, e2),
    decreases e2,
{
    if e2 > 0 {
        lemma_power_adds(b, e1, (e2 - 1) as nat);
        assert((e1 + e2 - 1) as nat == e1 + (e2 - 1) as nat);
        assert(power(b, e1 + e2) == b * power(b, (e1 + e2 - 1) as nat));
        assert(b * (power(b, e1) * power(b, (e2 - 1) as nat)) == power(b, e1) * (b * power(
            b,
            (e2 - 1) as nat,
        ))) by (nonlinear_arith);
    }
}

proof fn lemma_power_21_ge_20(e: nat)
    ensures
        power(21, e) >= power(20, e),
    decreases e,
{
    if e > 0 {
        lemma_power_21_ge_20((e - 1) as nat);
        lemma_power_pos(20, (e - 1) as nat);
        let a = power(21, (e - 1) as nat);
        let c = power(20, (e - 1) as nat);
        assert(21 * a >= 20 * c) by (nonlinear_arith)
            requires
                a >= c,
                c > 0,
        ;
    }
}

proof fn lemma_val20_nonneg(d: Seq<u8>)
    ensures
        val20(d) >= 0,
    decreases d.len(),
{
    if d.len() > 0 {
        lemma_val20_nonneg(d.subrange(1, d.len() as int));
    }
}

proof fn lemma_val20_push(d: Seq<u8>, x: u8)
    ensures
        val20(d.push(x)) == val20(d) + x * power(20, d.len()),
    decreases d.len(),
{
    let e = d.push(x);
    if d.len() == 0 {
        assert(e.subrange(1, 1) =~= Seq::<u8>::empty());
        assert(val20(Seq::<u8>::empty()) == 0);
        assert(e[0] == x);
        assert(val20(e) == x);
        assert(power(20, 0) == 1);
    } else {
        let t = d.subrange(1, d.len() as int);
        assert(e.subrange(1, e.len() as int) =~= t.push(x));
        lemma_val20_push(t, x);
        assert(e[0] == d[0]);
        assert(val20(e) == d[0] + 20 * val20(t.push(x)));
        assert(val20(d) == d[0] + 20 * val20(t));
        assert(power(20, d.len()) == 20 * power(20, t.len()));
        assert(20 * (val20(t) + x * power(20, t.len())) == 20 * val20(t) + x * (20 * power(
            20,
            t.len(),
        ))) by (nonlinear_arith);
    }
}

proof fn lemma_val20_split(d: Seq<u8>, k: int)
    requires
        0 <= k <= d.len(),
    ensures
        val20(d) == val20(d.subrange(0, k)) + power(20, k as nat) * val20(
            d.subrange(k, d.len() as int),
        ),
    decreases k,
{
    if k == 0 {
        assert(d.subrange(0, 0) =~= Seq::<u8>::empty());
        assert(val20(Seq::<u8>::empty()) == 0);
        assert(d.subrange(0, d.len() as int) =~= d);
        assert(power(20, 0) == 1);
    } else {
        let t = d.subrange(1, d.len() as int);
        lemma_val20_split(t, k - 1);
        let lo = d.subrange(0, k);
        assert(lo[0] == d[0]);
        assert(lo.subrange(1, lo.len() as int) =~= t.subrange(0, k - 1));
        assert(val20(lo) == d[0] + 20 * val20(t.subrange(0, k - 1)));
        assert(t.subrange(0, k - 1) =~= d.subrange(0, k).subrange(1, k));
        assert(t.subrange(k - 1, t.len() as int) =~= d.subrange(k, d.len() as int));
        let v = val20(d.subrange(k, d.len() as int));
        let p = power(20, (k - 1) as nat);
        assert(power(20, k as nat) == 20 * p);
        assert(20 * (val20(t.subrange(0, k - 1)) + p * v) == 20 * val20(t.subrange(0, k - 1)) + (
        20 * p) * v) by (nonlinear_arith);
    }
}

proof fn lemma_val20_bound(d: Seq<u8>)
    requires
        base20(d),
    ensures
        val20(d) < power(20, d.len()),
    decreases d.len(),
{
    if d.len() > 0 {
        let t = d.subrange(1, d.len() as int);
        lemma_val20_bound(t);
        let p = power(20, t.len());
        assert(power(20, d.len()) == 20 * p);
        assert(d[0] + 20 * val20(t) < 20 * p) by (nonlinear_arith)
            requires
                d[0] < 20,
                val20(t) < p,
        ;
    }
}

/// The high part of a base-20 numeral, past its `k` lowest digits, is the
/// numeral divided by 20 to the `k`.
proof fn lemma_val20_shift(d: Seq<u8>, k: int)
    requires
        base20(d),
        0 <= k <= d.len(),
    ensures
        val20(d.subrange(k, d.len() as int)) == val20(d) / power(20, k as nat),
{
    lemma_val20_split(d, k);
    let lo = d.subrange(0, k);
    assert(base20(lo));
    lemma_val20_bound(lo);
    lemma_val20_nonneg(lo);
    lemma_power_pos(20, k as nat);
    let p = power(20, k as nat);
    let h = val20(d.subrange(k, d.len() as int));
    assert(val20(d) == h * p + val20(lo)) by (nonlinear_arith)
        requires
            val20(d) == val20(lo) + p * h,
    ;
    vstd::arithmetic::div_mod::lemma_fundamental_div_mod_converse(val20(d), p, h, val20(lo));
}

/// The numerator `VOTE_BASE_COST * 21^k` of the cost of vote `k + 1`, in
/// base 20, so that the cost is the part past its `k` lowest digits.
struct CostCursor {
    digits: Vec<u8>,
    k: u64,
}

impl CostCursor {
    spec fn wf(&self) -> bool {
        &&& base20(self.digits@)
        &&& self.digits@.len() > self.k
        &&& val20(self.digits@) == VOTE_BASE_COST * power(21, self.k as nat)
    }

    fn start() -> (r: CostCursor)
        ensures
            r.wf(),
            r.k == 0,
    {
        let mut digits: Vec<u8> = Vec::new();
        digits.push(0);
        digits.push(2);
        proof {
            let s2 = digits@.subrange(1, 2);
            assert(s2.subrange(1, 1) =~= Seq::<u8>::empty());
            assert(val20(Seq::<u8>::empty()) == 0);
            assert(s2[0] == 2);
            assert(val20(s2) == 2);
            assert(val20(digits@) == 40);
            assert(power(21, 0) == 1);
        }
        CostCursor { digits, k: 0 }
    }

    /// The cost of vote `k + 1`, or `None` where it is not below the limit.
    fn current(&self) -> (r: Option<i64>)
        requires
            self.wf(),
        ensures
            r is Some <==> vote_cost(self.k + 1) < VOTE_COST_LIMIT,
            r is Some ==> r->0 as int == vote_cost(self.k + 1),
            r is Some ==> r->0 >= 0,
    {
        let ghost d = self.digits@;
        let n = self.digits.len();
        let k = self.k as usize;
        proof {
            lemma_val20_shift(d, k as int);
            assert((self.k + 1 - 1) as nat == self.k as nat);
            assert(vote_cost(self.k + 1) == val20(d) / power(20, self.k as nat));
            assert(vote_cost(self.k + 1) == val20(d.subrange(k as int, n as int)));
        }
        let mut acc: i64 = 0;
        let mut j: usize = n;
        while j > k
            invariant
                k < n == d.len(),
                d == self.digits@,
                base20(d),
                k <= j <= n,
                acc as int == val20(d.subrange(j as int, n as int)),
                0 <= acc < VOTE_COST_LIMIT,
                k == self.k,
                vote_cost(self.k + 1) == val20(d.subrange(k as int, n as int)),
            decreases j,
        {
            let dig = self.digits[j - 1];
            proof {
                assert(d.subrange(j - 1, n as int).subrange(1, (n - j + 1) as int) =~= d.subrange(
                    j as int,
                    n as int,
                ));
            }
            let next: u128 = acc as u128 * 20 + dig as u128;
            proof {
                assert(val20(d.subrange(j - 1, n as int)) == next);
            }
            if next >= VOTE_COST_LIMIT as u128 {
                proof {
                    let s = d.subrange(k as int, n as int);
                    lemma_val20_split(s, (j - 1 - k) as int);
                    assert(s.subrange((j - 1 - k) as int, s.len() as int) =~= d.subrange(
                        j - 1,
                        n as int,
                    ));
                    lemma_val20_nonneg(s.subrange(0, (j - 1 - k) as int));
                    lemma_power_pos(20, (j - 1 - k) as nat);
                    let p = power(20, (j - 1 - k) as nat);
                    assert(p * next >= next) by (nonlinear_arith)
                        requires
                            p >= 1,
                            next >= 0,
                    ;
                    assert(val20(s) >= next);
                    assert(vote_cost(self.k + 1) == val20(s));
                }
                return None;
            }
            acc = next as i64;
            j = j - 1;
        }
        proof {
            assert(d.subrange(k as int, n as int) == d.subrange(j as int, n as int));
        }
        Some(acc)
    }

    /// Moves on to the next vote: the numerator is multiplied by 21.
    fn advance(&mut self)
        requires
            old(self).wf(),
            old(self).k < u64::MAX,
        ensures
            final(self).wf(),
            final(self).k == old(self).k + 1,
    {
        let ghost d = self.digits@;
        let n = self.digits.len();
        let mut out: Vec<u8> = Vec::new();
        let mut carry: u32 = 0;
        let mut i: usize = 0;
        while i < n
            invariant
                n == d.len(),
                d == self.digits@,
                base20(d),
                0 <= i <= n,
                out@.len() == i,
                base20(out@),
                carry <= 20,
                val20(out@) + carry * power(20, i as nat) == 21 * val20(d.subrange(0, i as int)),
            decreases n - i,
        {
            let x: u32 = self.digits[i] as u32 * 21 + carry;
            let digit: u8 = (x % 20) as u8;
            proof {
                lemma_val20_push(out@, digit);
                lemma_val20_push(d.subrange(0, i as int), d[i as int]);
                assert(d.subrange(0, i as int).push(d[i as int]) =~= d.subrange(0, i as int + 1));
                let p = power(20, i as nat);
                assert(power(20, (i + 1) as nat) == 20 * p);
                let vo = val20(out@);
                let vd = val20(d.subrange(0, i as int));
                let di = d[i as int] as int;
                assert(vo + digit * p + (x / 20) * (20 * p) == 21 * (vd + di * p)) by (nonlinear_arith)
                    requires
                        digit == x % 20,
                        x == di * 21 + carry,
                        vo + carry * p == 21 * vd,
                ;
            }
            out.push(digit);
            carry = x / 20;
            i = i + 1;
        }
        let ghost vo = val20(out@);
        let ghost p = power(20, n as nat);
        let ghost mid = out@;
        let low: u8 = (carry % 20) as u8;
        proof {
            assert(d.subrange(0, n as int) =~= d);
            assert(vo + carry * p == 21 * val20(d));
            lemma_val20_push(mid, low);
        }
        out.push(low);
        assert(out@ == mid.push(low));
        if carry >= 20 {
            let high: u8 = (carry / 20) as u8;
            let ghost mid2 = out@;
            proof {
                assert(carry == 20);
                assert(low == 0);
                assert(low * power(20, mid.len()) == 0) by (nonlinear_arith)
                    requires
                        low == 0,
                ;
                assert(val20(mid2) == vo);
                lemma_val20_push(mid2, high);
                assert(power(20, (n + 1) as nat) == 20 * p);
                assert(high == 1);
            }
            out.push(high);
            proof {
                assert(out@ == mid2.push(high));
                assert(val20(out@) == vo + 20 * p);
            }
        } else {
            proof {
                assert(carry % 20 == carry);
                assert(val20(out@) == vo + carry * p);
            }
        }
        proof {
            assert(val20(out@) == 21 * val20(d));
            assert(power(21, (self.k + 1) as nat) == 21 * power(21, self.k as nat));
            assert(21 * (VOTE_BASE_COST * power(21, self.k as nat)) == VOTE_BASE_COST * (21 * power(
                21,
                self.k as nat,
            ))) by (nonlinear_arith);
        }
        self.digits = out;
        self.k = self.k + 1;
    }
}

/// The first vote costs exactly the base cost.
pub proof fn lemma_first_vote_cost()
    ensures
        vote_cost(1) == VOTE_BASE_COST,
{
    assert(power(21, 0) == 1);
    assert(power(20, 0) == 1);
}

proof fn lemma_vote_cost_step(n: int)
    requires
        n >= 1,
    ensures
        vote_cost(n) < vote_cost(n + 1),
        vote_cost(n) >= VOTE_BASE_COST,
{
    let k = (n - 1) as nat;
    assert((n + 1 - 1) as nat == k + 1);
    let a = VOTE_BASE_COST * power(21, k);
    let d = power(20, k);
    lemma_power_pos(20, k);
    lemma_power_21_ge_20(k);
    assert(power(21, k + 1) == 21 * power(21, k));
    assert(power(20, k + 1) == 20 * power(20, k));
    let q = a / d;
    let a2 = VOTE_BASE_COST * power(21, k + 1);
    let d2 = power(20, k + 1);
    assert(a2 == 21 * a) by (nonlinear_arith)
        requires
            a2 == VOTE_BASE_COST * power(21, k + 1),
            power(21, k + 1) == 21 * power(21, k),
            a == VOTE_BASE_COST * power(21, k),
    ;
    assert(a >= 40 * d) by (nonlinear_arith)
        requires
            a == 40 * power(21, k),
            power(21, k) >= d,
    ;
    vstd::arithmetic::div_mod::lemma_fundamental_div_mod(a, d);
    assert(q * d <= a);
    assert((q + 1) * d2 <= a2) by (nonlinear_arith)
        requires
            d2 == 20 * d,
            a2 == 21 * a,
            q * d <= a,
            a >= 40 * d,
            d > 0,
    ;
    vstd::arithmetic::div_mod::lemma_fundamental_div_mod(a2, d2);
    let q2 = a2 / d2;
    assert(q2 >= q + 1) by (nonlinear_arith)
        requires
            (q + 1) * d2 <= a2,
            a2 == d2 * q2 + a2 % d2,
            0 <= a2 % d2 < d2,
            d2 > 0,
    ;
    assert(q >= 40) by (nonlinear_arith)
        requires
            a >= 40 * d,
            a == d * q + a % d,
            0 <= a % d < d,
            d > 0,
    ;
}

/// Each further vote costs strictly more than the one before.
pub proof fn lemma_vote_cost_increasing(m: int, n: int)
    requires
        1 <= m < n,
    ensures
        vote_cost(m) < vote_cost(n),
    decreases n - m,
{
    lemma_vote_cost_step(m);
    if m + 1 < n {
        lemma_vote_cost_increasing(m + 1, n);
    }
}

/// Buying `k` votes and then `j` more costs what buying `k + j` at once does.
pub proof fn lemma_votes_total_additive(first: int, k: nat, j: nat)
    ensures
        votes_total(first, k + j) == votes_total(first, k) + votes_total(first + k, j),
    decreases j,
{
    if j > 0 {
        lemma_votes_total_additive(first, k, (j - 1) as nat);
        assert((k + j - 1) as nat == k + (j - 1) as nat);
    }
}

proof fn lemma_votes_total_nonneg(first: int, count: nat)
    requires
        first >= 1,
    ensures
        votes_total(first, count) >= 0,
    decreases count,
{
    if count > 0 {
        lemma_votes_total_nonneg(first, (count - 1) as nat);
        lemma_vote_cost_step(first + count - 1);
    }
}

/// A purchase of `k + j` votes that goes through splits into a purchase of
/// `k` votes and one of the `j` after them that both go through as well.
pub proof fn lemma_affordable_split(first: int, k: nat, j: nat)
    requires
        first >= 1,
        votes_affordable(first, k + j),
    ensures
        votes_affordable(first, k),
        votes_affordable(first + k, j),
{
    assert forall|i: nat| i < k implies #[trigger] vote_cost(first + i) < VOTE_COST_LIMIT && votes_total(first, i + 1)
        <= i64::MAX by {
        assert(votes_total(first, i + 1) <= i64::MAX);
    }
    assert forall|i: nat| i < j implies #[trigger] vote_cost((first + k) + i) < VOTE_COST_LIMIT && votes_total(
        first + k,
        i + 1,
    ) <= i64::MAX by {
        let n: nat = k + i;
        assert(first + n == (first + k) + i);
        assert(vote_cost(first + n) < VOTE_COST_LIMIT);
        assert(votes_total(first, n + 1) <= i64::MAX);
        lemma_votes_total_additive(first, k, i + 1);
        assert(k + (i + 1) == n + 1);
        lemma_votes_total_nonneg(first, k);
    }
}

/// The cost of the `n`-th vote; fails where it is not below the limit.
pub fn nth_vote_cost(n: i64) -> (r: Result<i64, ()>)
    requires
        n >= 1,
    ensures
        r is Ok <==> vote_cost(n as int) < VOTE_COST_LIMIT,
        r is Ok ==> r->Ok_0 as int == vote_cost(n as int),
{
    let mut cursor = CostCursor::start();
    let target: u64 = (n - 1) as u64;
    while cursor.k < target
        invariant
            cursor.wf(),
            cursor.k <= target,
            target == n - 1,
        decreases target - cursor.k,
    {
        if cursor.current().is_none() {
            proof {
                if cursor.k + 1 < n {
                    lemma_vote_cost_increasing(cursor.k + 1, n as int);
                }
            }
            return Err(());
        }
        cursor.advance();
    }
    match cursor.current() {
        Some(c) => Ok(c),
        None => Err(()),
    }
}

/// The total cost of the `count` votes with ordinals `first` onwards, summed
/// with a check on every addition. Fails where one of those votes has a cost
/// not below the limit, or a running sum leaves `i64`.
pub fn votes_cost(first: i64, count: i64) -> (r: Result<i64, ()>)
    requires
        first >= 1,
        count >= 0,
    ensures
        r is Ok <==> votes_affordable(first as int, count as nat),
        r is Ok ==> r->Ok_0 as int == votes_total(first as int, count as nat),
        r is Ok ==> r->Ok_0 >= 0,
{
    if count == 0 {
        return Ok(0);
    }
    let mut cursor = CostCursor::start();
    let target: u64 = (first - 1) as u64;
    while cursor.k < target
        invariant
            cursor.wf(),
            cursor.k <= target,
            target == first - 1,
            count > 0,
        decreases target - cursor.k,
    {
        if cursor.current().is_none() {
            proof {
                if cursor.k + 1 < first {
                    lemma_vote_cost_increasing(cursor.k + 1, first as int);
                }
                assert(vote_cost(first as int + 0nat) >= VOTE_COST_LIMIT);
            }
            return Err(());
        }
        cursor.advance();
    }
    let mut total: i64 = 0;
    let mut i: i64 = 0;
    while i < count
        invariant
            cursor.wf(),
            0 <= i <= count,
            cursor.k == first - 1 + i,
            total as int == votes_total(first as int, i as nat),
            total >= 0,
            votes_affordable(first as int, i as nat),
        decreases count - i,
    {
        let c = match cursor.current() {
            Some(c) => c,
            None => {
                proof {
                    assert(cursor.k + 1 == first + i as nat);
                    assert(vote_cost(first as int + i as nat) >= VOTE_COST_LIMIT);
                }
                return Err(());
            },
        };
        proof {
            assert(cursor.k + 1 == first + i as nat);
            assert(votes_total(first as int, (i + 1) as nat) == total + c);
        }
        let next = if total <= i64::MAX - c {
            total + c
        } else {
            {
                proof {
                    assert(total + c > i64::MAX);
                    assert(votes_total(first as int, (i + 1) as nat) > i64::MAX);
                    assert((i + 1) as nat == i as nat + 1);
                    assert(votes_total(first as int, i as nat + 1) > i64::MAX);
                }
                return Err(());
            }
        };
        proof {
            assert(vote_cost(first as int + i as nat) < VOTE_COST_LIMIT);
            assert forall|j: nat| j < (i + 1) as nat implies #[trigger] vote_cost(first as int + j) < VOTE_COST_LIMIT
                && votes_total(first as int, j + 1) <= i64::MAX by {
                if j < i {
                    assert(votes_total(first as int, j + 1) <= i64::MAX);
                } else {
                    assert(j == i);
                }
            }
        }
        total = next;
        cursor.advance();
        i = i + 1;
    }
    Ok(total)
}

} // verus!

//! The trial-division nearest-"prime" searches that serve as the hash and
//! diffusion primitive of the generator.
//!
//! Both searches keep the literal semantics of their scan loops, including
//! the small-value quirk: a candidate whose scan range is empty is returned
//! unchecked, whether or not it is prime. The contracts therefore speak of
//! scan survival, not of mathematical primality.
use vstd::prelude::*;

use crate::heightmap::HeightMap;

verus! {

/// Largest input the ascending search accepts; keeps the scan below its
/// tabulated ceiling.
pub const PRIME_INPUT_LIMIT: usize = 17292;

/// A scan-surviving value above every accepted input: the ascending search
/// never runs past it.
pub const PRIME_CEILING: usize = 17293;

/// Survives the ascending trial scan: no divisor in `[2, m/2)`.
pub open spec fn np_ok(m: int) -> bool {
    forall|d: int| 2 <= d < m / 2 ==> #[trigger] (m % d) != 0
}

/// Survives the descending trial scan: no divisor in `(2, m/2]`.
pub open spec fn lp_ok(m: int) -> bool {
    forall|d: int| 2 < d <= m / 2 ==> #[trigger] (m % d) != 0
}

/// `m` is exactly what the ascending search started at `n` returns: the least
/// scan survivor above `n`.
pub open spec fn np_at(n: int, m: int) -> bool {
    &&& n < m
    &&& np_ok(m)
    &&& forall|k: int| n < k < m ==> !np_ok(k)
}

/// `m` is exactly what the descending search started at `n > 1` returns: the
/// greatest scan survivor below `n`.
pub open spec fn lp_at(n: int, m: int) -> bool {
    &&& m < n
    &&& lp_ok(m)
    &&& forall|k: int| m < k < n ==> !lp_ok(k)
}

/// The value of the ascending search.
pub open spec fn np_val(n: int) -> int {
    choose|m: int| np_at(n, m)
}

/// The value of the descending search; inputs of at most 1 start the
/// candidate at the fixed fallback 3, whose scan range is empty.
pub open spec fn lp_val(n: int) -> int {
    if n <= 1 {
        3
    } else {
        choose|m: int| lp_at(n, m)
    }
}

/// The ascending search's result characterizes `np_val` uniquely.
pub proof fn lemma_np_val_is(n: int, r: int)
    requires
        np_at(n, r),
    ensures
        np_val(n) == r,
{
    assert(np_at(n, np_val(n))) by {
        assert(exists|m: int| np_at(n, m)) by {
            assert(np_at(n, r));
        }
    }
    let m = np_val(n);
    if m < r {
        assert(np_ok(m));
        assert(!np_ok(m));
    }
    if r < m {
        assert(np_ok(r));
        assert(!np_ok(r));
    }
}

/// The descending search's result characterizes `lp_val` uniquely.
pub proof fn lemma_lp_val_is(n: int, r: int)
    requires
        n > 1,
        lp_at(n, r),
    ensures
        lp_val(n) == r,
{
    assert(lp_at(n, lp_val(n))) by {
        assert(exists|m: int| lp_at(n, m)) by {
            assert(lp_at(n, r));
        }
    }
    let m = lp_val(n);
    if m < r {
        assert(lp_ok(m));
        assert(!lp_ok(m));
    }
    if r < m {
        assert(lp_ok(r));
        assert(!lp_ok(r));
    }
}

/// A value with no divisor up to its square root has none up to half of it.
pub proof fn lemma_scan_ok(m: int, s: int)
    requires
        2 <= m,
        1 <= s,
        s * s > m,
        forall|d: int| 2 <= d <= s ==> #[trigger] (m % d) != 0,
    ensures
        np_ok(m),
        lp_ok(m),
{
    assert forall|d: int| 2 <= d <= m / 2 implies #[trigger] (m % d) != 0 by {
        if m % d == 0 {
            assert(d > s);
            let q = m / d;
            vstd::arithmetic::div_mod::lemma_fundamental_div_mod(m, d);
            assert(m == d * q);
            assert(q >= 1) by (nonlinear_arith)
                requires
                    m >= 2 && d >= 2 && m == d * q,
            ;
            if q == 1 {
                assert(m == d) by (nonlinear_arith)
                    requires
                        m == d * q && q == 1,
                ;
                assert(false);
            }
            if q > s {
                assert(d * q > s * s) by (nonlinear_arith)
                    requires
                        d > s && q > s && s >= 1,
                ;
                assert(false);
            }
            vstd::arithmetic::div_mod::lemma_mod_multiples_basic(d, q);
            assert((d * q) % q == 0);
            assert(false);
        }
    }
}

/// 67, the diffusion modulus of the default grid, survives every trial
/// divisor.
pub proof fn lemma_np_ok_67()
    ensures
        np_ok(67),
        lp_ok(67),
{
    assert forall|d: int| 2 <= d <= 9 implies #[trigger] (67int % d) != 0 by {
        if d == 2 {
            assert(67int % 2int != 0);
        } else if d == 3 {
            assert(67int % 3int != 0);
        } else if d == 4 {
            assert(67int % 4int != 0);
        } else if d == 5 {
            assert(67int % 5int != 0);
        } else if d == 6 {
            assert(67int % 6int != 0);
        } else if d == 7 {
            assert(67int % 7int != 0);
        } else if d == 8 {
            assert(67int % 8int != 0);
        } else if d == 9 {
            assert(67int % 9int != 0);
        }
    }
    lemma_scan_ok(67, 9);
}

/// The search ceiling survives every trial divisor.
pub proof fn lemma_np_ok_ceiling()
    ensures
        np_ok(PRIME_CEILING as int),
        lp_ok(PRIME_CEILING as int),
{
    assert forall|d: int| 2 <= d <= 132 implies #[trigger] (17293int % d) != 0 by {
        if d == 2 {
            assert(17293int % 2int != 0);
        } else if d == 3 {
            assert(17293int % 3int != 0);
        } else if d == 4 {
            assert(17293int % 4int != 0);
        } else if d == 5 {
            assert(17293int % 5int != 0);
        } else if d == 6 {
            assert(17293int % 6int != 0);
        } else if d == 7 {
            assert(17293int % 7int != 0);
        } else if d == 8 {
            assert(17293int % 8int != 0);
        } else if d == 9 {
            assert(17293int % 9int != 0);
        } else if d == 10 {
            assert(17293int % 10int != 0);
        } else if d == 11 {
            assert(17293int % 11int != 0);
        } else if d == 12 {
            assert(17293int % 12int != 0);
        } else if d == 13 {
            assert(17293int % 13int != 0);
        } else if d == 14 {
            assert(17293int % 14int != 0);
        } else if d == 15 {
            assert(17293int % 15int != 0);
        } else if d == 16 {
            assert(17293int % 16int != 0);
        } else if d == 17 {
            assert(17293int % 17int != 0);
        } else if d == 18 {
            assert(17293int % 18int != 0);
        } else if d == 19 {
            assert(17293int % 19int != 0);
        } else if d == 20 {
            assert(17293int % 20int != 0);
        } else if d == 21 {
            assert(17293int % 21int != 0);
        } else if d == 22 {
            assert(17293int % 22int != 0);
        } else if d == 23 {
            assert(17293int % 23int != 0);
        } else if d == 24 {
            assert(17293int % 24int != 0);
        } else if d == 25 {
            assert(17293int % 25int != 0);
        } else if d == 26 {
            assert(17293int % 26int != 0);
        } else if d == 27 {
            assert(17293int % 27int != 0);
        } else if d == 28 {
            assert(17293int % 28int != 0);
        } else if d == 29 {
            assert(17293int % 29int != 0);
        } else if d == 30 {
            assert(17293int % 30int != 0);
        } else if d == 31 {
            assert(17293int % 31int != 0);
        } else if d == 32 {
            assert(17293int % 32int != 0);
        } else if d == 33 {
            assert(17293int % 33int != 0);
        } else if d == 34 {
            assert(17293int % 34int != 0);
        } else if d == 35 {
            assert(17293int % 35int != 0);
        } else if d == 36 {
            assert(17293int % 36int != 0);
        } else if d == 37 {
            assert(17293int % 37int != 0);
        } else if d == 38 {
            assert(17293int % 38int != 0);
        } else if d == 39 {
            assert(17293int % 39int != 0);
        } else if d == 40 {
            assert(17293int % 40int != 0);
        } else if d == 41 {
            assert(17293int % 41int != 0);
        } else if d == 42 {
            assert(17293int % 42int != 0);
        } else if d == 43 {
            assert(17293int % 43int != 0);
        } else if d == 44 {
            assert(17293int % 44int != 0);
        } else if d == 45 {
            assert(17293int % 45int != 0);
        } else if d == 46 {
            assert(17293int % 46int != 0);
        } else if d == 47 {
            assert(17293int % 47int != 0);
        } else if d == 48 {
            assert(17293int % 48int != 0);
        } else if d == 49 {
            assert(17293int % 49int != 0);
        } else if d == 50 {
            assert(17293int % 50int != 0);
        } else if d == 51 {
            assert(17293int % 51int != 0);
        } else if d == 52 {
            assert(17293int % 52int != 0);
        } else if d == 53 {
            assert(17293int % 53int != 0);
        } else if d == 54 {
            assert(17293int % 54int != 0);
        } else if d == 55 {
            assert(17293int % 55int != 0);
        } else if d == 56 {
            assert(17293int % 56int != 0);
        } else if d == 57 {
            assert(17293int % 57int != 0);
        } else if d == 58 {
            assert(17293int % 58int != 0);
        } else if d == 59 {
            assert(17293int % 59int != 0);
        } else if d == 60 {
            assert(17293int % 60int != 0);
        } else if d == 61 {
            assert(17293int % 61int != 0);
        } else if d == 62 {
            assert(17293int % 62int != 0);
        } else if d == 63 {
            assert(17293int % 63int != 0);
        } else if d == 64 {
            assert(17293int % 64int != 0);
        } else if d == 65 {
            assert(17293int % 65int != 0);
        } else if d == 66 {
            assert(17293int % 66int != 0);
        } else if d == 67 {
            assert(17293int % 67int != 0);
        } else if d == 68 {
            assert(17293int % 68int != 0);
        } else if d == 69 {
            assert(17293int % 69int != 0);
        } else if d == 70 {
            assert(17293int % 70int != 0);
        } else if d == 71 {
            assert(17293int % 71int != 0);
        } else if d == 72 {
            assert(17293int % 72int != 0);
        } else if d == 73 {
            assert(17293int % 73int != 0);
        } else if d == 74 {
            assert(17293int % 74int != 0);
        } else if d == 75 {
            assert(17293int % 75int != 0);
        } else if d == 76 {
            assert(17293int % 76int != 0);
        } else if d == 77 {
            assert(17293int % 77int != 0);
        } else if d == 78 {
            assert(17293int % 78int != 0);
        } else if d == 79 {
            assert(17293int % 79int != 0);
        } else if d == 80 {
            assert(17293int % 80int != 0);
        } else if d == 81 {
            assert(17293int % 81int != 0);
        } else if d == 82 {
            assert(17293int % 82int != 0);
        } else if d == 83 {
            assert(17293int % 83int != 0);
        } else if d == 84 {
            assert(17293int % 84int != 0);
        } else if d == 85 {
            assert(17293int % 85int != 0);
        } else if d == 86 {
            assert(17293int % 86int != 0);
        } else if d == 87 {
            assert(17293int % 87int != 0);
        } else if d == 88 {
            assert(17293int % 88int != 0);
        } else if d == 89 {
            assert(17293int % 89int != 0);
        } else if d == 90 {
            assert(17293int % 90int != 0);
        } else if d == 91 {
            assert(17293int % 91int != 0);
        } else if d == 92 {
            assert(17293int % 92int != 0);
        } else if d == 93 {
            assert(17293int % 93int != 0);
        } else if d == 94 {
            assert(17293int % 94int != 0);
        } else if d == 95 {
            assert(17293int % 95int != 0);
        } else if d == 96 {
            assert(17293int % 96int != 0);
        } else if d == 97 {
            assert(17293int % 97int != 0);
        } else if d == 98 {
            assert(17293int % 98int != 0);
        } else if d == 99 {
            assert(17293int % 99int != 0);
        } else if d == 100 {
            assert(17293int % 100int != 0);
        } else if d == 101 {
            assert(17293int % 101int != 0);
        } else if d == 102 {
            assert(17293int % 102int != 0);
        } else if d == 103 {
            assert(17293int % 103int != 0);
        } else if d == 104 {
            assert(17293int % 104int != 0);
        } else if d == 105 {
            assert(17293int % 105int != 0);
        } else if d == 106 {
            assert(17293int % 106int != 0);
        } else if d == 107 {
            assert(17293int % 107int != 0);
        } else if d == 108 {
            assert(17293int % 108int != 0);
        } else if d == 109 {
            assert(17293int % 109int != 0);
        } else if d == 110 {
            assert(17293int % 110int != 0);
        } else if d == 111 {
            assert(17293int % 111int != 0);
        } else if d == 112 {
            assert(17293int % 112int != 0);
        } else if d == 113 {
            assert(17293int % 113int != 0);
        } else if d == 114 {
            assert(17293int % 114int != 0);
        } else if d == 115 {
            assert(17293int % 115int != 0);
        } else if d == 116 {
            assert(17293int % 116int != 0);
        } else if d == 117 {
            assert(17293int % 117int != 0);
        } else if d == 118 {
            assert(17293int % 118int != 0);
        } else if d == 119 {
            assert(17293int % 119int != 0);
        } else if d == 120 {
            assert(17293int % 120int != 0);
        } else if d == 121 {
            assert(17293int % 121int != 0);
        } else if d == 122 {
            assert(17293int % 122int != 0);
        } else if d == 123 {
            assert(17293int % 123int != 0);
        } else if d == 124 {
            assert(17293int % 124int != 0);
        } else if d == 125 {
            assert(17293int % 125int != 0);
        } else if d == 126 {
            assert(17293int % 126int != 0);
        } else if d == 127 {
            assert(17293int % 127int != 0);
        } else if d == 128 {
            assert(17293int % 128int != 0);
        } else if d == 129 {
            assert(17293int % 129int != 0);
        } else if d == 130 {
            assert(17293int % 130int != 0);
        } else if d == 131 {
            assert(17293int % 131int != 0);
        } else if d == 132 {
            assert(17293int % 132int != 0);
        }
    }
    lemma_scan_ok(17293, 132);
}

/// An ascending search from below a known scan survivor never passes it.
pub proof fn lemma_np_result_le(num: int, r: int, p: int)
    requires
        num < r,
        forall|k: int| num < k < r ==> !np_ok(k),
        np_ok(p),
        num < p,
    ensures
        r <= p,
{
    if r > p {
        assert(!np_ok(p));
    }
}

impl HeightMap {
    /// Ascending nearest-"prime" search. Starting from `num + 1`, a candidate
    /// is scanned by every trial divisor in `[2, candidate/2)`; the first
    /// divisor found moves the search to the next candidate. A candidate of
    /// at most 5 has an empty scan range and is returned unchecked.
    pub fn next_prime(num: usize) -> (r: usize)
        requires
            num <= PRIME_INPUT_LIMIT,
        ensures
            num < r <= PRIME_CEILING,
            np_ok(r as int),
            forall|k: int| num < k < r ==> !np_ok(k),
            r as int == np_val(num as int),
    {
        proof {
            lemma_np_ok_ceiling();
        }
        let mut prime: usize = num + 1;
        let mut i: usize = 2;
        while i < prime / 2
            invariant
                num < prime <= PRIME_CEILING,
                2 <= i,
                forall|d: int| 2 <= d < i ==> #[trigger] ((prime as int) % d) != 0,
                forall|k: int| num < k < prime ==> !np_ok(k),
            decreases PRIME_CEILING - prime, prime / 2 - i,
        {
            if prime % i != 0 {
                i = i + 1;
            } else {
                proof {
                    assert(!np_ok(prime as int)) by {
                        assert(2 <= i < prime / 2 && (prime as int) % (i as int) == 0);
                    }
                    lemma_np_ok_ceiling();
                }
                prime = prime + 1;
                i = 2;
            }
        }
        proof {
            assert(np_ok(prime as int));
            lemma_np_val_is(num as int, prime as int);
        }
        prime
    }

    /// Descending nearest-"prime" search. For `num > 1` the candidate starts
    /// at `num - 1` and is scanned by every trial divisor in `(2, candidate/2]`
    /// from the top down; a divisor found moves the search one lower. For
    /// `num` of at most 1 the candidate is the fixed fallback 3. A candidate
    /// of at most 5 has an empty scan range and is returned unchecked.
    pub fn last_prime(num: usize) -> (r: usize)
        ensures
            lp_ok(r as int),
            r as int == lp_val(num as int),
            num > 1 ==> 1 <= r < num,
            num <= 1 ==> r == 3,
    {
        if num <= 1 {
            return 3;
        }
        let mut prime: usize = num - 1;
        let mut i: usize = prime / 2;
        while i > 2
            invariant
                1 <= prime < num,
                i <= prime / 2,
                forall|d: int| i < d <= prime / 2 ==> #[trigger] ((prime as int) % d) != 0,
                forall|k: int| prime < k < num ==> !lp_ok(k),
            decreases prime, i,
        {
            if prime % i != 0 {
                i = i - 1;
            } else {
                proof {
                    assert(!lp_ok(prime as int)) by {
                        assert(2 < i <= prime / 2 && (prime as int) % (i as int) == 0);
                    }
                }
                prime = prime - 1;
                i = prime / 2;
            }
        }
        proof {
            assert(lp_ok(prime as int));
            lemma_lp_val_is(num as int, prime as int);
        }
        prime
    }
}

/// The diffusion value drawn from a small seed: the seed is spread through
/// both prime searches, folded by a wrapping product and remainder, and the
/// two searches of the folded value are multiplied back together.
pub open spec fn rv_spec(seed: usize) -> usize {
    let d0 = crate::arith::uwmul(seed, lp_val(seed as int) as usize);
    let dv = if d0 == 0 {
        1usize
    } else {
        d0
    };
    let val = ((crate::arith::uwmul(seed, np_val(seed as int) as usize) as int % dv as int)
        as usize);
    crate::arith::uwmul(np_val(val as int) as usize, lp_val(val as int) as usize)
}

impl HeightMap {
    /// Draws the deterministic diffusion value of a small seed; a zero folded
    /// divisor falls back to 1.
    pub fn random_value(&self, seed: usize) -> (r: usize)
        requires
            seed <= 132,
        ensures
            r == rv_spec(seed),
    {
        let np1 = HeightMap::next_prime(seed);
        let lp1 = HeightMap::last_prime(seed);
        let d0 = seed.wrapping_mul(lp1);
        proof {
            assert(lp1 <= 131) by {
                if seed > 1 {
                } else {
                }
            }
            assert(seed * lp1 <= 132 * 131) by (nonlinear_arith)
                requires
                    0 <= seed <= 132 && 0 <= lp1 <= 131,
            ;
            assert(seed * lp1 <= usize::MAX) by {
                assert(usize::MAX >= 0xffff_ffffusize);
            }
            assert(d0 == seed * lp1) by {
                vstd::arithmetic::div_mod::lemma_small_mod(
                    (seed * lp1) as nat,
                    (usize::MAX - usize::MIN + 1) as nat,
                );
            }
        }
        let dv = if d0 == 0 {
            1
        } else {
            d0
        };
        let val = seed.wrapping_mul(np1) % dv;
        proof {
            assert(val < dv);
            assert(dv <= 17292);
        }
        let np2 = HeightMap::next_prime(val);
        let lp2 = HeightMap::last_prime(val);
        np2.wrapping_mul(lp2)
    }
}

} // verus!

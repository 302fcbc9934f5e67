//! Binomial coefficients, exact over the integers.
//!
//! Bernstein weights need `C(n, k)` for the small orders this library
//! allows; Pascal's rule keeps every intermediate value an integer, so
//! no precision is lost to floating-point factorials.

use vstd::prelude::*;

use vstd::arithmetic::power2::pow2;

verus! {

/// The binomial coefficient `C(n, k)`, by Pascal's rule.
pub open spec fn spec_binom(n: nat, k: nat) -> nat
    decreases n,
{
    if k == 0 {
        1
    } else if k > n {
        0
    } else {
        spec_binom((n - 1) as nat, (k - 1) as nat) + spec_binom((n - 1) as nat, k)
    }
}

/// Choosing none or all of `n` items can be done in exactly one way.
pub proof fn lemma_binom_ends(n: nat)
    ensures
        spec_binom(n, 0) == 1,
        spec_binom(n, n) == 1,
    decreases n,
{
    if n > 0 {
        lemma_binom_ends((n - 1) as nat);
        assert(spec_binom((n - 1) as nat, n) == 0);
        assert(spec_binom(n, n) == spec_binom((n - 1) as nat, (n - 1) as nat) + spec_binom(
            (n - 1) as nat,
            n,
        ));
    }
}

/// Every binomial coefficient of row `n` is at most `2^n`.
pub proof fn lemma_binom_le_pow2(n: nat, k: nat)
    ensures
        spec_binom(n, k) <= pow2(n),
    decreases n,
{
    vstd::arithmetic::power2::lemma_pow2_pos(n);
    if k == 0 || k > n {
    } else {
        lemma_binom_le_pow2((n - 1) as nat, (k - 1) as nat);
        lemma_binom_le_pow2((n - 1) as nat, k);
        assert(pow2(n) == 2 * pow2((n - 1) as nat)) by {
            vstd::arithmetic::power2::lemma_pow2_unfold(n);
        }
    }
}

/// Compute `C(n, k)` by building Pascal's triangle row by row.
pub fn binom(n: u32, k: u32) -> (r: u64)
    requires
        k <= n,
        n <= 62,
    ensures
        r == spec_binom(n as nat, k as nat),
        r <= pow2(n as nat),
{
    let mut row: Vec<u64> = Vec::new();
    row.push(1);
    let mut m: u32 = 0;
    while m < n
        invariant
            k <= n <= 62,
            m <= n,
            row@.len() == m + 1,
            forall|i: int| 0 <= i < row@.len() ==> row@[i] == spec_binom(m as nat, i as nat),
        decreases n - m,
    {
        proof {
            lemma_row_bounded(m as nat, row@);
        }
        let mut next: Vec<u64> = Vec::new();
        next.push(1);
        let mut i: usize = 1;
        while i < row.len()
            invariant
                row@.len() == m + 1,
                m < n <= 62,
                forall|j: int| 0 <= j < row@.len() ==> row@[j] == spec_binom(m as nat, j as nat),
                forall|j: int| 0 <= j < row@.len() ==> row@[j] <= pow2(m as nat),
                1 <= i <= row@.len(),
                next@.len() == i,
                forall|j: int| 0 <= j < next@.len() ==> next@[j] == spec_binom(
                    (m + 1) as nat,
                    j as nat,
                ),
            decreases row@.len() - i,
        {
            proof {
                lemma_pow2_62_bound(m as nat);
            }
            let v: u64 = row[i - 1] + row[i];
            proof {
                assert(spec_binom((m + 1) as nat, i as nat) == spec_binom(m as nat, (i - 1) as nat)
                    + spec_binom(m as nat, i as nat));
            }
            next.push(v);
            i = i + 1;
        }
        proof {
            lemma_binom_ends((m + 1) as nat);
            assert(spec_binom((m + 1) as nat, (m + 1) as nat) == 1);
        }
        next.push(1);
        row = next;
        m = m + 1;
    }
    proof {
        lemma_binom_le_pow2(n as nat, k as nat);
    }
    row[k as usize]
}

/// Every entry of a Pascal row is bounded by the corresponding power
/// of two.
proof fn lemma_row_bounded(m: nat, row: Seq<u64>)
    requires
        forall|i: int| 0 <= i < row.len() ==> row[i] == spec_binom(m, i as nat),
    ensures
        forall|i: int| 0 <= i < row.len() ==> row[i] <= pow2(m),
{
    assert forall|i: int| 0 <= i < row.len() implies row[i] <= pow2(m) by {
        lemma_binom_le_pow2(m, i as nat);
    }
}

/// Two entries of row `m`, `m < 62`, sum below `2^63`.
proof fn lemma_pow2_62_bound(m: nat)
    requires
        m < 62,
    ensures
        pow2(m) + pow2(m) <= u64::MAX,
{
    vstd::arithmetic::power2::lemma_pow2_adds(m, 1);
    vstd::arithmetic::power2::lemma_pow2_strictly_increases(m + 1, 63);
    assert(pow2(1) == 2) by {
        vstd::arithmetic::power2::lemma2_to64();
    }
    assert(pow2(63) == 0x8000000000000000) by {
        vstd::arithmetic::power2::lemma2_to64_rest();
    }
}

} // verus!

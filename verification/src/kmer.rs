//! K-mer sampling against a profile: the profile-most-probable k-mer of a
//! sequence, and the profile-weighted random k-mer. A k-mer's probability
//! is compared through its exact numerator: the product of the profile
//! entries it selects, all over the common power `denom^k`.
use vstd::prelude::*;
use vstd::arithmetic::mul::{lemma_mul_inequality, lemma_mul_upper_bound};
use vstd::arithmetic::power::{lemma_pow0, lemma_pow1, lemma_pow_adds, lemma_pow_increases, pow};
use crate::MotifError;
use crate::bases::{all_bases, base_idx, base_index, is_base};
use crate::profile::{Profile, row_wf};
use crate::rng::sample_weighted;

verus! {

/// The numerator of a k-mer's probability under a profile: the product,
/// over the k-mer's columns, of the entry its character selects.
pub open spec fn kmer_numer(rows: Seq<Seq<u64>>, kmer: Seq<char>) -> int
    decreases kmer.len(),
{
    if kmer.len() == 0 {
        1
    } else {
        kmer_numer(rows, kmer.drop_last()) * rows[kmer.len() - 1][base_index(kmer.last())]
    }
}

/// The numerator of the k-mer starting at a given offset of a sequence.
pub open spec fn offset_numer(rows: Seq<Seq<u64>>, s: Seq<char>, off: int, k: nat) -> int {
    kmer_numer(rows, s.subrange(off, off + k))
}

/// The offset of the most probable k-mer among the first n offsets,
/// keeping the earliest offset on ties.
pub open spec fn best_offset_upto(rows: Seq<Seq<u64>>, s: Seq<char>, k: nat, n: int) -> int
    decreases n,
{
    if n <= 1 {
        0
    } else {
        let prev = best_offset_upto(rows, s, k, n - 1);
        if offset_numer(rows, s, n - 1, k) > offset_numer(rows, s, prev, k) {
            n - 1
        } else {
            prev
        }
    }
}

pub proof fn lemma_best_offset_range(rows: Seq<Seq<u64>>, s: Seq<char>, k: nat, n: int)
    requires
        n >= 1,
    ensures
        0 <= best_offset_upto(rows, s, k, n) < n,
    decreases n,
{
    if n > 1 {
        lemma_best_offset_range(rows, s, k, n - 1);
    }
}

/// s is one of the length-k windows of seq.
pub open spec fn is_kmer_of(s: Seq<char>, seq: Seq<char>, k: nat) -> bool {
    exists|off: int| 0 <= off <= seq.len() - k && s == #[trigger] seq.subrange(off, off + k)
}

/// A window of a sequence over the DNA alphabet has length k and stays
/// over the alphabet.
pub proof fn lemma_kmer_of_bases(s: Seq<char>, seq: Seq<char>, k: nat)
    requires
        is_kmer_of(s, seq, k),
        all_bases(seq),
    ensures
        s.len() == k,
        all_bases(s),
{
    let off = choose|off: int|
        0 <= off <= seq.len() - k && s == #[trigger] seq.subrange(off, off + k);
    assert forall|j: int| 0 <= j < s.len() implies is_base(#[trigger] s[j]) by {
        assert(s[j] == seq[off + j]);
    }
}

pub proof fn lemma_kmer_numer_take_step(rows: Seq<Seq<u64>>, kmer: Seq<char>, j: int)
    requires
        0 <= j < kmer.len(),
    ensures
        kmer_numer(rows, kmer.take(j + 1)) == kmer_numer(rows, kmer.take(j)) * rows[j][base_index(
            kmer[j],
        )],
{
    assert(kmer.take(j + 1).drop_last() =~= kmer.take(j));
    assert(kmer.take(j + 1).last() == kmer[j]);
}

/// Every numerator of a full-width k-mer of bases lies between 1 and
/// `denom^k` under a well-formed profile.
pub proof fn lemma_kmer_numer_bounds(rows: Seq<Seq<u64>>, kmer: Seq<char>, denom: u64)
    requires
        1 <= denom,
        kmer.len() <= rows.len(),
        all_bases(kmer),
        forall|i: int| 0 <= i < rows.len() ==> row_wf(#[trigger] rows[i], denom),
    ensures
        1 <= kmer_numer(rows, kmer) <= pow(denom as int, kmer.len()),
    decreases kmer.len(),
{
    if kmer.len() == 0 {
        lemma_pow0(denom as int);
    } else {
        assert forall|j: int| 0 <= j < kmer.drop_last().len() implies is_base(
            #[trigger] kmer.drop_last()[j],
        ) by {
            assert(kmer.drop_last()[j] == kmer[j]);
        }
        lemma_kmer_numer_bounds(rows, kmer.drop_last(), denom);
        let prev = kmer_numer(rows, kmer.drop_last());
        let e = rows[kmer.len() - 1][base_index(kmer.last())];
        assert(is_base(kmer.last())) by {
            assert(kmer.last() == kmer[kmer.len() - 1]);
        }
        assert(1 <= e <= denom);
        assert(prev * e >= 1) by (nonlinear_arith)
            requires
                prev >= 1,
                e >= 1,
        ;
        lemma_mul_upper_bound(prev, pow(denom as int, (kmer.len() - 1) as nat), e as int,
            denom as int);
        lemma_pow_adds(denom as int, (kmer.len() - 1) as nat, 1);
        lemma_pow1(denom as int);
        assert(kmer_numer(rows, kmer) == prev * e);
        assert(pow(denom as int, kmer.len()) == pow(denom as int, (kmer.len() - 1) as nat) * (
        denom as int));
    }
}

/// The total of a weight vector.
pub open spec fn sum128(s: Seq<u128>) -> int
    decreases s.len(),
{
    if s.len() == 0 {
        0
    } else {
        sum128(s.drop_last()) + s.last()
    }
}

pub proof fn lemma_sum128_le(s: Seq<u128>, m: int)
    requires
        0 <= m,
        forall|i: int| 0 <= i < s.len() ==> #[trigger] s[i] <= m,
    ensures
        0 <= sum128(s) <= s.len() * m,
    decreases s.len(),
{
    if s.len() > 0 {
        assert forall|i: int| 0 <= i < s.drop_last().len() implies #[trigger] s.drop_last()[i]
            <= m by {
            assert(s.drop_last()[i] == s[i]);
        }
        lemma_sum128_le(s.drop_last(), m);
        assert(s.last() <= m);
        assert((s.len() - 1) * m + m == s.len() * m) by (nonlinear_arith);
    }
}

/// The numerator of the k-mer at one offset, computed exactly.
fn kmer_numer_at(seq: &str, k: usize, off: usize, profile: &Profile) -> (r: u128)
    requires
        profile.wf(k as nat),
        off + k <= seq@.len(),
        seq@.len() <= usize::MAX,
        all_bases(seq@),
        pow(profile.denom as int, k as nat) <= u64::MAX,
    ensures
        r as int == offset_numer(profile.matrix(), seq@, off as int, k as nat),
        1 <= r,
{
    let ghost rows = profile.matrix();
    let ghost sub = seq@.subrange(off as int, off as int + k as int);
    let mut r: u128 = 1;
    proof {
        assert(sub.take(0) =~= Seq::<char>::empty());
        lemma_pow0(profile.denom as int);
    }
    for col in 0..k
        invariant
            profile.wf(k as nat),
            off + k <= seq@.len(),
            seq@.len() <= usize::MAX,
            all_bases(seq@),
            pow(profile.denom as int, k as nat) <= u64::MAX,
            rows == profile.matrix(),
            sub == seq@.subrange(off as int, off as int + k as int),
            r as int == kmer_numer(rows, sub.take(col as int)),
            1 <= r as int <= pow(profile.denom as int, col as nat),
    {
        let ch = seq.get_char(off + col);
        proof {
            assert(seq@[off + col] == sub[col as int]);
            assert(is_base(seq@[off + col]));
        }
        let b = base_idx(ch);
        proof {
            assert(row_wf(rows[col as int], profile.denom));
            assert(rows[col as int] == profile.rows@[col as int]@);
        }
        let e = profile.rows[col][b];
        proof {
            lemma_kmer_numer_take_step(rows, sub, col as int);
            assert(1 <= e <= profile.denom);
            lemma_mul_upper_bound(r as int, pow(profile.denom as int, col as nat), e as int,
                profile.denom as int);
            lemma_pow_adds(profile.denom as int, col as nat, 1);
            lemma_pow1(profile.denom as int);
            lemma_pow_increases(profile.denom as nat, (col + 1) as nat, k as nat);
            assert(r as int * e as int >= 1) by (nonlinear_arith)
                requires
                    r as int >= 1,
                    e as int >= 1,
            ;
        }
        r = r * (e as u128);
    }
    proof {
        assert(sub.take(k as int) =~= sub);
    }
    r
}

/// The profile-most probable k-mer of a sequence: scans every offset from
/// the left and keeps the first offset whose probability exceeds every
/// earlier one. Deterministic in its inputs.
pub fn profile_probable_kmer(seq: &str, k: usize, profile: &Profile) -> (r: String)
    requires
        1 <= k <= seq@.len(),
        all_bases(seq@),
        profile.wf(k as nat),
        pow(profile.denom as int, k as nat) <= u64::MAX,
    ensures
        ({
            let best = best_offset_upto(
                profile.matrix(),
                seq@,
                k as nat,
                seq@.len() - k + 1,
            );
            r@ == seq@.subrange(best, best + k as int)
        }),
        is_kmer_of(r@, seq@, k as nat),
{
    let ghost rows = profile.matrix();
    let n = seq.unicode_len() - k + 1;
    let mut best: usize = 0;
    let mut max_numer = kmer_numer_at(seq, k, 0, profile);
    for off in 1..n
        invariant
            1 <= k <= seq@.len(),
            all_bases(seq@),
            profile.wf(k as nat),
            pow(profile.denom as int, k as nat) <= u64::MAX,
            rows == profile.matrix(),
            n == seq@.len() - k + 1,
            seq@.len() <= usize::MAX,
            best < off,
            best as int == best_offset_upto(rows, seq@, k as nat, off as int),
            max_numer as int == offset_numer(rows, seq@, best as int, k as nat),
    {
        let numer = kmer_numer_at(seq, k, off, profile);
        if numer > max_numer {
            max_numer = numer;
            best = off;
        }
    }
    proof {
        lemma_best_offset_range(rows, seq@, k as nat, n as int);
    }
    let found = seq.substring_char(best, best + k);
    let r = found.to_owned();
    proof {
        assert(0 <= best as int <= seq@.len() - k && r@ == seq@.subrange(
            best as int,
            best as int + k,
        ));
    }
    r
}

/// The profile-random k-mer of a sequence: weights every offset by its
/// probability under the profile and draws one. Reports a degenerate
/// all-zero weighting rather than drawing from it; a well-formed profile
/// never produces one.
pub fn profile_random_kmer(
    seq: &str,
    k: usize,
    profile: &Profile,
    rng: &mut rand::rngs::StdRng,
) -> (r: Result<String, MotifError>)
    requires
        1 <= k <= seq@.len(),
        all_bases(seq@),
        profile.wf(k as nat),
        pow(profile.denom as int, k as nat) <= u64::MAX,
    ensures
        r is Ok,
        r matches Ok(s) ==> is_kmer_of(s@, seq@, k as nat),
{
    let ghost rows = profile.matrix();
    let n = seq.unicode_len() - k + 1;
    let mut weights: Vec<u128> = Vec::new();
    for off in 0..n
        invariant
            1 <= k <= seq@.len(),
            all_bases(seq@),
            profile.wf(k as nat),
            pow(profile.denom as int, k as nat) <= u64::MAX,
            rows == profile.matrix(),
            n == seq@.len() - k + 1,
            seq@.len() <= usize::MAX,
            weights@.len() == off,
            forall|j: int| 0 <= j < off ==> 1 <= #[trigger] weights@[j] <= u64::MAX,
    {
        let w = kmer_numer_at(seq, k, off, profile);
        proof {
            assert forall|j: int|
                0 <= j < seq@.subrange(off as int, off as int + k as int).len() implies is_base(
                #[trigger] seq@.subrange(off as int, off as int + k as int)[j],
            ) by {
                assert(seq@.subrange(off as int, off as int + k as int)[j] == seq@[off + j]);
            }
            lemma_kmer_numer_bounds(rows, seq@.subrange(off as int, off as int + k as int),
                profile.denom);
        }
        weights.push(w);
    }
    let mut any_positive = false;
    for j in 0..n
        invariant
            n == weights@.len(),
            forall|i: int| 0 <= i < n ==> 1 <= #[trigger] weights@[i] <= u64::MAX,
            any_positive == exists|i: int| 0 <= i < j && weights@[i] > 0,
    {
        if weights[j] > 0 {
            any_positive = true;
        }
    }
    if !any_positive {
        // Unreachable under a well-formed profile: every weight is at
        // least one. Reported as an error all the same.
        proof {
            assert(weights@[0] > 0);
        }
        return Err(MotifError::DegenerateProbability);
    }
    proof {
        lemma_sum128_le(weights@, u64::MAX as int);
        assert(n as int <= u64::MAX as int);
        lemma_mul_inequality(n as int, u64::MAX as int, u64::MAX as int);
        assert(u64::MAX as int * u64::MAX as int <= u128::MAX as int);
    }
    let i = sample_weighted(rng, &weights);
    let found = seq.substring_char(i, i + k);
    let r = found.to_owned();
    proof {
        assert(0 <= i as int <= seq@.len() - k && r@ == seq@.subrange(i as int, i as int + k));
    }
    Ok(r)
}

} // verus!

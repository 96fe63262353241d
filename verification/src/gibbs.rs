//! The Gibbs Sampler: stochastic motif search that resamples one motif
//! per round from the profile of the others, keeping the best set seen.
use vstd::prelude::*;
use vstd::arithmetic::mul::lemma_mul_upper_bound;
use vstd::arithmetic::power::{lemma_pow1, lemma_pow_adds, lemma_pow_positive, pow};
use crate::MotifError;
use crate::bases::views_of;
use crate::consensus::{consensus_of, gen_consensus, score, total_score};
use crate::kmer::{is_kmer_of, profile_random_kmer};
use crate::profile::gen_profile;
use crate::rng::gen_index;
use crate::search::{
    check_input,
    lemma_denom_fits,
    lemma_motif_lens,
    motif_vec_wf,
    search_result_ok,
    seed_best_motifs,
    valid_input,
};

verus! {

/// A power of a smaller positive base is no larger.
pub proof fn lemma_pow_base_le(a: int, b: int, e: nat)
    requires
        1 <= a <= b,
    ensures
        pow(a, e) <= pow(b, e),
    decreases e,
{
    if e == 0 {
        vstd::arithmetic::power::lemma_pow0(a);
        vstd::arithmetic::power::lemma_pow0(b);
    } else {
        let e1 = (e - 1) as nat;
        lemma_pow_base_le(a, b, e1);
        lemma_pow_positive(a, e1);
        lemma_pow_positive(b, e1);
        lemma_pow_adds(a, 1, e1);
        lemma_pow_adds(b, 1, e1);
        lemma_pow1(a);
        lemma_pow1(b);
        lemma_mul_upper_bound(a, b, pow(a, e1), pow(b, e1));
    }
}

/// A fresh copy of a motif set, element for element.
pub(crate) fn clone_motifs(v: &Vec<String>) -> (r: Vec<String>)
    ensures
        r@ == v@,
{
    let n = v.len();
    let mut r: Vec<String> = Vec::new();
    for i in 0..n
        invariant
            n == v@.len(),
            r@.len() == i,
            forall|q: int| 0 <= q < i ==> r@[q] == v@[q],
    {
        r.push(v[i].clone());
    }
    proof {
        assert(r@ =~= v@);
    }
    r
}

/// SAMPLE: runs exactly r rounds. Each round drops one randomly chosen
/// motif, rebuilds the profile from the remaining t - 1, and resamples
/// the dropped motif from it; the working set carries on even when worse,
/// while the best-scoring set seen is tracked separately. The returned
/// score never exceeds the starting set's score.
pub fn gibbs_rounds(
    dna: &Vec<String>,
    k: usize,
    t: usize,
    r: usize,
    motifs0: Vec<String>,
    rng: &mut rand::rngs::StdRng,
) -> (out: Result<(Vec<String>, i32), MotifError>)
    requires
        valid_input(views_of(dna@), k as nat, t as nat),
        motif_vec_wf(motifs0@, views_of(dna@), k as nat),
        2 <= t || r == 0,
        t * k <= i32::MAX,
        pow(t as int + 4, k as nat) <= u64::MAX,
    ensures
        out is Ok,
        out matches Ok(p) ==> motif_vec_wf(p.0@, views_of(dna@), k as nat) && p.1 as int
            == total_score(views_of(p.0@), consensus_of(views_of(p.0@), k as nat)) && p.1 as int
            <= total_score(views_of(motifs0@), consensus_of(views_of(motifs0@), k as nat)),
{
    let ghost dv = views_of(dna@);
    let ghost score0 = total_score(views_of(motifs0@), consensus_of(views_of(motifs0@), k as nat));
    let mut best_motifs = clone_motifs(&motifs0);
    let mut motifs = motifs0;
    proof {
        lemma_motif_lens(best_motifs@, dv, k as nat, t as nat);
    }
    let cons = gen_consensus(&best_motifs);
    let mut best_score = score(&best_motifs, cons.as_str());
    for round in 0..r
        invariant
            dv == views_of(dna@),
            valid_input(dv, k as nat, t as nat),
            2 <= t || r == 0,
            t * k <= i32::MAX,
            pow(t as int + 4, k as nat) <= u64::MAX,
            motif_vec_wf(motifs@, dv, k as nat),
            motif_vec_wf(best_motifs@, dv, k as nat),
            best_score as int == total_score(
                views_of(best_motifs@),
                consensus_of(views_of(best_motifs@), k as nat),
            ),
            best_score as int <= score0,
    {
        let ghost before = motifs@;
        proof {
            lemma_motif_lens(motifs@, dv, k as nat, t as nat);
            lemma_denom_fits(t as int + 4, k as nat);
            lemma_pow_base_le(t as int + 3, t as int + 4, k as nat);
        }
        let i = gen_index(rng, t);
        let _dropped = motifs.remove(i);
        proof {
            assert forall|q: int| 0 <= q < motifs@.len() implies (#[trigger] motifs@[q])@.len()
                == k && crate::bases::all_bases(motifs@[q]@) by {
                assert(motifs@[q] == if q < i as int {
                    before[q]
                } else {
                    before[q + 1]
                });
            }
            assert(motifs@[0]@.len() == k);
        }
        let profile = gen_profile(&motifs);
        proof {
            assert(profile.denom == t + 3);
            assert(dv[i as int] == dna@[i as int]@);
        }
        let drawn = profile_random_kmer(dna[i].as_str(), k, &profile, rng);
        let new_motif = match drawn {
            Ok(s) => s,
            Err(e) => {
                return Err(e);
            },
        };
        motifs.insert(i, new_motif);
        proof {
            assert(motifs@ =~= before.update(i as int, motifs@[i as int]));
            assert(is_kmer_of((motifs@[i as int])@, dv[i as int], k as nat));
            assert forall|q: int| 0 <= q < motifs@.len() implies is_kmer_of(
                (#[trigger] motifs@[q])@,
                dv[q],
                k as nat,
            ) by {
                if q != i as int {
                    assert(motifs@[q] == before[q]);
                }
            }
            lemma_motif_lens(motifs@, dv, k as nat, t as nat);
        }
        let cons2 = gen_consensus(&motifs);
        let motifs_score = score(&motifs, cons2.as_str());
        if motifs_score < best_score {
            best_motifs = clone_motifs(&motifs);
            best_score = motifs_score;
        }
    }
    Ok((best_motifs, best_score))
}

/// Gibbs Sampler: validates the input shape, seeds one random motif per
/// sequence, and runs exactly r resampling rounds. A single sequence with
/// at least one round is rejected up front: a round would have to build a
/// profile from an empty motif set.
pub fn gibbs_sampler(
    dna: Vec<String>,
    k: usize,
    t: usize,
    r: usize,
    rng: &mut rand::rngs::StdRng,
) -> (out: Result<(Vec<String>, i32), MotifError>)
    requires
        t * k <= i32::MAX,
        pow(t as int + 4, k as nat) <= u64::MAX,
    ensures
        out is Ok <==> (valid_input(views_of(dna@), k as nat, t as nat) && (2 <= t || r == 0)),
        search_result_ok(views_of(dna@), k as nat, t as nat, out),
{
    if !check_input(&dna, k, t) {
        return Err(MotifError::InvalidInputShape);
    }
    if t < 2 && r > 0 {
        return Err(MotifError::InvalidInputShape);
    }
    let seeded = seed_best_motifs(&dna, k, rng);
    match gibbs_rounds(&dna, k, t, r, seeded, rng) {
        Ok(p) => Ok(p),
        Err(e) => Err(e),
    }
}

} // verus!

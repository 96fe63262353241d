//! Input validation, random seeding, and Randomized Motif Search.
use vstd::prelude::*;
use vstd::arithmetic::power::{lemma_pow1, lemma_pow_increases, pow};
use crate::MotifError;
use crate::bases::{
    all_bases,
    base_at,
    col_count,
    is_base,
    lemma_col_count_le_len,
    motifs_wf,
    views_of,
};
use crate::consensus::{consensus_of, gen_consensus, score, total_score};
use crate::kmer::{best_offset_upto, is_kmer_of, lemma_kmer_of_bases, profile_probable_kmer};
use crate::profile::gen_profile;
use crate::rng::gen_index;

verus! {

/// The input shape both algorithms demand: t sequences, every one at
/// least k long and over the DNA alphabet, with k and t positive.
pub open spec fn valid_input(dna: Seq<Seq<char>>, k: nat, t: nat) -> bool {
    &&& 1 <= t
    &&& dna.len() == t
    &&& 1 <= k
    &&& forall|i: int| 0 <= i < dna.len() ==> k <= (#[trigger] dna[i]).len()
    &&& forall|i: int| 0 <= i < dna.len() ==> all_bases(#[trigger] dna[i])
}

/// A working motif set: one length-k window per input sequence, in order.
pub open spec fn motif_vec_wf(motifs: Seq<String>, dna: Seq<Seq<char>>, k: nat) -> bool {
    &&& motifs.len() == dna.len()
    &&& forall|i: int| 0 <= i < motifs.len() ==> is_kmer_of((#[trigger] motifs[i])@, dna[i], k)
}

/// What a successful search returns: t motifs, each a window of its
/// sequence, and the exact score of the set against its own consensus.
pub open spec fn search_output_wf(
    dna: Seq<Seq<char>>,
    k: nat,
    t: nat,
    motifs: Seq<String>,
    sc: int,
) -> bool {
    &&& motifs.len() == t
    &&& forall|i: int| 0 <= i < motifs.len() ==> is_kmer_of((#[trigger] motifs[i])@, dna[i], k)
    &&& sc == total_score(views_of(motifs), consensus_of(views_of(motifs), k))
    &&& 0 <= sc
}

/// A search result is either a well-formed output or the input-shape error.
pub open spec fn search_result_ok(
    dna: Seq<Seq<char>>,
    k: nat,
    t: nat,
    out: Result<(Vec<String>, i32), MotifError>,
) -> bool {
    match out {
        Result::Ok(p) => search_output_wf(dna, k, t, p.0@, p.1 as int),
        Result::Err(e) => e == MotifError::InvalidInputShape,
    }
}

/// The numerator matrix that Laplace smoothing assigns to a motif set:
/// row col holds the four smoothed counts of that column.
pub open spec fn numer_rows(motifs: Seq<Seq<char>>, k: nat) -> Seq<Seq<u64>> {
    Seq::new(
        k,
        |col: int|
            seq![
                (col_count(motifs, col, 'A') + 1) as u64,
                (col_count(motifs, col, 'C') + 1) as u64,
                (col_count(motifs, col, 'G') + 1) as u64,
                (col_count(motifs, col, 'T') + 1) as u64,
            ],
    )
}

/// The candidate motif set that one IMPROVE round derives from a motif
/// set: each sequence's most probable k-mer under the set's profile.
pub open spec fn candidate_of(dna: Seq<Seq<char>>, k: nat, motifs: Seq<Seq<char>>) -> Seq<
    Seq<char>,
> {
    Seq::new(
        dna.len(),
        |i: int|
            {
                let rows = numer_rows(motifs, k);
                let best = best_offset_upto(rows, dna[i], k, dna[i].len() - k + 1);
                dna[i].subrange(best, best + k)
            },
    )
}

/// The motif set that the IMPROVE phase reaches from a starting set
/// within the given number of rounds: adopt the candidate while it
/// strictly lowers the score, stop at the first non-improvement.
pub open spec fn improve_spec(
    dna: Seq<Seq<char>>,
    k: nat,
    motifs: Seq<Seq<char>>,
    fuel: nat,
) -> Seq<Seq<char>>
    decreases fuel,
{
    if fuel == 0 {
        motifs
    } else {
        let cand = candidate_of(dna, k, motifs);
        if total_score(cand, consensus_of(cand, k)) < total_score(
            motifs,
            consensus_of(motifs, k),
        ) {
            improve_spec(dna, k, cand, (fuel - 1) as nat)
        } else {
            motifs
        }
    }
}

/// A motif set over a valid input is a well-formed motif matrix: every
/// motif has length k and stays over the alphabet.
pub proof fn lemma_motif_lens(motifs: Seq<String>, dna: Seq<Seq<char>>, k: nat, t: nat)
    requires
        valid_input(dna, k, t),
        motif_vec_wf(motifs, dna, k),
    ensures
        motifs.len() == t,
        forall|i: int| 0 <= i < motifs.len() ==> (#[trigger] motifs[i])@.len() == k,
        forall|i: int| 0 <= i < motifs.len() ==> all_bases((#[trigger] motifs[i])@),
        motifs_wf(views_of(motifs), k),
{
    assert forall|i: int| 0 <= i < motifs.len() implies (#[trigger] motifs[i])@.len() == k
        && all_bases(motifs[i]@) by {
        lemma_kmer_of_bases(motifs[i]@, dna[i], k);
    }
    assert forall|i: int| 0 <= i < views_of(motifs).len() implies (#[trigger] views_of(motifs)[i]).len()
        == k && all_bases(views_of(motifs)[i]) by {
        assert(views_of(motifs)[i] == motifs[i]@);
    }
}

/// With k at least one, a denominator whose k-th power fits also fits.
pub proof fn lemma_denom_fits(d: int, k: nat)
    requires
        1 <= d,
        1 <= k,
        pow(d, k) <= u64::MAX,
    ensures
        d <= u64::MAX,
{
    lemma_pow1(d);
    lemma_pow_increases(d as nat, 1, k);
}

/// Checks the input shape of a search request: t matching sequences, each
/// at least k long and over the DNA alphabet.
pub fn check_input(dna: &Vec<String>, k: usize, t: usize) -> (ok: bool)
    ensures
        ok == valid_input(views_of(dna@), k as nat, t as nat),
{
    let ghost dv = views_of(dna@);
    if t == 0 || k == 0 || dna.len() != t {
        return false;
    }
    for i in 0..t
        invariant
            dv == views_of(dna@),
            1 <= t && 1 <= k,
            t == dna@.len(),
            forall|q: int| 0 <= q < i ==> k <= (#[trigger] dv[q]).len(),
            forall|q: int| 0 <= q < i ==> all_bases(#[trigger] dv[q]),
    {
        let n = dna[i].as_str().unicode_len();
        if n < k {
            proof {
                assert(dv[i as int].len() < k);
            }
            return false;
        }
        for j in 0..n
            invariant
                dv == views_of(dna@),
                i < dna@.len(),
                n == dv[i as int].len(),
                forall|p: int| 0 <= p < j ==> is_base(#[trigger] dv[i as int][p]),
        {
            let ch = dna[i].as_str().get_char(j);
            if !(ch == 'A' || ch == 'C' || ch == 'G' || ch == 'T') {
                proof {
                    assert(!is_base(dv[i as int][j as int]));
                }
                return false;
            }
        }
    }
    true
}

/// SEED: picks a uniformly random valid offset in each sequence and takes
/// the k-mer there as that sequence's initial motif.
pub(crate) fn seed_best_motifs(
    dna: &Vec<String>,
    k: usize,
    rng: &mut rand::rngs::StdRng,
) -> (r: Vec<String>)
    requires
        1 <= k,
        forall|i: int| 0 <= i < dna@.len() ==> k <= (#[trigger] views_of(dna@)[i]).len(),
    ensures
        r@.len() == dna@.len(),
        forall|i: int|
            0 <= i < dna@.len() ==> is_kmer_of((#[trigger] r@[i])@, views_of(dna@)[i], k as nat),
{
    let ghost dv = views_of(dna@);
    let t = dna.len();
    let mut r: Vec<String> = Vec::new();
    for i in 0..t
        invariant
            dv == views_of(dna@),
            1 <= k,
            t == dna@.len(),
            forall|q: int| 0 <= q < dna@.len() ==> k <= (#[trigger] dv[q]).len(),
            r@.len() == i,
            forall|q: int| 0 <= q < i ==> is_kmer_of((#[trigger] r@[q])@, dv[q], k as nat),
    {
        let len = dna[i].as_str().unicode_len();
        proof {
            assert(dv[i as int] == dna@[i as int]@);
            assert(k <= dv[i as int].len());
        }
        let n = len - k + 1;
        let off = gen_index(rng, n);
        let s = dna[i].as_str().substring_char(off, off + k);
        r.push(s.to_owned());
        proof {
            let ghost sv = dv[i as int];
            assert(0 <= off as int <= sv.len() - k && r@[i as int]@ == sv.subrange(
                off as int,
                off as int + k,
            ));
        }
    }
    r
}

/// IMPROVE: repeatedly rebuilds the profile of the best motif set and
/// recomputes each sequence's most probable k-mer under it, adopting the
/// candidate set only when it strictly lowers the score; stops at the
/// first non-improvement, and in any case after 1000 rounds. The returned
/// score never exceeds the score of the starting set.
pub fn randomized_improve(dna: &Vec<String>, k: usize, t: usize, motifs0: Vec<String>) -> (r: (
    Vec<String>,
    i32,
))
    requires
        valid_input(views_of(dna@), k as nat, t as nat),
        motif_vec_wf(motifs0@, views_of(dna@), k as nat),
        t * k <= i32::MAX,
        pow(t as int + 4, k as nat) <= u64::MAX,
    ensures
        motif_vec_wf(r.0@, views_of(dna@), k as nat),
        views_of(r.0@) == improve_spec(views_of(dna@), k as nat, views_of(motifs0@), 1000),
        r.1 as int == total_score(views_of(r.0@), consensus_of(views_of(r.0@), k as nat)),
        r.1 as int <= total_score(views_of(motifs0@), consensus_of(views_of(motifs0@), k as nat)),
{
    let ghost dv = views_of(dna@);
    let ghost views0 = views_of(motifs0@);
    let ghost score0 = total_score(views_of(motifs0@), consensus_of(views_of(motifs0@), k as nat));
    let mut best_motifs = motifs0;
    proof {
        lemma_motif_lens(best_motifs@, dv, k as nat, t as nat);
    }
    let cons = gen_consensus(&best_motifs);
    let mut best_score = score(&best_motifs, cons.as_str());
    let mut done = false;
    let mut rounds: usize = 0;
    while rounds < 1000 && !done
        invariant
            dv == views_of(dna@),
            valid_input(dv, k as nat, t as nat),
            t * k <= i32::MAX,
            pow(t as int + 4, k as nat) <= u64::MAX,
            motif_vec_wf(best_motifs@, dv, k as nat),
            best_score as int == total_score(
                views_of(best_motifs@),
                consensus_of(views_of(best_motifs@), k as nat),
            ),
            best_score as int <= score0,
            rounds <= 1000,
            improve_spec(dv, k as nat, views0, 1000) == (if done {
                views_of(best_motifs@)
            } else {
                improve_spec(dv, k as nat, views_of(best_motifs@), (1000 - rounds) as nat)
            }),
        decreases 1000 - rounds,
    {
        let ghost cur = views_of(best_motifs@);
        let ghost fuel = (1000 - rounds) as nat;
        proof {
            lemma_motif_lens(best_motifs@, dv, k as nat, t as nat);
            lemma_denom_fits(t as int + 4, k as nat);
        }
        let profile = gen_profile(&best_motifs);
        proof {
            assert forall|col: int| 0 <= col < k implies #[trigger] profile.matrix()[col]
                == numer_rows(cur, k as nat)[col] by {
                lemma_col_count_le_len(cur, col, 'A');
                lemma_col_count_le_len(cur, col, 'C');
                lemma_col_count_le_len(cur, col, 'G');
                lemma_col_count_le_len(cur, col, 'T');
                assert(profile.matrix()[col][0] == col_count(cur, col, base_at(0)) + 1);
                assert(profile.matrix()[col][1] == col_count(cur, col, base_at(1)) + 1);
                assert(profile.matrix()[col][2] == col_count(cur, col, base_at(2)) + 1);
                assert(profile.matrix()[col][3] == col_count(cur, col, base_at(3)) + 1);
                assert(profile.matrix()[col] =~= numer_rows(cur, k as nat)[col]);
            }
            assert(profile.matrix() =~= numer_rows(cur, k as nat));
        }
        let mut motifs: Vec<String> = Vec::new();
        for i in 0..t
            invariant
                dv == views_of(dna@),
                valid_input(dv, k as nat, t as nat),
                pow(t as int + 4, k as nat) <= u64::MAX,
                profile.wf(k as nat),
                profile.denom == t + 4,
                profile.matrix() == numer_rows(cur, k as nat),
                motifs@.len() == i,
                forall|q: int| 0 <= q < i ==> is_kmer_of((#[trigger] motifs@[q])@, dv[q], k as nat),
                forall|q: int|
                    0 <= q < i ==> (#[trigger] motifs@[q])@ == candidate_of(dv, k as nat, cur)[q],
        {
            proof {
                assert(dv[i as int] == dna@[i as int]@);
            }
            let s = profile_probable_kmer(dna[i].as_str(), k, &profile);
            motifs.push(s);
        }
        proof {
            lemma_motif_lens(motifs@, dv, k as nat, t as nat);
            assert(views_of(motifs@) =~= candidate_of(dv, k as nat, cur));
        }
        let cons2 = gen_consensus(&motifs);
        let motifs_score = score(&motifs, cons2.as_str());
        proof {
            let cand = candidate_of(dv, k as nat, cur);
            assert(improve_spec(dv, k as nat, cur, fuel) == (if total_score(
                cand,
                consensus_of(cand, k as nat),
            ) < total_score(cur, consensus_of(cur, k as nat)) {
                improve_spec(dv, k as nat, cand, (fuel - 1) as nat)
            } else {
                cur
            }));
        }
        if motifs_score < best_score {
            best_motifs = motifs;
            best_score = motifs_score;
        } else {
            done = true;
        }
        rounds = rounds + 1;
    }
    proof {
        if !done {
            assert(improve_spec(dv, k as nat, views_of(best_motifs@), 0) == views_of(
                best_motifs@,
            ));
        }
    }
    (best_motifs, best_score)
}

/// Randomized Motif Search: validates the input shape, seeds one random
/// motif per sequence, and greedily improves until the first
/// non-improvement. Randomness enters only in the seeding.
pub fn randomized_motif_search(
    dna: Vec<String>,
    k: usize,
    t: usize,
    rng: &mut rand::rngs::StdRng,
) -> (r: Result<(Vec<String>, i32), MotifError>)
    requires
        t * k <= i32::MAX,
        pow(t as int + 4, k as nat) <= u64::MAX,
    ensures
        r is Ok <==> valid_input(views_of(dna@), k as nat, t as nat),
        search_result_ok(views_of(dna@), k as nat, t as nat, r),
        r matches Ok(p) ==> exists|m0: Seq<Seq<char>>|
            m0.len() == t && (forall|i: int|
                0 <= i < m0.len() ==> is_kmer_of(#[trigger] m0[i], views_of(dna@)[i], k as nat))
                && views_of(p.0@) == #[trigger] improve_spec(views_of(dna@), k as nat, m0, 1000),
{
    if !check_input(&dna, k, t) {
        return Err(MotifError::InvalidInputShape);
    }
    let seeded = seed_best_motifs(&dna, k, rng);
    let out = randomized_improve(&dna, k, t, seeded);
    proof {
        let m0 = views_of(seeded@);
        assert(m0.len() == t && (forall|i: int|
            0 <= i < m0.len() ==> is_kmer_of(#[trigger] m0[i], views_of(dna@)[i], k as nat))
            && views_of(out.0@) == improve_spec(views_of(dna@), k as nat, m0, 1000));
    }
    Ok(out)
}

} // verus!

use motif_search::bases::base_idx;
use motif_search::consensus::{gen_consensus, hamming_distance, score};
use motif_search::gibbs::{gibbs_rounds, gibbs_sampler};
use motif_search::kmer::{profile_probable_kmer, profile_random_kmer};
use motif_search::profile::gen_profile;
use motif_search::search::{check_input, randomized_improve, randomized_motif_search};
use motif_search::{solve, Config, MotifError};
use rand::rngs::StdRng;
use rand::SeedableRng;

fn strings(v: &[&str]) -> Vec<String> {
    v.iter().map(|s| s.to_string()).collect()
}

fn example_dna() -> Vec<String> {
    strings(&[
        "GGCGTTCAGGCA",
        "AAGAATCAGTCA",
        "CAAGGAGTTCGC",
        "CACGTCAATCAC",
        "CAATAATATTCG",
    ])
}

#[test]
fn consensus_and_score_exact() {
    let motifs = strings(&["ACGT", "ACGA", "ACGT"]);
    let cons = gen_consensus(&motifs);
    assert_eq!(cons, "ACGT");
    assert_eq!(score(&motifs, &cons), 1);
}

#[test]
fn consensus_tie_prefers_earlier_base() {
    // Equal counts in every column: the earlier base of A, C, G, T wins.
    let motifs = strings(&["TGCA", "ACGT"]);
    let cons = gen_consensus(&motifs);
    assert_eq!(cons, "ACCA");
}

#[test]
fn consensus_length_and_alphabet() {
    let motifs = strings(&["GATTACA", "TTTTTTT", "CCCCCCC"]);
    let cons = gen_consensus(&motifs);
    assert_eq!(cons.len(), 7);
    assert!(cons.chars().all(|c| c == 'A' || c == 'C' || c == 'G' || c == 'T'));
}

#[test]
fn score_zero_iff_unanimous() {
    let unanimous = strings(&["ACGT", "ACGT", "ACGT"]);
    let cons = gen_consensus(&unanimous);
    assert_eq!(score(&unanimous, &cons), 0);

    let split = strings(&["ACGT", "ACGT", "ACGA"]);
    let cons2 = gen_consensus(&split);
    assert!(score(&split, &cons2) > 0);
}

#[test]
fn consensus_scorer_is_idempotent() {
    let motifs = strings(&["GGCGTT", "AAGAAT", "CAAGGA"]);
    let c1 = gen_consensus(&motifs);
    let c2 = gen_consensus(&motifs);
    assert_eq!(c1, c2);
    assert_eq!(score(&motifs, &c1), score(&motifs, &c2));
}

#[test]
fn hamming_distance_counts_mismatches() {
    assert_eq!(hamming_distance("ACGT", "ACGT"), 0);
    assert_eq!(hamming_distance("ACGT", "TGCA"), 4);
    assert_eq!(hamming_distance("ACGT", "ACGA"), 1);
}

#[test]
fn profile_entries_are_smoothed_counts() {
    let motifs = strings(&["AC", "AG"]);
    let p = gen_profile(&motifs);
    assert_eq!(p.denom, 6);
    assert_eq!(p.rows.len(), 2);
    assert_eq!(p.rows[0], vec![3, 1, 1, 1]);
    assert_eq!(p.rows[1], vec![1, 2, 2, 1]);
}

#[test]
fn profile_rows_sum_to_one() {
    let motifs = strings(&["GGCGTT", "AAGAAT", "CAAGGA", "TTTCCC"]);
    let p = gen_profile(&motifs);
    for row in &p.rows {
        let total: u64 = row.iter().sum();
        assert_eq!(total, p.denom);
        let prob_sum: f64 = row.iter().map(|&e| e as f64 / p.denom as f64).sum();
        assert!((prob_sum - 1.0).abs() < 1e-6);
    }
}

#[test]
fn base_indices_follow_enumeration_order() {
    assert_eq!(base_idx('A'), 0);
    assert_eq!(base_idx('C'), 1);
    assert_eq!(base_idx('G'), 2);
    assert_eq!(base_idx('T'), 3);
}

#[test]
fn most_probable_kmer_exact() {
    let motifs = strings(&["AC", "AG"]);
    let p = gen_profile(&motifs);
    // Numerators: "AC" -> 3*2 = 6, "CG" -> 1*2 = 2, "GT" -> 1*1 = 1.
    assert_eq!(profile_probable_kmer("ACGT", 2, &p), "AC");
}

#[test]
fn most_probable_kmer_keeps_earliest_on_tie() {
    let motifs = strings(&["AA", "CC", "GG", "TT"]);
    let p = gen_profile(&motifs);
    // Every entry is 2, so every offset weighs the same: offset 0 stays.
    assert_eq!(profile_probable_kmer("ACGT", 2, &p), "AC");
}

#[test]
fn most_probable_kmer_is_deterministic() {
    let motifs = strings(&["GGC", "AAG", "CAA"]);
    let p = gen_profile(&motifs);
    let a = profile_probable_kmer("GGCGTTCAGGCA", 3, &p);
    let b = profile_probable_kmer("GGCGTTCAGGCA", 3, &p);
    assert_eq!(a, b);
}

#[test]
fn random_kmer_is_a_window() {
    let motifs = strings(&["AC", "AG", "TT"]);
    let p = gen_profile(&motifs);
    let seq = "ACGTAC";
    let mut rng = StdRng::seed_from_u64(11);
    for _ in 0..20 {
        let got = profile_random_kmer(seq, 2, &p, &mut rng).unwrap();
        assert_eq!(got.len(), 2);
        assert!(seq.contains(&got));
    }
}

#[test]
fn check_input_accepts_and_rejects() {
    let dna = example_dna();
    assert!(check_input(&dna, 8, 5));
    assert!(!check_input(&dna, 0, 5));
    assert!(!check_input(&dna, 8, 4));
    assert!(!check_input(&dna, 13, 5));
    assert!(!check_input(&strings(&[]), 3, 0));
    assert!(!check_input(&strings(&["ACGX"]), 2, 1));
}

#[test]
fn randomized_search_end_to_end() {
    let mut rng = StdRng::seed_from_u64(7);
    let (motifs, best) = randomized_motif_search(example_dna(), 8, 5, &mut rng).unwrap();
    assert_eq!(motifs.len(), 5);
    for (m, seq) in motifs.iter().zip(example_dna().iter()) {
        assert_eq!(m.len(), 8);
        assert!(seq.contains(m));
    }
    assert!(best >= 0);
}

#[test]
fn randomized_search_is_reproducible_under_a_seed() {
    let mut rng1 = StdRng::seed_from_u64(42);
    let mut rng2 = StdRng::seed_from_u64(42);
    let out1 = randomized_motif_search(example_dna(), 8, 5, &mut rng1).unwrap();
    let out2 = randomized_motif_search(example_dna(), 8, 5, &mut rng2).unwrap();
    assert_eq!(out1, out2);
}

#[test]
fn randomized_search_rejects_bad_shapes() {
    let mut rng = StdRng::seed_from_u64(1);
    assert_eq!(
        randomized_motif_search(example_dna(), 8, 4, &mut rng),
        Err(MotifError::InvalidInputShape)
    );
    assert_eq!(
        randomized_motif_search(strings(&[]), 3, 0, &mut rng),
        Err(MotifError::InvalidInputShape)
    );
    assert_eq!(
        randomized_motif_search(strings(&["ACG"]), 4, 1, &mut rng),
        Err(MotifError::InvalidInputShape)
    );
    assert_eq!(
        randomized_motif_search(strings(&["ACGU"]), 2, 1, &mut rng),
        Err(MotifError::InvalidInputShape)
    );
}

#[test]
fn boundary_full_length_motifs() {
    // k equals every sequence's length: offset 0 is the only choice, so
    // the motif set is the sequence list itself.
    let dna = strings(&["ACGT", "TTTT"]);
    let mut rng = StdRng::seed_from_u64(3);
    let (motifs, best) = randomized_motif_search(dna.clone(), 4, 2, &mut rng).unwrap();
    assert_eq!(motifs, dna);
    // Consensus of {ACGT, TTTT} is ACGT; TTTT differs in three columns.
    assert_eq!(best, 3);
}

#[test]
fn improve_never_raises_the_score() {
    let dna = example_dna();
    let motifs0 = strings(&["GGCGTTCA", "AAGAATCA", "CAAGGAGT", "CACGTCAA", "CAATAATA"]);
    let cons = gen_consensus(&motifs0);
    let start = score(&motifs0, &cons);
    let (_, improved) = randomized_improve(&dna, 8, 5, motifs0);
    assert!(improved <= start);
}

#[test]
fn improve_is_deterministic() {
    let dna = example_dna();
    let motifs0 = strings(&["GGCGTTCA", "AAGAATCA", "CAAGGAGT", "CACGTCAA", "CAATAATA"]);
    let a = randomized_improve(&dna, 8, 5, motifs0.clone());
    let b = randomized_improve(&dna, 8, 5, motifs0);
    assert_eq!(a, b);
}

#[test]
fn gibbs_rounds_never_raise_the_best_score() {
    let dna = example_dna();
    let motifs0 = strings(&["GGCGTTCA", "AAGAATCA", "CAAGGAGT", "CACGTCAA", "CAATAATA"]);
    let cons = gen_consensus(&motifs0);
    let start = score(&motifs0, &cons);
    let mut rng = StdRng::seed_from_u64(19);
    let (motifs, best) = gibbs_rounds(&dna, 8, 5, 50, motifs0, &mut rng).unwrap();
    assert!(best <= start);
    assert_eq!(motifs.len(), 5);
    for (m, seq) in motifs.iter().zip(dna.iter()) {
        assert_eq!(m.len(), 8);
        assert!(seq.contains(m));
    }
}

#[test]
fn gibbs_sampler_end_to_end() {
    let mut rng = StdRng::seed_from_u64(23);
    let (motifs, best) = gibbs_sampler(example_dna(), 8, 5, 100, &mut rng).unwrap();
    assert_eq!(motifs.len(), 5);
    for (m, seq) in motifs.iter().zip(example_dna().iter()) {
        assert_eq!(m.len(), 8);
        assert!(seq.contains(m));
    }
    assert!(best >= 0);
}

#[test]
fn gibbs_sampler_rejects_bad_shapes() {
    let mut rng = StdRng::seed_from_u64(2);
    assert_eq!(
        gibbs_sampler(example_dna(), 8, 4, 10, &mut rng),
        Err(MotifError::InvalidInputShape)
    );
    // One sequence with rounds to run: a round would profile an empty set.
    assert_eq!(
        gibbs_sampler(strings(&["ACGT"]), 2, 1, 5, &mut rng),
        Err(MotifError::InvalidInputShape)
    );
    // With no rounds the single-sequence case is fine.
    let (motifs, _) = gibbs_sampler(strings(&["ACGT"]), 2, 1, 0, &mut rng).unwrap();
    assert_eq!(motifs.len(), 1);
}

#[test]
fn solve_dispatches_by_problem_name() {
    let mut rng = StdRng::seed_from_u64(5);
    let out = solve("RandomizedMotifSearch", example_dna(), 8, 5, 0, &mut rng);
    assert!(out.is_ok());
    let out = solve("GibbsSampler", example_dna(), 8, 5, 20, &mut rng);
    assert!(out.is_ok());
    assert_eq!(
        solve("SomethingElse", example_dna(), 8, 5, 0, &mut rng),
        Err(MotifError::InvalidInputShape)
    );
}

#[test]
fn config_build_takes_second_argument() {
    let args = strings(&["prog", "GibbsSampler"]);
    let config = Config::build(&args).unwrap();
    assert_eq!(config.problem, "GibbsSampler");
    assert_eq!(
        Config::build(&strings(&["prog"])),
        Err("Didn't get a file path")
    );
}

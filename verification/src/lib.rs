//! Motif finding over DNA sequences: Randomized Motif Search and Gibbs
//! Sampling over a set of sequences, with Laplace-smoothed profile matrices,
//! consensus strings, and Hamming-distance scoring.
//!
//! Probabilities are held exactly: a profile entry is the smoothed count
//! `count + 1`, a numerator over the common denominator `t + 4`, and a
//! k-mer's probability is the product of its numerators over `denom^k`.
//! Comparing or weighting k-mers by these numerators orders them exactly as
//! the underlying probabilities do, since the denominators agree.
use vstd::prelude::*;
use vstd::arithmetic::power::pow;

pub mod bases;
pub mod consensus;
pub mod kmer;
pub mod profile;
pub mod gibbs;
pub mod rng;
pub mod search;

pub use gibbs::gibbs_sampler;
pub use search::randomized_motif_search;

verus! {

/// Why a request was rejected rather than computed.
#[derive(Clone, Copy, PartialEq, Eq, Structural, Debug)]
pub enum MotifError {
    /// The input shape was rejected up front: a sequence count that does
    /// not match, an empty sequence list, a motif length of zero or larger
    /// than some sequence, or a character outside the DNA alphabet.
    InvalidInputShape,
    /// A weighted draw was handed weights that are all zero. A
    /// Laplace-smoothed profile cannot produce this, but it is reported
    /// rather than silently resolved if it is ever reached.
    DegenerateProbability,
}

/// Character-for-character string equality.
fn str_eq(a: &str, b: &str) -> (r: bool)
    ensures
        r == (a@ == b@),
{
    let n = a.unicode_len();
    let m = b.unicode_len();
    if n != m {
        return false;
    }
    for i in 0..n
        invariant
            n == a@.len(),
            n == b@.len(),
            forall|j: int| 0 <= j < i ==> a@[j] == b@[j],
    {
        if a.get_char(i) != b.get_char(i) {
            return false;
        }
    }
    proof {
        assert(a@ =~= b@);
    }
    true
}

/// The run configuration drawn from the command line: which problem to
/// solve. The first argument is the program name and is skipped.
#[derive(PartialEq, Eq, Debug)]
pub struct Config {
    pub problem: String,
}

impl Config {
    /// Builds a Config from the argument list, keeping the first argument
    /// after the program name as the problem selector.
    pub fn build(args: &Vec<String>) -> (r: Result<Config, &'static str>)
        ensures
            args@.len() >= 2 ==> (r matches Ok(c) && c.problem@ == args@[1]@),
            args@.len() < 2 ==> (r matches Err(m) && m@ == "Didn't get a file path"@),
    {
        if args.len() < 2 {
            Err("Didn't get a file path")
        } else {
            Ok(Config { problem: args[1].clone() })
        }
    }
}

/// Runs the algorithm that the problem selector names on the given
/// sequences; an unknown selector is rejected as invalid input.
pub fn solve(
    problem: &str,
    dna: Vec<String>,
    k: usize,
    t: usize,
    r: usize,
    rng: &mut rand::rngs::StdRng,
) -> (out: Result<(Vec<String>, i32), MotifError>)
    requires
        t * k <= i32::MAX,
        pow(t as int + 4, k as nat) <= u64::MAX,
    ensures
        problem@ == "RandomizedMotifSearch"@ ==> ((out is Ok <==> search::valid_input(
            bases::views_of(dna@),
            k as nat,
            t as nat,
        )) && search::search_result_ok(bases::views_of(dna@), k as nat, t as nat, out)),
        problem@ == "GibbsSampler"@ ==> ((out is Ok <==> (search::valid_input(
            bases::views_of(dna@),
            k as nat,
            t as nat,
        ) && (2 <= t || r == 0))) && search::search_result_ok(
            bases::views_of(dna@),
            k as nat,
            t as nat,
            out,
        )),
        problem@ != "RandomizedMotifSearch"@ && problem@ != "GibbsSampler"@ ==> out == Result::<
            (Vec<String>, i32),
            MotifError,
        >::Err(MotifError::InvalidInputShape),
{
    proof {
        reveal_strlit("RandomizedMotifSearch");
        reveal_strlit("GibbsSampler");
        assert("RandomizedMotifSearch"@.len() != "GibbsSampler"@.len());
    }
    if str_eq(problem, "RandomizedMotifSearch") {
        search::randomized_motif_search(dna, k, t, rng)
    } else if str_eq(problem, "GibbsSampler") {
        gibbs::gibbs_sampler(dna, k, t, r, rng)
    } else {
        Err(MotifError::InvalidInputShape)
    }
}

} // verus!

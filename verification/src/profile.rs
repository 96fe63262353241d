//! Laplace-smoothed profile matrices of motif sets, held exactly: each
//! entry is the numerator `count + 1` over the common denominator `t + 4`.
use vstd::prelude::*;
use crate::bases::{
    all_bases,
    base_at,
    col_count,
    column_counts,
    lemma_col_count_le_len,
    lemma_col_counts_total,
    views_of,
};

verus! {

/// A profile matrix: one row per motif column, one entry per base in the
/// enumeration order A, C, G, T. Entry `rows[col][b]` is the smoothed count
/// of base b in column col; the probability it stands for is that entry
/// over `denom`.
pub struct Profile {
    pub rows: Vec<Vec<u64>>,
    pub denom: u64,
}

/// A well-formed row: the four entries, each positive (Laplace smoothing)
/// and at most the denominator, summing to the denominator — the exact
/// form of "each row of probabilities sums to one".
pub open spec fn row_wf(row: Seq<u64>, denom: u64) -> bool {
    &&& row.len() == 4
    &&& forall|b: int| 0 <= b < 4 ==> 1 <= #[trigger] row[b] <= denom
    &&& row[0] + row[1] + row[2] + row[3] == denom
}

impl Profile {
    /// The matrix as a sequence of rows of entries.
    pub open spec fn matrix(self) -> Seq<Seq<u64>> {
        Seq::new(self.rows@.len(), |i: int| self.rows@[i]@)
    }

    /// A well-formed profile of width k.
    pub open spec fn wf(self, k: nat) -> bool {
        &&& self.rows@.len() == k
        &&& 5 <= self.denom
        &&& forall|i: int| 0 <= i < k ==> row_wf(#[trigger] self.matrix()[i], self.denom)
    }
}

/// The profile that Laplace smoothing assigns to a motif set of width k.
pub open spec fn profile_of(motifs: Seq<Seq<char>>, k: nat, p: Profile) -> bool {
    &&& p.rows@.len() == k
    &&& p.denom == motifs.len() + 4
    &&& forall|col: int| 0 <= col < k ==> (#[trigger] p.matrix()[col]).len() == 4
    &&& forall|col: int, b: int|
        0 <= col < k && 0 <= b < 4 ==> #[trigger] p.matrix()[col][b] == col_count(
            motifs,
            col,
            base_at(b),
        ) + 1
}

/// Law: in the profile of a motif set, every row's entries sum to the
/// common denominator; read as probabilities, every row sums to one.
pub proof fn lemma_profile_rows_sum(motifs: Seq<Seq<char>>, k: nat, p: Profile)
    requires
        crate::bases::motifs_wf(motifs, k),
        profile_of(motifs, k, p),
    ensures
        forall|col: int|
            0 <= col < k ==> #[trigger] p.matrix()[col][0] + p.matrix()[col][1]
                + p.matrix()[col][2] + p.matrix()[col][3] == motifs.len() + 4,
{
    assert forall|col: int|
        0 <= col < k implies #[trigger] p.matrix()[col][0] + p.matrix()[col][1]
        + p.matrix()[col][2] + p.matrix()[col][3] == motifs.len() + 4 by {
        assert forall|i: int| 0 <= i < motifs.len() implies col < (#[trigger] motifs[i]).len() by {}
        assert forall|i: int|
            0 <= i < motifs.len() implies crate::bases::is_base((#[trigger] motifs[i])[col]) by {
            assert(all_bases(motifs[i]));
        }
        lemma_col_counts_total(motifs, col);
        assert(p.matrix()[col][0] == col_count(motifs, col, 'A') + 1);
        assert(p.matrix()[col][1] == col_count(motifs, col, 'C') + 1);
        assert(p.matrix()[col][2] == col_count(motifs, col, 'G') + 1);
        assert(p.matrix()[col][3] == col_count(motifs, col, 'T') + 1);
    }
}

/// A profile of a well-formed motif set is itself well-formed.
pub proof fn lemma_profile_of_wf(motifs: Seq<Seq<char>>, k: nat, p: Profile)
    requires
        crate::bases::motifs_wf(motifs, k),
        profile_of(motifs, k, p),
    ensures
        p.wf(k),
{
    lemma_profile_rows_sum(motifs, k, p);
    assert forall|i: int| 0 <= i < k implies row_wf(#[trigger] p.matrix()[i], p.denom) by {
        assert forall|b: int| 0 <= b < 4 implies 1 <= #[trigger] p.matrix()[i][b]
            <= p.denom by {
            lemma_col_count_le_len(motifs, i, base_at(b));
            assert(p.matrix()[i][b] == col_count(motifs, i, base_at(b)) + 1);
        }
    }
}

/// Builds the Laplace-smoothed profile matrix of a motif set.
pub fn gen_profile(motifs: &Vec<String>) -> (p: Profile)
    requires
        motifs@.len() >= 1,
        motifs@.len() + 4 <= u64::MAX,
        forall|i: int| 0 <= i < motifs@.len() ==> (#[trigger] motifs@[i])@.len() == motifs@[0]@.len(),
        forall|i: int| 0 <= i < motifs@.len() ==> all_bases((#[trigger] motifs@[i])@),
    ensures
        profile_of(views_of(motifs@), motifs@[0]@.len(), p),
        p.wf(motifs@[0]@.len()),
{
    let ghost m = views_of(motifs@);
    let ghost kk = motifs@[0]@.len();
    let k = motifs[0].as_str().unicode_len();
    let t = motifs.len();
    let denom: u64 = (t as u64) + 4;
    let mut rows: Vec<Vec<u64>> = Vec::new();
    for col in 0..k
        invariant
            motifs@.len() >= 1,
            motifs@.len() + 4 <= u64::MAX,
            forall|i: int|
                0 <= i < motifs@.len() ==> (#[trigger] motifs@[i])@.len() == motifs@[0]@.len(),
            m == views_of(motifs@),
            kk == motifs@[0]@.len(),
            k == kk,
            t == motifs@.len(),
            denom == t + 4,
            rows@.len() == col,
            forall|c: int, b: int|
                0 <= c < col && 0 <= b < 4 ==> #[trigger] rows@[c]@[b] == col_count(
                    m,
                    c,
                    base_at(b),
                ) + 1,
            forall|c: int| 0 <= c < col ==> (#[trigger] rows@[c])@.len() == 4,
    {
        let (na, nc, ng, nt) = column_counts(motifs, col);
        let mut row: Vec<u64> = Vec::new();
        row.push((na as u64) + 1);
        row.push((nc as u64) + 1);
        row.push((ng as u64) + 1);
        row.push((nt as u64) + 1);
        rows.push(row);
    }
    let p = Profile { rows, denom };
    proof {
        assert forall|col: int, b: int|
            0 <= col < kk && 0 <= b < 4 implies #[trigger] p.matrix()[col][b] == col_count(
            m,
            col,
            base_at(b),
        ) + 1 by {
            assert(p.matrix()[col] == p.rows@[col]@);
        }
        assert(profile_of(m, kk, p));
        assert forall|i: int| 0 <= i < m.len() implies all_bases(#[trigger] m[i]) by {
            assert(m[i] == motifs@[i]@);
        }
        lemma_profile_of_wf(m, kk, p);
    }
    p
}

} // verus!

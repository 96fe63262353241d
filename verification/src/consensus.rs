//! Consensus strings and Hamming-distance scoring of motif sets.
use vstd::prelude::*;
use crate::bases::{
    all_bases,
    col_count,
    column_counts,
    is_base,
    lemma_col_count_take_step,
    views_of,
};

verus! {

/// The consensus character of one column: the most frequent base there,
/// ties broken in the enumeration order A, C, G, T.
pub open spec fn consensus_char(motifs: Seq<Seq<char>>, col: int) -> char {
    let na = col_count(motifs, col, 'A');
    let nc = col_count(motifs, col, 'C');
    let ng = col_count(motifs, col, 'G');
    let nt = col_count(motifs, col, 'T');
    if na >= nc && na >= ng && na >= nt {
        'A'
    } else if nc >= ng && nc >= nt {
        'C'
    } else if ng >= nt {
        'G'
    } else {
        'T'
    }
}

/// The consensus string of a motif set of width k.
pub open spec fn consensus_of(motifs: Seq<Seq<char>>, k: nat) -> Seq<char> {
    Seq::new(k, |col: int| consensus_char(motifs, col))
}

/// Count of positions where two equal-length sequences differ.
pub open spec fn hamming(a: Seq<char>, b: Seq<char>) -> nat
    decreases a.len(),
{
    if a.len() == 0 {
        0
    } else {
        hamming(a.drop_last(), b.drop_last()) + (if a.last() == b.last() {
            0nat
        } else {
            1nat
        })
    }
}

/// Sum over the motifs of their Hamming distance to a consensus string.
pub open spec fn total_score(motifs: Seq<Seq<char>>, cons: Seq<char>) -> nat
    decreases motifs.len(),
{
    if motifs.len() == 0 {
        0
    } else {
        total_score(motifs.drop_last(), cons) + hamming(motifs.last(), cons)
    }
}

/// Every row agrees with the first one in every one of the k columns.
pub open spec fn unanimous(motifs: Seq<Seq<char>>, k: nat) -> bool {
    forall|i: int, j: int|
        0 <= i < motifs.len() && 0 <= j < k ==> #[trigger] motifs[i][j] == motifs[0][j]
}

/// Law: a consensus string has length k and consists of bases only,
/// whatever the motif set holds.
pub proof fn lemma_consensus_len_and_bases(motifs: Seq<Seq<char>>, k: nat)
    ensures
        consensus_of(motifs, k).len() == k,
        all_bases(consensus_of(motifs, k)),
{
}

pub proof fn lemma_hamming_le_len(a: Seq<char>, b: Seq<char>)
    ensures
        hamming(a, b) <= a.len(),
    decreases a.len(),
{
    if a.len() > 0 {
        lemma_hamming_le_len(a.drop_last(), b.drop_last());
    }
}

/// Two equal-length sequences are at Hamming distance zero exactly when
/// they are equal.
pub proof fn lemma_hamming_zero(a: Seq<char>, b: Seq<char>)
    requires
        a.len() == b.len(),
    ensures
        (hamming(a, b) == 0) <==> (a == b),
    decreases a.len(),
{
    if a.len() == 0 {
        assert(a =~= b);
    } else {
        lemma_hamming_zero(a.drop_last(), b.drop_last());
        if hamming(a, b) == 0 {
            assert(a =~= b) by {
                assert(a.drop_last() == b.drop_last());
                assert forall|j: int| 0 <= j < a.len() implies a[j] == b[j] by {
                    if j < a.len() - 1 {
                        assert(a[j] == a.drop_last()[j]);
                        assert(b[j] == b.drop_last()[j]);
                    }
                }
            }
        }
        if a == b {
            assert(a.drop_last() =~= b.drop_last());
        }
    }
}

pub proof fn lemma_hamming_take_step(a: Seq<char>, b: Seq<char>, i: int)
    requires
        0 <= i < a.len(),
        i < b.len(),
    ensures
        hamming(a.take(i + 1), b.take(i + 1)) == hamming(a.take(i), b.take(i)) + (if a[i] == b[i] {
            0nat
        } else {
            1nat
        }),
{
    assert(a.take(i + 1).drop_last() =~= a.take(i));
    assert(b.take(i + 1).drop_last() =~= b.take(i));
}

pub proof fn lemma_total_score_take_step(motifs: Seq<Seq<char>>, cons: Seq<char>, i: int)
    requires
        0 <= i < motifs.len(),
    ensures
        total_score(motifs.take(i + 1), cons) == total_score(motifs.take(i), cons) + hamming(
            motifs[i],
            cons,
        ),
{
    assert(motifs.take(i + 1).drop_last() =~= motifs.take(i));
    assert(motifs.take(i + 1).last() == motifs[i]);
}

/// A total score is zero exactly when every motif sits at distance zero.
pub proof fn lemma_total_score_zero_iff(motifs: Seq<Seq<char>>, cons: Seq<char>)
    ensures
        (total_score(motifs, cons) == 0) <==> (forall|i: int|
            0 <= i < motifs.len() ==> hamming(#[trigger] motifs[i], cons) == 0),
    decreases motifs.len(),
{
    if motifs.len() > 0 {
        lemma_total_score_zero_iff(motifs.drop_last(), cons);
        assert forall|i: int|
            0 <= i < motifs.drop_last().len() implies #[trigger] motifs.drop_last()[i]
            == motifs[i] by {}
        assert(motifs.last() == motifs[motifs.len() - 1]);
        if total_score(motifs, cons) == 0 {
            assert forall|i: int| 0 <= i < motifs.len() implies hamming(
                #[trigger] motifs[i],
                cons,
            ) == 0 by {
                if i < motifs.len() - 1 {
                    assert(hamming(motifs.drop_last()[i], cons) == 0);
                }
            }
        }
        if forall|i: int| 0 <= i < motifs.len() ==> hamming(#[trigger] motifs[i], cons) == 0 {
            assert(hamming(motifs.last(), cons) == 0);
            assert forall|i: int| 0 <= i < motifs.drop_last().len() implies hamming(
                #[trigger] motifs.drop_last()[i],
                cons,
            ) == 0 by {
                assert(hamming(motifs[i], cons) == 0);
            }
        }
    }
}

proof fn lemma_unanimous_col_count(motifs: Seq<Seq<char>>, col: int, c0: char, c: char)
    requires
        0 <= col,
        forall|i: int| 0 <= i < motifs.len() ==> col < (#[trigger] motifs[i]).len(),
        forall|i: int| 0 <= i < motifs.len() ==> (#[trigger] motifs[i])[col] == c0,
    ensures
        col_count(motifs, col, c) == if c == c0 {
            motifs.len()
        } else {
            0nat
        },
    decreases motifs.len(),
{
    if motifs.len() > 0 {
        assert forall|i: int| 0 <= i < motifs.drop_last().len() implies col < (
        #[trigger] motifs.drop_last()[i]).len() && motifs.drop_last()[i][col] == c0 by {
            assert(motifs.drop_last()[i] == motifs[i]);
        }
        lemma_unanimous_col_count(motifs.drop_last(), col, c0, c);
        assert(motifs.last()[col] == c0);
    }
}

/// Law: the score of a motif set against its own consensus is zero exactly
/// when every column of the set is unanimous.
pub proof fn lemma_score_zero_iff_unanimous(motifs: Seq<Seq<char>>, k: nat)
    requires
        crate::bases::motifs_wf(motifs, k),
    ensures
        (total_score(motifs, consensus_of(motifs, k)) == 0) <==> unanimous(motifs, k),
{
    let cons = consensus_of(motifs, k);
    lemma_total_score_zero_iff(motifs, cons);
    if total_score(motifs, cons) == 0 {
        assert forall|i: int, j: int|
            0 <= i < motifs.len() && 0 <= j < k implies #[trigger] motifs[i][j]
            == motifs[0][j] by {
            assert(hamming(motifs[i], cons) == 0);
            assert(hamming(motifs[0], cons) == 0);
            lemma_hamming_zero(motifs[i], cons);
            lemma_hamming_zero(motifs[0], cons);
        }
        assert(unanimous(motifs, k));
    }
    if unanimous(motifs, k) {
        assert forall|i: int| 0 <= i < motifs.len() implies hamming(
            #[trigger] motifs[i],
            cons,
        ) == 0 by {
            assert forall|col: int| 0 <= col < k implies motifs[i][col] == cons[col] by {
                let c0 = motifs[0][col];
                assert(motifs[i][col] == c0);
                assert forall|q: int| 0 <= q < motifs.len() implies (#[trigger] motifs[q])[col]
                    == c0 by {
                    assert(motifs[q][col] == motifs[0][col]);
                }
                lemma_unanimous_col_count(motifs, col, c0, 'A');
                lemma_unanimous_col_count(motifs, col, c0, 'C');
                lemma_unanimous_col_count(motifs, col, c0, 'G');
                lemma_unanimous_col_count(motifs, col, c0, 'T');
                assert(is_base(c0));
            }
            assert(motifs[i] =~= cons);
            lemma_hamming_zero(motifs[i], cons);
        }
    }
}

/// The executable consensus: per-column majority vote with ties broken in
/// the order A, C, G, T.
pub fn gen_consensus(motifs: &Vec<String>) -> (r: String)
    requires
        motifs@.len() >= 1,
        forall|i: int| 0 <= i < motifs@.len() ==> (#[trigger] motifs@[i])@.len() == motifs@[0]@.len(),
    ensures
        r@ == consensus_of(views_of(motifs@), motifs@[0]@.len()),
{
    let ghost m = views_of(motifs@);
    let ghost kk = motifs@[0]@.len();
    let k = motifs[0].as_str().unicode_len();
    let mut out = String::new();
    proof {
        assert(consensus_of(m, kk).take(0) =~= out@);
    }
    for col in 0..k
        invariant
            motifs@.len() >= 1,
            forall|i: int|
                0 <= i < motifs@.len() ==> (#[trigger] motifs@[i])@.len() == motifs@[0]@.len(),
            m == views_of(motifs@),
            kk == motifs@[0]@.len(),
            k == kk,
            out@ == consensus_of(m, kk).take(col as int),
    {
        let (na, nc, ng, nt) = column_counts(motifs, col);
        let b: &str = if na >= nc && na >= ng && na >= nt {
            "A"
        } else if nc >= ng && nc >= nt {
            "C"
        } else if ng >= nt {
            "G"
        } else {
            "T"
        };
        proof {
            reveal_strlit("A");
            reveal_strlit("C");
            reveal_strlit("G");
            reveal_strlit("T");
            assert(b@.len() == 1 && b@[0] == consensus_char(m, col as int));
        }
        out.append(b);
        proof {
            assert(out@ =~= consensus_of(m, kk).take(col + 1));
        }
    }
    proof {
        assert(consensus_of(m, kk).take(kk as int) =~= consensus_of(m, kk));
    }
    out
}

/// The executable Hamming distance between two equal-length strings.
pub fn hamming_distance(motif: &str, consensus: &str) -> (r: i32)
    requires
        motif@.len() == consensus@.len(),
        motif@.len() <= i32::MAX,
    ensures
        r == hamming(motif@, consensus@),
{
    let n = motif.unicode_len();
    let mut hd: i32 = 0;
    proof {
        assert(motif@.take(0) =~= consensus@.take(0).take(0));
        assert(hamming(motif@.take(0), consensus@.take(0)) == 0);
    }
    for i in 0..n
        invariant
            n == motif@.len(),
            motif@.len() == consensus@.len(),
            motif@.len() <= i32::MAX,
            hd == hamming(motif@.take(i as int), consensus@.take(i as int)),
            hd <= i,
    {
        let a = motif.get_char(i);
        let b = consensus.get_char(i);
        proof {
            lemma_hamming_take_step(motif@, consensus@, i as int);
        }
        if a != b {
            hd = hd + 1;
        }
    }
    proof {
        assert(motif@.take(n as int) =~= motif@);
        assert(consensus@.take(n as int) =~= consensus@);
    }
    hd
}

/// The executable score: the motif set's total Hamming distance to a
/// consensus string.
pub fn score(motifs: &Vec<String>, consensus: &str) -> (r: i32)
    requires
        forall|i: int|
            0 <= i < motifs@.len() ==> (#[trigger] motifs@[i])@.len() == consensus@.len(),
        motifs@.len() * consensus@.len() <= i32::MAX,
    ensures
        r == total_score(views_of(motifs@), consensus@),
{
    let ghost m = views_of(motifs@);
    let t = motifs.len();
    let mut sc: i32 = 0;
    for i in 0..t
        invariant
            t == motifs@.len(),
            m == views_of(motifs@),
            forall|j: int|
                0 <= j < motifs@.len() ==> (#[trigger] motifs@[j])@.len() == consensus@.len(),
            motifs@.len() * consensus@.len() <= i32::MAX,
            sc == total_score(m.take(i as int), consensus@),
            sc <= i * consensus@.len(),
    {
        proof {
            assert(consensus@.len() <= t * consensus@.len()) by (nonlinear_arith)
                requires
                    1 <= t,
                    consensus@.len() >= 0,
            ;
        }
        let hd = hamming_distance(motifs[i].as_str(), consensus);
        proof {
            lemma_total_score_take_step(m, consensus@, i as int);
            lemma_hamming_le_len(m[i as int], consensus@);
            assert((i + 1) * consensus@.len() == i * consensus@.len() + consensus@.len())
                by (nonlinear_arith);
            assert(i + 1 <= t);
            assert((i + 1) * consensus@.len() <= t * consensus@.len()) by (nonlinear_arith)
                requires
                    0 <= i + 1 <= t,
                    consensus@.len() >= 0,
            ;
        }
        sc = sc + hd;
    }
    proof {
        assert(m.take(t as int) =~= m);
    }
    sc
}

} // verus!

//! The DNA alphabet and per-column base counting over motif sets.
use vstd::prelude::*;

verus! {

/// Whether a character is one of the four DNA bases.
pub open spec fn is_base(c: char) -> bool {
    c == 'A' || c == 'C' || c == 'G' || c == 'T'
}

/// Index of a base in the fixed enumeration order A, C, G, T.
pub open spec fn base_index(c: char) -> int {
    if c == 'A' {
        0
    } else if c == 'C' {
        1
    } else if c == 'G' {
        2
    } else {
        3
    }
}

/// The base standing at a given index of the enumeration order A, C, G, T.
pub open spec fn base_at(i: int) -> char {
    if i == 0 {
        'A'
    } else if i == 1 {
        'C'
    } else if i == 2 {
        'G'
    } else {
        'T'
    }
}

/// Every character of the sequence is a DNA base.
pub open spec fn all_bases(s: Seq<char>) -> bool {
    forall|j: int| 0 <= j < s.len() ==> is_base(#[trigger] s[j])
}

/// The character sequences of a vector of strings, in order.
pub open spec fn views_of(strings: Seq<String>) -> Seq<Seq<char>> {
    Seq::new(strings.len(), |i: int| strings[i]@)
}

/// A motif set: at least one motif, all of length k, all over the alphabet.
pub open spec fn motifs_wf(motifs: Seq<Seq<char>>, k: nat) -> bool {
    &&& motifs.len() >= 1
    &&& forall|i: int| 0 <= i < motifs.len() ==> (#[trigger] motifs[i]).len() == k
    &&& forall|i: int| 0 <= i < motifs.len() ==> all_bases(#[trigger] motifs[i])
}

/// How many motifs carry character c in column col.
pub open spec fn col_count(motifs: Seq<Seq<char>>, col: int, c: char) -> nat
    decreases motifs.len(),
{
    if motifs.len() == 0 {
        0
    } else {
        col_count(motifs.drop_last(), col, c) + (if motifs.last()[col] == c {
            1nat
        } else {
            0nat
        })
    }
}

pub proof fn lemma_col_count_le_len(motifs: Seq<Seq<char>>, col: int, c: char)
    ensures
        col_count(motifs, col, c) <= motifs.len(),
    decreases motifs.len(),
{
    if motifs.len() > 0 {
        lemma_col_count_le_len(motifs.drop_last(), col, c);
    }
}

/// One row more extends a column count by that row's contribution.
pub proof fn lemma_col_count_take_step(motifs: Seq<Seq<char>>, col: int, c: char, i: int)
    requires
        0 <= i < motifs.len(),
    ensures
        col_count(motifs.take(i + 1), col, c) == col_count(motifs.take(i), col, c) + (
        if motifs[i][col] == c {
            1nat
        } else {
            0nat
        }),
{
    assert(motifs.take(i + 1).drop_last() =~= motifs.take(i));
    assert(motifs.take(i + 1).last() == motifs[i]);
}

/// In a column whose characters are all bases, the four base counts
/// exhaust the rows.
pub proof fn lemma_col_counts_total(motifs: Seq<Seq<char>>, col: int)
    requires
        0 <= col,
        forall|i: int| 0 <= i < motifs.len() ==> col < (#[trigger] motifs[i]).len(),
        forall|i: int| 0 <= i < motifs.len() ==> is_base((#[trigger] motifs[i])[col]),
    ensures
        col_count(motifs, col, 'A') + col_count(motifs, col, 'C') + col_count(motifs, col, 'G')
            + col_count(motifs, col, 'T') == motifs.len(),
    decreases motifs.len(),
{
    if motifs.len() > 0 {
        assert forall|i: int| 0 <= i < motifs.drop_last().len() implies col < (
        #[trigger] motifs.drop_last()[i]).len() && is_base(motifs.drop_last()[i][col]) by {
            assert(motifs.drop_last()[i] == motifs[i]);
        }
        lemma_col_counts_total(motifs.drop_last(), col);
        assert(is_base(motifs.last()[col]));
    }
}

/// Executable lookup of a base's index in the enumeration order.
pub fn base_idx(c: char) -> (i: usize)
    requires
        is_base(c),
    ensures
        i == base_index(c),
{
    if c == 'A' {
        0
    } else if c == 'C' {
        1
    } else if c == 'G' {
        2
    } else {
        3
    }
}

/// Counts each of the four bases in one column of a motif set.
pub(crate) fn column_counts(motifs: &Vec<String>, col: usize) -> (r: (usize, usize, usize, usize))
    requires
        forall|i: int| 0 <= i < motifs@.len() ==> col < (#[trigger] motifs@[i])@.len(),
    ensures
        r.0 == col_count(views_of(motifs@), col as int, 'A'),
        r.1 == col_count(views_of(motifs@), col as int, 'C'),
        r.2 == col_count(views_of(motifs@), col as int, 'G'),
        r.3 == col_count(views_of(motifs@), col as int, 'T'),
        r.0 <= motifs@.len() && r.1 <= motifs@.len() && r.2 <= motifs@.len() && r.3
            <= motifs@.len(),
{
    let ghost m = views_of(motifs@);
    let t = motifs.len();
    let mut na: usize = 0;
    let mut nc: usize = 0;
    let mut ng: usize = 0;
    let mut nt: usize = 0;
    for row in 0..t
        invariant
            t == motifs@.len(),
            m == views_of(motifs@),
            forall|i: int| 0 <= i < motifs@.len() ==> col < (#[trigger] motifs@[i])@.len(),
            na == col_count(m.take(row as int), col as int, 'A'),
            nc == col_count(m.take(row as int), col as int, 'C'),
            ng == col_count(m.take(row as int), col as int, 'G'),
            nt == col_count(m.take(row as int), col as int, 'T'),
            na <= row && nc <= row && ng <= row && nt <= row,
    {
        let ch = motifs[row].as_str().get_char(col);
        if ch == 'A' {
            na = na + 1;
        } else if ch == 'C' {
            nc = nc + 1;
        } else if ch == 'G' {
            ng = ng + 1;
        } else if ch == 'T' {
            nt = nt + 1;
        }
        proof {
            lemma_col_count_take_step(m, col as int, 'A', row as int);
            lemma_col_count_take_step(m, col as int, 'C', row as int);
            lemma_col_count_take_step(m, col as int, 'G', row as int);
            lemma_col_count_take_step(m, col as int, 'T', row as int);
        }
    }
    proof {
        assert(m.take(t as int) =~= m);
    }
    (na, nc, ng, nt)
}

} // verus!

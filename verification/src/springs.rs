//! Which particles are tied by springs: sequence neighbours of one document
//! get a stiff token spring, near tokens of one sentence a soft sentence
//! spring, and every other pair none.

use vstd::prelude::*;

verus! {

/// Token distance up to which (exclusive) two tokens of one sentence are
/// tied by a sentence spring.
pub const SENTENCE_SPRING_REACH: i32 = 8;

/// Where a particle stands in the text: the part of a particle that decides
/// its springs.
#[derive(Debug, Clone, Copy, PartialEq, Eq, Structural)]
pub struct TokenSlot {
    pub token_idx: usize,
    pub sentence_id: usize,
    pub doc_id: u64,
}

/// The two spring families.
#[derive(Debug, Clone, Copy, PartialEq, Eq, Structural)]
pub enum SpringKind {
    /// Adjacent tokens (token spring constant, adjacency rest length).
    Token,
    /// Tokens of one sentence less than `SENTENCE_SPRING_REACH` apart
    /// (sentence spring constant, dependency rest length).
    Sentence,
}

/// A spring between particles `i < j` of a slice.
#[derive(Debug, Clone, Copy, PartialEq, Eq, Structural)]
pub struct SpringBond {
    pub i: usize,
    pub j: usize,
    pub kind: SpringKind,
}

/// Signed distance from `a` to `b` in token indices, each index read as an
/// `i32` (wrapping, as the engine stores them).
pub open spec fn token_gap(a: TokenSlot, b: TokenSlot) -> int {
    (b.token_idx as i32) - (a.token_idx as i32)
}

/// The gap is an `i32` other than `i32::MIN`, so it can be taken and its
/// absolute value formed without overflow.
pub open spec fn gap_fits(a: TokenSlot, b: TokenSlot) -> bool {
    i32::MIN < token_gap(a, b) <= i32::MAX
}

pub open spec fn abs_int(x: int) -> int {
    if x < 0 {
        -x
    } else {
        x
    }
}

/// The spring between two particles, if any.
pub open spec fn spec_spring_between(a: TokenSlot, b: TokenSlot) -> Option<SpringKind> {
    if a.doc_id != b.doc_id {
        None
    } else if abs_int(token_gap(a, b)) == 1 {
        Some(SpringKind::Token)
    } else if abs_int(token_gap(a, b)) < SENTENCE_SPRING_REACH && a.sentence_id == b.sentence_id {
        Some(SpringKind::Sentence)
    } else {
        None
    }
}

/// Every pair of one document has a gap that fits.
pub open spec fn gaps_fit(s: Seq<TokenSlot>) -> bool {
    forall|p: int, q: int|
        0 <= p < q < s.len() && #[trigger] s[p].doc_id == #[trigger] s[q].doc_id ==> gap_fits(
            s[p],
            s[q],
        )
}

/// The springs of `s` from the pair `(i, j)` on, in the order the engine
/// visits pairs: `i` ascending, then `j` ascending from `i + 1`.
pub open spec fn bonds_from(s: Seq<TokenSlot>, i: int, j: int) -> Seq<SpringBond>
    decreases s.len() - i, s.len() - j,
{
    if i < 0 || i >= s.len() {
        Seq::empty()
    } else if j >= s.len() {
        bonds_from(s, i + 1, i + 2)
    } else {
        let rest = bonds_from(s, i, j + 1);
        match spec_spring_between(s[i], s[j]) {
            Some(kind) => seq![SpringBond { i: i as usize, j: j as usize, kind }] + rest,
            None => rest,
        }
    }
}

/// The spring between two particles, if any.
pub fn spring_between(a: &TokenSlot, b: &TokenSlot) -> (kind: Option<SpringKind>)
    requires
        a.doc_id == b.doc_id ==> gap_fits(*a, *b),
    ensures
        kind == spec_spring_between(*a, *b),
        a.doc_id != b.doc_id ==> kind is None,
        a.doc_id == b.doc_id && ((b.token_idx as i32) - (a.token_idx as i32) == 1 || (
        b.token_idx as i32) - (a.token_idx as i32) == -1) ==> kind == Some(SpringKind::Token),
        (b.token_idx as i32) - (a.token_idx as i32) >= 8 || (b.token_idx as i32) - (
        a.token_idx as i32) <= -8 ==> kind is None,
{
    proof {
        lemma_far_tokens_are_never_tied(*a, *b);
        lemma_neighbours_get_token_spring(*a, *b);
    }
    if a.doc_id != b.doc_id {
        return None;
    }
    let ti: i32 = a.token_idx as i32;
    let tj: i32 = b.token_idx as i32;
    let idx_diff: i32 = tj - ti;
    let dist: i32 = if idx_diff < 0 {
        -idx_diff
    } else {
        idx_diff
    };
    if dist == 1 {
        Some(SpringKind::Token)
    } else if dist < SENTENCE_SPRING_REACH && a.sentence_id == b.sentence_id {
        Some(SpringKind::Sentence)
    } else {
        None
    }
}

/// All springs among `slots`, pairs `i < j` in visiting order.
pub fn spring_bonds(slots: &Vec<TokenSlot>) -> (bonds: Vec<SpringBond>)
    requires
        gaps_fit(slots@),
    ensures
        bonds@ == bonds_from(slots@, 0, 1),
{
    let n = slots.len();
    let ghost s = slots@;
    let mut bonds: Vec<SpringBond> = Vec::new();
    let mut i: usize = 0;
    while i < n
        invariant
            n == s.len(),
            s == slots@,
            gaps_fit(s),
            i <= n,
            bonds@ + bonds_from(s, i as int, i + 1) == bonds_from(s, 0, 1),
        decreases n - i,
    {
        let mut j: usize = i + 1;
        while j < n
            invariant
                n == s.len(),
                s == slots@,
                gaps_fit(s),
                i < n,
                i + 1 <= j <= n,
                bonds@ + bonds_from(s, i as int, j as int) == bonds_from(s, 0, 1),
            decreases n - j,
        {
            let ghost before = bonds@;
            match spring_between(&slots[i], &slots[j]) {
                Some(kind) => {
                    bonds.push(SpringBond { i, j, kind });
                    assert(before + bonds_from(s, i as int, j as int) =~= bonds@ + bonds_from(
                        s,
                        i as int,
                        j + 1,
                    ));
                },
                None => {},
            }
            j += 1;
        }
        i += 1;
    }
    assert(bonds_from(s, n as int, n + 1) =~= Seq::<SpringBond>::empty());
    assert(bonds@ + Seq::<SpringBond>::empty() =~= bonds@);
    bonds
}

/// Pair `(p, q)` comes at or after pair `(i, j)` in visiting order.
pub open spec fn pair_at_or_after(p: int, q: int, i: int, j: int) -> bool {
    p > i || (p == i && q >= j)
}

/// Bond `a` is visited strictly before bond `b`.
pub open spec fn bond_before(a: SpringBond, b: SpringBond) -> bool {
    a.i < b.i || (a.i == b.i && a.j < b.j)
}

proof fn lemma_bonds_from_facts(s: Seq<TokenSlot>, i: int, j: int)
    requires
        s.len() <= usize::MAX,
        0 <= i < j,
    ensures
        forall|k: int|
            0 <= k < bonds_from(s, i, j).len() ==> {
                let b = #[trigger] bonds_from(s, i, j)[k];
                &&& pair_at_or_after(b.i as int, b.j as int, i, j)
                &&& b.i < b.j < s.len()
                &&& spec_spring_between(s[b.i as int], s[b.j as int]) == Some(b.kind)
            },
        forall|k1: int, k2: int|
            0 <= k1 < k2 < bonds_from(s, i, j).len() ==> bond_before(
                #[trigger] bonds_from(s, i, j)[k1],
                #[trigger] bonds_from(s, i, j)[k2],
            ),
        forall|p: int, q: int|
            0 <= p < q < s.len() && pair_at_or_after(p, q, i, j) && (#[trigger] spec_spring_between(
                s[p],
                s[q],
            )) is Some ==> exists|k: int|
                0 <= k < bonds_from(s, i, j).len() && (#[trigger] bonds_from(s, i, j)[k]).i == p
                    && bonds_from(s, i, j)[k].j == q,
    decreases s.len() - i, s.len() - j,
{
    let r = bonds_from(s, i, j);
    if i >= s.len() {
    } else if j >= s.len() {
        lemma_bonds_from_facts(s, i + 1, i + 2);
        assert(r == bonds_from(s, i + 1, i + 2));
    } else {
        lemma_bonds_from_facts(s, i, j + 1);
        let rest = bonds_from(s, i, j + 1);
        match spec_spring_between(s[i], s[j]) {
            Some(kind) => {
                let b0 = SpringBond { i: i as usize, j: j as usize, kind };
                assert(r == seq![b0] + rest);
                assert forall|k: int| 0 <= k < r.len() implies {
                    let b = #[trigger] r[k];
                    &&& pair_at_or_after(b.i as int, b.j as int, i, j)
                    &&& b.i < b.j < s.len()
                    &&& spec_spring_between(s[b.i as int], s[b.j as int]) == Some(b.kind)
                } by {
                    if k > 0 {
                        assert(r[k] == rest[k - 1]);
                    }
                }
                assert forall|k1: int, k2: int| 0 <= k1 < k2 < r.len() implies bond_before(
                    #[trigger] r[k1],
                    #[trigger] r[k2],
                ) by {
                    assert(r[k2] == rest[k2 - 1]);
                    if k1 > 0 {
                        assert(r[k1] == rest[k1 - 1]);
                    }
                }
                assert forall|p: int, q: int|
                    0 <= p < q < s.len() && pair_at_or_after(p, q, i, j) && (
                    #[trigger] spec_spring_between(s[p], s[q])) is Some implies exists|k: int|
                    0 <= k < r.len() && (#[trigger] r[k]).i == p && r[k].j == q by {
                    if p == i && q == j {
                        assert(r[0] == b0);
                    } else {
                        let k = choose|k: int|
                            0 <= k < rest.len() && (#[trigger] rest[k]).i == p && rest[k].j == q;
                        assert(r[k + 1] == rest[k]);
                    }
                }
            },
            None => {
                assert(r == rest);
                assert forall|p: int, q: int|
                    0 <= p < q < s.len() && pair_at_or_after(p, q, i, j) && (
                    #[trigger] spec_spring_between(s[p], s[q])) is Some implies exists|k: int|
                    0 <= k < r.len() && (#[trigger] r[k]).i == p && r[k].j == q by {
                    assert(!(p == i && q == j));
                }
            },
        }
    }
}

/// Law: `spring_bonds` lists exactly the tied pairs. Every listed bond joins
/// particles `i < j` of the slice with the spring `spring_between` gives
/// them; every tied pair is listed; and bonds come in strictly increasing
/// `(i, j)` order, so no pair is listed twice.
pub proof fn lemma_bonds_are_the_tied_pairs(s: Seq<TokenSlot>)
    requires
        s.len() <= usize::MAX,
    ensures
        forall|k: int|
            0 <= k < bonds_from(s, 0, 1).len() ==> {
                let b = #[trigger] bonds_from(s, 0, 1)[k];
                &&& b.i < b.j < s.len()
                &&& spec_spring_between(s[b.i as int], s[b.j as int]) == Some(b.kind)
            },
        forall|k1: int, k2: int|
            0 <= k1 < k2 < bonds_from(s, 0, 1).len() ==> bond_before(
                #[trigger] bonds_from(s, 0, 1)[k1],
                #[trigger] bonds_from(s, 0, 1)[k2],
            ),
        forall|p: int, q: int|
            0 <= p < q < s.len() && (#[trigger] spec_spring_between(s[p], s[q])) is Some
                ==> exists|k: int|
                0 <= k < bonds_from(s, 0, 1).len() && (#[trigger] bonds_from(s, 0, 1)[k]).i == p
                    && bonds_from(s, 0, 1)[k].j == q,
{
    lemma_bonds_from_facts(s, 0, 1);
    assert forall|p: int, q: int|
        0 <= p < q < s.len() && (#[trigger] spec_spring_between(s[p], s[q])) is Some implies exists|k: int|
        0 <= k < bonds_from(s, 0, 1).len() && (#[trigger] bonds_from(s, 0, 1)[k]).i == p
            && bonds_from(s, 0, 1)[k].j == q by {
        assert(pair_at_or_after(p, q, 0, 1));
    }
}

/// Law: springs are mutual; whether and how two particles are tied does not
/// depend on which one is named first.
pub proof fn lemma_spring_is_symmetric(a: TokenSlot, b: TokenSlot)
    ensures
        spec_spring_between(a, b) == spec_spring_between(b, a),
{
    assert(token_gap(b, a) == -token_gap(a, b));
}

/// Law: tokens 8 or more apart in the text are never tied, whatever their
/// sentence and document.
pub proof fn lemma_far_tokens_are_never_tied(a: TokenSlot, b: TokenSlot)
    ensures
        (b.token_idx as i32) - (a.token_idx as i32) >= 8 || (b.token_idx as i32) - (
        a.token_idx as i32) <= -8 ==> spec_spring_between(a, b) is None,
{
}

/// Law: neighbouring tokens of one document (one apart, either way round)
/// always get a token spring, whatever their sentences.
pub proof fn lemma_neighbours_get_token_spring(a: TokenSlot, b: TokenSlot)
    ensures
        a.doc_id == b.doc_id && ((b.token_idx as i32) - (a.token_idx as i32) == 1 || (
        b.token_idx as i32) - (a.token_idx as i32) == -1) ==> spec_spring_between(a, b) == Some(
            SpringKind::Token,
        ),
{
}

/// Law: tokens of one document and one sentence that are not neighbours but
/// less than 8 apart get a sentence spring.
pub proof fn lemma_near_tokens_of_a_sentence_get_sentence_spring(a: TokenSlot, b: TokenSlot)
    ensures
        ({
            let g = (b.token_idx as i32) - (a.token_idx as i32);
            a.doc_id == b.doc_id && a.sentence_id == b.sentence_id && -8 < g < 8 && g != 1 && g
                != -1 ==> spec_spring_between(a, b) == Some(SpringKind::Sentence)
        }),
{
}

/// Law: tokens of different sentences are tied only when they are
/// neighbours; a sentence spring never crosses a sentence boundary.
pub proof fn lemma_sentence_springs_stay_in_sentence(a: TokenSlot, b: TokenSlot)
    ensures
        a.sentence_id != b.sentence_id ==> spec_spring_between(a, b) != Some(SpringKind::Sentence),
        ({
            let g = (b.token_idx as i32) - (a.token_idx as i32);
            a.sentence_id != b.sentence_id && g != 1 && g != -1 ==> spec_spring_between(a, b) is None
        }),
{
}

/// Law: only particles of one document are ever tied.
pub proof fn lemma_springs_stay_in_document(a: TokenSlot, b: TokenSlot)
    requires
        spec_spring_between(a, b) is Some,
    ensures
        a.doc_id == b.doc_id,
{
}

} // verus!

//! The Poseidon permutation: rounds of additive round keys, S-boxes and MDS
//! mixing in a full / partial / full schedule.

use vstd::prelude::*;
use crate::field::{fadd, fmul, fpow, fr_add, fr_mul, fr_pow, Fr};
use crate::parameters::{PoseidonConfig, PoseidonParameters};

verus! {

/// The value of each element of a state vector.
pub open spec fn state_model(s: Seq<Fr>) -> Seq<nat> {
    s.map_values(|x: Fr| x@)
}

/// ARK: adds the round key `key` to the state, element by element.
pub open spec fn add_round_key(s: Seq<nat>, key: Seq<nat>) -> Seq<nat> {
    Seq::new(s.len(), |i: int| fadd(s[i], key[i]))
}

/// Full S-box: raises every element to the power `alpha`.
pub open spec fn full_sbox(s: Seq<nat>, alpha: nat) -> Seq<nat> {
    Seq::new(s.len(), |i: int| fpow(s[i], alpha))
}

/// Partial S-box: raises the first element to the power `alpha`.
pub open spec fn partial_sbox(s: Seq<nat>, alpha: nat) -> Seq<nat> {
    s.update(0, fpow(s[0], alpha))
}

/// The sum over `j < n` of `s[j] * row[j]`, accumulated from `j = 0` upward.
pub open spec fn row_dot(row: Seq<nat>, s: Seq<nat>, n: nat) -> nat
    decreases n,
{
    if n == 0 {
        0
    } else {
        fadd(row_dot(row, s, (n - 1) as nat), fmul(s[n - 1], row[n - 1]))
    }
}

/// MDS: the matrix-vector product `m · s`.
pub open spec fn mds_mix(m: Seq<Seq<nat>>, s: Seq<nat>) -> Seq<nat> {
    Seq::new(s.len(), |i: int| row_dot(m[i], s, s.len()))
}

/// Whether round `r` applies the S-box to every element: the first
/// `full_rounds / 2` rounds and those after the partial rounds.
pub open spec fn is_full_round(c: PoseidonConfig, r: nat) -> bool {
    r < c.full_rounds / 2 || r >= c.full_rounds / 2 + c.partial_rounds
}

/// The S-box step of round `r`.
pub open spec fn sbox_step(c: PoseidonConfig, s: Seq<nat>, r: nat) -> Seq<nat> {
    if is_full_round(c, r) {
        full_sbox(s, c.alpha)
    } else {
        partial_sbox(s, c.alpha)
    }
}

/// Round `r`: ARK, then S-box, then MDS.
pub open spec fn round(c: PoseidonConfig, s: Seq<nat>, r: nat) -> Seq<nat> {
    mds_mix(c.mds, sbox_step(c, add_round_key(s, c.ark[r as int]), r))
}

/// The first `n` rounds applied to `s`.
pub open spec fn rounds(c: PoseidonConfig, s: Seq<nat>, n: nat) -> Seq<nat>
    decreases n,
{
    if n == 0 {
        s
    } else {
        round(c, rounds(c, s, (n - 1) as nat), (n - 1) as nat)
    }
}

/// The Poseidon permutation: all `full_rounds + partial_rounds` rounds.
pub open spec fn permutation(c: PoseidonConfig, s: Seq<nat>) -> Seq<nat> {
    rounds(c, s, c.full_rounds + c.partial_rounds)
}

/// The rounds keep the state's width.
pub proof fn lemma_rounds_len(c: PoseidonConfig, s: Seq<nat>, n: nat)
    requires
        s.len() > 0,
    ensures
        rounds(c, s, n).len() == s.len(),
    decreases n,
{
    if n > 0 {
        lemma_rounds_len(c, s, (n - 1) as nat);
        let prev = rounds(c, s, (n - 1) as nat);
        let keyed = add_round_key(prev, c.ark[n - 1]);
        assert(sbox_step(c, keyed, (n - 1) as nat).len() == keyed.len());
    }
}

/// The permutation keeps the state's width.
pub proof fn lemma_permutation_len(c: PoseidonConfig, s: Seq<nat>)
    requires
        s.len() > 0,
    ensures
        permutation(c, s).len() == s.len(),
{
    lemma_rounds_len(c, s, c.full_rounds + c.partial_rounds);
}

/// Adds row `round` of the round constants to the state.
fn apply_ark(p: &PoseidonParameters, state: &mut Vec<Fr>, round: usize)
    requires
        p.wf(),
        old(state)@.len() == p@.width(),
        round < p@.ark.len(),
    ensures
        final(state)@.len() == old(state)@.len(),
        state_model(final(state)@) == add_round_key(state_model(old(state)@), p@.ark[round as int]),
{
    let ghost s0 = state_model(state@);
    let ghost key = p@.ark[round as int];
    let n = state.len();
    proof {
        p.lemma_shape();
    }
    for i in 0..n
        invariant
            p.wf(),
            round < p@.ark.len(),
            key == p@.ark[round as int],
            n == state@.len(),
            p.ark@[round as int]@.len() == n,
            s0.len() == n,
            forall|k: int| 0 <= k < i ==> #[trigger] state@[k]@ == fadd(s0[k], key[k]),
            forall|k: int| i <= k < n ==> #[trigger] state@[k]@ == s0[k],
    {
        let v = fr_add(&state[i], &p.ark[round][i]);
        state.set(i, v);
    }
    assert(state_model(state@) =~= add_round_key(s0, key));
}

/// Raises every element (full round) or the first element (partial round)
/// to the power `alpha`.
fn apply_s_box(p: &PoseidonParameters, state: &mut Vec<Fr>, is_full_round: bool)
    requires
        old(state)@.len() >= 1,
    ensures
        final(state)@.len() == old(state)@.len(),
        state_model(final(state)@) == (if is_full_round {
            full_sbox(state_model(old(state)@), p.alpha as nat)
        } else {
            partial_sbox(state_model(old(state)@), p.alpha as nat)
        }),
{
    let ghost s0 = state_model(state@);
    let n = state.len();
    if is_full_round {
        for i in 0..n
            invariant
                n == state@.len(),
                s0.len() == n,
                forall|k: int| 0 <= k < i ==> #[trigger] state@[k]@ == fpow(s0[k], p.alpha as nat),
                forall|k: int| i <= k < n ==> #[trigger] state@[k]@ == s0[k],
        {
            let v = fr_pow(&state[i], p.alpha);
            state.set(i, v);
        }
        assert(state_model(state@) =~= full_sbox(s0, p.alpha as nat));
    } else {
        let v = fr_pow(&state[0], p.alpha);
        state.set(0, v);
        assert(state_model(state@) =~= partial_sbox(s0, p.alpha as nat));
    }
}

/// Replaces the state by the MDS matrix times the state, computed into a
/// fresh vector since every output reads every input.
fn apply_mds(p: &PoseidonParameters, state: &mut Vec<Fr>)
    requires
        p.wf(),
        old(state)@.len() == p@.width(),
    ensures
        final(state)@.len() == old(state)@.len(),
        state_model(final(state)@) == mds_mix(p@.mds, state_model(old(state)@)),
{
    let ghost s0 = state_model(state@);
    let n = state.len();
    let mut new_state: Vec<Fr> = Vec::new();
    proof {
        p.lemma_shape();
    }
    for i in 0..n
        invariant
            p.wf(),
            n == state@.len(),
            n == p@.width(),
            s0 == state_model(state@),
            new_state@.len() == i,
            p.mds@.len() == n,
            forall|k: int| 0 <= k < n ==> #[trigger] p.mds@[k]@.len() == n,
            forall|k: int| 0 <= k < i ==> #[trigger] new_state@[k]@ == row_dot(p@.mds[k], s0, n as nat),
    {
        let mut cur = Fr::zero();
        for j in 0..n
            invariant
                p.wf(),
                n == state@.len(),
                n == p@.width(),
                i < n,
                p.mds@[i as int]@.len() == n,
                s0 == state_model(state@),
                cur@ == row_dot(p@.mds[i as int], s0, j as nat),
        {
            let term = fr_mul(&state[j], &p.mds[i][j]);
            cur = fr_add(&cur, &term);
        }
        new_state.push(cur);
    }
    assert(state_model(new_state@) =~= mds_mix(p@.mds, s0));
    *state = new_state;
}

/// Applies the Poseidon permutation to `state` in place.
pub(crate) fn permute_state(p: &PoseidonParameters, state: &mut Vec<Fr>)
    requires
        p.wf(),
        old(state)@.len() == p@.width(),
    ensures
        final(state)@.len() == old(state)@.len(),
        state_model(final(state)@) == permutation(p@, state_model(old(state)@)),
{
    let ghost s0 = state_model(state@);
    let ghost c = p@;
    let n_rounds = p.ark.len();
    proof {
        p.lemma_shape();
    }
    let half = p.full_rounds / 2;
    for i in 0..half
        invariant
            p.wf(),
            c == p@,
            half == p.full_rounds / 2,
            state@.len() == c.width(),
            state_model(state@) == rounds(c, s0, i as nat),
    {
        apply_ark(p, state, i);
        apply_s_box(p, state, true);
        apply_mds(p, state);
    }
    let partial_end = half + p.partial_rounds;
    for i in half..partial_end
        invariant
            p.wf(),
            c == p@,
            half == p.full_rounds / 2,
            partial_end == half + p.partial_rounds,
            state@.len() == c.width(),
            state_model(state@) == rounds(c, s0, i as nat),
    {
        apply_ark(p, state, i);
        apply_s_box(p, state, false);
        apply_mds(p, state);
    }
    let total = p.partial_rounds + p.full_rounds;
    for i in partial_end..total
        invariant
            p.wf(),
            c == p@,
            half == p.full_rounds / 2,
            partial_end == half + p.partial_rounds,
            total == p.full_rounds + p.partial_rounds,
            state@.len() == c.width(),
            state_model(state@) == rounds(c, s0, i as nat),
    {
        apply_ark(p, state, i);
        apply_s_box(p, state, true);
        apply_mds(p, state);
    }
}

} // verus!

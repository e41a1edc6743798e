//! The duplex sponge: absorbs field elements into the rate part of the state
//! and squeezes them out of it, permuting at rate boundaries and at every
//! switch between absorbing and squeezing.

use vstd::prelude::*;
use crate::field::{fadd, fr_add, Fr};
use crate::parameters::{PoseidonConfig, PoseidonParameters};
use crate::permutation::{lemma_permutation_len, permutation, permute_state, state_model};

verus! {

/// Whether the sponge is absorbing or squeezing, and the next rate position
/// it will use.
#[derive(Clone, Copy, Debug, PartialEq, Eq)]
pub enum DuplexSpongeMode {
    /// The sponge is absorbing; the next element goes to this rate position.
    Absorbing { next_absorb_index: usize },
    /// The sponge is squeezing; the next element comes from this rate position.
    Squeezing { next_squeeze_index: usize },
}

impl DuplexSpongeMode {
    /// The rate position carried by either mode.
    pub open spec fn index(self) -> nat {
        match self {
            DuplexSpongeMode::Absorbing { next_absorb_index } => next_absorb_index as nat,
            DuplexSpongeMode::Squeezing { next_squeeze_index } => next_squeeze_index as nat,
        }
    }
}

/// `s` with `elems[k]` added to `s[start + k]` for each `k`.
pub open spec fn add_into(s: Seq<nat>, start: int, elems: Seq<nat>) -> Seq<nat> {
    Seq::new(
        s.len(),
        |j: int|
            if start <= j < start + elems.len() {
                fadd(s[j], elems[j - start])
            } else {
                s[j]
            },
    )
}

/// Absorbing `elems` starting at rate position `i`: whole blocks are added
/// and permuted, the last block is added and left unpermuted.
pub open spec fn absorb_from(c: PoseidonConfig, s: Seq<nat>, i: nat, elems: Seq<nat>) -> (Seq<
    nat,
>, DuplexSpongeMode)
    decreases elems.len(),
{
    if i + elems.len() <= c.rate {
        (
            add_into(s, (c.capacity + i) as int, elems),
            DuplexSpongeMode::Absorbing { next_absorb_index: (i + elems.len()) as usize },
        )
    } else if i < c.rate {
        let k = (c.rate - i) as int;
        absorb_from(
            c,
            permutation(c, add_into(s, (c.capacity + i) as int, elems.take(k))),
            0,
            elems.skip(k),
        )
    } else {
        (s, DuplexSpongeMode::Absorbing { next_absorb_index: i as usize })
    }
}

/// State and mode after absorbing `elems` in mode `mode`.
pub open spec fn absorb_spec(c: PoseidonConfig, s: Seq<nat>, mode: DuplexSpongeMode, elems: Seq<
    nat,
>) -> (Seq<nat>, DuplexSpongeMode) {
    if elems.len() == 0 {
        (s, mode)
    } else {
        match mode {
            DuplexSpongeMode::Absorbing { next_absorb_index } => {
                if next_absorb_index == c.rate {
                    absorb_from(c, permutation(c, s), 0, elems)
                } else {
                    absorb_from(c, s, next_absorb_index as nat, elems)
                }
            },
            DuplexSpongeMode::Squeezing { .. } => absorb_from(c, permutation(c, s), 0, elems),
        }
    }
}

/// Squeezing `n` elements starting at rate position `i`: the output, the
/// state after, and the mode after. Between blocks the state is permuted,
/// except where exactly `rate` elements were still owed at the boundary.
pub open spec fn squeeze_from(c: PoseidonConfig, s: Seq<nat>, i: nat, n: nat) -> (Seq<nat>, Seq<
    nat,
>, DuplexSpongeMode)
    decreases n,
{
    if i + n <= c.rate {
        (
            s.subrange((c.capacity + i) as int, (c.capacity + i + n) as int),
            s,
            DuplexSpongeMode::Squeezing { next_squeeze_index: (i + n) as usize },
        )
    } else if i < c.rate {
        let k = (c.rate - i) as nat;
        let next = if n != c.rate {
            permutation(c, s)
        } else {
            s
        };
        let rest = squeeze_from(c, next, 0, (n - k) as nat);
        (s.subrange((c.capacity + i) as int, (c.capacity + c.rate) as int) + rest.0, rest.1, rest.2)
    } else {
        (Seq::empty(), s, DuplexSpongeMode::Squeezing { next_squeeze_index: i as usize })
    }
}

/// Output, state and mode after squeezing `n` elements in mode `mode`.
pub open spec fn squeeze_spec(c: PoseidonConfig, s: Seq<nat>, mode: DuplexSpongeMode, n: nat) -> (
    Seq<nat>,
    Seq<nat>,
    DuplexSpongeMode,
) {
    match mode {
        DuplexSpongeMode::Absorbing { .. } => squeeze_from(c, permutation(c, s), 0, n),
        DuplexSpongeMode::Squeezing { next_squeeze_index } => {
            if next_squeeze_index == c.rate {
                squeeze_from(c, permutation(c, s), 0, n)
            } else {
                squeeze_from(c, s, next_squeeze_index as nat, n)
            }
        },
    }
}

/// Squeezing `n` elements from a position within the rate yields `n`
/// elements, keeps the state's width, and leaves a mode index within the rate.
pub proof fn lemma_squeeze_from_shape(c: PoseidonConfig, s: Seq<nat>, i: nat, n: nat)
    requires
        c.wf(),
        s.len() == c.width(),
        i < c.rate || i + n <= c.rate,
    ensures
        squeeze_from(c, s, i, n).0.len() == n,
        squeeze_from(c, s, i, n).1.len() == s.len(),
        squeeze_from(c, s, i, n).2.index() <= c.rate,
    decreases n,
{
    if i + n > c.rate {
        let k = (c.rate - i) as nat;
        let next = if n != c.rate {
            permutation(c, s)
        } else {
            s
        };
        lemma_permutation_len(c, s);
        lemma_squeeze_from_shape(c, next, 0, (n - k) as nat);
    }
}

/// `squeeze_spec` on a well-formed sponge yields `n` elements, keeps the
/// state's width, and leaves a mode index within the rate.
pub proof fn lemma_squeeze_spec_shape(c: PoseidonConfig, s: Seq<nat>, mode: DuplexSpongeMode, n: nat)
    requires
        c.wf(),
        s.len() == c.width(),
        mode.index() <= c.rate,
    ensures
        squeeze_spec(c, s, mode, n).0.len() == n,
        squeeze_spec(c, s, mode, n).1.len() == s.len(),
        squeeze_spec(c, s, mode, n).2.index() <= c.rate,
{
    lemma_permutation_len(c, s);
    match mode {
        DuplexSpongeMode::Absorbing { .. } => lemma_squeeze_from_shape(c, permutation(c, s), 0, n),
        DuplexSpongeMode::Squeezing { next_squeeze_index } => {
            if next_squeeze_index == c.rate {
                lemma_squeeze_from_shape(c, permutation(c, s), 0, n)
            } else {
                lemma_squeeze_from_shape(c, s, next_squeeze_index as nat, n)
            }
        },
    }
}

/// A duplex sponge built on the Poseidon permutation.
#[derive(Clone, Debug)]
pub struct PoseidonSponge {
    /// Sponge parameters.
    pub parameters: PoseidonParameters,
    /// Current state: `capacity` elements, then `rate` elements.
    pub state: Vec<Fr>,
    /// Current mode: absorbing or squeezing.
    pub mode: DuplexSpongeMode,
}

/// The state and mode of a sponge, without its parameters.
#[derive(Clone, Debug)]
pub struct PoseidonSpongeState {
    /// The state vector.
    pub state: Vec<Fr>,
    /// The mode.
    pub mode: DuplexSpongeMode,
}

/// Why a snapshot could not be resumed against given parameters.
#[derive(Clone, Copy, Debug, PartialEq, Eq)]
pub enum SnapshotError {
    /// The snapshot's state does not have `rate + capacity` elements.
    StateWidth,
    /// The snapshot's mode index exceeds the rate.
    ModeIndex,
}

impl PoseidonSponge {
    /// The sponge invariant: well-formed parameters, a state of width
    /// `rate + capacity`, and a mode index at most `rate`.
    pub open spec fn wf(&self) -> bool {
        &&& self.parameters.wf()
        &&& self.state@.len() == self.parameters@.width()
        &&& self.mode.index() <= self.parameters.rate
    }

    /// The value of each state element.
    pub open spec fn state_values(&self) -> Seq<nat> {
        state_model(self.state@)
    }

    fn permute(&mut self)
        requires
            old(self).wf(),
        ensures
            final(self).wf(),
            final(self).parameters == old(self).parameters,
            final(self).mode == old(self).mode,
            final(self).state_values() == permutation(
                old(self).parameters@,
                old(self).state_values(),
            ),
    {
        permute_state(&self.parameters, &mut self.state);
    }

    /// Adds `elems[from .. from + count]` into the state at
    /// `capacity + start ..`.
    fn add_block(&mut self, start: usize, elems: &[Fr], from: usize, count: usize)
        requires
            old(self).wf(),
            start + count <= old(self).parameters.rate,
            from + count <= elems@.len(),
        ensures
            final(self).wf(),
            final(self).parameters == old(self).parameters,
            final(self).mode == old(self).mode,
            final(self).state_values() == add_into(
                old(self).state_values(),
                old(self).parameters.capacity + start,
                state_model(elems@).subrange(from as int, from + count),
            ),
    {
        let ghost s0 = self.state_values();
        let ghost e = state_model(elems@).subrange(from as int, from + count);
        let width: usize = self.state.len();
        let n_elems: usize = elems.len();
        let base = self.parameters.capacity + start;
        for k in 0..count
            invariant
                self.wf(),
                self.parameters == old(self).parameters,
                self.mode == old(self).mode,
                base == self.parameters.capacity + start,
                width == self.state@.len(),
                n_elems == elems@.len(),
                start + count <= self.parameters.rate,
                from + count <= elems@.len(),
                e == state_model(elems@).subrange(from as int, from + count),
                s0.len() == self.state@.len(),
                forall|j: int|
                    0 <= j < s0.len() ==> #[trigger] self.state@[j]@ == (if base <= j < base + k {
                        fadd(s0[j], e[j - base])
                    } else {
                        s0[j]
                    }),
        {
            let v = fr_add(&self.state[base + k], &elems[from + k]);
            self.state.set(base + k, v);
        }
        assert(self.state_values() =~= add_into(s0, base as int, e));
    }

    /// Absorbs all of `elements` from rate position `rate_start_index`,
    /// leaving the last block unpermuted.
    fn absorb_internal(&mut self, rate_start_index: usize, elements: &[Fr])
        requires
            old(self).wf(),
            rate_start_index < old(self).parameters.rate,
        ensures
            final(self).wf(),
            final(self).parameters == old(self).parameters,
            final(self).state_values() == absorb_from(
                old(self).parameters@,
                old(self).state_values(),
                rate_start_index as nat,
                state_model(elements@),
            ).0,
            final(self).mode == absorb_from(
                old(self).parameters@,
                old(self).state_values(),
                rate_start_index as nat,
                state_model(elements@),
            ).1,
    {
        let ghost c = self.parameters@;
        let ghost all = state_model(elements@);
        let ghost target = absorb_from(c, self.state_values(), rate_start_index as nat, all);
        let mut i = rate_start_index;
        let mut pos: usize = 0;
        assert(all.skip(0) =~= all);
        loop
            invariant
                self.wf(),
                self.parameters == old(self).parameters,
                c == self.parameters@,
                all == state_model(elements@),
                pos <= elements@.len(),
                i < self.parameters.rate,
                absorb_from(c, self.state_values(), i as nat, all.skip(pos as int)) == target,
                target == absorb_from(
                    old(self).parameters@,
                    old(self).state_values(),
                    rate_start_index as nat,
                    state_model(elements@),
                ),
            decreases elements@.len() - pos,
        {
            let remaining = elements.len() - pos;
            let rate = self.parameters.rate;
            if remaining <= rate - i {
                self.add_block(i, elements, pos, remaining);
                self.mode = DuplexSpongeMode::Absorbing { next_absorb_index: i + remaining };
                assert(all.skip(pos as int) =~= all.subrange(pos as int, pos + remaining));
                return;
            }
            let num = rate - i;
            proof {
                let rest = all.skip(pos as int);
                assert(rest.take(num as int) =~= all.subrange(pos as int, pos + num));
                assert(rest.skip(num as int) =~= all.skip(pos + num));
            }
            self.add_block(i, elements, pos, num);
            self.permute();
            pos = pos + num;
            i = 0;
        }
    }

    /// Squeezes `num_elements` elements from rate position
    /// `rate_start_index`, leaving the mode at the position after the last.
    fn squeeze_internal(&mut self, rate_start_index: usize, num_elements: usize) -> (out: Vec<Fr>)
        requires
            old(self).wf(),
            rate_start_index < old(self).parameters.rate,
        ensures
            final(self).wf(),
            final(self).parameters == old(self).parameters,
            state_model(out@) == squeeze_from(
                old(self).parameters@,
                old(self).state_values(),
                rate_start_index as nat,
                num_elements as nat,
            ).0,
            final(self).state_values() == squeeze_from(
                old(self).parameters@,
                old(self).state_values(),
                rate_start_index as nat,
                num_elements as nat,
            ).1,
            final(self).mode == squeeze_from(
                old(self).parameters@,
                old(self).state_values(),
                rate_start_index as nat,
                num_elements as nat,
            ).2,
    {
        let ghost c = self.parameters@;
        let ghost target = squeeze_from(
            c,
            self.state_values(),
            rate_start_index as nat,
            num_elements as nat,
        );
        let mut out: Vec<Fr> = Vec::new();
        let mut i = rate_start_index;
        let mut remaining = num_elements;
        loop
            invariant
                self.wf(),
                self.parameters == old(self).parameters,
                c == self.parameters@,
                i < self.parameters.rate,
                target == squeeze_from(
                    old(self).parameters@,
                    old(self).state_values(),
                    rate_start_index as nat,
                    num_elements as nat,
                ),
                ({
                    let t = squeeze_from(c, self.state_values(), i as nat, remaining as nat);
                    state_model(out@) + t.0 == target.0 && t.1 == target.1 && t.2 == target.2
                }),
            decreases remaining,
        {
            let rate = self.parameters.rate;
            let cap = self.parameters.capacity;
            let width: usize = self.state.len();
            let ghost s = self.state_values();
            let ghost out0 = state_model(out@);
            let take = if remaining <= rate - i {
                remaining
            } else {
                rate - i
            };
            for k in 0..take
                invariant
                    self.wf(),
                    cap == self.parameters.capacity,
                    width == self.state@.len(),
                    i + take <= self.parameters.rate,
                    s == self.state_values(),
                    out@.len() == out0.len() + k,
                    forall|j: int| 0 <= j < out0.len() ==> #[trigger] out@[j]@ == out0[j],
                    forall|j: int|
                        out0.len() <= j < out0.len() + k ==> #[trigger] out@[j]@ == s[cap + i + j
                            - out0.len()],
            {
                out.push(self.state[cap + i + k]);
            }
            assert(state_model(out@) =~= out0 + s.subrange(cap + i, cap + i + take));
            if remaining <= rate - i {
                self.mode = DuplexSpongeMode::Squeezing { next_squeeze_index: i + remaining };
                return out;
            }
            proof {
                let rest = squeeze_from(
                    c,
                    if remaining != rate {
                        permutation(c, s)
                    } else {
                        s
                    },
                    0,
                    (remaining - take) as nat,
                );
                assert(out0 + (s.subrange(cap + i, cap + rate) + rest.0) =~= state_model(out@)
                    + rest.0);
            }
            if remaining != rate {
                self.permute();
            }
            remaining = remaining - take;
            i = 0;
        }
    }

    /// A sponge over `parameters` with an all-zero state, absorbing from
    /// position 0.
    pub fn new(parameters: &PoseidonParameters) -> (r: Self)
        requires
            parameters.wf(),
        ensures
            r.wf(),
            r.parameters@ == parameters@,
            r.parameters.rate == parameters.rate,
            r.parameters.capacity == parameters.capacity,
            r.state_values() == Seq::new(parameters@.width(), |j: int| 0nat),
            r.mode == (DuplexSpongeMode::Absorbing { next_absorb_index: 0 }),
    {
        proof {
            parameters.lemma_shape();
        }
        let width = parameters.mds.len();
        let mut state: Vec<Fr> = Vec::new();
        for k in 0..width
            invariant
                state@.len() == k,
                forall|j: int| 0 <= j < k ==> #[trigger] state@[j]@ == 0,
        {
            state.push(Fr::zero());
        }
        assert(state_model(state@) =~= Seq::new(width as nat, |j: int| 0nat));
        PoseidonSponge {
            parameters: parameters.duplicate(),
            state,
            mode: DuplexSpongeMode::Absorbing { next_absorb_index: 0 },
        }
    }

    /// Absorbs `input`. An empty input changes nothing; otherwise a sponge
    /// that was squeezing, or whose rate is full, permutes first.
    pub fn absorb(&mut self, input: &[Fr])
        requires
            old(self).wf(),
        ensures
            final(self).wf(),
            final(self).parameters == old(self).parameters,
            final(self).state_values() == absorb_spec(
                old(self).parameters@,
                old(self).state_values(),
                old(self).mode,
                state_model(input@),
            ).0,
            final(self).mode == absorb_spec(
                old(self).parameters@,
                old(self).state_values(),
                old(self).mode,
                state_model(input@),
            ).1,
    {
        if input.len() == 0 {
            return;
        }
        match self.mode {
            DuplexSpongeMode::Absorbing { next_absorb_index } => {
                let mut absorb_index = next_absorb_index;
                if absorb_index == self.parameters.rate {
                    self.permute();
                    absorb_index = 0;
                }
                self.absorb_internal(absorb_index, input);
            },
            DuplexSpongeMode::Squeezing { .. } => {
                self.permute();
                self.absorb_internal(0, input);
            },
        }
    }

    /// Squeezes `num_elements` field elements. A sponge that was absorbing,
    /// or whose rate is used up, permutes first.
    pub fn squeeze_native_field_elements(&mut self, num_elements: usize) -> (r: Vec<Fr>)
        requires
            old(self).wf(),
        ensures
            r@.len() == num_elements,
            final(self).wf(),
            final(self).parameters == old(self).parameters,
            state_model(r@) == squeeze_spec(
                old(self).parameters@,
                old(self).state_values(),
                old(self).mode,
                num_elements as nat,
            ).0,
            final(self).state_values() == squeeze_spec(
                old(self).parameters@,
                old(self).state_values(),
                old(self).mode,
                num_elements as nat,
            ).1,
            final(self).mode == squeeze_spec(
                old(self).parameters@,
                old(self).state_values(),
                old(self).mode,
                num_elements as nat,
            ).2,
    {
        proof {
            lemma_squeeze_spec_shape(
                self.parameters@,
                self.state_values(),
                self.mode,
                num_elements as nat,
            );
        }
        match self.mode {
            DuplexSpongeMode::Absorbing { .. } => {
                self.permute();
                self.squeeze_internal(0, num_elements)
            },
            DuplexSpongeMode::Squeezing { next_squeeze_index } => {
                let mut squeeze_index = next_squeeze_index;
                if squeeze_index == self.parameters.rate {
                    self.permute();
                    squeeze_index = 0;
                }
                self.squeeze_internal(squeeze_index, num_elements)
            },
        }
    }

    /// Rebuilds a sponge over `params` from a snapshot, refusing a state of
    /// the wrong width or a mode index beyond the rate.
    pub fn from_state(state: PoseidonSpongeState, params: &PoseidonParameters) -> (r: Result<
        Self,
        SnapshotError,
    >)
        requires
            params.wf(),
        ensures
            state.state@.len() != params@.width() ==> r == Err::<Self, SnapshotError>(
                SnapshotError::StateWidth,
            ),
            state.state@.len() == params@.width() && state.mode.index() > params.rate ==> r
                == Err::<Self, SnapshotError>(SnapshotError::ModeIndex),
            state.state@.len() == params@.width() && state.mode.index() <= params.rate ==> r is Ok
                && r.unwrap().wf() && r.unwrap().parameters@ == params@ && r.unwrap().state
                == state.state && r.unwrap().mode == state.mode,
    {
        let mut sponge = Self::new(params);
        if state.state.len() != sponge.state.len() {
            return Err(SnapshotError::StateWidth);
        }
        let index = match state.mode {
            DuplexSpongeMode::Absorbing { next_absorb_index } => next_absorb_index,
            DuplexSpongeMode::Squeezing { next_squeeze_index } => next_squeeze_index,
        };
        if index > params.rate {
            return Err(SnapshotError::ModeIndex);
        }
        sponge.mode = state.mode;
        sponge.state = state.state;
        Ok(sponge)
    }

    /// The state and mode of this sponge, without its parameters.
    pub fn into_state(self) -> (r: PoseidonSpongeState)
        ensures
            r.state == self.state,
            r.mode == self.mode,
    {
        PoseidonSpongeState { state: self.state, mode: self.mode }
    }
}

} // verus!

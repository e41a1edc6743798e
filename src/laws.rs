//! Algebraic laws of the sponge, stated over the spec functions that the
//! executable operations are proved to follow.

use vstd::prelude::*;
use vstd::arithmetic::div_mod::{
    lemma_div_denominator, lemma_fundamental_div_mod, lemma_fundamental_div_mod_converse,
    lemma_mod_multiples_vanish,
};
use vstd::arithmetic::power2::{lemma2_to64, lemma_pow2_adds, lemma_pow2_pos, pow2};
use crate::adapters::{squeeze_bits_spec, squeeze_bytes_spec, usable_bytes};
use crate::field::{bit_at, byte_at, Fr};
use crate::parameters::PoseidonConfig;
use crate::permutation::{permutation, state_model};
use crate::sponge::{
    absorb_from, absorb_spec, add_into, squeeze_from, squeeze_spec, DuplexSpongeMode, PoseidonSponge,
};

verus! {

/// The permutation is a function of the parameters and the input state:
/// equal parameters and equal states give equal outputs.
pub proof fn lemma_permutation_deterministic(
    c1: PoseidonConfig,
    s1: Seq<nat>,
    c2: PoseidonConfig,
    s2: Seq<nat>,
)
    requires
        c1 == c2,
        s1 == s2,
    ensures
        permutation(c1, s1) == permutation(c2, s2),
{
}

/// Absorbing nothing leaves state and mode as they were.
pub proof fn lemma_absorb_empty(sponge: PoseidonSponge)
    ensures
        absorb_spec(sponge.parameters@, sponge.state_values(), sponge.mode, Seq::empty())
            == (sponge.state_values(), sponge.mode),
{
}

/// Absorbing a chunk that stays below the rate, then the rest, is absorbing
/// both from where the first started.
proof fn lemma_absorb_from_shift(c: PoseidonConfig, s: Seq<nat>, i: nat, a: Seq<nat>, b: Seq<nat>)
    requires
        c.wf(),
        c.rate <= usize::MAX,
        i + a.len() < c.rate,
    ensures
        absorb_from(c, s, i, a + b) == absorb_from(
            c,
            add_into(s, (c.capacity + i) as int, a),
            i + a.len(),
            b,
        ),
{
    let ab = a + b;
    let s1 = add_into(s, (c.capacity + i) as int, a);
    let j = i + a.len();
    if i + ab.len() <= c.rate {
        assert(add_into(s, (c.capacity + i) as int, ab) =~= add_into(s1, (c.capacity + j) as int, b));
    } else {
        let k = (c.rate - i) as int;
        let k2 = (c.rate - j) as int;
        assert(add_into(s, (c.capacity + i) as int, ab.take(k)) =~= add_into(
            s1,
            (c.capacity + j) as int,
            b.take(k2),
        ));
        assert(ab.skip(k) =~= b.skip(k2));
    }
}

proof fn lemma_absorb_from_concat(c: PoseidonConfig, s: Seq<nat>, i: nat, a: Seq<nat>, b: Seq<nat>)
    requires
        c.wf(),
        c.rate <= usize::MAX,
        i < c.rate,
        a.len() > 0,
        b.len() > 0,
    ensures
        absorb_from(c, s, i, a + b) == absorb_spec(
            c,
            absorb_from(c, s, i, a).0,
            absorb_from(c, s, i, a).1,
            b,
        ),
    decreases a.len(),
{
    let ab = a + b;
    if i + a.len() <= c.rate {
        if i + a.len() == c.rate {
            let k = (c.rate - i) as int;
            assert(ab.take(k) =~= a);
            assert(ab.skip(k) =~= b);
        } else {
            lemma_absorb_from_shift(c, s, i, a, b);
        }
    } else {
        let k = (c.rate - i) as int;
        assert(ab.take(k) =~= a.take(k));
        assert(ab.skip(k) =~= a.skip(k) + b);
        lemma_absorb_from_concat(
            c,
            permutation(c, add_into(s, (c.capacity + i) as int, a.take(k))),
            0,
            a.skip(k),
            b,
        );
    }
}

/// Absorbing `a` and then `b`, with no squeeze between, gives the state and
/// mode of absorbing `a` followed by `b` in one call.
pub proof fn lemma_absorb_concatenation(sponge: PoseidonSponge, a: Seq<Fr>, b: Seq<Fr>)
    requires
        sponge.wf(),
    ensures
        ({
            let c = sponge.parameters@;
            let first = absorb_spec(c, sponge.state_values(), sponge.mode, state_model(a));
            absorb_spec(c, first.0, first.1, state_model(b)) == absorb_spec(
                c,
                sponge.state_values(),
                sponge.mode,
                state_model(a + b),
            )
        }),
{
    let c = sponge.parameters@;
    let s = sponge.state_values();
    let ma = state_model(a);
    let mb = state_model(b);
    assert(state_model(a + b) =~= ma + mb);
    if ma.len() == 0 {
        assert(ma + mb =~= mb);
    } else if mb.len() == 0 {
        assert(ma + mb =~= ma);
    } else {
        match sponge.mode {
            DuplexSpongeMode::Absorbing { next_absorb_index } => {
                if next_absorb_index == c.rate {
                    lemma_absorb_from_concat(c, permutation(c, s), 0, ma, mb);
                } else {
                    lemma_absorb_from_concat(c, s, next_absorb_index as nat, ma, mb);
                }
            },
            DuplexSpongeMode::Squeezing { .. } => {
                lemma_absorb_from_concat(c, permutation(c, s), 0, ma, mb);
            },
        }
    }
}

/// A squeeze right after an absorb permutes once and then reads from the
/// start of the rate: its first `min(n, rate)` outputs are the rate part of
/// the permuted state.
pub proof fn lemma_squeeze_after_absorb(sponge: PoseidonSponge, n: nat)
    requires
        sponge.wf(),
        sponge.mode is Absorbing,
    ensures
        ({
            let c = sponge.parameters@;
            let p = permutation(c, sponge.state_values());
            let r = squeeze_spec(c, sponge.state_values(), sponge.mode, n);
            &&& r == squeeze_from(c, p, 0, n)
            &&& forall|j: int|
                0 <= j < n && j < c.rate ==> #[trigger] r.0[j] == p[c.capacity + j]
            &&& n <= c.rate ==> r == (
                p.subrange(c.capacity as int, (c.capacity + n) as int),
                p,
                DuplexSpongeMode::Squeezing { next_squeeze_index: n as usize },
            )
        }),
{
    let c = sponge.parameters@;
    let p = permutation(c, sponge.state_values());
    crate::permutation::lemma_permutation_len(c, sponge.state_values());
    if n > c.rate {
        let rest = squeeze_from(c, permutation(c, p), 0, (n - c.rate) as nat);
        assert forall|j: int| 0 <= j < n && j < c.rate implies #[trigger] squeeze_from(
            c,
            p,
            0,
            n,
        ).0[j] == p[c.capacity + j] by {
            if n != c.rate {
                assert(squeeze_from(c, p, 0, n).0 == p.subrange(
                    c.capacity as int,
                    (c.capacity + c.rate) as int,
                ) + rest.0);
            }
        }
    }
}

/// An absorb right after a squeeze permutes once and then adds its input
/// from the start of the rate.
pub proof fn lemma_absorb_after_squeeze(sponge: PoseidonSponge, input: Seq<Fr>)
    requires
        sponge.wf(),
        sponge.mode is Squeezing,
        input.len() > 0,
    ensures
        ({
            let c = sponge.parameters@;
            let p = permutation(c, sponge.state_values());
            let e = state_model(input);
            let r = absorb_spec(c, sponge.state_values(), sponge.mode, e);
            &&& r == absorb_from(c, p, 0, e)
            &&& e.len() <= c.rate ==> r == (
                add_into(p, c.capacity as int, e),
                DuplexSpongeMode::Absorbing { next_absorb_index: e.len() as usize },
            )
        }),
{
}

/// Absorbing exactly up to the end of the rate adds the input without
/// permuting and leaves the mode at `Absorbing(rate)`; the permutation
/// happens at the next absorb, before its input is added.
pub proof fn lemma_absorb_fills_rate(sponge: PoseidonSponge, input: Seq<Fr>, next: Seq<Fr>)
    requires
        sponge.wf(),
        sponge.mode is Absorbing,
        sponge.mode.index() < sponge.parameters.rate,
        sponge.mode.index() + input.len() == sponge.parameters.rate,
        next.len() > 0,
    ensures
        ({
            let c = sponge.parameters@;
            let r = absorb_spec(c, sponge.state_values(), sponge.mode, state_model(input));
            &&& r == (
                add_into(
                    sponge.state_values(),
                    (c.capacity + sponge.mode.index()) as int,
                    state_model(input),
                ),
                DuplexSpongeMode::Absorbing { next_absorb_index: sponge.parameters.rate },
            )
            &&& absorb_spec(c, r.0, r.1, state_model(next)) == absorb_from(
                c,
                permutation(c, r.0),
                0,
                state_model(next),
            )
        }),
{
}

/// Squeezing exactly `rate` elements from the start of the rate reads the
/// whole rate part of the state with no permutation in between.
pub proof fn lemma_squeeze_full_rate(sponge: PoseidonSponge)
    requires
        sponge.wf(),
        sponge.mode == (DuplexSpongeMode::Squeezing { next_squeeze_index: 0 }),
    ensures
        ({
            let c = sponge.parameters@;
            let s = sponge.state_values();
            squeeze_spec(c, s, sponge.mode, c.rate) == (
                s.subrange(c.capacity as int, (c.capacity + c.rate) as int),
                s,
                DuplexSpongeMode::Squeezing { next_squeeze_index: sponge.parameters.rate },
            )
        }),
{
}

/// Bit `k` of byte `j` of a value is its bit `8 j + k`.
pub proof fn lemma_bit_of_byte(v: nat, j: nat, k: nat)
    requires
        k < 8,
    ensures
        bit_at(byte_at(v, j), k) == bit_at(v, 8 * j + k),
{
    let x = v / pow2(8 * j);
    lemma_pow2_pos(8 * j);
    lemma_pow2_pos(k);
    lemma_pow2_adds(8 * j, k);
    lemma_div_denominator(v as int, pow2(8 * j) as int, pow2(k) as int);
    lemma2_to64();
    lemma_pow2_adds(k, (8 - k) as nat);
    lemma_pow2_adds(1, (7 - k) as nat);
    lemma_pow2_pos((7 - k) as nat);
    assert(pow2((8 - k) as nat) == 2 * pow2((7 - k) as nat));
    lemma_low_byte_bit(x, pow2(k), pow2((7 - k) as nat));
}

/// Dividing by a `d` that divides 256 an even number of times, `x % 256`
/// and `x` agree in parity.
proof fn lemma_low_byte_bit(x: nat, d: nat, h: nat)
    requires
        d > 0,
        h > 0,
        d * (2 * h) == 256,
    ensures
        ((x % 256) / d) % 2 == (x / d) % 2,
{
    let q = x / 256;
    let r = x % 256;
    let m = 2 * h;
    assert(x == 256 * q + r);
    assert(r == d * (r / d) + r % d) by {
        lemma_fundamental_div_mod(r as int, d as int);
    }
    assert(x == (q * m + r / d) * d + r % d) by (nonlinear_arith)
        requires
            x == 256 * q + r,
            r == d * (r / d) + r % d,
            d * m == 256,
    ;
    lemma_fundamental_div_mod_converse(x as int, d as int, (q * m + r / d) as int, (r % d) as int);
    assert(q * m + r / d == 2 * (q * h) + r / d) by (nonlinear_arith)
        requires
            m == 2 * h,
    ;
    lemma_mod_multiples_vanish((q * h) as int, (r / d) as int, 2);
}

/// For at most `usable_bytes()` bytes, `squeeze_bytes(n)` and
/// `squeeze_bits(8 n)` leave the same state and mode, and bit `k` of byte `j`
/// of the first is bit `8 j + k` of the second.
pub proof fn lemma_bytes_bits_agree(sponge: PoseidonSponge, n: nat)
    requires
        sponge.wf(),
        n <= usable_bytes(),
    ensures
        ({
            let by = squeeze_bytes_spec(sponge, n);
            let bi = squeeze_bits_spec(sponge, 8 * n);
            &&& by.1 == bi.1
            &&& by.2 == bi.2
            &&& bi.0.len() == 8 * by.0.len()
            &&& forall|j: int, k: int|
                0 <= j < n && 0 <= k < 8 ==> #[trigger] bi.0[8 * j + k] == bit_at(
                    by.0[j] as nat,
                    k as nat,
                )
        }),
{
    let by = squeeze_bytes_spec(sponge, n);
    let bi = squeeze_bits_spec(sponge, 8 * n);
    assert(usable_bytes() == 31);
    if n == 0 {
    } else if n < 31 {
        assert(n / 31 == 0 && n % 31 == n);
        assert((8 * n) / 254 == 0 && (8 * n) % 254 == 8 * n);
    } else {
        assert(n / 31 == 1 && n % 31 == 0);
        assert((8 * n) / 254 == 0 && (8 * n) % 254 == 8 * n);
    }
    assert(crate::adapters::blocks_for(n, usable_bytes()) == crate::adapters::blocks_for(
        8 * n,
        254,
    ));
    let t = squeeze_spec(
        sponge.parameters@,
        sponge.state_values(),
        sponge.mode,
        crate::adapters::blocks_for(n, usable_bytes()),
    );
    crate::sponge::lemma_squeeze_spec_shape(
        sponge.parameters@,
        sponge.state_values(),
        sponge.mode,
        crate::adapters::blocks_for(n, usable_bytes()),
    );
    assert forall|j: int, k: int| 0 <= j < n && 0 <= k < 8 implies #[trigger] bi.0[8 * j + k]
        == bit_at(by.0[j] as nat, k as nat) by {
        assert(j / 31 == 0 && j % 31 == j);
        assert((8 * j + k) / 254 == 0 && (8 * j + k) % 254 == 8 * j + k);
        lemma_pow2_pos(8 * j as nat);
        assert(byte_at(t.0[0], j as nat) < 256);
        lemma_bit_of_byte(t.0[0], j as nat, k as nat);
    }
}

} // verus!

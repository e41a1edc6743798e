use ark_ff::{Field, PrimeField};
use ark_test_curves::bls12_381::Fr as ArkFr;
use poseidon_sponge::{
    DuplexSpongeMode, FieldElementSize, Fr, ParameterError, PoseidonParameters, PoseidonSponge, PoseidonSpongeState,
    SnapshotError,
};
use std::str::FromStr;

const FULL_ROUNDS: usize = 8;
const PARTIAL_ROUNDS: usize = 31;
const ALPHA: u64 = 17;
const RATE: usize = 2;
const CAPACITY: usize = 1;

fn to_ark(x: &Fr) -> ArkFr {
    ArkFr::from_le_bytes_mod_order(&x.to_bytes_le())
}

fn from_ark(x: &ArkFr) -> Fr {
    Fr::from_canonical_limbs(x.into_repr().0).unwrap()
}

fn fr(x: u64) -> Fr {
    Fr::from_u64(x)
}

fn test_ark() -> Vec<Vec<Fr>> {
    (0..FULL_ROUNDS + PARTIAL_ROUNDS)
        .map(|r| (0..RATE + CAPACITY).map(|i| fr((r * 7 + i * 3 + 1) as u64)).collect())
        .collect()
}

fn test_mds() -> Vec<Vec<Fr>> {
    // A Cauchy matrix 1 / (x_i + y_j), which is invertible.
    (0..RATE + CAPACITY)
        .map(|i| {
            (0..RATE + CAPACITY)
                .map(|j| from_ark(&ArkFr::from((i + RATE + CAPACITY + j + 1) as u64).inverse().unwrap()))
                .collect()
        })
        .collect()
}

fn test_params() -> PoseidonParameters {
    PoseidonParameters::new(FULL_ROUNDS, PARTIAL_ROUNDS, ALPHA, test_mds(), test_ark(), RATE, CAPACITY)
        .unwrap()
}

/// Straightforward Poseidon permutation on ark_ff values, for comparison.
fn plain_permute(p: &PoseidonParameters, state: &mut Vec<ArkFr>) {
    let w = state.len();
    let half = p.full_rounds / 2;
    for r in 0..p.full_rounds + p.partial_rounds {
        for i in 0..w {
            state[i] += to_ark(&p.ark[r][i]);
        }
        let full = r < half || r >= half + p.partial_rounds;
        for i in 0..w {
            if full || i == 0 {
                state[i] = state[i].pow(&[p.alpha]);
            }
        }
        let mut next = vec![ArkFr::from(0u64); w];
        for i in 0..w {
            for j in 0..w {
                next[i] += state[j] * to_ark(&p.mds[i][j]);
            }
        }
        *state = next;
    }
}

fn state_of(s: &PoseidonSponge) -> Vec<Fr> {
    s.state.clone()
}

#[test]
fn absorb_then_squeeze_matches_plain_permutation() {
    let params = test_params();
    let mut sponge = PoseidonSponge::new(&params);
    sponge.absorb(&[fr(0), fr(1), fr(2)]);
    let out = sponge.squeeze_native_field_elements(3);

    let mut st = vec![ArkFr::from(0u64); 3];
    st[1] += ArkFr::from(0u64);
    st[2] += ArkFr::from(1u64);
    plain_permute(&params, &mut st);
    st[1] += ArkFr::from(2u64);
    plain_permute(&params, &mut st);
    let first = [st[1], st[2]];
    plain_permute(&params, &mut st);
    assert_eq!(out.len(), 3);
    assert_eq!(to_ark(&out[0]), first[0]);
    assert_eq!(to_ark(&out[1]), first[1]);
    assert_eq!(to_ark(&out[2]), st[1]);
    assert_eq!(sponge.mode, DuplexSpongeMode::Squeezing { next_squeeze_index: 1 });
}

#[test]
fn new_sponge_is_zero_and_absorbing() {
    let params = test_params();
    let sponge = PoseidonSponge::new(&params);
    assert_eq!(sponge.state, vec![fr(0); 3]);
    assert_eq!(sponge.mode, DuplexSpongeMode::Absorbing { next_absorb_index: 0 });
}

#[test]
fn parameters_reject_wrong_round_key_count() {
    let mut ark = test_ark();
    ark.pop();
    let r = PoseidonParameters::new(FULL_ROUNDS, PARTIAL_ROUNDS, ALPHA, test_mds(), ark, RATE, CAPACITY);
    assert_eq!(r.unwrap_err(), ParameterError::RoundKeyCount);
}

#[test]
fn parameters_reject_wrong_round_key_width() {
    let mut ark = test_ark();
    ark[5].push(fr(1));
    let r = PoseidonParameters::new(FULL_ROUNDS, PARTIAL_ROUNDS, ALPHA, test_mds(), ark, RATE, CAPACITY);
    assert_eq!(r.unwrap_err(), ParameterError::RoundKeyWidth);
}

#[test]
fn parameters_reject_wrong_mds_row_count() {
    let mut mds = test_mds();
    mds.pop();
    let r = PoseidonParameters::new(FULL_ROUNDS, PARTIAL_ROUNDS, ALPHA, mds, test_ark(), RATE, CAPACITY);
    assert_eq!(r.unwrap_err(), ParameterError::MdsRowCount);
}

#[test]
fn parameters_reject_wrong_mds_width() {
    let mut mds = test_mds();
    mds[1].pop();
    let r = PoseidonParameters::new(FULL_ROUNDS, PARTIAL_ROUNDS, ALPHA, mds, test_ark(), RATE, CAPACITY);
    assert_eq!(r.unwrap_err(), ParameterError::MdsWidth);
}

#[test]
fn parameters_reject_zero_rate() {
    let ark: Vec<Vec<Fr>> = vec![vec![fr(1)]; 3];
    let mds = vec![vec![fr(1)]];
    let r = PoseidonParameters::new(2, 1, 5, mds, ark, 0, 1);
    assert_eq!(r.unwrap_err(), ParameterError::ZeroRate);
}

#[test]
fn parameters_accept_matching_shapes() {
    let p = test_params();
    assert_eq!(p.rate, RATE);
    assert_eq!(p.capacity, CAPACITY);
    assert_eq!(p.ark.len(), FULL_ROUNDS + PARTIAL_ROUNDS);
    assert_eq!(p.mds.len(), RATE + CAPACITY);
}

#[test]
fn empty_absorb_changes_nothing() {
    let params = test_params();
    let mut sponge = PoseidonSponge::new(&params);
    sponge.absorb(&[fr(4)]);
    let before = state_of(&sponge);
    let mode = sponge.mode;
    sponge.absorb(&[]);
    assert_eq!(state_of(&sponge), before);
    assert_eq!(sponge.mode, mode);
    let _ = sponge.squeeze_native_field_elements(1);
    let before = state_of(&sponge);
    let mode = sponge.mode;
    sponge.absorb(&[]);
    assert_eq!(state_of(&sponge), before);
    assert_eq!(sponge.mode, mode);
}

#[test]
fn absorb_in_pieces_equals_absorb_at_once() {
    let params = test_params();
    let all: Vec<Fr> = (1..8).map(fr).collect();
    for split in 0..=all.len() {
        let mut a = PoseidonSponge::new(&params);
        a.absorb(&all[..split]);
        a.absorb(&all[split..]);
        let mut b = PoseidonSponge::new(&params);
        b.absorb(&all);
        assert_eq!(state_of(&a), state_of(&b));
        assert_eq!(a.mode, b.mode);
    }
}

#[test]
fn squeeze_after_absorb_permutes_once() {
    let params = test_params();
    let mut sponge = PoseidonSponge::new(&params);
    sponge.absorb(&[fr(9)]);
    let mut st: Vec<ArkFr> = state_of(&sponge).iter().map(to_ark).collect();
    plain_permute(&params, &mut st);
    let out = sponge.squeeze_native_field_elements(2);
    assert_eq!(to_ark(&out[0]), st[1]);
    assert_eq!(to_ark(&out[1]), st[2]);
    assert_eq!(sponge.mode, DuplexSpongeMode::Squeezing { next_squeeze_index: 2 });
}

#[test]
fn absorb_after_squeeze_permutes_once() {
    let params = test_params();
    let mut sponge = PoseidonSponge::new(&params);
    let _ = sponge.squeeze_native_field_elements(1);
    let mut st: Vec<ArkFr> = state_of(&sponge).iter().map(to_ark).collect();
    plain_permute(&params, &mut st);
    st[1] += ArkFr::from(5u64);
    sponge.absorb(&[fr(5)]);
    let got: Vec<ArkFr> = state_of(&sponge).iter().map(to_ark).collect();
    assert_eq!(got, st);
    assert_eq!(sponge.mode, DuplexSpongeMode::Absorbing { next_absorb_index: 1 });
}

#[test]
fn absorbing_a_full_rate_defers_the_permutation() {
    let params = test_params();
    let mut sponge = PoseidonSponge::new(&params);
    sponge.absorb(&[fr(3), fr(4)]);
    assert_eq!(sponge.mode, DuplexSpongeMode::Absorbing { next_absorb_index: RATE });
    assert_eq!(sponge.state, vec![fr(0), fr(3), fr(4)]);
}

#[test]
fn squeezing_a_full_rate_has_no_interior_permutation() {
    let params = test_params();
    let mut sponge = PoseidonSponge::new(&params);
    sponge.absorb(&[fr(1)]);
    let _ = sponge.squeeze_native_field_elements(0);
    assert_eq!(sponge.mode, DuplexSpongeMode::Squeezing { next_squeeze_index: 0 });
    let before = state_of(&sponge);
    let out = sponge.squeeze_native_field_elements(RATE);
    assert_eq!(out, vec![before[1], before[2]]);
    assert_eq!(state_of(&sponge), before);
    assert_eq!(sponge.mode, DuplexSpongeMode::Squeezing { next_squeeze_index: RATE });
}

#[test]
fn squeeze_skips_permutation_when_exactly_rate_remains() {
    let params = test_params();
    let mut sponge = PoseidonSponge::new(&params);
    let first = sponge.squeeze_native_field_elements(1);
    let st = state_of(&sponge);
    let out = sponge.squeeze_native_field_elements(RATE);
    assert_eq!(first[0], st[1]);
    assert_eq!(out, vec![st[2], st[1]]);
    assert_eq!(state_of(&sponge), st);
    assert_eq!(sponge.mode, DuplexSpongeMode::Squeezing { next_squeeze_index: 1 });
}

#[test]
fn permutation_is_deterministic() {
    let params = test_params();
    let mut a = PoseidonSponge::new(&params);
    let mut b = PoseidonSponge::new(&params);
    a.absorb(&[fr(11), fr(12), fr(13)]);
    b.absorb(&[fr(11), fr(12), fr(13)]);
    assert_eq!(a.squeeze_native_field_elements(5), b.squeeze_native_field_elements(5));
}

#[test]
fn distinct_inputs_give_distinct_outputs() {
    let params = test_params();
    let mut outs: Vec<Vec<Fr>> = Vec::new();
    for x in 0..6u64 {
        let mut s = PoseidonSponge::new(&params);
        s.absorb(&[fr(x)]);
        outs.push(s.squeeze_native_field_elements(2));
    }
    for i in 0..outs.len() {
        for j in i + 1..outs.len() {
            assert_ne!(outs[i], outs[j]);
        }
    }
}

#[test]
fn mode_index_stays_within_rate() {
    let params = test_params();
    let mut sponge = PoseidonSponge::new(&params);
    for k in 0..7usize {
        let input: Vec<Fr> = (0..k as u64).map(fr).collect();
        sponge.absorb(&input);
        assert_eq!(sponge.state.len(), RATE + CAPACITY);
        let _ = sponge.squeeze_native_field_elements(k);
        assert_eq!(sponge.state.len(), RATE + CAPACITY);
        let idx = match sponge.mode {
            DuplexSpongeMode::Absorbing { next_absorb_index } => next_absorb_index,
            DuplexSpongeMode::Squeezing { next_squeeze_index } => next_squeeze_index,
        };
        assert!(idx <= RATE);
    }
}

#[test]
fn bytes_and_bits_agree_within_one_element() {
    let params = test_params();
    for n in [0usize, 1, 5, 31] {
        let mut a = PoseidonSponge::new(&params);
        a.absorb(&[fr(21)]);
        let mut b = a.clone();
        let bytes = a.squeeze_bytes(n);
        let bits = b.squeeze_bits(8 * n);
        assert_eq!(bytes.len(), n);
        assert_eq!(bits.len(), 8 * n);
        for (j, byte) in bytes.iter().enumerate() {
            for k in 0..8 {
                assert_eq!(bits[8 * j + k], (byte >> k) & 1 == 1);
            }
        }
        assert_eq!(a.state, b.state);
        assert_eq!(a.mode, b.mode);
    }
}

#[test]
fn squeeze_bytes_takes_31_bytes_per_element() {
    let params = test_params();
    let mut a = PoseidonSponge::new(&params);
    a.absorb(&[fr(2)]);
    let mut b = a.clone();
    let bytes = a.squeeze_bytes(40);
    let elems = b.squeeze_native_field_elements(2);
    let mut expected = elems[0].to_bytes_le()[..31].to_vec();
    expected.extend_from_slice(&elems[1].to_bytes_le()[..9]);
    assert_eq!(bytes, expected);
    assert_eq!(a.state, b.state);
}

#[test]
fn squeeze_bits_takes_254_bits_per_element() {
    let params = test_params();
    let mut a = PoseidonSponge::new(&params);
    a.absorb(&[fr(2)]);
    let mut b = a.clone();
    let bits = a.squeeze_bits(300);
    let elems = b.squeeze_native_field_elements(2);
    let bit = |e: &Fr, i: usize| (e.to_bytes_le()[i / 8] >> (i % 8)) & 1 == 1;
    for j in 0..300 {
        assert_eq!(bits[j], bit(&elems[j / 254], j % 254));
    }
}

#[test]
fn squeeze_field_elements_are_native_elements() {
    let params = test_params();
    let mut a = PoseidonSponge::new(&params);
    a.absorb(&[fr(8), fr(9)]);
    let mut b = a.clone();
    assert_eq!(a.squeeze_field_elements(4), b.squeeze_native_field_elements(4));
}

#[test]
fn snapshot_round_trip() {
    let params = test_params();
    let mut a = PoseidonSponge::new(&params);
    a.absorb(&[fr(1), fr(2), fr(3)]);
    let mut b = a.clone();
    let snap = a.into_state();
    let mut c = PoseidonSponge::from_state(snap, &params).unwrap();
    assert_eq!(c.squeeze_native_field_elements(3), b.squeeze_native_field_elements(3));
}

#[test]
fn snapshot_with_wrong_width_is_refused() {
    let params = test_params();
    let snap = PoseidonSpongeState {
        state: vec![fr(0); 4],
        mode: DuplexSpongeMode::Absorbing { next_absorb_index: 0 },
    };
    assert_eq!(PoseidonSponge::from_state(snap, &params).unwrap_err(), SnapshotError::StateWidth);
}

#[test]
fn snapshot_with_index_past_rate_is_refused() {
    let params = test_params();
    let snap = PoseidonSpongeState {
        state: vec![fr(0); 3],
        mode: DuplexSpongeMode::Squeezing { next_squeeze_index: 3 },
    };
    assert_eq!(PoseidonSponge::from_state(snap, &params).unwrap_err(), SnapshotError::ModeIndex);
}

#[test]
fn field_elements_round_trip_through_limbs() {
    let x = ArkFr::from_str("40442793463571304028337753002242186710310163897048962278675457993207843616876").unwrap();
    let y = from_ark(&x);
    assert_eq!(to_ark(&y), x);
    let modulus = [0xffffffff00000001u64, 0x53bda402fffe5bfe, 0x3339d80809a1d805, 0x73eda753299d7d48];
    assert!(Fr::from_canonical_limbs(modulus).is_none());
    let mut below = modulus;
    below[0] -= 1;
    assert!(Fr::from_canonical_limbs(below).is_some());
    assert_eq!(Fr::zero(), fr(0));
    assert_eq!(fr(7).to_bytes_le()[0], 7);
}

#[test]
fn sizes_all_full_squeeze_native_elements() {
    let params = test_params();
    let mut a = PoseidonSponge::new(&params);
    a.absorb(&[fr(6)]);
    let mut b = a.clone();
    let sizes = [FieldElementSize::Full, FieldElementSize::Full, FieldElementSize::Full];
    assert_eq!(a.squeeze_field_elements_with_sizes(&sizes), b.squeeze_native_field_elements(3));
    assert_eq!(a.state, b.state);
}

#[test]
fn truncated_sizes_read_consecutive_bits() {
    let params = test_params();
    let mut a = PoseidonSponge::new(&params);
    a.absorb(&[fr(6)]);
    let mut b = a.clone();
    let sizes = [FieldElementSize::Truncated(10), FieldElementSize::Full, FieldElementSize::Truncated(3)];
    let out = a.squeeze_field_elements_with_sizes(&sizes);
    let bits = b.squeeze_bits(10 + 254 + 3);
    let value = |from: usize, len: usize| {
        let mut acc = ArkFr::from(0u64);
        for i in (from..from + len).rev() {
            acc = acc.double() + ArkFr::from(bits[i] as u64);
        }
        acc
    };
    assert_eq!(out.len(), 3);
    assert_eq!(to_ark(&out[0]), value(0, 10));
    assert_eq!(to_ark(&out[1]), value(10, 254));
    assert_eq!(to_ark(&out[2]), value(264, 3));
    assert_eq!(a.state, b.state);
    assert_eq!(a.mode, b.mode);
}

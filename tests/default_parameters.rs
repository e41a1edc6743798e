use ark_ff::{Field, PrimeField};
use ark_test_curves::bls12_381::Fr as ArkFr;
use poseidon_sponge::{Fr, PoseidonParameters, PoseidonSponge};
use std::str::FromStr;

/// The Grain LFSR that seeds Poseidon round constants and MDS matrices.
struct GrainLfsr {
    state: [bool; 80],
    head: usize,
}

impl GrainLfsr {
    fn new(prime_bits: u64, width: u64, full_rounds: u64, partial_rounds: u64) -> Self {
        let mut state = [false; 80];
        state[1] = true;
        let mut put = |lo: usize, hi: usize, mut v: u64| {
            for i in (lo..=hi).rev() {
                state[i] = v & 1 == 1;
                v >>= 1;
            }
        };
        put(6, 17, prime_bits);
        put(18, 29, width);
        put(30, 39, full_rounds);
        put(40, 49, partial_rounds);
        for bit in state.iter_mut().skip(50) {
            *bit = true;
        }
        let mut lfsr = GrainLfsr { state, head: 0 };
        for _ in 0..160 {
            lfsr.update();
        }
        lfsr
    }

    fn update(&mut self) -> bool {
        let h = self.head;
        let b = self.state[(h + 62) % 80]
            ^ self.state[(h + 51) % 80]
            ^ self.state[(h + 38) % 80]
            ^ self.state[(h + 23) % 80]
            ^ self.state[(h + 13) % 80]
            ^ self.state[h];
        self.state[h] = b;
        self.head = (h + 1) % 80;
        b
    }

    fn bits(&mut self, n: usize) -> Vec<bool> {
        let mut out = Vec::new();
        for _ in 0..n {
            let mut first = self.update();
            while !first {
                self.update();
                first = self.update();
            }
            out.push(self.update());
        }
        out
    }

    /// The next 255 bits, most significant first, as little-endian limbs.
    fn limbs(&mut self) -> [u64; 4] {
        let bits = self.bits(255);
        let mut limbs = [0u64; 4];
        for (i, bit) in bits.iter().rev().enumerate() {
            if *bit {
                limbs[i / 64] |= 1u64 << (i % 64);
            }
        }
        limbs
    }

    fn element_by_rejection(&mut self) -> Fr {
        loop {
            if let Some(x) = Fr::from_canonical_limbs(self.limbs()) {
                return x;
            }
        }
    }

    fn element_mod_p(&mut self) -> ArkFr {
        let limbs = self.limbs();
        let bytes: Vec<u8> = limbs.iter().flat_map(|l| l.to_le_bytes()).collect();
        ArkFr::from_le_bytes_mod_order(&bytes)
    }
}

fn from_ark(x: &ArkFr) -> Fr {
    Fr::from_canonical_limbs(x.into_repr().0).unwrap()
}

/// Default parameters of the BLS12-381 scalar field for rate 2, optimized
/// for constraints: alpha 17, 8 full and 31 partial rounds, capacity 1.
fn default_parameters_rate_2() -> PoseidonParameters {
    let (rate, alpha, full, partial) = (2usize, 17u64, 8usize, 31usize);
    let width = rate + 1;
    let mut lfsr = GrainLfsr::new(255, width as u64, full as u64, partial as u64);
    let ark: Vec<Vec<Fr>> =
        (0..full + partial).map(|_| (0..width).map(|_| lfsr.element_by_rejection()).collect()).collect();
    let xs: Vec<ArkFr> = (0..width).map(|_| lfsr.element_mod_p()).collect();
    let ys: Vec<ArkFr> = (0..width).map(|_| lfsr.element_mod_p()).collect();
    let mds: Vec<Vec<Fr>> = (0..width)
        .map(|i| (0..width).map(|j| from_ark(&(xs[i] + ys[j]).inverse().unwrap())).collect())
        .collect();
    PoseidonParameters::new(full, partial, alpha, mds, ark, rate, 1).unwrap()
}

fn expected(s: &str) -> Fr {
    from_ark(&ArkFr::from_str(s).unwrap())
}

#[test]
fn test_poseidon_sponge_consistency() {
    let sponge_param = default_parameters_rate_2();
    let mut sponge = PoseidonSponge::new(&sponge_param);
    sponge.absorb(&[Fr::from_u64(0), Fr::from_u64(1), Fr::from_u64(2)]);
    let res = sponge.squeeze_native_field_elements(3);
    assert_eq!(
        res[0],
        expected("40442793463571304028337753002242186710310163897048962278675457993207843616876")
    );
    assert_eq!(
        res[1],
        expected("2664374461699898000291153145224099287711224021716202960480903840045233645301")
    );
    assert_eq!(
        res[2],
        expected("50191078828066923662070228256530692951801504043422844038937334196346054068797")
    );
}

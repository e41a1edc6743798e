//! Poseidon parameters: round counts, S-box exponent, rate and capacity,
//! round constants and the MDS matrix, with their shapes checked on
//! construction.

use vstd::prelude::*;
use crate::field::Fr;

verus! {

/// The value of each element of a matrix of field elements.
pub open spec fn matrix_model(m: Seq<Vec<Fr>>) -> Seq<Seq<nat>> {
    m.map_values(|row: Vec<Fr>| row@.map_values(|x: Fr| x@))
}

/// The rows of a matrix held as vectors.
pub open spec fn rows_of(m: Seq<Vec<Fr>>) -> Seq<Seq<Fr>> {
    m.map_values(|row: Vec<Fr>| row@)
}

proof fn lemma_model_shape(m: Seq<Vec<Fr>>)
    ensures
        matrix_model(m).len() == m.len(),
        rows_of(m).len() == m.len(),
        forall|i: int|
            0 <= i < m.len() ==> (#[trigger] matrix_model(m)[i]).len() == rows_of(m)[i].len()
                && rows_of(m)[i] == m[i]@,
{
}

/// Whether every row of `m` has exactly `w` entries.
pub open spec fn rows_have_len<T>(m: Seq<Seq<T>>, w: int) -> bool {
    forall|i: int| 0 <= i < m.len() ==> #[trigger] m[i].len() == w
}

/// The mathematical content of a set of Poseidon parameters.
pub struct PoseidonConfig {
    pub full_rounds: nat,
    pub partial_rounds: nat,
    pub alpha: nat,
    pub rate: nat,
    pub capacity: nat,
    pub ark: Seq<Seq<nat>>,
    pub mds: Seq<Seq<nat>>,
}

impl PoseidonConfig {
    /// The state width, `rate + capacity`.
    pub open spec fn width(self) -> nat {
        self.rate + self.capacity
    }

    /// The shape invariant: one row of round constants per round, each of
    /// the state's width; a square MDS matrix of that width; a positive rate.
    pub open spec fn wf(self) -> bool {
        &&& self.rate >= 1
        &&& self.ark.len() == self.full_rounds + self.partial_rounds
        &&& rows_have_len(self.ark, self.width() as int)
        &&& self.mds.len() == self.width()
        &&& rows_have_len(self.mds, self.width() as int)
    }
}

/// Why a set of parameters was refused.
#[derive(Clone, Copy, Debug, PartialEq, Eq)]
pub enum ParameterError {
    /// The number of rows of round constants is not `full_rounds + partial_rounds`.
    RoundKeyCount,
    /// A row of round constants does not have `rate + capacity` entries.
    RoundKeyWidth,
    /// The MDS matrix does not have `rate + capacity` rows.
    MdsRowCount,
    /// A row of the MDS matrix does not have `rate + capacity` entries.
    MdsWidth,
    /// The rate is zero, so no element could ever be absorbed or squeezed.
    ZeroRate,
}

/// Parameters of the Poseidon permutation and of the sponge built on it.
#[derive(Clone, Debug)]
pub struct PoseidonParameters {
    /// Number of rounds in a full-round operation.
    pub full_rounds: usize,
    /// Number of rounds in a partial-round operation.
    pub partial_rounds: usize,
    /// Exponent used in S-boxes.
    pub alpha: u64,
    /// Additive round keys, indexed by `ark[round][state_element_index]`.
    pub ark: Vec<Vec<Fr>>,
    /// Maximum distance separable matrix.
    pub mds: Vec<Vec<Fr>>,
    /// The rate, in field elements.
    pub rate: usize,
    /// The capacity, in field elements.
    pub capacity: usize,
}

impl View for PoseidonParameters {
    type V = PoseidonConfig;

    open spec fn view(&self) -> PoseidonConfig {
        PoseidonConfig {
            full_rounds: self.full_rounds as nat,
            partial_rounds: self.partial_rounds as nat,
            alpha: self.alpha as nat,
            rate: self.rate as nat,
            capacity: self.capacity as nat,
            ark: matrix_model(self.ark@),
            mds: matrix_model(self.mds@),
        }
    }
}

/// Whether every row of `m` has `w` entries.
fn all_rows_have_len(m: &Vec<Vec<Fr>>, w: u128) -> (r: bool)
    ensures
        r == rows_have_len(rows_of(m@), w as int),
{
    for i in 0..m.len()
        invariant
            forall|k: int| 0 <= k < i ==> #[trigger] rows_of(m@)[k].len() == w,
    {
        assert(rows_of(m@)[i as int] == m@[i as int]@);
        if m[i].len() as u128 != w {
            return false;
        }
    }
    true
}

fn clone_row(v: &Vec<Fr>) -> (r: Vec<Fr>)
    ensures
        r@ == v@,
{
    let mut r: Vec<Fr> = Vec::new();
    for i in 0..v.len()
        invariant
            r@ == v@.take(i as int),
    {
        r.push(v[i]);
        assert(r@ =~= v@.take(i + 1));
    }
    assert(r@ =~= v@);
    r
}

fn clone_matrix(m: &Vec<Vec<Fr>>) -> (r: Vec<Vec<Fr>>)
    ensures
        r@.len() == m@.len(),
        forall|k: int| 0 <= k < m@.len() ==> #[trigger] r@[k]@ == m@[k]@,
{
    let mut r: Vec<Vec<Fr>> = Vec::new();
    for i in 0..m.len()
        invariant
            r@.len() == i,
            forall|k: int| 0 <= k < i ==> #[trigger] r@[k]@ == m@[k]@,
    {
        let row = clone_row(&m[i]);
        r.push(row);
    }
    r
}

impl PoseidonParameters {
    /// The shape invariant, stated over the mathematical content.
    pub open spec fn wf(&self) -> bool {
        self@.wf()
    }

    /// The shape invariant, read on the vectors themselves.
    pub proof fn lemma_shape(&self)
        requires
            self.wf(),
        ensures
            self.ark@.len() == self.full_rounds + self.partial_rounds,
            forall|r: int| 0 <= r < self.ark@.len() ==> #[trigger] self.ark@[r]@.len() == self@.width(),
            self.mds@.len() == self@.width(),
            forall|i: int| 0 <= i < self.mds@.len() ==> #[trigger] self.mds@[i]@.len() == self@.width(),
    {
        assert forall|r: int| 0 <= r < self.ark@.len() implies #[trigger] self.ark@[r]@.len() == self@.width() by {
            assert(self@.ark[r].len() == self@.width());
        }
        assert forall|i: int| 0 <= i < self.mds@.len() implies #[trigger] self.mds@[i]@.len() == self@.width() by {
            assert(self@.mds[i].len() == self@.width());
        }
    }

    /// The refusal that `new` gives to these inputs, checked in order:
    /// round-key row count, round-key widths, MDS row count, MDS widths,
    /// then a positive rate; `None` where all hold.
    pub open spec fn shape_error(
        full_rounds: nat,
        partial_rounds: nat,
        mds: Seq<Seq<Fr>>,
        ark: Seq<Seq<Fr>>,
        rate: nat,
        capacity: nat,
    ) -> Option<ParameterError> {
        if ark.len() != full_rounds + partial_rounds {
            Some(ParameterError::RoundKeyCount)
        } else if !rows_have_len(ark, (rate + capacity) as int) {
            Some(ParameterError::RoundKeyWidth)
        } else if mds.len() != rate + capacity {
            Some(ParameterError::MdsRowCount)
        } else if !rows_have_len(mds, (rate + capacity) as int) {
            Some(ParameterError::MdsWidth)
        } else if rate == 0 {
            Some(ParameterError::ZeroRate)
        } else {
            None
        }
    }

    /// Builds parameters, refusing matrices whose shapes do not match the
    /// round counts and the width `rate + capacity`, and a zero rate.
    pub fn new(
        full_rounds: usize,
        partial_rounds: usize,
        alpha: u64,
        mds: Vec<Vec<Fr>>,
        ark: Vec<Vec<Fr>>,
        rate: usize,
        capacity: usize,
    ) -> (r: Result<Self, ParameterError>)
        ensures
            match Self::shape_error(
                full_rounds as nat,
                partial_rounds as nat,
                rows_of(mds@),
                rows_of(ark@),
                rate as nat,
                capacity as nat,
            ) {
                Some(e) => r == Err::<Self, ParameterError>(e),
                None => r is Ok && r.unwrap().wf() && r.unwrap().full_rounds == full_rounds
                    && r.unwrap().partial_rounds == partial_rounds && r.unwrap().alpha == alpha
                    && r.unwrap().rate == rate && r.unwrap().capacity == capacity
                    && r.unwrap().ark == ark && r.unwrap().mds == mds,
            },
    {
        let width: u128 = rate as u128 + capacity as u128;
        let ark_count_ok = ark.len() as u128 == full_rounds as u128 + partial_rounds as u128;
        assert(rows_of(ark@).len() == ark@.len());
        assert(rows_of(mds@).len() == mds@.len());
        if !ark_count_ok {
            return Err(ParameterError::RoundKeyCount);
        }
        if !all_rows_have_len(&ark, width) {
            return Err(ParameterError::RoundKeyWidth);
        }
        let mds_count_ok = mds.len() as u128 == width;
        if !mds_count_ok {
            return Err(ParameterError::MdsRowCount);
        }
        if !all_rows_have_len(&mds, width) {
            return Err(ParameterError::MdsWidth);
        }
        if rate == 0 {
            return Err(ParameterError::ZeroRate);
        }
        proof {
            lemma_model_shape(ark@);
            lemma_model_shape(mds@);
        }
        let r = PoseidonParameters { full_rounds, partial_rounds, alpha, ark, mds, rate, capacity };
        Ok(r)
    }

    /// A copy of these parameters with the same content.
    pub fn duplicate(&self) -> (r: Self)
        ensures
            r@ == self@,
            r.rate == self.rate,
            r.capacity == self.capacity,
            r.full_rounds == self.full_rounds,
            r.partial_rounds == self.partial_rounds,
            r.alpha == self.alpha,
    {
        let ark = clone_matrix(&self.ark);
        let mds = clone_matrix(&self.mds);
        let r = PoseidonParameters {
            full_rounds: self.full_rounds,
            partial_rounds: self.partial_rounds,
            alpha: self.alpha,
            ark,
            mds,
            rate: self.rate,
            capacity: self.capacity,
        };
        assert(matrix_model(r.ark@) =~~= matrix_model(self.ark@));
        assert(matrix_model(r.mds@) =~~= matrix_model(self.mds@));
        r
    }
}

} // verus!

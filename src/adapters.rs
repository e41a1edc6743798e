//! Output adapters: squeezed field elements turned into bytes, bits, or
//! field elements of a requested bit size.

use vstd::prelude::*;
use vstd::arithmetic::div_mod::lemma_fundamental_div_mod_converse;
use crate::field::{
    bit_at, bits_value, byte_at, capacity_bits, capacity_bits_spec, fr_from_le_bytes_mod_order,
    fr_to_bits_le, fr_to_bytes_le, modulus, Fr,
};
use crate::packing::pack_bits;
use crate::permutation::state_model;
use crate::sponge::{squeeze_spec, DuplexSpongeMode, PoseidonSponge};

verus! {

/// Bytes of each squeezed element that are always below the modulus.
pub open spec fn usable_bytes() -> nat {
    capacity_bits_spec() / 8
}

/// The number of blocks of `per` items needed to hold `n` items.
pub open spec fn blocks_for(n: nat, per: nat) -> nat {
    n / per + if n % per != 0 {
        1nat
    } else {
        0nat
    }
}

/// The first `n` bytes of the concatenated low `usable_bytes()` little-endian
/// bytes of each element of `elems`.
pub open spec fn bytes_of_elements(elems: Seq<nat>, n: nat) -> Seq<u8> {
    Seq::new(
        n,
        |j: int| byte_at(elems[j / usable_bytes() as int], (j % usable_bytes() as int) as nat) as u8,
    )
}

/// The first `n` bits of the concatenated low `capacity_bits_spec()`
/// little-endian bits of each element of `elems`.
pub open spec fn bits_of_elements(elems: Seq<nat>, n: nat) -> Seq<bool> {
    Seq::new(
        n,
        |j: int|
            bit_at(
                elems[j / capacity_bits_spec() as int],
                (j % capacity_bits_spec() as int) as nat,
            ),
    )
}

/// Output bytes, state and mode of `squeeze_bytes(n)`.
pub open spec fn squeeze_bytes_spec(sponge: PoseidonSponge, n: nat) -> (Seq<u8>, Seq<nat>, DuplexSpongeMode) {
    let t = squeeze_spec(
        sponge.parameters@,
        sponge.state_values(),
        sponge.mode,
        blocks_for(n, usable_bytes()),
    );
    (bytes_of_elements(t.0, n), t.1, t.2)
}

/// Output bits, state and mode of `squeeze_bits(n)`.
pub open spec fn squeeze_bits_spec(sponge: PoseidonSponge, n: nat) -> (Seq<bool>, Seq<nat>, DuplexSpongeMode) {
    let t = squeeze_spec(
        sponge.parameters@,
        sponge.state_values(),
        sponge.mode,
        blocks_for(n, capacity_bits_spec()),
    );
    (bits_of_elements(t.0, n), t.1, t.2)
}

/// The bit size of a requested field element.
#[derive(Clone, Copy, Debug, PartialEq, Eq)]
pub enum FieldElementSize {
    /// The field's full capacity, `capacity_bits_spec()` bits.
    Full,
    /// The given number of bits, at most the field's capacity.
    Truncated(usize),
}

/// The number of bits that a size stands for.
pub open spec fn size_bits(size: FieldElementSize) -> nat {
    match size {
        FieldElementSize::Full => capacity_bits_spec(),
        FieldElementSize::Truncated(k) => k as nat,
    }
}

/// Every truncated size is within the field's capacity.
pub open spec fn sizes_valid(sizes: Seq<FieldElementSize>) -> bool {
    forall|t: int| 0 <= t < sizes.len() ==> size_bits(#[trigger] sizes[t]) <= capacity_bits_spec()
}

/// Every size is `Full`.
pub open spec fn all_full(sizes: Seq<FieldElementSize>) -> bool {
    forall|t: int| 0 <= t < sizes.len() ==> #[trigger] sizes[t] == FieldElementSize::Full
}

/// The sum of the bit sizes.
pub open spec fn total_bits(sizes: Seq<FieldElementSize>) -> nat
    decreases sizes.len(),
{
    if sizes.len() == 0 {
        0
    } else {
        total_bits(sizes.drop_last()) + size_bits(sizes.last())
    }
}

/// Element `t` is the integer of the `size_bits(sizes[t])` bits that follow
/// those of the elements before it, reduced modulo the field's modulus.
pub open spec fn elements_from_bits(bits: Seq<bool>, sizes: Seq<FieldElementSize>) -> Seq<nat> {
    Seq::new(
        sizes.len(),
        |t: int|
            bits_value(
                bits.subrange(
                    total_bits(sizes.take(t)) as int,
                    (total_bits(sizes.take(t)) + size_bits(sizes[t])) as int,
                ),
            ) % modulus(),
    )
}

/// Output, state and mode of `squeeze_field_elements_with_sizes(sizes)`:
/// native elements when every size is full, otherwise elements read from
/// `total_bits(sizes)` squeezed bits.
pub open spec fn squeeze_with_sizes_spec(sponge: PoseidonSponge, sizes: Seq<FieldElementSize>) -> (
    Seq<nat>,
    Seq<nat>,
    DuplexSpongeMode,
) {
    if all_full(sizes) {
        squeeze_spec(sponge.parameters@, sponge.state_values(), sponge.mode, sizes.len())
    } else {
        let t = squeeze_bits_spec(sponge, total_bits(sizes));
        (elements_from_bits(t.0, sizes), t.1, t.2)
    }
}

/// A prefix of the sizes adds up to no more than all of them.
pub proof fn lemma_total_bits_prefix(sizes: Seq<FieldElementSize>, t: int)
    requires
        0 <= t <= sizes.len(),
    ensures
        total_bits(sizes.take(t)) <= total_bits(sizes),
    decreases sizes.len(),
{
    if t == sizes.len() {
        assert(sizes.take(t) =~= sizes);
    } else {
        lemma_total_bits_prefix(sizes.drop_last(), t);
        assert(sizes.drop_last().take(t) =~= sizes.take(t));
    }
}

impl PoseidonSponge {
    /// Squeezes `num_bytes` bytes: enough elements are squeezed to supply
    /// `usable_bytes()` little-endian bytes each, and the concatenation is
    /// cut to `num_bytes`.
    pub fn squeeze_bytes(&mut self, num_bytes: usize) -> (r: Vec<u8>)
        requires
            old(self).wf(),
        ensures
            final(self).wf(),
            final(self).parameters == old(self).parameters,
            r@ == squeeze_bytes_spec(*old(self), num_bytes as nat).0,
            final(self).state_values() == squeeze_bytes_spec(*old(self), num_bytes as nat).1,
            final(self).mode == squeeze_bytes_spec(*old(self), num_bytes as nat).2,
    {
        let usable = capacity_bits() / 8;
        assert(num_bytes / usable < usize::MAX) by (nonlinear_arith)
            requires
                usable > 1,
        ;
        let num_elements = num_bytes / usable + if num_bytes % usable != 0 {
            1usize
        } else {
            0usize
        };
        let src = self.squeeze_native_field_elements(num_elements);
        let ghost elems = state_model(src@);
        let mut bytes: Vec<u8> = Vec::new();
        for e in 0..src.len()
            invariant
                usable == usable_bytes(),
                elems == state_model(src@),
                src@.len() == num_elements,
                num_elements == blocks_for(num_bytes as nat, usable as nat),
                bytes@.len() == if usable * e <= num_bytes {
                    usable * e
                } else {
                    num_bytes as int
                },
                forall|j: int|
                    0 <= j < bytes@.len() ==> #[trigger] bytes@[j] == byte_at(
                        elems[j / usable as int],
                        (j % usable as int) as nat,
                    ) as u8,
        {
            let elem_bytes = fr_to_bytes_le(&src[e]);
            for b in 0..usable
                invariant
                    usable == usable_bytes(),
                    elems == state_model(src@),
                    e < src@.len(),
                    elem_bytes@.len() == 32,
                    forall|i: int|
                        0 <= i < 32 ==> elem_bytes@[i] as nat == byte_at(elems[e as int], i as nat),
                    bytes@.len() == if usable * e + b <= num_bytes {
                        usable * e + b
                    } else {
                        num_bytes as int
                    },
                    forall|j: int|
                        0 <= j < bytes@.len() ==> #[trigger] bytes@[j] == byte_at(
                            elems[j / usable as int],
                            (j % usable as int) as nat,
                        ) as u8,
            {
                if bytes.len() < num_bytes {
                    assert(bytes@.len() == e * usable + b) by (nonlinear_arith)
                        requires
                            bytes@.len() == usable * e + b,
                    ;
                    proof {
                        lemma_fundamental_div_mod_converse(
                            bytes@.len() as int,
                            usable as int,
                            e as int,
                            b as int,
                        );
                    }
                    bytes.push(elem_bytes[b]);
                }
            }
            assert(usable * e + usable == usable * (e + 1)) by (nonlinear_arith);
        }
        proof {
            assert(bytes@.len() == num_bytes) by (nonlinear_arith)
                requires
                    bytes@.len() == if usable * src@.len() <= num_bytes {
                        usable * src@.len()
                    } else {
                        num_bytes as int
                    },
                    src@.len() == num_bytes / usable + if num_bytes % usable != 0 {
                        1int
                    } else {
                        0int
                    },
                    usable == 31,
            ;
            assert(bytes@ =~= bytes_of_elements(elems, num_bytes as nat));
        }
        bytes
    }

    /// Squeezes `num_bits` bits: enough elements are squeezed to supply
    /// `capacity_bits_spec()` little-endian bits each, and the concatenation
    /// is cut to `num_bits`.
    pub fn squeeze_bits(&mut self, num_bits: usize) -> (r: Vec<bool>)
        requires
            old(self).wf(),
        ensures
            final(self).wf(),
            final(self).parameters == old(self).parameters,
            r@ == squeeze_bits_spec(*old(self), num_bits as nat).0,
            final(self).state_values() == squeeze_bits_spec(*old(self), num_bits as nat).1,
            final(self).mode == squeeze_bits_spec(*old(self), num_bits as nat).2,
    {
        let usable = capacity_bits();
        assert(num_bits / usable < usize::MAX) by (nonlinear_arith)
            requires
                usable > 1,
        ;
        let num_elements = num_bits / usable + if num_bits % usable != 0 {
            1usize
        } else {
            0usize
        };
        let src = self.squeeze_native_field_elements(num_elements);
        let ghost elems = state_model(src@);
        let mut bits: Vec<bool> = Vec::new();
        for e in 0..src.len()
            invariant
                usable == capacity_bits_spec(),
                elems == state_model(src@),
                src@.len() == num_elements,
                num_elements == blocks_for(num_bits as nat, usable as nat),
                bits@.len() == if usable * e <= num_bits {
                    usable * e
                } else {
                    num_bits as int
                },
                forall|j: int|
                    0 <= j < bits@.len() ==> #[trigger] bits@[j] == bit_at(
                        elems[j / usable as int],
                        (j % usable as int) as nat,
                    ),
        {
            let elem_bits = fr_to_bits_le(&src[e]);
            for b in 0..usable
                invariant
                    usable == capacity_bits_spec(),
                    elems == state_model(src@),
                    e < src@.len(),
                    elem_bits@.len() == 256,
                    forall|i: int| 0 <= i < 256 ==> elem_bits@[i] == bit_at(elems[e as int], i as nat),
                    bits@.len() == if usable * e + b <= num_bits {
                        usable * e + b
                    } else {
                        num_bits as int
                    },
                    forall|j: int|
                        0 <= j < bits@.len() ==> #[trigger] bits@[j] == bit_at(
                            elems[j / usable as int],
                            (j % usable as int) as nat,
                        ),
            {
                if bits.len() < num_bits {
                    assert(bits@.len() == e * usable + b) by (nonlinear_arith)
                        requires
                            bits@.len() == usable * e + b,
                    ;
                    proof {
                        lemma_fundamental_div_mod_converse(
                            bits@.len() as int,
                            usable as int,
                            e as int,
                            b as int,
                        );
                    }
                    bits.push(elem_bits[b]);
                }
            }
            assert(usable * e + usable == usable * (e + 1)) by (nonlinear_arith);
        }
        proof {
            assert(bits@.len() == num_bits) by (nonlinear_arith)
                requires
                    bits@.len() == if usable * src@.len() <= num_bits {
                        usable * src@.len()
                    } else {
                        num_bits as int
                    },
                    src@.len() == num_bits / usable + if num_bits % usable != 0 {
                        1int
                    } else {
                        0int
                    },
                    usable == 254,
            ;
            assert(bits@ =~= bits_of_elements(elems, num_bits as nat));
        }
        bits
    }

    /// Squeezes one field element per entry of `sizes`. When every size is
    /// full these are native elements; otherwise each is read from its share
    /// of `total_bits(sizes)` squeezed bits, little-endian.
    pub fn squeeze_field_elements_with_sizes(&mut self, sizes: &[FieldElementSize]) -> (r: Vec<Fr>)
        requires
            old(self).wf(),
            sizes_valid(sizes@),
            total_bits(sizes@) <= usize::MAX,
        ensures
            final(self).wf(),
            final(self).parameters == old(self).parameters,
            state_model(r@) == squeeze_with_sizes_spec(*old(self), sizes@).0,
            final(self).state_values() == squeeze_with_sizes_spec(*old(self), sizes@).1,
            final(self).mode == squeeze_with_sizes_spec(*old(self), sizes@).2,
    {
        let mut every_full = true;
        for t in 0..sizes.len()
            invariant
                every_full == (forall|u: int|
                    0 <= u < t ==> #[trigger] sizes@[u] == FieldElementSize::Full),
        {
            match sizes[t] {
                FieldElementSize::Full => {},
                FieldElementSize::Truncated(_) => {
                    every_full = false;
                },
            }
        }
        if every_full {
            return self.squeeze_native_field_elements(sizes.len());
        }
        let cap = capacity_bits();
        let mut total: usize = 0;
        for t in 0..sizes.len()
            invariant
                cap == capacity_bits_spec(),
                total_bits(sizes@) <= usize::MAX,
                total == total_bits(sizes@.take(t as int)),
        {
            proof {
                lemma_total_bits_prefix(sizes@, t + 1);
                assert(sizes@.take(t + 1).drop_last() =~= sizes@.take(t as int));
            }
            let num_bits = match sizes[t] {
                FieldElementSize::Full => cap,
                FieldElementSize::Truncated(k) => k,
            };
            total = total + num_bits;
        }
        assert(sizes@.take(sizes@.len() as int) =~= sizes@);
        let ghost before = *self;
        let bits = self.squeeze_bits(total);
        let mut out: Vec<Fr> = Vec::new();
        let mut offset: usize = 0;
        for t in 0..sizes.len()
            invariant
                cap == capacity_bits_spec(),
                total == total_bits(sizes@),
                bits@.len() == total,
                bits@ == squeeze_bits_spec(before, total as nat).0,
                offset == total_bits(sizes@.take(t as int)),
                out@.len() == t,
                forall|u: int|
                    0 <= u < t ==> #[trigger] state_model(out@)[u] == elements_from_bits(
                        bits@,
                        sizes@,
                    )[u],
        {
            proof {
                lemma_total_bits_prefix(sizes@, t + 1);
                assert(sizes@.take(t + 1).drop_last() =~= sizes@.take(t as int));
            }
            let num_bits = match sizes[t] {
                FieldElementSize::Full => cap,
                FieldElementSize::Truncated(k) => k,
            };
            let bytes = pack_bits(&bits, offset, num_bits);
            let e = fr_from_le_bytes_mod_order(bytes.as_slice());
            assert(num_bits == size_bits(sizes@[t as int]));
            assert(e@ == elements_from_bits(bits@, sizes@)[t as int]);
            let ghost prev = out@;
            out.push(e);
            assert forall|u: int| 0 <= u < t + 1 implies #[trigger] state_model(out@)[u]
                == elements_from_bits(bits@, sizes@)[u] by {
                if u < t {
                    assert(out@[u] == prev[u]);
                    assert(state_model(prev)[u] == elements_from_bits(bits@, sizes@)[u]);
                } else {
                    assert(out@[u] == e);
                }
            }
            offset = offset + num_bits;
        }
        assert(state_model(out@) =~= elements_from_bits(bits@, sizes@));
        out
    }

    /// Squeezes `num_elements` field elements. The sponge's own field is the
    /// only one it produces, so these are the native elements.
    pub fn squeeze_field_elements(&mut self, num_elements: usize) -> (r: Vec<Fr>)
        requires
            old(self).wf(),
        ensures
            final(self).wf(),
            final(self).parameters == old(self).parameters,
            state_model(r@) == squeeze_spec(
                old(self).parameters@,
                old(self).state_values(),
                old(self).mode,
                num_elements as nat,
            ).0,
            final(self).state_values() == squeeze_spec(
                old(self).parameters@,
                old(self).state_values(),
                old(self).mode,
                num_elements as nat,
            ).1,
            final(self).mode == squeeze_spec(
                old(self).parameters@,
                old(self).state_values(),
                old(self).mode,
                num_elements as nat,
            ).2,
    {
        self.squeeze_native_field_elements(num_elements)
    }
}

} // verus!

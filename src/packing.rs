//! Packing little-endian bits into little-endian bytes.

use vstd::prelude::*;
use vstd::arithmetic::mul::lemma_mul_is_distributive_add;
use vstd::arithmetic::power2::{lemma_pow2_adds, pow2};
use crate::field::{bits_value, le_bytes_value};

verus! {

/// The value of a concatenation of bit strings: the second is shifted past
/// the first.
pub proof fn lemma_bits_value_append(a: Seq<bool>, b: Seq<bool>)
    ensures
        bits_value(a + b) == bits_value(a) + pow2(a.len()) * bits_value(b),
    decreases b.len(),
{
    if b.len() == 0 {
        assert(a + b =~= a);
    } else {
        let b1 = b.drop_last();
        let ab = a + b;
        assert(ab.drop_last() =~= a + b1);
        assert(ab.last() == b.last());
        lemma_bits_value_append(a, b1);
        let top: nat = if b.last() {
            pow2((b.len() - 1) as nat)
        } else {
            0
        };
        lemma_pow2_adds(a.len(), (b.len() - 1) as nat);
        assert(a.len() + (b.len() - 1) as nat == (ab.len() - 1) as nat);
        assert(bits_value(b) == bits_value(b1) + top);
        assert(bits_value(ab) == bits_value(a + b1) + pow2(a.len()) * top);
        lemma_mul_is_distributive_add(pow2(a.len()) as int, bits_value(b1) as int, top as int);
    }
}

/// The bytes of `bits[from .. from + len]`, eight bits to a byte, the last
/// byte holding what is left.
pub(crate) fn pack_bits(bits: &Vec<bool>, from: usize, len: usize) -> (r: Vec<u8>)
    requires
        from + len <= bits@.len(),
    ensures
        le_bytes_value(r@) == bits_value(bits@.subrange(from as int, from + len)),
{
    let ghost chunk = bits@.subrange(from as int, from + len);
    let mut out: Vec<u8> = Vec::new();
    let mut done: usize = 0;
    let n_bits = bits.len();
    assert(chunk.take(0) =~= Seq::<bool>::empty());
    while done < len
        invariant
            from + len <= bits@.len(),
            n_bits == bits@.len(),
            chunk == bits@.subrange(from as int, from + len),
            done <= len,
            done == 8 * out@.len() || done == len,
            le_bytes_value(out@) == bits_value(chunk.take(done as int)),
        decreases len - done,
    {
        let end = if len - done >= 8 {
            done + 8
        } else {
            len
        };
        let mut byte: u32 = 0;
        let mut weight: u32 = 1;
        let mut k = done;
        proof {
            vstd::arithmetic::power2::lemma2_to64();
        }
        assert(chunk.subrange(done as int, done as int) =~= Seq::<bool>::empty());
        while k < end
            invariant
                from + len <= bits@.len(),
                n_bits == bits@.len(),
                chunk == bits@.subrange(from as int, from + len),
                done <= k <= end <= len,
                end - done <= 8,
                weight == pow2((k - done) as nat),
                byte < weight,
                byte == bits_value(chunk.subrange(done as int, k as int)),
            decreases end - k,
        {
            assert(chunk.subrange(done as int, k + 1).drop_last() =~= chunk.subrange(
                done as int,
                k as int,
            ));
            proof {
                vstd::arithmetic::power2::lemma2_to64();
            }
            if bits[from + k] {
                byte = byte + weight;
            }
            weight = weight * 2;
            k = k + 1;
        }
        proof {
            vstd::arithmetic::power2::lemma2_to64();
            lemma_bits_value_append(chunk.take(done as int), chunk.subrange(done as int, end as int));
            assert(chunk.take(done as int) + chunk.subrange(done as int, end as int) =~= chunk.take(
                end as int,
            ));
            assert(done == 8 * out@.len());
        }
        let ghost prev = out@;
        assert(byte < 256);
        out.push(byte as u8);
        assert(out@.drop_last() =~= prev);
        assert(out@.last() as nat == byte);
        assert((8 * (out@.len() - 1)) as nat == done);
        assert(le_bytes_value(out@) == le_bytes_value(prev) + byte * pow2(done as nat));
        assert(byte * pow2(done as nat) == pow2(done as nat) * byte) by (nonlinear_arith);
        assert(le_bytes_value(out@) == bits_value(chunk.take(end as int)));
        assert(bits_value(chunk.take(end as int)) == bits_value(chunk.take(done as int)) + pow2(
            done as nat,
        ) * byte);
        done = end;
    }
    assert(chunk.take(len as int) =~= chunk);
    out
}

} // verus!

use vstd::prelude::*;

verus! {

use vstd::arithmetic::div_mod::lemma_mod_breakdown;
use vstd::arithmetic::div_mod::lemma_div_denominator;
use vstd::arithmetic::div_mod::lemma_small_mod;
use crate::error::StorageError;

/// The place value of a byte `k` positions above the low end of a
/// big-endian encoding: 256 to the power `k`.
pub open spec fn pow256(k: nat) -> nat
    decreases k,
{
    if k == 0 {
        1
    } else {
        256 * pow256((k - 1) as nat)
    }
}

/// The unsigned integer a byte sequence denotes when read big-endian:
/// the first byte is the most significant.
pub open spec fn be_val(s: Seq<u8>) -> nat
    decreases s.len(),
{
    if s.len() == 0 {
        0
    } else {
        s.first() as nat * pow256((s.len() - 1) as nat) + be_val(s.drop_first())
    }
}

pub proof fn lemma_pow256_pos(k: nat)
    ensures
        pow256(k) > 0,
    decreases k,
{
    if k > 0 {
        lemma_pow256_pos((k - 1) as nat);
    }
}

/// Eight bytes cover exactly the 64-bit range.
pub proof fn lemma_pow256_8()
    ensures
        pow256(8) == 0x1_0000_0000_0000_0000,
{
    assert(pow256(0) == 1);
    assert(pow256(1) == 256);
    assert(pow256(2) == 0x1_0000);
    assert(pow256(3) == 0x100_0000);
    assert(pow256(4) == 0x1_0000_0000);
    assert(pow256(5) == 0x100_0000_0000);
    assert(pow256(6) == 0x1_0000_0000_0000);
    assert(pow256(7) == 0x100_0000_0000_0000);
    assert(pow256(8) == 0x1_0000_0000_0000_0000);
}

/// Encode a nonce as its fixed eight-byte big-endian form, the only form
/// this layer ever persists or accepts for a stored nonce.
pub fn encode_nonce(nonce: u64) -> (r: Vec<u8>)
    ensures
        r@.len() == 8,
        be_val(r@) == nonce,
{
    let mut buf: Vec<u8> = vec![0u8; 8];
    let mut m: u64 = nonce;
    let mut j: usize = 8;
    proof {
        assert(buf@.subrange(8, 8) =~= Seq::<u8>::empty());
        assert(pow256(0) == 1);
        vstd::arithmetic::div_mod::lemma_div_basics(nonce as int);
        assert(nonce as nat % 1 == 0) by (nonlinear_arith);
    }
    while j > 0
        invariant
            buf@.len() == 8,
            j <= 8,
            m as nat == nonce as nat / pow256((8 - j as int) as nat),
            be_val(buf@.subrange(j as int, 8)) == nonce as nat % pow256((8 - j as int) as nat),
        decreases j,
    {
        let ghost n: nat = nonce as nat;
        let ghost p: nat = pow256((8 - j as int) as nat);
        let ghost prev = buf@;
        let ghost j0 = j as int;
        let ghost m0: nat = m as nat;
        proof {
            lemma_pow256_pos((8 - j as int) as nat);
        }
        let b: u8 = (m % 256) as u8;
        j = j - 1;
        buf[j] = b;
        m = m / 256;
        proof {
            assert(buf@ == prev.update(j0 - 1, b));
            assert(buf@.subrange(j0, 8) =~= prev.subrange(j0, 8));
            let s = buf@.subrange(j0 - 1, 8);
            assert(s.first() == b);
            assert(s.drop_first() =~= buf@.subrange(j0, 8));
            assert(pow256((9 - j0) as nat) == 256 * p);
            assert(be_val(s) == b as nat * p + be_val(s.drop_first()));
            lemma_mod_breakdown(n as int, p as int, 256);
            lemma_div_denominator(n as int, p as int, 256);
            assert(b as nat == m0 % 256);
            assert(m as nat == n / (256 * p)) by {
                assert(p as int * 256 == 256 * p);
            }
            assert(be_val(s) == n % (256 * p)) by {
                assert(n as int % (p as int * 256) == p as int * ((n as int / p as int) % 256)
                    + n as int % p as int);
            }
        }
    }
    proof {
        assert(buf@.subrange(0, 8) =~= buf@);
        lemma_pow256_8();
        lemma_small_mod(nonce as nat, pow256(8));
    }
    buf
}

/// Relies on byteorder::BigEndian::read_u64: reads the eight bytes of the
/// buffer as one big-endian unsigned 64-bit integer.
#[verifier::external_body]
fn read_u64_be(bytes: &Vec<u8>) -> (r: u64)
    requires
        bytes@.len() == 8,
    ensures
        r as nat == be_val(bytes@),
{
    <byteorder::BigEndian as byteorder::ByteOrder>::read_u64(bytes)
}

/// Decode a persisted nonce value. Exactly eight bytes decode big-endian;
/// any other length is corruption of the stored data and fails loudly.
pub fn decode_nonce_bytes(bytes: &Vec<u8>) -> (r: Result<u64, StorageError>)
    ensures
        bytes@.len() == 8 ==> (r matches Ok(n) && n as nat == be_val(bytes@)),
        bytes@.len() != 8 ==> r == Err::<u64, StorageError>(StorageError::DataCorruption),
{
    if bytes.len() == 8 {
        Ok(read_u64_be(bytes))
    } else {
        Err(StorageError::DataCorruption)
    }
}

} // verus!

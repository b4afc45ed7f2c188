//! Track identities as numbers: the catalog persistence stores an identity
//! as a 16-byte blob, big endian; this parses it back into the numeric
//! identity the library works with.

use vstd::prelude::*;
use vstd::arithmetic::power::{lemma_pow_increases, pow};

verus! {

/// The numeric value of identity bytes, big endian.
pub open spec fn be_u128_of(bytes: Seq<u8>) -> nat
    decreases bytes.len(),
{
    if bytes.len() == 0 {
        0
    } else {
        be_u128_of(bytes.drop_last()) * 256 + (bytes.last() as nat)
    }
}

/// The value of `k` identity bytes is below 256^k.
pub proof fn lemma_be_u128_bound(bytes: Seq<u8>)
    ensures
        be_u128_of(bytes) < pow(256, bytes.len()),
    decreases bytes.len(),
{
    reveal(pow);
    if bytes.len() == 0 {
        assert(pow(256, 0) == 1);
    } else {
        let rest = bytes.drop_last();
        lemma_be_u128_bound(rest);
        let p = pow(256, rest.len());
        assert(pow(256, bytes.len()) == 256 * p);
        assert(be_u128_of(rest) * 256 + bytes.last() < 256 * p) by (nonlinear_arith)
            requires
                be_u128_of(rest) < p,
                bytes.last() < 256,
        ;
    }
}

/// Parses a track identity from a stored 16-byte blob, big endian; any other
/// length is rejected.
pub fn track_id_from_bytes(bytes: &[u8]) -> (r: Option<u128>)
    ensures
        bytes@.len() == 16 ==> r == Some((be_u128_of(bytes@) as u128)),
        bytes@.len() != 16 ==> r is None,
{
    if bytes.len() != 16 {
        return None;
    }
    let mut acc: u128 = 0;
    let mut i: usize = 0;
    while i < 16
        invariant
            bytes@.len() == 16,
            0 <= i <= 16,
            acc as nat == be_u128_of(bytes@.take(i as int)),
        decreases 16 - i,
    {
        proof {
            reveal_with_fuel(pow, 17);
            assert(pow(256, 16) == 0x100000000000000000000000000000000);
            lemma_be_u128_bound(bytes@.take(i as int));
            lemma_pow_increases(256, i as nat, 15);
            assert(acc < pow(256, 15));
            assert(acc * 256 + 255 < 256 * pow(256, 15)) by (nonlinear_arith)
                requires
                    acc < pow(256, 15),
            ;
            assert(256 * pow(256, 15) == pow(256, 16));
        }
        let b = bytes[i];
        acc = acc * 256 + (b as u128);
        proof {
            assert(bytes@.take(i as int + 1).drop_last() =~= bytes@.take(i as int));
            assert(bytes@.take(i as int + 1).last() == bytes@[i as int]);
        }
        i = i + 1;
    }
    proof {
        assert(bytes@.take(16) =~= bytes@);
    }
    Some(acc)
}

} // verus!

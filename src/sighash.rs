//! Instruction discriminators: the first eight bytes of the SHA-256 digest
//! of `namespace:name`.
use vstd::prelude::*;
use vstd::string::StringSliceAdditionalSpecFns;

verus! {

/// The SHA-256 digest of `data`.
pub uninterp spec fn sha256_of(data: Seq<u8>) -> Seq<u8>;

/// Relies on `solana_program::hash::hash`: the SHA-256 digest of the bytes,
/// 32 bytes that depend on the bytes alone.
#[verifier::external_body]
fn sha256(data: &Vec<u8>) -> (r: [u8; 32])
    ensures
        r@ == sha256_of(data@),
{
    solana_program::hash::hash(data.as_slice()).to_bytes()
}

/// The bytes that are hashed: `namespace`, a colon, then `name`.
pub open spec fn preimage_of(namespace: Seq<u8>, name: Seq<u8>) -> Seq<u8> {
    namespace + seq![58u8] + name
}

fn push_all(out: &mut Vec<u8>, bytes: &[u8])
    ensures
        final(out)@ == old(out)@ + bytes@,
{
    let mut i: usize = 0;
    while i < bytes.len()
        invariant
            i <= bytes@.len(),
            out@ == old(out)@ + bytes@.subrange(0, i as int),
        decreases bytes@.len() - i,
    {
        out.push(bytes[i]);
        i = i + 1;
        proof {
            assert(out@ =~= old(out)@ + bytes@.subrange(0, i as int));
        }
    }
    proof {
        assert(bytes@.subrange(0, bytes@.len() as int) =~= bytes@);
    }
}

/// `namespace:name` as bytes.
pub fn sighash_preimage(namespace: &str, name: &str) -> (r: Vec<u8>)
    ensures
        r@ == preimage_of(namespace.spec_bytes(), name.spec_bytes()),
{
    let mut preimage: Vec<u8> = Vec::new();
    push_all(&mut preimage, namespace.as_bytes());
    preimage.push(58u8);
    push_all(&mut preimage, name.as_bytes());
    proof {
        assert(preimage@ =~= preimage_of(namespace.spec_bytes(), name.spec_bytes()));
    }
    preimage
}

/// The first eight bytes of a digest.
pub fn discriminator_of(digest: &[u8; 32]) -> (r: [u8; 8])
    ensures
        r@ == digest@.subrange(0, 8),
{
    let r = [digest[0], digest[1], digest[2], digest[3], digest[4], digest[5], digest[6], digest[7]];
    proof {
        assert(r@ =~= digest@.subrange(0, 8));
    }
    r
}

/// The discriminator of the instruction `name` in `namespace`.
pub fn sighash(namespace: &str, name: &str) -> (r: [u8; 8])
    ensures
        r@ == sha256_of(preimage_of(namespace.spec_bytes(), name.spec_bytes())).subrange(0, 8),
{
    let preimage = sighash_preimage(namespace, name);
    discriminator_of(&sha256(&preimage))
}

} // verus!

//! Bounded identifiers and byte-sequence helpers.
//!
//! Devices are identified by byte strings of at most
//! [`MAX_DEVICE_ID_LENGTH`] bytes; proof commitments are opaque byte
//! strings of at most [`MAX_PROOF_LENGTH`] bytes. The engine performs no
//! further validation on either.

use vstd::prelude::*;
use vstd::string::StrSliceExecFns;
use vstd::string::StringSliceAdditionalSpecFns;

verus! {

/// Longest accepted device identifier, in bytes.
pub const MAX_DEVICE_ID_LENGTH: usize = 64;

/// Longest accepted proof commitment, in bytes.
pub const MAX_PROOF_LENGTH: usize = 128;

/// Build a device identifier from a string, as its UTF-8 bytes.
pub fn device_id(id: &str) -> (r: Vec<u8>)
    ensures
        r@ == id.spec_bytes(),
{
    id.as_bytes_vec()
}

/// Build a proof commitment from a string, as its UTF-8 bytes.
pub fn proof_hash(hash: &str) -> (r: Vec<u8>)
    ensures
        r@ == hash.spec_bytes(),
{
    hash.as_bytes_vec()
}

/// Compare two byte strings for equality.
pub fn bytes_eq(a: &Vec<u8>, b: &Vec<u8>) -> (r: bool)
    ensures
        r == (a@ == b@),
{
    if a.len() != b.len() {
        proof {
            assert(a@ != b@);
        }
        return false;
    }
    let n = a.len();
    let mut i: usize = 0;
    while i < n
        invariant
            n == a@.len() && n == b@.len(),
            i <= n,
            forall|j: int| 0 <= j < i ==> a@[j] == b@[j],
        decreases n - i,
    {
        if a[i] != b[i] {
            proof {
                assert(a@ != b@);
            }
            return false;
        }
        i += 1;
    }
    proof {
        assert(a@ =~= b@);
    }
    true
}

/// Copy a byte string.
pub fn clone_bytes(v: &Vec<u8>) -> (r: Vec<u8>)
    ensures
        r@ == v@,
{
    let mut r: Vec<u8> = Vec::new();
    let n = v.len();
    let mut i: usize = 0;
    while i < n
        invariant
            n == v@.len(),
            i <= n,
            r@ == v@.subrange(0, i as int),
        decreases n - i,
    {
        r.push(v[i]);
        proof {
            assert(r@ =~= v@.subrange(0, i as int + 1));
        }
        i += 1;
    }
    proof {
        assert(r@ =~= v@);
    }
    r
}

/// Append the bytes of `src` to `dst`.
pub fn append_bytes(dst: &mut Vec<u8>, src: &Vec<u8>)
    ensures
        final(dst)@ == old(dst)@ + src@,
{
    let n = src.len();
    let mut i: usize = 0;
    while i < n
        invariant
            n == src@.len(),
            i <= n,
            dst@ == old(dst)@ + src@.subrange(0, i as int),
        decreases n - i,
    {
        dst.push(src[i]);
        proof {
            assert(dst@ =~= old(dst)@ + src@.subrange(0, i as int + 1));
        }
        i += 1;
    }
    proof {
        assert(dst@ =~= old(dst)@ + src@);
    }
}

} // verus!

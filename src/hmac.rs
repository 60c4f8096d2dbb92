//! HMAC-SHA1, proved equal to its definition over the SHA-1 digest.

use vstd::prelude::*;
use crate::sha1::{hashable, sha1, sha1_spec};

verus! {

/// The SHA-1 block length in bytes, to which keys are normalized.
pub const BLOCK_LEN: usize = 64;

/// The key brought to exactly one block: hashed when longer than a block,
/// then zero-padded.
pub open spec fn normalized_key(key: Seq<u8>) -> Seq<u8> {
    let k = if key.len() > 64 { sha1_spec(key) } else { key };
    k + Seq::new((64 - k.len()) as nat, |i: int| 0u8)
}

/// The normalized key XORed byte-wise with a constant.
pub open spec fn xor_pad(k: Seq<u8>, c: u8) -> Seq<u8> {
    Seq::new(64, |i: int| k[i] ^ c)
}

/// HMAC-SHA1 of `message` under `key`.
pub open spec fn hmac_spec(key: Seq<u8>, message: Seq<u8>) -> Seq<u8> {
    let k = normalized_key(key);
    sha1_spec(xor_pad(k, 0x5cu8) + sha1_spec(xor_pad(k, 0x36u8) + message))
}

/// Inputs whose HMAC can be computed: the key can be hashed, and so can a
/// block followed by the message.
pub open spec fn mac_input_ok(key_len: nat, message_len: nat) -> bool {
    hashable(key_len) && hashable(message_len + 64)
}

/// Appends the bytes of `s` to `v`.
pub fn append_bytes(v: &mut Vec<u8>, s: &[u8])
    ensures
        final(v)@ == old(v)@ + s@,
{
    let mut i: usize = 0;
    while i < s.len()
        invariant
            i <= s@.len(),
            v@ == old(v)@ + s@.subrange(0, i as int),
        decreases s@.len() - i,
    {
        v.push(s[i]);
        i = i + 1;
        assert(v@ =~= old(v)@ + s@.subrange(0, i as int));
    }
    assert(s@.subrange(0, i as int) =~= s@);
}

/// The HMAC-SHA1 of `message` under `key`.
pub fn hmac_sha1(key: &[u8], message: &[u8]) -> (mac: [u8; 20])
    requires
        mac_input_ok(key@.len(), message@.len()),
    ensures
        mac@ == hmac_spec(key@, message@),
{
    let mut k: Vec<u8> = Vec::new();
    if key.len() > BLOCK_LEN {
        let d = sha1(key);
        append_bytes(&mut k, d.as_slice());
    } else {
        append_bytes(&mut k, key);
    }
    let ghost k0 = k@;
    while k.len() < BLOCK_LEN
        invariant
            k0.len() <= k@.len() <= 64,
            k@ == k0 + Seq::new((k@.len() - k0.len()) as nat, |i: int| 0u8),
        decreases 64 - k@.len(),
    {
        k.push(0u8);
        assert(k@ =~= k0 + Seq::new((k@.len() - k0.len()) as nat, |i: int| 0u8));
    }
    assert(k@ =~= normalized_key(key@));
    let mut ipad: [u8; 64] = [0u8; 64];
    let mut opad: [u8; 64] = [0u8; 64];
    let mut i: usize = 0;
    while i < BLOCK_LEN
        invariant
            k@.len() == 64,
            i <= 64,
            forall|j: int| 0 <= j < i ==> ipad@[j] == k@[j] ^ 0x36u8,
            forall|j: int| 0 <= j < i ==> opad@[j] == k@[j] ^ 0x5cu8,
        decreases 64 - i,
    {
        ipad[i] = k[i] ^ 0x36u8;
        opad[i] = k[i] ^ 0x5cu8;
        i = i + 1;
    }
    assert(ipad@ =~= xor_pad(k@, 0x36u8));
    assert(opad@ =~= xor_pad(k@, 0x5cu8));
    let mut inner: Vec<u8> = Vec::new();
    append_bytes(&mut inner, ipad.as_slice());
    append_bytes(&mut inner, message);
    let inner_hash = sha1(inner.as_slice());
    let mut outer: Vec<u8> = Vec::new();
    append_bytes(&mut outer, opad.as_slice());
    append_bytes(&mut outer, inner_hash.as_slice());
    sha1(outer.as_slice())
}

/// A key longer than one block gives the same code as its SHA-1 digest
/// zero-padded to one block.
pub proof fn lemma_long_key_prehashed(key: Seq<u8>, message: Seq<u8>)
    requires
        key.len() > 64,
    ensures
        hmac_spec(key, message) == hmac_spec(
            sha1_spec(key) + Seq::new(44, |i: int| 0u8),
            message,
        ),
{
    let pre = sha1_spec(key) + Seq::new(44, |i: int| 0u8);
    assert(normalized_key(pre) =~= normalized_key(key));
}

} // verus!

//! Calls into the hash and cipher crates. Each result that cannot be stated
//! in a few lines is given a name, a function of the arguments alone.

use vstd::prelude::*;

use aes::cipher::block_padding::{NoPadding, Pkcs7};
use aes::cipher::{BlockDecryptMut, KeyIvInit};
use aes::Aes256Dec;
use digest::Digest;
use generic_array::GenericArray;

verus! {

/// Length in bytes of a SHA-512 digest.
pub const SHA512_LEN: usize = 64;

/// Length in bytes of a SHA-1 digest.
pub const SHA1_LEN: usize = 20;

/// Length in bytes of an AES-256 key.
pub const KEY_LEN: usize = 32;

/// Length in bytes of an AES block, and of a CBC initialization vector.
pub const BLOCK_SIZE: usize = 16;

/// The SHA-512 digest of a byte string.
pub uninterp spec fn sha512_of(data: Seq<u8>) -> Seq<u8>;

/// The SHA-1 digest of a byte string.
pub uninterp spec fn sha1_of(data: Seq<u8>) -> Seq<u8>;

/// AES-256-CBC decryption of whole blocks, with no padding removed.
pub uninterp spec fn cbc_blocks_of(key: Seq<u8>, iv: Seq<u8>, ct: Seq<u8>) -> Seq<u8>;

/// The padding length that the last byte of decrypted blocks `p` announces.
pub open spec fn pad_len(p: Seq<u8>) -> int {
    p.last() as int
}

/// PKCS#7 padding of the decrypted blocks `p` is well formed: the last byte
/// `n` lies between 1 and the block size and the last `n` bytes all equal
/// `n`.
pub open spec fn pkcs7_ok(p: Seq<u8>) -> bool {
    &&& p.len() > 0
    &&& 1 <= pad_len(p) <= BLOCK_SIZE
    &&& forall|i: int| p.len() - pad_len(p) <= i < p.len() ==> p[i] == p.last()
}

/// AES-256-CBC decryption of `ct` followed by PKCS#7 unpadding; `None` where
/// `ct` is not a non-empty run of whole blocks or the padding is malformed.
pub open spec fn cbc_pkcs7_of(key: Seq<u8>, iv: Seq<u8>, ct: Seq<u8>) -> Option<Seq<u8>> {
    let p = cbc_blocks_of(key, iv, ct);
    if ct.len() == 0 || ct.len() % (BLOCK_SIZE as nat) != 0 || !pkcs7_ok(p) {
        None
    } else {
        Some(p.take(p.len() - pad_len(p)))
    }
}

/// The view of an optional byte vector.
pub open spec fn opt_view(o: Option<Vec<u8>>) -> Option<Seq<u8>> {
    match o {
        Some(v) => Some(v@),
        None => None,
    }
}

/// Relies on `sha2::Sha512` through `digest::Digest::digest`: a 64-byte
/// digest that depends on the input alone.
#[verifier::external_body]
pub(crate) fn sha512_digest(data: &[u8]) -> (r: Vec<u8>)
    ensures
        r@ == sha512_of(data@),
        r@.len() == SHA512_LEN,
{
    sha2::Sha512::digest(data).to_vec()
}

/// Relies on `sha1::Sha1` through `digest::Digest::digest`: a 20-byte
/// digest that depends on the input alone.
#[verifier::external_body]
pub(crate) fn sha1_digest(data: &[u8]) -> (r: Vec<u8>)
    ensures
        r@ == sha1_of(data@),
        r@.len() == SHA1_LEN,
{
    sha1::Sha1::digest(data).to_vec()
}

/// Relies on `cbc::Decryptor<aes::Aes256Dec>` and
/// `BlockDecryptMut::decrypt_padded_vec_mut::<NoPadding>`: whole blocks are
/// decrypted one for one, so the output is as long as the input; with no
/// padding and whole blocks the call cannot fail.
#[verifier::external_body]
pub(crate) fn cbc_decrypt_blocks(key: &[u8], iv: &[u8], ct: &[u8]) -> (r: Vec<u8>)
    requires
        key@.len() == KEY_LEN,
        iv@.len() == BLOCK_SIZE,
        ct@.len() % (BLOCK_SIZE as nat) == 0,
    ensures
        r@ == cbc_blocks_of(key@, iv@, ct@),
        r@.len() == ct@.len(),
{
    let dec = cbc::Decryptor::<Aes256Dec>::new(GenericArray::from_slice(key), GenericArray::from_slice(iv));
    dec.decrypt_padded_vec_mut::<NoPadding>(ct).unwrap_or_default()
}

/// Relies on `cbc::Decryptor<aes::Aes256Dec>` and
/// `BlockDecryptMut::decrypt_padded_vec_mut::<Pkcs7>`: an input that is empty
/// or not a multiple of the block size is refused; otherwise the blocks are
/// decrypted as by `cbc_decrypt_blocks` and strict PKCS#7 padding is removed
/// from the last one, or refused.
#[verifier::external_body]
pub(crate) fn cbc_decrypt_padded(key: &[u8], iv: &[u8], ct: &[u8]) -> (r: Option<Vec<u8>>)
    requires
        key@.len() == KEY_LEN,
        iv@.len() == BLOCK_SIZE,
    ensures
        opt_view(r) == cbc_pkcs7_of(key@, iv@, ct@),
        r is Some ==> r->0@.len() == ct@.len() - pad_len(cbc_blocks_of(key@, iv@, ct@)),
{
    let dec = cbc::Decryptor::<Aes256Dec>::new(GenericArray::from_slice(key), GenericArray::from_slice(iv));
    match dec.decrypt_padded_vec_mut::<Pkcs7>(ct) {
        Ok(v) => Some(v),
        Err(_) => None,
    }
}

} // verus!

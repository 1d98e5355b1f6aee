//! The encryption engine: key derivation, the block cipher, the signature
//! and the source of salts, each as one call into a cryptography crate.
//!
//! Nothing here is proved of the cryptography. Each call's result has a
//! name, and what the store's encoding promises is stated over those names.

use vstd::prelude::*;
use crypto::aes::{cbc_decryptor, cbc_encryptor, KeySize};
use crypto::blockmodes::NoPadding;
use crypto::buffer::{BufferResult, RefReadBuffer, RefWriteBuffer, WriteBuffer};
use crypto::hmac::Hmac;
use crypto::mac::Mac;
use crypto::scrypt::{scrypt, ScryptParams};
use crypto::sha2::Sha512;
use crypto::util::fixed_time_eq;
use rand::{OsRng, Rng};

verus! {

/// The size of the cipher's blocks, and of its initialisation vector.
pub const BLOCK_LEN: usize = 16;

/// The size of the cipher's key.
pub const KEY_LEN: usize = 32;

/// The size of a signature.
pub const SIGNATURE_LEN: usize = 64;

/// The key that scrypt derives from a secret and a salt, with the cost
/// parameters `log_n`, `r` and `p`, in `length` bytes.
pub uninterp spec fn scrypt_derived(
    secret: Seq<u8>,
    salt: Seq<u8>,
    log_n: u8,
    r: u32,
    p: u32,
    length: nat,
) -> Seq<u8>;

/// What AES-256 in CBC mode, without padding, makes of whole blocks under a
/// key and an initialisation vector; nothing where the cipher refuses them.
pub uninterp spec fn cbc_encrypted(key: Seq<u8>, iv: Seq<u8>, blocks: Seq<u8>) -> Option<Seq<u8>>;

/// The blocks that AES-256 in CBC mode, without padding, recovers under a
/// key and an initialisation vector; nothing where the cipher refuses the
/// input.
pub uninterp spec fn cbc_decrypted(key: Seq<u8>, iv: Seq<u8>, blocks: Seq<u8>) -> Option<Seq<u8>>;

/// The HMAC-SHA-512 signature of `data` under `key`.
pub uninterp spec fn hmac_sha512(key: Seq<u8>, data: Seq<u8>) -> Seq<u8>;

/// `crypto::scrypt::scrypt` with parameters from
/// `crypto::scrypt::ScryptParams::new`: the derived key fills a buffer of
/// `length` bytes and depends on the arguments alone. Both functions panic
/// on parameters outside their ranges; `requires` keeps well inside them on
/// machines of 32 bits and more.
#[verifier::external_body]
pub(crate) fn derive_key(
    secret: &[u8],
    salt: &[u8],
    log_n: u8,
    r: u32,
    p: u32,
    length: usize,
) -> (key: Vec<u8>)
    requires
        1 <= log_n <= 16,
        1 <= r <= 32,
        1 <= p <= 32,
        log_n < 16 * r,
        1 <= length <= 1024,
    ensures
        key@ == scrypt_derived(secret@, salt@, log_n, r, p, length as nat),
        key@.len() == length,
{
    let params = ScryptParams::new(log_n, r, p);
    let mut key = vec![0u8; length];
    scrypt(secret, salt, &params, &mut key);
    key
}

/// `crypto::aes::cbc_encryptor` for 256-bit keys without padding, and one
/// call of `encrypt` on the whole input into a buffer of the input's size.
/// The result is what the cipher wrote if it took all the input, nothing
/// if it stopped for room or with an error; it depends on the arguments
/// alone. The cipher panics on a key of another size.
#[verifier::external_body]
pub(crate) fn cbc_encrypt(key: &[u8], iv: &[u8], blocks: &[u8]) -> (sealed: Option<Vec<u8>>)
    requires
        key@.len() == KEY_LEN,
        iv@.len() == BLOCK_LEN,
    ensures
        match sealed {
            Some(bytes) => cbc_encrypted(key@, iv@, blocks@) == Some(bytes@),
            None => cbc_encrypted(key@, iv@, blocks@) is None,
        },
{
    let mut out = vec![0u8; blocks.len()];
    let mut writer = RefWriteBuffer::new(&mut out);
    let mut cipher = cbc_encryptor(KeySize::KeySize256, key, iv, NoPadding);
    let done = cipher.encrypt(&mut RefReadBuffer::new(blocks), &mut writer, true);
    let written = writer.position();
    match done {
        Ok(BufferResult::BufferUnderflow) => {
            out.truncate(written);
            Some(out)
        },
        Ok(BufferResult::BufferOverflow) => None,
        Err(_) => None,
    }
}

/// `crypto::aes::cbc_decryptor` for 256-bit keys without padding, and one
/// call of `decrypt` on the whole input into a buffer of the input's size.
/// The result is what the cipher wrote if it took all the input, nothing
/// if it stopped for room or with an error; it depends on the arguments
/// alone. The cipher panics on a key of another size.
#[verifier::external_body]
pub(crate) fn cbc_decrypt(key: &[u8], iv: &[u8], blocks: &[u8]) -> (opened: Option<Vec<u8>>)
    requires
        key@.len() == KEY_LEN,
        iv@.len() == BLOCK_LEN,
    ensures
        match opened {
            Some(bytes) => cbc_decrypted(key@, iv@, blocks@) == Some(bytes@),
            None => cbc_decrypted(key@, iv@, blocks@) is None,
        },
{
    let mut out = vec![0u8; blocks.len()];
    let mut writer = RefWriteBuffer::new(&mut out);
    let mut cipher = cbc_decryptor(KeySize::KeySize256, key, iv, NoPadding);
    let done = cipher.decrypt(&mut RefReadBuffer::new(blocks), &mut writer, true);
    let written = writer.position();
    match done {
        Ok(BufferResult::BufferUnderflow) => {
            out.truncate(written);
            Some(out)
        },
        Ok(BufferResult::BufferOverflow) => None,
        Err(_) => None,
    }
}

/// `crypto::hmac::Hmac` over `crypto::sha2::Sha512`: the signature of
/// `data` under `key`, which is as long as the digest, 64 bytes, and depends
/// on the arguments alone.
#[verifier::external_body]
pub(crate) fn sign(key: &[u8], data: &[u8]) -> (signature: Vec<u8>)
    ensures
        signature@ == hmac_sha512(key@, data@),
        signature@.len() == SIGNATURE_LEN,
{
    let mut mac = Hmac::new(Sha512::new(), key);
    mac.input(data);
    mac.result().code().to_vec()
}

/// `crypto::util::fixed_time_eq`: whether two byte strings that are not
/// empty are equal, in a time that does not depend on where they differ.
/// Of two empty strings it says that they differ.
#[verifier::external_body]
pub(crate) fn same_bytes(a: &[u8], b: &[u8]) -> (same: bool)
    ensures
        same == (a@.len() > 0 && a@ == b@),
{
    fixed_time_eq(a, b)
}

/// `rand::OsRng::new` and `rand::Rng::fill_bytes`: `count` bytes from the
/// operating system's generator, or the error with which it could not be
/// opened. Nothing is known of the bytes but their number.
#[verifier::external_body]
pub(crate) fn random_bytes(count: usize) -> (bytes: Result<Vec<u8>, std::io::Error>)
    ensures
        bytes matches Ok(b) ==> b@.len() == count,
{
    let mut generator = OsRng::new()?;
    let mut bytes = vec![0u8; count];
    generator.fill_bytes(&mut bytes);
    Ok(bytes)
}

} // verus!

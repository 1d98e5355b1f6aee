//! The encoding of a list of credentials as one buffer, by format version.
//!
//! A buffer starts with its version tag, a 32-bit number, most significant
//! byte first. Then come the salt from which the keys are derived and the
//! initialisation vector of the cipher; in the current version a signature
//! over all the rest; and last the records, padded to whole blocks and
//! encrypted.

use vstd::prelude::*;
use vstd::slice::{slice_subrange, slice_to_vec};
use crate::password::PasswordError;
use crate::password::credential::{views, Credential, CredentialView};
use crate::password::engine::{
    cbc_decrypt,
    cbc_decrypted,
    cbc_encrypt,
    cbc_encrypted,
    derive_key,
    hmac_sha512,
    random_bytes,
    same_bytes,
    scrypt_derived,
    sign,
    BLOCK_LEN,
    KEY_LEN,
    SIGNATURE_LEN,
};
use crate::password::wire::{
    all_writable,
    lemma_parse_list,
    lemma_u32_round_trip,
    list_bytes,
    parse_list,
    put,
    read_list,
    read_u32_be,
    u32_be,
    u32_from_be,
    write_list,
    write_u32_be,
};
use crate::secret::SecretBuffer;

verus! {

/// The tag of the previous version.
pub const LEGACY_VERSION: u32 = 1;

/// The tag of the current version.
pub const CURRENT_VERSION: u32 = 2;

/// The size of the version tag.
pub const TAG_LEN: usize = 4;

/// The size of the salt.
pub const SALT_LEN: usize = 32;

/// Where the initialisation vector starts.
pub const IV_START: usize = 36;

/// Where the part that depends on the version starts.
pub const PRELUDE_LEN: usize = 52;

/// The cost of the key derivation: the logarithm of scrypt's iteration
/// count.
pub const SCRYPT_LOG_N: u8 = 12;

/// The cost of the key derivation: scrypt's block size.
pub const SCRYPT_R: u32 = 8;

/// The cost of the key derivation: scrypt's parallelism.
pub const SCRYPT_P: u32 = 1;

/// A version of the on-disk format.
#[derive(Clone, Copy, Debug, PartialEq, Eq, Structural)]
pub enum FormatVersion {
    /// The previous format: no signature, and one key.
    Legacy,
    /// The format that stores are written in: a signature over the whole
    /// buffer, under a key of its own.
    Current,
}

impl FormatVersion {
    /// The tag at the front of a buffer of this version.
    pub open spec fn spec_tag(self) -> u32 {
        match self {
            FormatVersion::Legacy => LEGACY_VERSION,
            FormatVersion::Current => CURRENT_VERSION,
        }
    }

    /// Where the encrypted records start.
    pub open spec fn spec_body_start(self) -> nat {
        match self {
            FormatVersion::Legacy => 52,
            FormatVersion::Current => 116,
        }
    }

    /// How many bytes are derived from the master secret: the cipher's key
    /// and, in the current version, the signature's key after it.
    pub open spec fn spec_key_material_len(self) -> nat {
        match self {
            FormatVersion::Legacy => 32,
            FormatVersion::Current => 64,
        }
    }

    /// The tag at the front of a buffer of this version.
    pub fn tag(self) -> (tag: u32)
        ensures
            tag == self.spec_tag(),
    {
        match self {
            FormatVersion::Legacy => LEGACY_VERSION,
            FormatVersion::Current => CURRENT_VERSION,
        }
    }

    /// Where the encrypted records start.
    pub fn body_start(self) -> (start: usize)
        ensures
            start == self.spec_body_start(),
    {
        match self {
            FormatVersion::Legacy => PRELUDE_LEN,
            FormatVersion::Current => PRELUDE_LEN + SIGNATURE_LEN,
        }
    }

    fn key_material_len(self) -> (length: usize)
        ensures
            length == self.spec_key_material_len(),
    {
        match self {
            FormatVersion::Legacy => KEY_LEN,
            FormatVersion::Current => KEY_LEN + KEY_LEN,
        }
    }
}

/// How many bytes of padding follow `length` bytes: as many as fill the
/// last block, and a whole block where none is needed.
pub open spec fn padding_len(length: nat) -> nat {
    (16 - length % 16) as nat
}

/// The plaintext followed by its padding, each byte of which holds the
/// padding's length.
pub open spec fn padded(plain: Seq<u8>) -> Seq<u8> {
    plain + Seq::new(padding_len(plain.len()), |i: int| padding_len(plain.len()) as u8)
}

/// The plaintext of whole blocks that end in a padding, if they do: the
/// last byte is between 1 and 16, and as many bytes at the end hold it.
pub open spec fn unpadded(blocks: Seq<u8>) -> Option<Seq<u8>> {
    if blocks.len() == 0 || blocks.len() % 16 != 0 {
        None
    } else {
        let length = blocks.last() as int;
        if 1 <= length <= 16 && (forall|i: int|
            blocks.len() - length <= i < blocks.len() ==> #[trigger] blocks[i] == length) {
            Some(blocks.take(blocks.len() - length))
        } else {
            None
        }
    }
}

/// Taking the padding off a padded plaintext gives the plaintext.
pub proof fn lemma_unpadded_padded(plain: Seq<u8>)
    ensures
        padded(plain).len() % 16 == 0,
        padded(plain).len() > 0,
        unpadded(padded(plain)) == Some(plain),
{
    let blocks = padded(plain);
    let length = padding_len(plain.len());
    assert(1 <= length <= 16);
    assert(blocks.len() == plain.len() + length);
    assert(blocks.last() == length as u8);
    assert(blocks.take(blocks.len() - length) =~= plain);
}

/// Pads a plaintext to whole blocks. There is no result where the padded
/// length does not fit the machine.
pub fn pad(plain: &[u8]) -> (blocks: Option<Vec<u8>>)
    ensures
        match blocks {
            Some(b) => b@ == padded(plain@) && plain@.len() + 16 <= usize::MAX,
            None => plain@.len() + 16 > usize::MAX,
        },
{
    if plain.len() > usize::MAX - BLOCK_LEN {
        return None;
    }
    let length = BLOCK_LEN - plain.len() % BLOCK_LEN;
    let mut blocks = slice_to_vec(plain);
    let mut i: usize = 0;
    while i < length
        invariant
            i <= length,
            1 <= length <= 16,
            blocks@ == plain@ + Seq::new(i as nat, |k: int| length as u8),
        decreases length - i,
    {
        blocks.push(length as u8);
        assert(blocks@ =~= plain@ + Seq::new((i + 1) as nat, |k: int| length as u8));
        i += 1;
    }
    Some(blocks)
}

/// Takes the padding off whole blocks.
pub fn unpad(blocks: &[u8]) -> (plain: Option<Vec<u8>>)
    ensures
        match plain {
            Some(p) => unpadded(blocks@) == Some(p@),
            None => unpadded(blocks@) is None,
        },
{
    let n = blocks.len();
    if n == 0 || n % BLOCK_LEN != 0 {
        return None;
    }
    let last = blocks[n - 1];
    if last < 1 || last > 16 {
        return None;
    }
    let length = last as usize;
    let mut i: usize = n - length;
    while i < n
        invariant
            n - length <= i <= n,
            n == blocks@.len(),
            length == last,
            1 <= length <= 16,
            length <= n,
            n > 0,
            n % 16 == 0,
            blocks@.last() == last,
            forall|k: int| n - length <= k < i ==> #[trigger] blocks@[k] == last,
        decreases n - i,
    {
        if blocks[i] != last {
            return None;
        }
        i += 1;
    }
    let plain = slice_to_vec(slice_subrange(blocks, 0, n - length));
    assert(plain@ =~= blocks@.take(n - length));
    Some(plain)
}

/// The bytes derived from the master secret and the salt.
pub open spec fn key_material(version: FormatVersion, secret: Seq<u8>, salt: Seq<u8>) -> Seq<u8> {
    scrypt_derived(
        secret,
        salt,
        SCRYPT_LOG_N,
        SCRYPT_R,
        SCRYPT_P,
        version.spec_key_material_len(),
    )
}

/// What the signature of a buffer of the current version covers: the
/// buffer without the signature.
pub open spec fn signed_part(raw: Seq<u8>) -> Seq<u8> {
    raw.take(52) + raw.skip(116)
}

/// What decoding a buffer at a version gives.
///
/// A buffer too short for a tag, or for what its version puts before the
/// records, is corrupt; so is one whose encrypted part is empty or no whole
/// number of blocks, and one whose records do not parse. A tag other than
/// the version's is a wrong version, whatever follows it. In the current
/// version a signature that does not match is a decryption failure, and
/// whatever fails after it has matched is corruption. The previous version
/// has no signature: there the padding is the only check of the secret,
/// and its failure is a decryption failure.
#[verifier::opaque]
pub open spec fn decoded(version: FormatVersion, raw: Seq<u8>, secret: Seq<u8>) -> Result<
    Seq<CredentialView>,
    PasswordError,
> {
    if raw.len() < 4 {
        Err(PasswordError::CorruptionError)
    } else if u32_from_be(raw) != version.spec_tag() {
        Err(PasswordError::WrongVersionError)
    } else if raw.len() <= version.spec_body_start() || (raw.len()
        - version.spec_body_start()) % 16 != 0 {
        Err(PasswordError::CorruptionError)
    } else {
        let material = key_material(version, secret, raw.subrange(4, 36));
        if version == FormatVersion::Current && hmac_sha512(material.skip(32), signed_part(raw))
            != raw.subrange(52, 116) {
            Err(PasswordError::DecryptionError)
        } else {
            let opened = match cbc_decrypted(
                material.take(32),
                raw.subrange(36, 52),
                raw.skip(version.spec_body_start() as int),
            ) {
                Some(blocks) => unpadded(blocks),
                None => None,
            };
            match opened {
                None => Err(
                    if version == FormatVersion::Current {
                        PasswordError::CorruptionError
                    } else {
                        PasswordError::DecryptionError
                    },
                ),
                Some(plain) => match parse_list(plain) {
                    None => Err(PasswordError::CorruptionError),
                    Some(records) => Ok(records),
                },
            }
        }
    }
}

/// A result of decoding with the records taken by their views.
pub open spec fn records_view(result: Result<Vec<Credential>, PasswordError>) -> Result<
    Seq<CredentialView>,
    PasswordError,
> {
    match result {
        Ok(records) => Ok(views(records@)),
        Err(e) => Err(e),
    }
}

/// A buffer of a version, put together from its parts.
pub open spec fn framed(
    version: FormatVersion,
    salt: Seq<u8>,
    iv: Seq<u8>,
    material: Seq<u8>,
    sealed: Seq<u8>,
) -> Seq<u8> {
    let prelude = u32_be(version.spec_tag()) + salt + iv;
    if version == FormatVersion::Current {
        prelude + hmac_sha512(material.skip(32), prelude + sealed) + sealed
    } else {
        prelude + sealed
    }
}

/// What is asked of the encrypted records before they are framed: they are
/// as long as the blocks that were encrypted and decrypt to them, and the
/// signature over them has the size that the layout gives it.
pub open spec fn sealed_well(
    version: FormatVersion,
    salt: Seq<u8>,
    iv: Seq<u8>,
    material: Seq<u8>,
    blocks: Seq<u8>,
    sealed: Seq<u8>,
) -> bool {
    &&& sealed.len() == blocks.len()
    &&& cbc_decrypted(material.take(32), iv, sealed) == Some(blocks)
    &&& version == FormatVersion::Current ==> hmac_sha512(
        material.skip(32),
        u32_be(version.spec_tag()) + salt + iv + sealed,
    ).len() == 64
}

/// What encoding a list of records gives with a given salt and
/// initialisation vector. There is no buffer where the salt or the vector
/// has the wrong size, where the padded records do not fit the machine,
/// where the cipher refuses them, or where what it gives is not
/// [`sealed_well`].
#[verifier::opaque]
pub open spec fn encoded(
    version: FormatVersion,
    records: Seq<CredentialView>,
    secret: Seq<u8>,
    salt: Seq<u8>,
    iv: Seq<u8>,
) -> Option<Seq<u8>> {
    let blocks = padded(list_bytes(records));
    let material = key_material(version, secret, salt);
    if salt.len() != 32 || iv.len() != 16 || list_bytes(records).len() + 16 > usize::MAX {
        None
    } else {
        match cbc_encrypted(material.take(32), iv, blocks) {
            Some(sealed) => if sealed_well(version, salt, iv, material, blocks, sealed) {
                Some(framed(version, salt, iv, material, sealed))
            } else {
                None
            },
            None => None,
        }
    }
}

/// A buffer that encoding gives decodes, at the same version and with the
/// same secret, to the records that were encoded: the same names, user
/// names, secrets and timestamps, in the same order.
pub proof fn lemma_decode_encoded(
    version: FormatVersion,
    records: Seq<CredentialView>,
    secret: Seq<u8>,
    salt: Seq<u8>,
    iv: Seq<u8>,
)
    requires
        all_writable(records),
    ensures
        encoded(version, records, secret, salt, iv) matches Some(buffer) ==> decoded(
            version,
            buffer,
            secret,
        ) == Ok::<Seq<CredentialView>, PasswordError>(records),
{
    reveal(decoded);
    reveal(encoded);
    match encoded(version, records, secret, salt, iv) {
        Some(buffer) => {
            let plain = list_bytes(records);
            let material = key_material(version, secret, salt);
            let sealed = cbc_encrypted(material.take(32), iv, padded(plain))->0;
            let prelude = u32_be(version.spec_tag()) + salt + iv;
            let start = version.spec_body_start() as int;
            lemma_u32_round_trip(version.spec_tag());
            assert(prelude.len() == 52);
            assert(forall|i: int| 0 <= i < 4 ==> buffer[i] == u32_be(version.spec_tag())[i]);
            assert(u32_from_be(buffer) == version.spec_tag());
            assert(buffer.subrange(4, 36) =~= salt);
            assert(buffer.subrange(36, 52) =~= iv);
            assert(buffer.skip(start) =~= sealed);
            if version == FormatVersion::Current {
                assert(buffer.subrange(52, 116) =~= hmac_sha512(
                    material.skip(32),
                    prelude + sealed,
                ));
                assert(signed_part(buffer) =~= prelude + sealed);
            }
            lemma_unpadded_padded(plain);
            lemma_parse_list(records);
        },
        None => {},
    }
}

/// Decodes a buffer at a version, with the master secret.
pub fn decode(version: FormatVersion, raw: &[u8], master_secret: &SecretBuffer) -> (result: Result<
    Vec<Credential>,
    PasswordError,
>)
    ensures
        records_view(result) == decoded(version, raw@, master_secret@),
{
    reveal(decoded);
    if raw.len() < TAG_LEN {
        return Err(PasswordError::CorruptionError);
    }
    let tag = read_u32_be(raw);
    if tag != version.tag() {
        return Err(PasswordError::WrongVersionError);
    }
    let start = version.body_start();
    if raw.len() <= start || (raw.len() - start) % BLOCK_LEN != 0 {
        return Err(PasswordError::CorruptionError);
    }
    let salt = slice_subrange(raw, TAG_LEN, IV_START);
    let iv = slice_subrange(raw, IV_START, PRELUDE_LEN);
    let sealed = slice_subrange(raw, start, raw.len());
    let material = SecretBuffer::new(
        derive_key(
            master_secret.as_slice(),
            salt,
            SCRYPT_LOG_N,
            SCRYPT_R,
            SCRYPT_P,
            version.key_material_len(),
        ),
    );
    let key = slice_subrange(material.as_slice(), 0, KEY_LEN);
    proof {
        assert(sealed@ =~= raw@.skip(start as int));
        assert(key@ =~= material@.take(32));
    }
    match version {
        FormatVersion::Current => {
            let signing_key = slice_subrange(material.as_slice(), KEY_LEN, KEY_LEN + KEY_LEN);
            let mut covered = slice_to_vec(slice_subrange(raw, 0, PRELUDE_LEN));
            put(&mut covered, sealed);
            let expected = sign(signing_key, covered.as_slice());
            proof {
                assert(signing_key@ =~= material@.skip(32));
                assert(covered@ =~= signed_part(raw@));
            }
            if !same_bytes(expected.as_slice(), slice_subrange(raw, PRELUDE_LEN, start)) {
                return Err(PasswordError::DecryptionError);
            }
        },
        FormatVersion::Legacy => {},
    }
    let opened = match cbc_decrypt(key, iv, sealed) {
        None => None,
        Some(blocks) => {
            let blocks = SecretBuffer::new(blocks);
            unpad(blocks.as_slice())
        },
    };
    match opened {
        None => match version {
            FormatVersion::Current => Err(PasswordError::CorruptionError),
            FormatVersion::Legacy => Err(PasswordError::DecryptionError),
        },
        Some(plain) => {
            let plain = SecretBuffer::new(plain);
            match read_list(plain.as_slice()) {
                None => Err(PasswordError::CorruptionError),
                Some(records) => Ok(records),
            }
        },
    }
}

/// Encodes a list of records at a version with a given salt and
/// initialisation vector.
///
/// Before the buffer is handed out the encrypted records are decrypted
/// again and compared: a buffer that comes out of here decodes, with the
/// same secret, to the records that went in.
pub fn encode_with(
    version: FormatVersion,
    records: &Vec<Credential>,
    master_secret: &SecretBuffer,
    salt: &[u8],
    iv: &[u8],
) -> (result: Result<Vec<u8>, PasswordError>)
    ensures
        match encoded(version, views(records@), master_secret@, salt@, iv@) {
            Some(buffer) => result matches Ok(b) && b@ == buffer,
            None => result matches Err(e) && e == PasswordError::EncryptionError,
        },
        result matches Ok(b) ==> decoded(version, b@, master_secret@) == Ok::<
            Seq<CredentialView>,
            PasswordError,
        >(views(records@)),
{
    reveal(encoded);
    if salt.len() != SALT_LEN || iv.len() != BLOCK_LEN {
        return Err(PasswordError::EncryptionError);
    }
    let plain = write_list(records);
    let blocks = match pad(plain.as_slice()) {
        None => {
            return Err(PasswordError::EncryptionError);
        },
        Some(blocks) => SecretBuffer::new(blocks),
    };
    let material = SecretBuffer::new(
        derive_key(
            master_secret.as_slice(),
            salt,
            SCRYPT_LOG_N,
            SCRYPT_R,
            SCRYPT_P,
            version.key_material_len(),
        ),
    );
    let key = slice_subrange(material.as_slice(), 0, KEY_LEN);
    assert(key@ =~= material@.take(32));
    let sealed = match cbc_encrypt(key, iv, blocks.as_slice()) {
        None => {
            return Err(PasswordError::EncryptionError);
        },
        Some(sealed) => sealed,
    };
    if sealed.len() != blocks.len() {
        return Err(PasswordError::EncryptionError);
    }
    let back = match cbc_decrypt(key, iv, sealed.as_slice()) {
        None => {
            return Err(PasswordError::EncryptionError);
        },
        Some(back) => SecretBuffer::new(back),
    };
    if !back.same_content(&blocks) {
        return Err(PasswordError::EncryptionError);
    }
    let mut out = write_u32_be(version.tag());
    put(&mut out, salt);
    put(&mut out, iv);
    let ghost prelude = out@;
    let ghost mut signature_bytes = Seq::<u8>::empty();
    match version {
        FormatVersion::Current => {
            let signing_key = slice_subrange(material.as_slice(), KEY_LEN, KEY_LEN + KEY_LEN);
            assert(signing_key@ =~= material@.skip(32));
            let mut covered = slice_to_vec(out.as_slice());
            put(&mut covered, sealed.as_slice());
            let signature = sign(signing_key, covered.as_slice());
            proof {
                signature_bytes = signature@;
            }
            put(&mut out, signature.as_slice());
        },
        FormatVersion::Legacy => {},
    }
    put(&mut out, sealed.as_slice());
    proof {
        assert(out@ =~= prelude + signature_bytes + sealed@);
        assert(encoded(version, views(records@), master_secret@, salt@, iv@) == Some(out@));
        lemma_decode_encoded(version, views(records@), master_secret@, salt@, iv@);
    }
    Ok(out)
}

/// Encodes a list of records at a version, with a salt and an
/// initialisation vector drawn from the operating system's generator.
///
/// The buffer that comes out decodes, with the same secret, to the records
/// that went in: the same names, user names, secrets and timestamps in the
/// same order. Encoding fails with `Io` where the generator cannot be
/// opened, and with `EncryptionError` only where [`encoded`] gives no
/// buffer for the salt and the vector that were drawn.
pub fn encode(version: FormatVersion, records: &Vec<Credential>, master_secret: &SecretBuffer)
    -> (result: Result<Vec<u8>, PasswordError>)
    ensures
        match result {
            Ok(buffer) => decoded(version, buffer@, master_secret@) == Ok::<
                Seq<CredentialView>,
                PasswordError,
            >(views(records@)) && exists|salt: Seq<u8>, iv: Seq<u8>| #[trigger]
                encoded(version, views(records@), master_secret@, salt, iv) == Some(buffer@),
            Err(e) => e is Io || (e == PasswordError::EncryptionError && exists|
                salt: Seq<u8>,
                iv: Seq<u8>,
            |
                salt.len() == 32 && iv.len() == 16 && (#[trigger] encoded(
                    version,
                    views(records@),
                    master_secret@,
                    salt,
                    iv,
                )) is None),
        },
{
    let salt = match random_bytes(SALT_LEN) {
        Err(err) => {
            return Err(PasswordError::Io(err));
        },
        Ok(salt) => salt,
    };
    let iv = match random_bytes(BLOCK_LEN) {
        Err(err) => {
            return Err(PasswordError::Io(err));
        },
        Ok(iv) => iv,
    };
    encode_with(version, records, master_secret, salt.as_slice(), iv.as_slice())
}

} // verus!

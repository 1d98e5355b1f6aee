//! Owned buffers for secret material that are overwritten before their
//! memory is handed back.
//!
//! The overwrite is a mitigation, not a guarantee: copies that the runtime
//! made on its own (a reallocation, a spilled register) are out of reach.

use vstd::prelude::*;
use vstd::slice::slice_to_vec;
use vstd::string::StringSliceAdditionalSpecFns;
use crypto::util::secure_memset;

verus! {

/// The byte written over secret material when a buffer is released.
pub const WIPE_PATTERN: u8 = 0;

/// What a buffer of `len` bytes holds once it has been wiped.
pub open spec fn wiped(len: nat) -> Seq<u8> {
    Seq::new(len, |i: int| WIPE_PATTERN)
}

/// A byte buffer that owns secret material: a master secret, a decrypted
/// plaintext, or the raw content of the store file.
///
/// The view of a buffer is the byte sequence it holds.
pub struct SecretBuffer {
    bytes: Vec<u8>,
}

impl View for SecretBuffer {
    type V = Seq<u8>;

    closed spec fn view(&self) -> Seq<u8> {
        self.bytes@
    }
}

/// `crypto::util::secure_memset`: every byte of the buffer is set to
/// `value`, behind a barrier that keeps the compiler from leaving the
/// writes out, and the length stays as it was. It neither unwinds nor
/// allocates, so that it can run while a buffer is being dropped.
#[verifier::external_body]
fn overwrite(bytes: &mut Vec<u8>, value: u8)
    ensures
        final(bytes)@ == Seq::new(old(bytes)@.len(), |i: int| value),
    opens_invariants none
    no_unwind
{
    secure_memset(bytes.as_mut_slice(), value)
}

impl SecretBuffer {
    /// Takes ownership of `bytes`.
    pub fn new(bytes: Vec<u8>) -> (buffer: Self)
        ensures
            buffer@ == bytes@,
    {
        SecretBuffer { bytes }
    }

    /// A buffer holding the UTF-8 encoding of `text`.
    pub fn from_text(text: &str) -> (buffer: Self)
        ensures
            buffer@ == text.spec_bytes(),
    {
        SecretBuffer { bytes: slice_to_vec(text.as_bytes()) }
    }

    /// A read-only view of the content, valid for as long as the buffer is
    /// borrowed.
    pub fn as_slice(&self) -> (bytes: &[u8])
        ensures
            bytes@ == self@,
    {
        self.bytes.as_slice()
    }

    /// The number of bytes held.
    pub fn len(&self) -> (n: usize)
        ensures
            n == self@.len(),
    {
        self.bytes.len()
    }

    /// Whether no byte is held.
    pub fn is_empty(&self) -> (b: bool)
        ensures
            b == (self@.len() == 0),
    {
        self.bytes.len() == 0
    }

    /// An independent buffer with the same content, wiped on its own release.
    pub fn duplicate(&self) -> (copy: Self)
        ensures
            copy@ == self@,
    {
        SecretBuffer { bytes: slice_to_vec(self.bytes.as_slice()) }
    }

    /// Whether two buffers hold the same bytes.
    pub fn same_content(&self, other: &SecretBuffer) -> (same: bool)
        ensures
            same == (self@ == other@),
    {
        if self.bytes.len() != other.bytes.len() {
            return false;
        }
        let n = self.bytes.len();
        let mut i: usize = 0;
        while i < n
            invariant
                i <= n,
                n == self.bytes@.len(),
                n == other.bytes@.len(),
                forall|j: int| 0 <= j < i ==> self.bytes@[j] == other.bytes@[j],
            decreases n - i,
        {
            if self.bytes[i] != other.bytes[i] {
                return false;
            }
            i += 1;
        }
        assert(self.bytes@ =~= other.bytes@);
        true
    }

    /// Overwrites the content with [`WIPE_PATTERN`], keeping the length.
    pub fn wipe(&mut self)
        ensures
            final(self)@ == wiped(old(self)@.len()),
        opens_invariants none
        no_unwind
    {
        overwrite(&mut self.bytes, WIPE_PATTERN);
    }

    /// Puts `bytes` in place of the content, which is wiped before its memory
    /// is released.
    pub fn replace(&mut self, bytes: Vec<u8>)
        ensures
            final(self)@ == bytes@,
    {
        overwrite(&mut self.bytes, WIPE_PATTERN);
        self.bytes = bytes;
    }
}

impl Clone for SecretBuffer {
    fn clone(&self) -> (copy: Self)
        ensures
            copy@ == self@,
    {
        self.duplicate()
    }
}

impl Drop for SecretBuffer {
    /// Wipes the content at the end of the buffer's life.
    fn drop(&mut self)
        ensures
            final(self)@ == wiped(old(self)@.len()),
        opens_invariants none
        no_unwind
    {
        overwrite(&mut self.bytes, WIPE_PATTERN);
    }
}

} // verus!

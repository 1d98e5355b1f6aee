//! The previous version of the format, which is only ever read.

use vstd::prelude::*;
use crate::password::PasswordError;
use crate::password::codec::{decode, decoded, records_view, FormatVersion};
use crate::password::credential::Credential;
use crate::secret::SecretBuffer;

verus! {

/// The records of a buffer of the previous version, in their order.
pub fn get_all_passwords(master_password: &SecretBuffer, input: &[u8]) -> (result: Result<
    Vec<Credential>,
    PasswordError,
>)
    ensures
        records_view(result) == decoded(FormatVersion::Legacy, input@, master_password@),
{
    decode(FormatVersion::Legacy, input, master_password)
}

} // verus!

//! Credential records, the failures of the store, and the store's encodings.

use vstd::prelude::*;
use vstd::string::StrSliceExecFns;
use crate::password::codec::{decoded, FormatVersion, CURRENT_VERSION};
use crate::password::credential::{views, Credential, CredentialView};
use crate::password::v2::{distinct_keys, holds_key, PasswordStore, StoreView};
use crate::secret::SecretBuffer;
use crate::text::same_text;

pub mod codec;
pub mod credential;
pub mod engine;
pub mod v1;
pub mod v2;
pub mod wire;

verus! {

/// `std::io::Error`, carried through unread.
#[verifier::external_type_specification]
#[verifier::external_body]
pub struct ExIoError(std::io::Error);

/// What can go wrong while a store is read, changed or written.
#[derive(Debug)]
pub enum PasswordError {
    /// The check tied to the master secret failed: most likely a wrong secret.
    DecryptionError,
    /// The records could not be sealed into a buffer.
    EncryptionError,
    /// No record has that name.
    NoSuchAppError,
    /// A record with that name is already there.
    AppExistsError,
    /// Storage could not be read or written.
    Io(std::io::Error),
    /// The buffer's version tag is not the one that was asked for.
    WrongVersionError,
    /// Records could not be written as JSON, or read from it.
    InvalidJsonError,
    /// The buffer has the right version and passes the secret's check, or is
    /// too short to be checked, and its structure is invalid. Entering the
    /// secret again cannot mend it.
    CorruptionError,
    /// The user refused the upgrade to the current format.
    MigrationDeclined,
}

impl From<std::io::Error> for PasswordError {
    fn from(err: std::io::Error) -> (error: PasswordError) {
        PasswordError::Io(err)
    }
}

impl vstd::std_specs::convert::FromSpecImpl<std::io::Error> for PasswordError {
    open spec fn obeys_from_spec() -> bool {
        true
    }

    open spec fn from_spec(err: std::io::Error) -> PasswordError {
        PasswordError::Io(err)
    }
}

/// Adds every record of a list to a store, in the list's order and with the
/// timestamps the records have, or adds none: if a name of the list is in
/// the store already, or stands twice in the list, without regard to case,
/// the store stays as it was and the result is `AppExistsError`.
pub fn upgrade_v1_v2(v1_passwords: &Vec<Credential>, v2_store: &mut PasswordStore) -> (result:
    Result<(), PasswordError>)
    ensures
        final(v2_store)@.master == old(v2_store)@.master,
        final(v2_store)@.format_version == old(v2_store)@.format_version,
        distinct_keys(old(v2_store)@.records),
        if distinct_keys(old(v2_store)@.records + views(v1_passwords@)) {
            result is Ok && final(v2_store)@.records == old(v2_store)@.records + views(
                v1_passwords@,
            )
        } else {
            result matches Err(e) && e == PasswordError::AppExistsError && final(v2_store)@
                == old(v2_store)@
        },
{
    let ghost before = v2_store@.records;
    let ghost added = views(v1_passwords@);
    let ghost joined = before + added;
    let held = v2_store.len();
    let mut i: usize = 0;
    while i < v1_passwords.len()
        invariant
            i <= v1_passwords@.len(),
            added == views(v1_passwords@),
            joined == before + added,
            before == old(v2_store)@.records,
            *v2_store == *old(v2_store),
            distinct_keys(before),
            forall|a: int| 0 <= a < i ==> !holds_key(before, (#[trigger] added[a]).key()),
            forall|a: int, b: int|
                0 <= a < b < i ==> (#[trigger] added[a]).key() != (#[trigger] added[b]).key(),
        decreases v1_passwords@.len() - i,
    {
        let key = v1_passwords[i].key();
        match v2_store.position_of_key(key) {
            Some(at) => {
                proof {
                    assert(joined[at as int] == before[at as int]);
                    assert(joined[before.len() + i] == added[i as int]);
                    assert(joined[at as int].key() == joined[before.len() + i].key());
                }
                return Err(PasswordError::AppExistsError);
            },
            None => {},
        }
        let mut j: usize = 0;
        while j < i
            invariant
                j <= i,
                i < v1_passwords@.len(),
                added == views(v1_passwords@),
                joined == before + added,
                before == old(v2_store)@.records,
                *v2_store == *old(v2_store),
                distinct_keys(before),
                key@ == added[i as int].key(),
                forall|a: int| 0 <= a < j ==> (#[trigger] added[a]).key() != key@,
            decreases i - j,
        {
            if same_text(v1_passwords[j].key(), key) {
                proof {
                    assert(joined[before.len() + j] == added[j as int]);
                    assert(joined[before.len() + i] == added[i as int]);
                    assert(joined[before.len() + j].key() == joined[before.len() + i].key());
                }
                return Err(PasswordError::AppExistsError);
            }
            j += 1;
        }
        i += 1;
    }
    proof {
        assert forall|a: int, b: int| 0 <= a < b < joined.len() implies (#[trigger] joined[a]).key()
            != (#[trigger] joined[b]).key() by {
            if b < before.len() {
                assert(joined[a] == before[a] && joined[b] == before[b]);
            } else if a < before.len() {
                assert(joined[a] == before[a]);
                assert(joined[b] == added[b - before.len()]);
                assert(!holds_key(before, added[b - before.len()].key()));
            } else {
                assert(joined[a] == added[a - before.len()]);
                assert(joined[b] == added[b - before.len()]);
            }
        }
    }
    let mut k: usize = 0;
    assert(before + added.take(0) =~= before);
    while k < v1_passwords.len()
        invariant
            k <= v1_passwords@.len(),
            added == views(v1_passwords@),
            joined == before + added,
            distinct_keys(joined),
            v2_store@.records == before + added.take(k as int),
            v2_store@.master == old(v2_store)@.master,
            v2_store@.format_version == old(v2_store)@.format_version,
        decreases v1_passwords@.len() - k,
    {
        let ghost so_far = v2_store@.records;
        let record = v1_passwords[k].duplicate();
        proof {
            assert(joined[before.len() + k] == added[k as int]);
            assert forall|a: int| 0 <= a < so_far.len() implies (#[trigger] so_far[a]).key()
                != record@.key() by {
                assert(so_far[a] == joined[a]);
            }
        }
        match v2_store.add(record) {
            Ok(()) => {},
            Err(e) => {
                assert(false);
                return Err(e);
            },
        }
        assert(added.take(k as int + 1) =~= added.take(k as int).push(added[k as int]));
        assert(v2_store@.records =~= before + added.take(k as int + 1));
        k += 1;
    }
    assert(added.take(k as int) =~= added);
    Ok(())
}

/// What the user answered when asked whether to upgrade.
#[derive(Clone, Copy, Debug, PartialEq, Eq, Structural)]
pub enum Consent {
    Yes,
    No,
    /// Neither: the question is asked again.
    Unclear,
}

/// What a line of input answers: yes if it starts with `y`, no if it starts
/// with `n`, in either case of the letter.
pub open spec fn consent_of(line: Seq<char>) -> Consent {
    if line.len() > 0 && (line[0] == 'y' || line[0] == 'Y') {
        Consent::Yes
    } else if line.len() > 0 && (line[0] == 'n' || line[0] == 'N') {
        Consent::No
    } else {
        Consent::Unclear
    }
}

/// Reads the answer off a line of input.
pub fn read_consent(line: &str) -> (consent: Consent)
    ensures
        consent == consent_of(line@),
{
    if line.is_empty() {
        return Consent::Unclear;
    }
    let first = line.get_char(0);
    if first == 'y' || first == 'Y' {
        Consent::Yes
    } else if first == 'n' || first == 'N' {
        Consent::No
    } else {
        Consent::Unclear
    }
}

/// A migration that waits for the user's consent, as a mathematical value.
pub struct MigrationView {
    pub master: Seq<u8>,
    pub legacy: Seq<CredentialView>,
}

/// A migration that waits for the user's consent: the records of a buffer
/// of the previous version, decoded, and the master secret that opened it.
pub struct Migration {
    master: SecretBuffer,
    legacy: Vec<Credential>,
}

impl View for Migration {
    type V = MigrationView;

    closed spec fn view(&self) -> MigrationView {
        MigrationView { master: self.master@, legacy: views(self.legacy@) }
    }
}

/// What a migration that has consent gives: a store at the current version
/// that holds the legacy records as they were, or `AppExistsError` if two
/// of them have the same key.
pub open spec fn migrated(migration: MigrationView) -> Result<StoreView, PasswordError> {
    if distinct_keys(migration.legacy) {
        Ok(
            StoreView {
                master: migration.master,
                records: migration.legacy,
                format_version: CURRENT_VERSION,
            },
        )
    } else {
        Err(PasswordError::AppExistsError)
    }
}

/// Where a migration stands after an answer.
pub enum MigrationStep {
    /// The answer was neither yes nor no: the question is asked again.
    AskAgain(Migration),
    /// The migration is over, with a store or without.
    Finished(Result<PasswordStore, PasswordError>),
}

/// Starts the migration of a buffer of the previous version: decodes it
/// with the master secret. A failure here is final. On success the records
/// wait for the user's consent, which [`Migration::answer`] takes.
pub fn upgrade(master_password: SecretBuffer, input: &[u8]) -> (result: Result<
    Migration,
    PasswordError,
>)
    ensures
        match decoded(FormatVersion::Legacy, input@, master_password@) {
            Ok(records) => result matches Ok(migration) && migration@ == (MigrationView {
                master: master_password@,
                legacy: records,
            }),
            Err(e) => result matches Err(error) && error == e,
        },
{
    match v1::get_all_passwords(&master_password, input) {
        Ok(legacy) => Ok(Migration { master: master_password, legacy }),
        Err(e) => Err(e),
    }
}

impl Migration {
    /// The number of records that wait to be migrated.
    pub fn len(&self) -> (n: usize)
        ensures
            n == self@.legacy.len(),
    {
        self.legacy.len()
    }

    /// Ends the migration because the user's answer could not be read.
    pub fn unreadable(self, error: std::io::Error) -> (failure: PasswordError)
        ensures
            failure == PasswordError::Io(error),
    {
        PasswordError::Io(error)
    }

    /// Takes the user's answer to the question whether to upgrade.
    ///
    /// An answer that is neither yes nor no leaves the migration waiting. A
    /// no ends it with `MigrationDeclined`. A yes builds a store at the
    /// current version, bound to the same master secret, and adds every
    /// legacy record with the timestamps it has; a name that stands twice
    /// ends the migration with `AppExistsError`. No store with a part of
    /// the records is ever handed out.
    pub fn answer(self, line: &str) -> (step: MigrationStep)
        ensures
            match consent_of(line@) {
                Consent::Unclear => step matches MigrationStep::AskAgain(waiting) && waiting
                    == self,
                Consent::No => step matches MigrationStep::Finished(Err(e)) && e
                    == PasswordError::MigrationDeclined,
                Consent::Yes => step matches MigrationStep::Finished(result)
                    && crate::password::v2::store_view(result) == migrated(self@),
            },
    {
        match read_consent(line) {
            Consent::Unclear => MigrationStep::AskAgain(self),
            Consent::No => MigrationStep::Finished(Err(PasswordError::MigrationDeclined)),
            Consent::Yes => {
                let Migration { master, legacy } = self;
                let mut store = PasswordStore::create(master);
                assert(Seq::<CredentialView>::empty() + views(legacy@) =~= views(legacy@));
                match upgrade_v1_v2(&legacy, &mut store) {
                    Ok(()) => MigrationStep::Finished(Ok(store)),
                    Err(e) => MigrationStep::Finished(Err(e)),
                }
            },
        }
    }
}

} // verus!

//! The store in memory: an ordered collection of credentials under one
//! master secret, in which no two names are equal without regard to case.

use vstd::prelude::*;
use crate::password::{upgrade_v1_v2, PasswordError};
use crate::password::codec::{
    decode,
    decoded,
    encode,
    encoded,
    lemma_decode_encoded,
    FormatVersion,
    CURRENT_VERSION,
};
use crate::password::credential::{
    fold_case,
    lowercase_of,
    views,
    views_of,
    Credential,
    CredentialView,
};
use crate::password::wire::all_writable;
use crate::secret::SecretBuffer;
use crate::text::same_text;

verus! {

/// A store as a mathematical value.
pub struct StoreView {
    pub master: Seq<u8>,
    pub records: Seq<CredentialView>,
    pub format_version: u32,
}

/// No two records have the same key.
pub open spec fn distinct_keys(records: Seq<CredentialView>) -> bool {
    forall|i: int, j: int|
        0 <= i < j < records.len() ==> (#[trigger] records[i]).key() != (#[trigger] records[j]).key()
}

/// Some record has the key `key`.
pub open spec fn holds_key(records: Seq<CredentialView>, key: Seq<char>) -> bool {
    exists|i: int| 0 <= i < records.len() && (#[trigger] records[i]).key() == key
}

/// The query's characters occur in the text in the query's order, not
/// necessarily side by side. A text that contains the query as a substring
/// matches, and every text matches the empty query.
pub open spec fn fuzzy_match(query: Seq<char>, text: Seq<char>) -> bool
    decreases text.len(),
{
    if query.len() == 0 {
        true
    } else if text.len() == 0 {
        false
    } else if query[0] == text[0] {
        fuzzy_match(query.drop_first(), text.drop_first())
    } else {
        fuzzy_match(query, text.drop_first())
    }
}

/// The records whose key matches the lowercase query `query`, in the order
/// in which the store holds them.
pub open spec fn matching(records: Seq<CredentialView>, query: Seq<char>) -> Seq<CredentialView>
    decreases records.len(),
{
    if records.len() == 0 {
        Seq::empty()
    } else {
        let before = matching(records.drop_last(), query);
        if fuzzy_match(query, records.last().key()) {
            before.push(records.last())
        } else {
            before
        }
    }
}

/// What opening a buffer with a master secret gives: the records that the
/// buffer decodes to at the current version, bound to that secret. Records
/// of which two have the same key make the buffer corrupt.
pub open spec fn opened(master: Seq<u8>, raw: Seq<u8>) -> Result<StoreView, PasswordError> {
    match decoded(FormatVersion::Current, raw, master) {
        Ok(records) => if distinct_keys(records) {
            Ok(StoreView { master, records, format_version: CURRENT_VERSION })
        } else {
            Err(PasswordError::CorruptionError)
        },
        Err(e) => Err(e),
    }
}

/// A store that was written opens, with its master secret, to the same
/// store: the same records with the same timestamps, at the same version.
pub proof fn lemma_open_persisted(store: StoreView, salt: Seq<u8>, iv: Seq<u8>)
    requires
        all_writable(store.records),
        distinct_keys(store.records),
        store.format_version == CURRENT_VERSION,
    ensures
        encoded(FormatVersion::Current, store.records, store.master, salt, iv) matches Some(
            buffer,
        ) ==> opened(store.master, buffer) == Ok::<StoreView, PasswordError>(store),
{
    lemma_decode_encoded(FormatVersion::Current, store.records, store.master, salt, iv);
}

/// A result that holds a store, with the store taken by its view.
pub open spec fn store_view(result: Result<PasswordStore, PasswordError>) -> Result<
    StoreView,
    PasswordError,
> {
    match result {
        Ok(store) => Ok(store@),
        Err(e) => Err(e),
    }
}

/// Decides [`fuzzy_match`] by one pass over the text.
pub fn is_fuzzy_match(query: &Vec<char>, text: &Vec<char>) -> (found: bool)
    ensures
        found == fuzzy_match(query@, text@),
{
    let mut q: usize = 0;
    let mut t: usize = 0;
    assert(query@.skip(0) =~= query@);
    assert(text@.skip(0) =~= text@);
    while q < query.len() && t < text.len()
        invariant
            q <= query@.len(),
            t <= text@.len(),
            fuzzy_match(query@, text@) == fuzzy_match(query@.skip(q as int), text@.skip(t as int)),
        decreases text@.len() - t,
    {
        assert(query@.skip(q as int).drop_first() =~= query@.skip(q as int + 1));
        assert(text@.skip(t as int).drop_first() =~= text@.skip(t as int + 1));
        if query[q] == text[t] {
            q += 1;
        }
        t += 1;
    }
    q == query.len()
}

/// The credentials of one user, bound to the master secret that seals them.
pub struct PasswordStore {
    master: SecretBuffer,
    records: Vec<Credential>,
}

impl View for PasswordStore {
    type V = StoreView;

    closed spec fn view(&self) -> StoreView {
        StoreView {
            master: self.master@,
            records: views(self.records@),
            format_version: CURRENT_VERSION,
        }
    }
}

impl PasswordStore {
    #[verifier::type_invariant]
    closed spec fn well_formed(self) -> bool {
        distinct_keys(views(self.records@))
    }

    /// An empty store at the current version.
    pub fn create(master_secret: SecretBuffer) -> (store: PasswordStore)
        ensures
            store@.master == master_secret@,
            store@.records == Seq::<CredentialView>::empty(),
            store@.format_version == CURRENT_VERSION,
    {
        let store = PasswordStore { master: master_secret, records: Vec::new() };
        assert(views(store.records@) =~= Seq::<CredentialView>::empty());
        store
    }

    /// Opens the store that a buffer of the current version holds.
    pub fn open(master_secret: SecretBuffer, raw: &[u8]) -> (result: Result<
        PasswordStore,
        PasswordError,
    >)
        ensures
            store_view(result) == opened(master_secret@, raw@),
    {
        match decode(FormatVersion::Current, raw, &master_secret) {
            Err(e) => Err(e),
            Ok(records) => {
                let mut store = PasswordStore::create(master_secret);
                assert(Seq::<CredentialView>::empty() + views(records@) =~= views(records@));
                match upgrade_v1_v2(&records, &mut store) {
                    Ok(()) => Ok(store),
                    Err(_) => Err(PasswordError::CorruptionError),
                }
            },
        }
    }

    /// Writes the whole store over `destination`, at the current version.
    ///
    /// The buffer is encoded in full before `destination` is touched: it
    /// holds the old content or the new, never a mixture. What was written
    /// opens, with the same secret, to the store as it is: the same records,
    /// timestamps and version. On failure `destination` is as it was; the
    /// failure is `Io` where no salt could be drawn, and `EncryptionError`
    /// only where the salt and the vector that were drawn give no buffer.
    pub fn persist(&self, destination: &mut SecretBuffer) -> (result: Result<(), PasswordError>)
        ensures
            match result {
                Ok(()) => opened(self@.master, final(destination)@) == Ok::<
                    StoreView,
                    PasswordError,
                >(self@) && exists|salt: Seq<u8>, iv: Seq<u8>| #[trigger]
                    encoded(FormatVersion::Current, self@.records, self@.master, salt, iv) == Some(
                        final(destination)@,
                    ),
                Err(e) => final(destination)@ == old(destination)@ && (e is Io || (e
                    == PasswordError::EncryptionError && exists|salt: Seq<u8>, iv: Seq<u8>|
                    salt.len() == 32 && iv.len() == 16 && (#[trigger] encoded(
                        FormatVersion::Current,
                        self@.records,
                        self@.master,
                        salt,
                        iv,
                    )) is None)),
            },
    {
        proof {
            use_type_invariant(self);
        }
        match encode(FormatVersion::Current, &self.records, &self.master) {
            Ok(buffer) => {
                destination.replace(buffer);
                proof {
                    let (salt, iv) = choose|salt: Seq<u8>, iv: Seq<u8>| #[trigger]
                        encoded(
                            FormatVersion::Current,
                            views(self.records@),
                            self.master@,
                            salt,
                            iv,
                        ) == Some(buffer@);
                    assert(encoded(
                        FormatVersion::Current,
                        self@.records,
                        self@.master,
                        salt,
                        iv,
                    ) == Some(destination@));
                }
                Ok(())
            },
            Err(e) => Err(e),
        }
    }

    /// Moves the store out of `self`, leaving an empty one behind.
    fn take(&mut self) -> (held: PasswordStore)
        ensures
            held == *old(self),
    {
        let mut held = PasswordStore { master: SecretBuffer::new(Vec::new()), records: Vec::new() };
        core::mem::swap(self, &mut held);
        held
    }

    /// The version of the format that the store is written in.
    pub fn format_version(&self) -> (version: u32)
        ensures
            version == self@.format_version,
            version == CURRENT_VERSION,
    {
        CURRENT_VERSION
    }

    /// The master secret that the store is bound to.
    pub fn master_secret(&self) -> (master: &SecretBuffer)
        ensures
            master@ == self@.master,
    {
        &self.master
    }

    /// The number of records.
    pub fn len(&self) -> (n: usize)
        ensures
            n == self@.records.len(),
            distinct_keys(self@.records),
    {
        proof {
            use_type_invariant(self);
        }
        self.records.len()
    }

    /// The record at `index` in insertion order, if there is one.
    pub fn record(&self, index: usize) -> (record: Option<&Credential>)
        ensures
            record is Some <==> index < self@.records.len(),
            record matches Some(r) ==> r@ == self@.records[index as int],
    {
        if index < self.records.len() {
            Some(&self.records[index])
        } else {
            None
        }
    }

    /// Where the record with the lowercase name `key` stands.
    pub fn position_of_key(&self, key: &Vec<char>) -> (position: Option<usize>)
        ensures
            distinct_keys(self@.records),
            match position {
                Some(i) => i < self@.records.len() && self@.records[i as int].key() == key@,
                None => !holds_key(self@.records, key@),
            },
    {
        proof {
            use_type_invariant(self);
        }
        let mut i: usize = 0;
        while i < self.records.len()
            invariant
                i <= self.records@.len(),
                distinct_keys(views(self.records@)),
                forall|k: int| 0 <= k < i ==> (#[trigger] views(self.records@)[k]).key() != key@,
            decreases self.records@.len() - i,
        {
            if same_text(self.records[i].key(), key) {
                return Some(i);
            }
            i += 1;
        }
        None
    }

    /// Adds `record` at the end, as it is. Fails with `AppExistsError`, and
    /// changes nothing, if a record with the same name, without regard to
    /// case, is already there.
    pub fn add(&mut self, record: Credential) -> (result: Result<(), PasswordError>)
        ensures
            final(self)@.master == old(self)@.master,
            final(self)@.format_version == old(self)@.format_version,
            distinct_keys(old(self)@.records),
            distinct_keys(final(self)@.records),
            match result {
                Ok(()) => !holds_key(old(self)@.records, record@.key()) && final(self)@.records
                    == old(self)@.records.push(record@),
                Err(e) => e == PasswordError::AppExistsError && holds_key(
                    old(self)@.records,
                    record@.key(),
                ) && final(self)@.records == old(self)@.records,
            },
    {
        proof {
            use_type_invariant(&*self);
        }
        match self.position_of_key(record.key()) {
            Some(_) => Err(PasswordError::AppExistsError),
            None => {
                let ghost before = views(self.records@);
                let PasswordStore { master, mut records } = self.take();
                records.push(record);
                assert(views(records@) =~= before.push(record@));
                *self = PasswordStore { master, records };
                Ok(())
            },
        }
    }

    /// The record whose name is `name` without regard to case. Fails with
    /// `NoSuchAppError` if there is none.
    pub fn get(&self, name: &str) -> (result: Result<&Credential, PasswordError>)
        ensures
            distinct_keys(self@.records),
            match result {
                Ok(record) => exists|i: int|
                    0 <= i < self@.records.len() && #[trigger] self@.records[i] == record@
                        && record@.key() == lowercase_of(name@),
                Err(e) => e == PasswordError::NoSuchAppError && !holds_key(
                    self@.records,
                    lowercase_of(name@),
                ),
            },
    {
        let key = fold_case(name);
        match self.position_of_key(&key) {
            Some(i) => Ok(&self.records[i]),
            None => Err(PasswordError::NoSuchAppError),
        }
    }

    /// The records whose key matches the lowercase query `query`, in insertion
    /// order.
    pub fn search_by_key(&self, query: &Vec<char>) -> (found: Vec<&Credential>)
        ensures
            views_of(found@) == matching(self@.records, query@),
    {
        let mut found: Vec<&Credential> = Vec::new();
        let mut i: usize = 0;
        assert(views(self.records@).take(0) =~= Seq::<CredentialView>::empty());
        while i < self.records.len()
            invariant
                i <= self.records@.len(),
                views_of(found@) == matching(views(self.records@).take(i as int), query@),
            decreases self.records@.len() - i,
        {
            let ghost all = views(self.records@);
            let ghost so_far = views_of(found@);
            assert(all.take(i as int + 1).drop_last() =~= all.take(i as int));
            assert(all.take(i as int + 1).last() == self.records@[i as int]@);
            let record = &self.records[i];
            if is_fuzzy_match(query, record.key()) {
                found.push(record);
                assert(views_of(found@) =~= so_far.push(record@));
            }
            i += 1;
        }
        assert(views(self.records@).take(i as int) =~= views(self.records@));
        found
    }

    /// The records whose name matches `query` without regard to case, by
    /// [`fuzzy_match`], in insertion order. Nothing matching is no failure:
    /// the result is then empty.
    pub fn search(&self, query: &str) -> (found: Vec<&Credential>)
        ensures
            views_of(found@) == matching(
                self@.records,
                lowercase_of(query@),
            ),
    {
        let key = fold_case(query);
        self.search_by_key(&key)
    }

    /// Takes out the record whose name is `name` without regard to case, and
    /// hands it back. Fails with `NoSuchAppError`, and changes nothing, if
    /// there is none.
    pub fn remove(&mut self, name: &str) -> (result: Result<Credential, PasswordError>)
        ensures
            final(self)@.master == old(self)@.master,
            final(self)@.format_version == old(self)@.format_version,
            distinct_keys(old(self)@.records),
            distinct_keys(final(self)@.records),
            match result {
                Ok(record) => exists|i: int|
                    0 <= i < old(self)@.records.len() && #[trigger] old(self)@.records[i]
                        == record@ && record@.key() == lowercase_of(
                        name@,
                    ) && final(self)@.records == old(self)@.records.remove(i),
                Err(e) => e == PasswordError::NoSuchAppError && !holds_key(
                    old(self)@.records,
                    lowercase_of(name@),
                ) && final(self)@.records == old(self)@.records,
            },
    {
        proof {
            use_type_invariant(&*self);
        }
        let key = fold_case(name);
        match self.position_of_key(&key) {
            Some(i) => {
                let ghost before = views(self.records@);
                let PasswordStore { master, mut records } = self.take();
                let record = records.remove(i);
                assert(views(records@) =~= before.remove(i as int));
                *self = PasswordStore { master, records };
                Ok(record)
            },
            None => Err(PasswordError::NoSuchAppError),
        }
    }
}

} // verus!

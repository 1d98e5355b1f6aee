//! One named credential, and the key under which its name is looked up.

use vstd::prelude::*;
use vstd::string::StrSliceExecFns;
use crate::secret::SecretBuffer;

verus! {

/// The lowercase form that `str::to_lowercase` gives a text.
pub uninterp spec fn lowercase_of(text: Seq<char>) -> Seq<char>;

/// `str::to_lowercase` from the standard library. The result depends on
/// the text alone.
#[verifier::external_body]
fn to_lowercase(text: &str) -> (lower: String)
    ensures
        lower@ == lowercase_of(text@),
{
    text.to_lowercase()
}

/// The characters of a text, one by one.
pub fn characters(text: &str) -> (found: Vec<char>)
    ensures
        found@ == text@,
{
    let count = text.unicode_len();
    let mut found: Vec<char> = Vec::new();
    let mut i: usize = 0;
    while i < count
        invariant
            i <= count,
            count == text@.len(),
            found@ == text@.take(i as int),
        decreases count - i,
    {
        found.push(text.get_char(i));
        assert(text@.take(i as int + 1) =~= text@.take(i as int).push(text@[i as int]));
        i += 1;
    }
    assert(text@.take(count as int) =~= text@);
    found
}

/// The key under which a text is looked up: its lowercase form, character
/// by character.
pub fn fold_case(text: &str) -> (key: Vec<char>)
    ensures
        key@ == lowercase_of(text@),
{
    let lower = to_lowercase(text);
    characters(lower.as_str())
}

/// A credential as a mathematical value.
pub struct CredentialView {
    pub name: Seq<char>,
    pub username: Seq<char>,
    pub secret: Seq<u8>,
    pub created_at: i64,
    pub updated_at: i64,
}

impl CredentialView {
    /// The key under which the record is found: its name without regard to
    /// case.
    pub open spec fn key(self) -> Seq<char> {
        lowercase_of(self.name)
    }
}

/// A named credential. Its name is never empty and is stored as it was
/// given; lookups go by the name's lowercase form, which the record keeps
/// beside it.
pub struct Credential {
    name: String,
    key: Vec<char>,
    username: String,
    secret: SecretBuffer,
    created_at: i64,
    updated_at: i64,
}

impl View for Credential {
    type V = CredentialView;

    closed spec fn view(&self) -> CredentialView {
        CredentialView {
            name: self.name@,
            username: self.username@,
            secret: self.secret@,
            created_at: self.created_at,
            updated_at: self.updated_at,
        }
    }
}

impl Credential {
    #[verifier::type_invariant]
    closed spec fn well_formed(self) -> bool {
        &&& self.name@.len() > 0
        &&& self.key@ == lowercase_of(self.name@)
    }

    /// A record created at the time `now`, given in seconds since the epoch.
    /// There is none for an empty name.
    pub fn new(name: String, username: String, secret: SecretBuffer, now: i64) -> (record: Option<
        Credential,
    >)
        ensures
            record is Some <==> name@.len() > 0,
            record matches Some(r) ==> r@ == (CredentialView {
                name: name@,
                username: username@,
                secret: secret@,
                created_at: now,
                updated_at: now,
            }),
    {
        Credential::restore(name, username, secret, now, now)
    }

    /// A record with the timestamps it had before. There is none for an empty
    /// name.
    pub fn restore(
        name: String,
        username: String,
        secret: SecretBuffer,
        created_at: i64,
        updated_at: i64,
    ) -> (record: Option<Credential>)
        ensures
            record is Some <==> name@.len() > 0,
            record matches Some(r) ==> r@ == (CredentialView {
                name: name@,
                username: username@,
                secret: secret@,
                created_at,
                updated_at,
            }),
    {
        if name.as_str().is_empty() {
            None
        } else {
            let key = fold_case(name.as_str());
            Some(Credential { name, key, username, secret, created_at, updated_at })
        }
    }

    /// The name, as it was given.
    pub fn name(&self) -> (name: &str)
        ensures
            name@ == self@.name,
            name@.len() > 0,
    {
        proof {
            use_type_invariant(self);
        }
        self.name.as_str()
    }

    /// The lowercase form of the name.
    pub fn key(&self) -> (key: &Vec<char>)
        ensures
            key@ == self@.key(),
    {
        proof {
            use_type_invariant(self);
        }
        &self.key
    }

    /// The user name that goes with the secret.
    pub fn username(&self) -> (username: &str)
        ensures
            username@ == self@.username,
    {
        self.username.as_str()
    }

    /// The secret itself.
    pub fn secret(&self) -> (secret: &SecretBuffer)
        ensures
            secret@ == self@.secret,
    {
        &self.secret
    }

    /// When the record was created, in seconds since the epoch.
    pub fn created_at(&self) -> (seconds: i64)
        ensures
            seconds == self@.created_at,
    {
        self.created_at
    }

    /// When the record was last changed, in seconds since the epoch.
    pub fn updated_at(&self) -> (seconds: i64)
        ensures
            seconds == self@.updated_at,
    {
        self.updated_at
    }

    /// An independent copy: the same fields, the secret in a buffer of its
    /// own.
    pub fn duplicate(&self) -> (copy: Credential)
        ensures
            copy@ == self@,
    {
        proof {
            use_type_invariant(self);
        }
        let mut key: Vec<char> = Vec::new();
        let mut i: usize = 0;
        while i < self.key.len()
            invariant
                i <= self.key@.len(),
                key@ == self.key@.take(i as int),
            decreases self.key@.len() - i,
        {
            key.push(self.key[i]);
            assert(self.key@.take(i as int + 1) =~= self.key@.take(i as int).push(
                self.key@[i as int],
            ));
            i += 1;
        }
        assert(self.key@.take(i as int) =~= self.key@);
        Credential {
            name: self.name.clone(),
            key,
            username: self.username.clone(),
            secret: self.secret.duplicate(),
            created_at: self.created_at,
            updated_at: self.updated_at,
        }
    }
}

/// The views of a sequence of records, in order.
pub open spec fn views(records: Seq<Credential>) -> Seq<CredentialView> {
    Seq::new(records.len(), |i: int| records[i]@)
}

/// The views of the records that a sequence of references points to, in
/// order.
pub open spec fn views_of(records: Seq<&Credential>) -> Seq<CredentialView> {
    Seq::new(records.len(), |i: int| records[i]@)
}

} // verus!

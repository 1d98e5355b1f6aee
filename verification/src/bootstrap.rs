//! Authentication of the store file: a bounded number of secret entries,
//! then at most one attempt to migrate an old format.
//!
//! The decisions are taken here; prompting, and reading what the user typed,
//! is the caller's part. The caller starts with [`Authenticator::new`], asks
//! for the master secret and hands it to [`Authenticator::submit`] until that
//! gives something other than [`AuthStep::Retry`].

use vstd::prelude::*;
use vstd::string::StringExecFns;
use crate::password::{upgrade, Migration, MigrationView, PasswordError};
use crate::password::codec::{decoded, FormatVersion};
use crate::password::v2::{opened, PasswordStore, StoreView};
use crate::secret::SecretBuffer;

verus! {

/// How often the master secret may be entered: once, and twice more.
pub const MAX_ATTEMPTS: u8 = 3;

/// The exit code of every terminal failure. Failures differ in their message
/// only.
pub const FAILURE_EXIT_CODE: i32 = 1;

/// Why authentication ended without a store.
#[derive(Debug)]
pub enum AuthFailure {
    /// The master secret could not be read from the user.
    PromptUnreadable(std::io::Error),
    /// The buffer is structurally invalid. This is never retried.
    Corrupted,
    /// Every attempt failed the secret's check: a secret that is wrong each
    /// time cannot be told from a damaged buffer.
    ProbablyCorrupted,
    /// The buffer has neither the current nor the previous format.
    FormatUnsupported,
    /// Storage could not be read.
    Storage(std::io::Error),
    /// The user refused the upgrade to the current format.
    MigrationDeclined,
    /// The buffer has the previous format's tag and could not be migrated.
    LikelyCorrupted,
}

/// `<std::io::Error as Display>::fmt` from the standard library, through
/// `format!`: the error's description as text. Nothing is claimed of the
/// text, which the platform words.
#[verifier::external_body]
fn describe(err: &std::io::Error) -> (text: String) {
    format!("{}", err)
}

/// The notice that goes before every prompt for the master secret but the
/// first.
pub fn retry_notice() -> (text: &'static str)
    ensures
        text@ == "Woops, that's not the right password. Let's try again."@,
{
    "Woops, that's not the right password. Let's try again."
}

impl AuthFailure {
    /// Whether the failure carries an I/O error, whose description goes into
    /// the message.
    pub open spec fn has_reason(self) -> bool {
        self is PromptUnreadable || self is Storage
    }

    /// The message for the user, with `reason` for the description of the
    /// I/O error where the failure carries one.
    pub open spec fn message_with(self, reason: Seq<char>) -> Seq<char> {
        match self {
            AuthFailure::PromptUnreadable(_) =>
                "Woops, I could not read your master password (reason: "@ + reason + ")."@,
            AuthFailure::Corrupted => "Your Rooster file is corrupted."@,
            AuthFailure::ProbablyCorrupted | AuthFailure::LikelyCorrupted =>
                "Decryption of your Rooster file keeps failing. This is a sign that your Rooster file is probably corrupted."@,
            AuthFailure::FormatUnsupported =>
                "I could not open the Rooster file because your version of Rooster is outdated. Try upgrading Rooster to the latest version."@,
            AuthFailure::Storage(_) => "I couldn't open your Rooster file (reason: "@ + reason
                + ")"@,
            AuthFailure::MigrationDeclined =>
                "Your Rooster file was left as it is: it has to be upgraded before it can be used."@,
        }
    }

    /// The message for the user, given the description of the I/O error that
    /// the failure may carry.
    pub fn message_about(&self, reason: &str) -> (text: String)
        ensures
            text@ == self.message_with(reason@),
    {
        match self {
            AuthFailure::PromptUnreadable(_) => {
                let mut text = String::from_str(
                    "Woops, I could not read your master password (reason: ",
                );
                text.append(reason);
                text.append(").");
                text
            },
            AuthFailure::Corrupted => String::from_str("Your Rooster file is corrupted."),
            AuthFailure::ProbablyCorrupted | AuthFailure::LikelyCorrupted => String::from_str(
                "Decryption of your Rooster file keeps failing. This is a sign that your Rooster file is probably corrupted.",
            ),
            AuthFailure::FormatUnsupported => String::from_str(
                "I could not open the Rooster file because your version of Rooster is outdated. Try upgrading Rooster to the latest version.",
            ),
            AuthFailure::Storage(_) => {
                let mut text = String::from_str("I couldn't open your Rooster file (reason: ");
                text.append(reason);
                text.append(")");
                text
            },
            AuthFailure::MigrationDeclined => String::from_str(
                "Your Rooster file was left as it is: it has to be upgraded before it can be used.",
            ),
        }
    }

    /// The message for the user. Where the failure carries an I/O error, the
    /// message holds the error's description as the platform words it.
    pub fn message(&self) -> (text: String)
        ensures
            exists|reason: Seq<char>| text@ == #[trigger] self.message_with(reason),
            !self.has_reason() ==> text@ == self.message_with(Seq::empty()),
    {
        match self {
            AuthFailure::PromptUnreadable(err) => {
                let reason = describe(err);
                self.message_about(reason.as_str())
            },
            AuthFailure::Storage(err) => {
                let reason = describe(err);
                self.message_about(reason.as_str())
            },
            _ => self.message_about(""),
        }
    }

    /// The process exit code for the failure.
    pub fn exit_code(&self) -> (code: i32)
        ensures
            code == FAILURE_EXIT_CODE,
            code != 0,
    {
        FAILURE_EXIT_CODE
    }
}

/// What one decode attempt leads to, as a mathematical value.
pub enum Decision {
    /// The store is open. Nothing more is asked.
    Authenticated(StoreView),
    /// The secret is asked for again, after the notice, with this many
    /// attempts left.
    Retry(u8),
    /// The attempts are spent on a buffer of another version: migration is
    /// tried, once.
    Migrate,
    /// Authentication is over.
    Failed(AuthFailure),
}

/// The result of a decode attempt with the store taken by its view.
pub open spec fn outcome_view(result: Result<PasswordStore, PasswordError>) -> Result<
    StoreView,
    PasswordError,
> {
    match result {
        Ok(store) => Ok(store@),
        Err(e) => Err(e),
    }
}

/// Where the last failure leads once no attempt is left.
pub open spec fn on_exhaustion(last: PasswordError) -> Decision {
    match last {
        PasswordError::WrongVersionError => Decision::Migrate,
        PasswordError::Io(err) => Decision::Failed(AuthFailure::Storage(err)),
        _ => Decision::Failed(AuthFailure::ProbablyCorrupted),
    }
}

/// What follows a decode attempt that was made with `attempts_remaining`
/// attempts left, itself included.
pub open spec fn decide(attempts_remaining: u8, outcome: Result<StoreView, PasswordError>)
    -> Decision {
    match outcome {
        Ok(store) => Decision::Authenticated(store),
        Err(PasswordError::CorruptionError) => Decision::Failed(AuthFailure::Corrupted),
        Err(e) => if attempts_remaining > 1 {
            Decision::Retry((attempts_remaining - 1) as u8)
        } else {
            on_exhaustion(e)
        },
    }
}

/// How a failed migration is reported.
pub open spec fn migration_failure(error: PasswordError) -> AuthFailure {
    match error {
        PasswordError::WrongVersionError => AuthFailure::FormatUnsupported,
        PasswordError::Io(err) => AuthFailure::Storage(err),
        PasswordError::MigrationDeclined => AuthFailure::MigrationDeclined,
        _ => AuthFailure::LikelyCorrupted,
    }
}

/// What one decode attempt leads to.
pub enum Verdict {
    /// The store is open.
    Authenticated(PasswordStore),
    /// The secret is asked for again, with this many attempts left.
    Retry { attempts_remaining: u8 },
    /// Migration is tried, once.
    Migrate,
    /// Authentication is over.
    Failed(AuthFailure),
}

impl View for Verdict {
    type V = Decision;

    open spec fn view(&self) -> Decision {
        match *self {
            Verdict::Authenticated(store) => Decision::Authenticated(store@),
            Verdict::Retry { attempts_remaining } => Decision::Retry(attempts_remaining),
            Verdict::Migrate => Decision::Migrate,
            Verdict::Failed(failure) => Decision::Failed(failure),
        }
    }
}

/// Decides what follows the decode attempt that gave `result` and was made
/// with `attempts_remaining` attempts left, itself included.
///
/// A store ends authentication at once. So does a corrupt buffer, which no
/// other secret could mend. Any other failure costs one attempt; when none
/// is left, a buffer of another version goes on to migration, and every
/// other failure is final.
pub fn after_open(attempts_remaining: u8, result: Result<PasswordStore, PasswordError>) -> (verdict:
    Verdict)
    ensures
        verdict@ == decide(attempts_remaining, outcome_view(result)),
        verdict matches Verdict::Authenticated(store) ==> result == Ok::<
            PasswordStore,
            PasswordError,
        >(store),
{
    match result {
        Ok(store) => Verdict::Authenticated(store),
        Err(PasswordError::CorruptionError) => Verdict::Failed(AuthFailure::Corrupted),
        Err(e) => {
            if attempts_remaining > 1 {
                Verdict::Retry { attempts_remaining: attempts_remaining - 1 }
            } else {
                match e {
                    PasswordError::WrongVersionError => Verdict::Migrate,
                    PasswordError::Io(err) => Verdict::Failed(AuthFailure::Storage(err)),
                    _ => Verdict::Failed(AuthFailure::ProbablyCorrupted),
                }
            }
        },
    }
}

/// Reports a failed migration.
pub fn report_migration_failure(error: PasswordError) -> (failure: AuthFailure)
    ensures
        failure == migration_failure(error),
{
    match error {
        PasswordError::WrongVersionError => AuthFailure::FormatUnsupported,
        PasswordError::Io(err) => AuthFailure::Storage(err),
        PasswordError::MigrationDeclined => AuthFailure::MigrationDeclined,
        _ => AuthFailure::LikelyCorrupted,
    }
}

/// Turns the result of the one migration into the result of authentication.
/// A failure is final whatever its cause: the secret is not asked for again.
pub fn after_migration(result: Result<PasswordStore, PasswordError>) -> (outcome: Result<
    PasswordStore,
    AuthFailure,
>)
    ensures
        match result {
            Ok(store) => outcome == Ok::<PasswordStore, AuthFailure>(store),
            Err(e) => outcome == Err::<PasswordStore, AuthFailure>(migration_failure(e)),
        },
{
    match result {
        Ok(store) => Ok(store),
        Err(e) => Err(report_migration_failure(e)),
    }
}

/// An authentication in progress, as a mathematical value.
pub struct AuthenticatorView {
    /// The content of the store file.
    pub input: Seq<u8>,
    /// How often the master secret may still be entered.
    pub attempts_remaining: u8,
}

/// An authentication in progress: the content of the store file, and how
/// often the master secret may still be entered, which is at least once.
pub struct Authenticator {
    input: SecretBuffer,
    attempts_remaining: u8,
}

impl View for Authenticator {
    type V = AuthenticatorView;

    closed spec fn view(&self) -> AuthenticatorView {
        AuthenticatorView { input: self.input@, attempts_remaining: self.attempts_remaining }
    }
}

/// Where authentication stands after a secret was entered.
pub enum AuthStep {
    /// The store is open.
    Authenticated(PasswordStore),
    /// The secret was not accepted: after [`retry_notice`], it is asked for
    /// again.
    Retry(Authenticator),
    /// The buffer has the previous format and the secret opens it: the user
    /// is asked whether to upgrade. The secret is not asked for again.
    Consent(Migration),
    /// Authentication is over.
    Failed(AuthFailure),
}

/// Where authentication stands after a secret was entered, as a
/// mathematical value.
pub enum AuthStepView {
    Authenticated(StoreView),
    Retry(AuthenticatorView),
    Consent(MigrationView),
    Failed(AuthFailure),
}

impl View for AuthStep {
    type V = AuthStepView;

    open spec fn view(&self) -> AuthStepView {
        match *self {
            AuthStep::Authenticated(store) => AuthStepView::Authenticated(store@),
            AuthStep::Retry(authenticator) => AuthStepView::Retry(authenticator@),
            AuthStep::Consent(migration) => AuthStepView::Consent(migration@),
            AuthStep::Failed(failure) => AuthStepView::Failed(failure),
        }
    }
}

/// What entering the master secret `master` leads to.
///
/// The buffer is opened at the current version and [`decide`] takes it
/// from there. Where it decides for migration, the buffer is decoded at the
/// previous version with the secret that was entered last: records that
/// decode wait for consent, and a failure is final.
pub open spec fn submitted(authenticator: AuthenticatorView, master: Seq<u8>) -> AuthStepView {
    match decide(authenticator.attempts_remaining, opened(master, authenticator.input)) {
        Decision::Authenticated(store) => AuthStepView::Authenticated(store),
        Decision::Retry(left) => AuthStepView::Retry(
            AuthenticatorView { input: authenticator.input, attempts_remaining: left },
        ),
        Decision::Migrate => match decoded(FormatVersion::Legacy, authenticator.input, master) {
            Ok(records) => AuthStepView::Consent(MigrationView { master, legacy: records }),
            Err(e) => AuthStepView::Failed(migration_failure(e)),
        },
        Decision::Failed(failure) => AuthStepView::Failed(failure),
    }
}

impl Authenticator {
    #[verifier::type_invariant]
    closed spec fn well_formed(self) -> bool {
        1 <= self.attempts_remaining <= MAX_ATTEMPTS
    }

    /// Starts the authentication of the store file whose content is `input`,
    /// with [`MAX_ATTEMPTS`] attempts.
    pub fn new(input: SecretBuffer) -> (authenticator: Authenticator)
        ensures
            authenticator@ == (AuthenticatorView {
                input: input@,
                attempts_remaining: MAX_ATTEMPTS,
            }),
    {
        Authenticator { input, attempts_remaining: MAX_ATTEMPTS }
    }

    /// How often the master secret may still be entered: at least once.
    pub fn attempts_remaining(&self) -> (left: u8)
        ensures
            left == self@.attempts_remaining,
            1 <= left <= MAX_ATTEMPTS,
    {
        proof {
            use_type_invariant(self);
        }
        self.attempts_remaining
    }

    /// The content of the store file.
    pub fn input(&self) -> (input: &SecretBuffer)
        ensures
            input@ == self@.input,
    {
        &self.input
    }

    /// Ends the authentication because the master secret could not be read
    /// from the user. This is final at any attempt.
    pub fn prompt_failed(self, error: std::io::Error) -> (failure: AuthFailure)
        ensures
            failure == AuthFailure::PromptUnreadable(error),
    {
        AuthFailure::PromptUnreadable(error)
    }

    /// Takes the master secret that the user entered.
    pub fn submit(self, master_secret: SecretBuffer) -> (step: AuthStep)
        ensures
            step@ == submitted(self@, master_secret@),
    {
        proof {
            use_type_invariant(&self);
        }
        let Authenticator { input, attempts_remaining } = self;
        let result = PasswordStore::open(master_secret.duplicate(), input.as_slice());
        match after_open(attempts_remaining, result) {
            Verdict::Authenticated(store) => AuthStep::Authenticated(store),
            Verdict::Retry { attempts_remaining } => AuthStep::Retry(
                Authenticator { input, attempts_remaining },
            ),
            Verdict::Migrate => match upgrade(master_secret, input.as_slice()) {
                Ok(migration) => AuthStep::Consent(migration),
                Err(e) => AuthStep::Failed(report_migration_failure(e)),
            },
            Verdict::Failed(failure) => AuthStep::Failed(failure),
        }
    }
}

/// What an authentication comes to when its decode attempts have the
/// outcomes `outcomes`, in this order, and how many notices to try again it
/// issues on the way. Outcomes after the one that ends it are not looked
/// at; where the outcomes run out first, it still waits for a secret.
pub open spec fn course(attempts_remaining: u8, outcomes: Seq<Result<StoreView, PasswordError>>)
    -> (Decision, nat)
    decreases outcomes.len(),
{
    if outcomes.len() == 0 {
        (Decision::Retry(attempts_remaining), 0)
    } else {
        match decide(attempts_remaining, outcomes[0]) {
            Decision::Retry(left) => {
                let (end, notices) = course(left, outcomes.drop_first());
                (end, notices + 1)
            },
            end => (end, 0),
        }
    }
}

/// A secret that opens the buffer at the first attempt ends authentication
/// with the store, and no notice to try again is issued.
pub proof fn lemma_first_secret_accepted(
    store: StoreView,
    outcomes: Seq<Result<StoreView, PasswordError>>,
)
    requires
        outcomes.len() > 0,
        outcomes[0] == Ok::<StoreView, PasswordError>(store),
    ensures
        course(MAX_ATTEMPTS, outcomes) == (Decision::Authenticated(store), 0nat),
{
}

/// Three secrets in a row that fail the secret's check end authentication
/// with a failure, after exactly two notices to try again.
pub proof fn lemma_three_wrong_secrets(outcomes: Seq<Result<StoreView, PasswordError>>)
    requires
        outcomes.len() >= 3,
        forall|i: int|
            0 <= i < 3 ==> #[trigger] outcomes[i] == Err::<StoreView, PasswordError>(
                PasswordError::DecryptionError,
            ),
    ensures
        course(MAX_ATTEMPTS, outcomes) == (
            Decision::Failed(AuthFailure::ProbablyCorrupted),
            2nat,
        ),
{
    let second = outcomes.drop_first();
    let third = second.drop_first();
    assert(second[0] == outcomes[1]);
    assert(third[0] == outcomes[2]);
    assert(course(1, third).1 == 0);
    assert(course(2, second).1 == 1);
}

/// A buffer of another version takes all the attempts, with two notices to
/// try again, and then goes to migration: once, since nothing follows it.
pub proof fn lemma_other_version_migrates(outcomes: Seq<Result<StoreView, PasswordError>>)
    requires
        outcomes.len() >= 3,
        forall|i: int|
            0 <= i < 3 ==> #[trigger] outcomes[i] == Err::<StoreView, PasswordError>(
                PasswordError::WrongVersionError,
            ),
    ensures
        course(MAX_ATTEMPTS, outcomes) == (Decision::Migrate, 2nat),
{
    let second = outcomes.drop_first();
    let third = second.drop_first();
    assert(second[0] == outcomes[1]);
    assert(third[0] == outcomes[2]);
    assert(course(1, third).1 == 0);
    assert(course(2, second).1 == 1);
}

/// A corrupt buffer ends authentication at the attempt that finds it: at
/// the first attempt no notice to try again is issued at all.
pub proof fn lemma_corruption_ends_at_once(
    attempts_remaining: u8,
    outcomes: Seq<Result<StoreView, PasswordError>>,
)
    requires
        outcomes.len() > 0,
        outcomes[0] == Err::<StoreView, PasswordError>(PasswordError::CorruptionError),
    ensures
        course(attempts_remaining, outcomes) == (
            Decision::Failed(AuthFailure::Corrupted),
            0nat,
        ),
{
}

/// Whatever the outcomes, fewer notices to try again are issued than there
/// were attempts, and an authentication that has taken as many outcomes as
/// it had attempts is over.
pub proof fn lemma_attempts_are_bounded(
    attempts_remaining: u8,
    outcomes: Seq<Result<StoreView, PasswordError>>,
)
    requires
        attempts_remaining >= 1,
    ensures
        course(attempts_remaining, outcomes).1 < attempts_remaining,
        outcomes.len() >= attempts_remaining ==> !(course(attempts_remaining, outcomes).0
            is Retry),
    decreases outcomes.len(),
{
    if outcomes.len() > 0 {
        match decide(attempts_remaining, outcomes[0]) {
            Decision::Retry(left) => {
                lemma_attempts_are_bounded(left, outcomes.drop_first());
            },
            _ => {},
        }
    }
}

} // verus!

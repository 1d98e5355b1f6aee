use rooster::bootstrap::{
    after_migration, after_open, report_migration_failure, retry_notice, AuthFailure, AuthStep,
    Authenticator, Verdict, FAILURE_EXIT_CODE, MAX_ATTEMPTS,
};
use rooster::password::codec::{encode, FormatVersion};
use rooster::password::credential::Credential;
use rooster::password::v2::PasswordStore;
use rooster::password::{MigrationStep, PasswordError};
use rooster::secret::SecretBuffer;
use std::io::{Error, ErrorKind};

fn records() -> Vec<Credential> {
    vec![
        Credential::restore(
            "github".to_string(),
            "alice".to_string(),
            SecretBuffer::from_text("s3cr3t"),
            100,
            250,
        )
        .unwrap(),
        Credential::restore(
            "gitlab".to_string(),
            "bob".to_string(),
            SecretBuffer::from_text("hunter2"),
            300,
            300,
        )
        .unwrap(),
    ]
}

fn right() -> SecretBuffer {
    SecretBuffer::from_text("right")
}

fn wrong() -> SecretBuffer {
    SecretBuffer::from_text("wrong")
}

fn buffer(version: FormatVersion) -> SecretBuffer {
    SecretBuffer::new(encode(version, &records(), &right()).unwrap())
}

fn some_store() -> PasswordStore {
    PasswordStore::create(right())
}

fn io_error() -> Error {
    Error::new(ErrorKind::Other, "disk on fire")
}

#[test]
fn three_attempts_are_allowed() {
    assert_eq!(MAX_ATTEMPTS, 3);
    let authenticator = Authenticator::new(SecretBuffer::new(vec![1, 2, 3]));
    assert_eq!(authenticator.attempts_remaining(), 3);
    assert_eq!(authenticator.input().as_slice(), &[1, 2, 3]);
}

#[test]
fn right_secret_at_once_opens_the_store_without_a_retry() {
    let authenticator = Authenticator::new(buffer(FormatVersion::Current));
    match authenticator.submit(right()) {
        AuthStep::Authenticated(store) => {
            assert_eq!(store.len(), 2);
            assert_eq!(store.format_version(), 2);
            assert_eq!(store.master_secret().as_slice(), b"right");
            let github = store.get("github").unwrap();
            assert_eq!(github.username(), "alice");
            assert_eq!(github.secret().as_slice(), b"s3cr3t");
            assert_eq!(github.created_at(), 100);
            assert_eq!(github.updated_at(), 250);
            assert_eq!(store.record(1).unwrap().name(), "gitlab");
        }
        _ => panic!("the store should be open"),
    }
}

#[test]
fn three_wrong_secrets_fail_after_two_retries() {
    let mut authenticator = Authenticator::new(buffer(FormatVersion::Current));
    let mut retries = 0;
    let failure = loop {
        match authenticator.submit(wrong()) {
            AuthStep::Retry(next) => {
                retries += 1;
                assert_eq!(next.attempts_remaining(), 3 - retries);
                authenticator = next;
            }
            AuthStep::Failed(failure) => break failure,
            _ => panic!("a wrong secret opens nothing"),
        }
    };
    assert_eq!(retries, 2);
    assert!(matches!(failure, AuthFailure::ProbablyCorrupted));
}

#[test]
fn right_secret_at_the_last_attempt_opens_the_store() {
    let authenticator = Authenticator::new(buffer(FormatVersion::Current));
    let authenticator = match authenticator.submit(wrong()) {
        AuthStep::Retry(next) => next,
        _ => panic!("first attempt"),
    };
    let authenticator = match authenticator.submit(wrong()) {
        AuthStep::Retry(next) => next,
        _ => panic!("second attempt"),
    };
    assert_eq!(authenticator.attempts_remaining(), 1);
    assert!(matches!(authenticator.submit(right()), AuthStep::Authenticated(_)));
}

#[test]
fn legacy_buffer_goes_to_migration_after_the_attempts() {
    let mut authenticator = Authenticator::new(buffer(FormatVersion::Legacy));
    let mut retries = 0;
    let migration = loop {
        match authenticator.submit(right()) {
            AuthStep::Retry(next) => {
                retries += 1;
                authenticator = next;
            }
            AuthStep::Consent(migration) => break migration,
            _ => panic!("a legacy buffer waits for consent"),
        }
    };
    assert_eq!(retries, 2);
    assert_eq!(migration.len(), 2);
    let migration = match migration.answer("maybe\n") {
        MigrationStep::AskAgain(migration) => migration,
        _ => panic!("unclear answer"),
    };
    let store = match migration.answer("y\n") {
        MigrationStep::Finished(result) => after_migration(result).unwrap(),
        _ => panic!("yes"),
    };
    assert_eq!(store.format_version(), 2);
    assert_eq!(store.len(), 2);
    assert_eq!(store.master_secret().as_slice(), b"right");
    let wanted = records();
    for (i, w) in wanted.iter().enumerate() {
        let r = store.record(i).unwrap();
        assert_eq!(r.name(), w.name());
        assert_eq!(r.username(), w.username());
        assert_eq!(r.secret().as_slice(), w.secret().as_slice());
        assert_eq!(r.created_at(), w.created_at());
        assert_eq!(r.updated_at(), w.updated_at());
    }
}

#[test]
fn declined_migration_is_final_and_leaves_the_buffer() {
    let raw = buffer(FormatVersion::Legacy);
    let before = raw.duplicate();
    let mut authenticator = Authenticator::new(raw.duplicate());
    let migration = loop {
        match authenticator.submit(right()) {
            AuthStep::Retry(next) => authenticator = next,
            AuthStep::Consent(migration) => break migration,
            _ => panic!("a legacy buffer waits for consent"),
        }
    };
    let outcome = match migration.answer("No thanks") {
        MigrationStep::Finished(result) => after_migration(result),
        _ => panic!("no"),
    };
    assert!(matches!(outcome, Err(AuthFailure::MigrationDeclined)));
    assert!(raw.same_content(&before));
}

#[test]
fn legacy_buffer_with_wrong_last_secret_is_not_asked_again() {
    let mut authenticator = Authenticator::new(buffer(FormatVersion::Legacy));
    let mut retries = 0;
    let failure = loop {
        match authenticator.submit(wrong()) {
            AuthStep::Retry(next) => {
                retries += 1;
                authenticator = next;
            }
            AuthStep::Failed(failure) => break failure,
            AuthStep::Consent(_) => return,
            AuthStep::Authenticated(_) => panic!("nothing opens at the current version"),
        }
    };
    assert_eq!(retries, 2);
    assert!(matches!(failure, AuthFailure::LikelyCorrupted));
}

#[test]
fn unknown_version_is_unsupported() {
    let mut raw = vec![0u8, 0, 0, 9];
    raw.extend_from_slice(&[0u8; 200]);
    let mut authenticator = Authenticator::new(SecretBuffer::new(raw));
    let mut retries = 0;
    let failure = loop {
        match authenticator.submit(right()) {
            AuthStep::Retry(next) => {
                retries += 1;
                authenticator = next;
            }
            AuthStep::Failed(failure) => break failure,
            _ => panic!("nothing opens"),
        }
    };
    assert_eq!(retries, 2);
    assert!(matches!(failure, AuthFailure::FormatUnsupported));
}

#[test]
fn corruption_at_the_first_attempt_ends_without_a_retry() {
    let authenticator = Authenticator::new(SecretBuffer::new(vec![0, 0]));
    assert!(matches!(
        authenticator.submit(right()),
        AuthStep::Failed(AuthFailure::Corrupted)
    ));
    let mut cut = vec![0u8, 0, 0, 2];
    cut.extend_from_slice(&[1u8; 30]);
    let authenticator = Authenticator::new(SecretBuffer::new(cut));
    assert!(matches!(
        authenticator.submit(right()),
        AuthStep::Failed(AuthFailure::Corrupted)
    ));
}

#[test]
fn unreadable_prompt_is_final() {
    let authenticator = Authenticator::new(buffer(FormatVersion::Current));
    match authenticator.prompt_failed(io_error()) {
        AuthFailure::PromptUnreadable(error) => assert_eq!(error.kind(), ErrorKind::Other),
        _ => panic!("the prompt failed"),
    }
}

#[test]
fn unreadable_answer_ends_the_migration() {
    let raw = encode(FormatVersion::Legacy, &records(), &right()).unwrap();
    let migration = rooster::password::upgrade(right(), &raw).unwrap();
    let outcome = after_migration(Err(migration.unreadable(io_error())));
    assert!(matches!(outcome, Err(AuthFailure::Storage(_))));
}

#[test]
fn after_open_decides_by_result_and_attempts() {
    assert!(matches!(after_open(3, Ok(some_store())), Verdict::Authenticated(_)));
    assert!(matches!(after_open(1, Ok(some_store())), Verdict::Authenticated(_)));
    for attempts in [3u8, 2, 1, 0] {
        assert!(matches!(
            after_open(attempts, Err(PasswordError::CorruptionError)),
            Verdict::Failed(AuthFailure::Corrupted)
        ));
    }
    assert!(matches!(
        after_open(3, Err(PasswordError::DecryptionError)),
        Verdict::Retry { attempts_remaining: 2 }
    ));
    assert!(matches!(
        after_open(2, Err(PasswordError::WrongVersionError)),
        Verdict::Retry { attempts_remaining: 1 }
    ));
    assert!(matches!(
        after_open(2, Err(PasswordError::Io(io_error()))),
        Verdict::Retry { attempts_remaining: 1 }
    ));
    assert!(matches!(
        after_open(1, Err(PasswordError::DecryptionError)),
        Verdict::Failed(AuthFailure::ProbablyCorrupted)
    ));
    assert!(matches!(after_open(1, Err(PasswordError::WrongVersionError)), Verdict::Migrate));
    assert!(matches!(
        after_open(1, Err(PasswordError::Io(io_error()))),
        Verdict::Failed(AuthFailure::Storage(_))
    ));
    assert!(matches!(
        after_open(0, Err(PasswordError::DecryptionError)),
        Verdict::Failed(AuthFailure::ProbablyCorrupted)
    ));
    assert!(matches!(
        after_open(1, Err(PasswordError::NoSuchAppError)),
        Verdict::Failed(AuthFailure::ProbablyCorrupted)
    ));
    assert!(matches!(
        after_open(2, Err(PasswordError::InvalidJsonError)),
        Verdict::Retry { attempts_remaining: 1 }
    ));
    assert!(matches!(
        after_open(1, Err(PasswordError::InvalidJsonError)),
        Verdict::Failed(AuthFailure::ProbablyCorrupted)
    ));
}

#[test]
fn migration_failures_are_classified() {
    assert!(matches!(
        report_migration_failure(PasswordError::WrongVersionError),
        AuthFailure::FormatUnsupported
    ));
    assert!(matches!(
        report_migration_failure(PasswordError::Io(io_error())),
        AuthFailure::Storage(_)
    ));
    assert!(matches!(
        report_migration_failure(PasswordError::MigrationDeclined),
        AuthFailure::MigrationDeclined
    ));
    assert!(matches!(
        report_migration_failure(PasswordError::DecryptionError),
        AuthFailure::LikelyCorrupted
    ));
    assert!(matches!(
        report_migration_failure(PasswordError::CorruptionError),
        AuthFailure::LikelyCorrupted
    ));
    assert!(matches!(
        report_migration_failure(PasswordError::AppExistsError),
        AuthFailure::LikelyCorrupted
    ));
    assert!(matches!(
        report_migration_failure(PasswordError::InvalidJsonError),
        AuthFailure::LikelyCorrupted
    ));
    assert!(matches!(after_migration(Ok(some_store())), Ok(_)));
    assert!(matches!(
        after_migration(Err(PasswordError::WrongVersionError)),
        Err(AuthFailure::FormatUnsupported)
    ));
}

#[test]
fn failures_have_their_messages_and_one_exit_code() {
    assert_eq!(AuthFailure::Corrupted.message(), "Your Rooster file is corrupted.");
    let keeps_failing = "Decryption of your Rooster file keeps failing. This is a sign that your Rooster file is probably corrupted.";
    assert_eq!(AuthFailure::ProbablyCorrupted.message(), keeps_failing);
    assert_eq!(AuthFailure::LikelyCorrupted.message(), keeps_failing);
    assert_eq!(
        AuthFailure::FormatUnsupported.message(),
        "I could not open the Rooster file because your version of Rooster is outdated. Try upgrading Rooster to the latest version."
    );
    assert_eq!(
        AuthFailure::MigrationDeclined.message(),
        "Your Rooster file was left as it is: it has to be upgraded before it can be used."
    );
    assert_eq!(
        AuthFailure::Storage(io_error()).message(),
        "I couldn't open your Rooster file (reason: disk on fire)"
    );
    assert_eq!(
        AuthFailure::PromptUnreadable(io_error()).message(),
        "Woops, I could not read your master password (reason: disk on fire)."
    );
    assert_eq!(FAILURE_EXIT_CODE, 1);
    for failure in [
        AuthFailure::Corrupted,
        AuthFailure::ProbablyCorrupted,
        AuthFailure::LikelyCorrupted,
        AuthFailure::FormatUnsupported,
        AuthFailure::MigrationDeclined,
        AuthFailure::Storage(io_error()),
        AuthFailure::PromptUnreadable(io_error()),
    ] {
        assert_eq!(failure.exit_code(), 1);
    }
}

#[test]
fn message_about_puts_the_reason_in_its_place() {
    assert_eq!(
        AuthFailure::Storage(io_error()).message_about("no such file"),
        "I couldn't open your Rooster file (reason: no such file)"
    );
    assert_eq!(
        AuthFailure::PromptUnreadable(io_error()).message_about(""),
        "Woops, I could not read your master password (reason: )."
    );
    assert_eq!(
        AuthFailure::Corrupted.message_about("not used"),
        "Your Rooster file is corrupted."
    );
}

#[test]
fn retry_notice_text() {
    assert_eq!(retry_notice(), "Woops, that's not the right password. Let's try again.");
}

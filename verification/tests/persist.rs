use rooster::password::codec::{encode, FormatVersion};
use rooster::password::credential::Credential;
use rooster::password::v2::PasswordStore;
use rooster::password::PasswordError;
use rooster::secret::SecretBuffer;

fn record(name: &str, created: i64, updated: i64) -> Credential {
    Credential::restore(
        name.to_string(),
        format!("{}-user", name),
        SecretBuffer::from_text(name),
        created,
        updated,
    )
    .unwrap()
}

fn secret() -> SecretBuffer {
    SecretBuffer::from_text("master")
}

#[test]
fn persist_then_open_gives_the_same_store() {
    let mut store = PasswordStore::create(secret());
    store.add(record("GitHub", 100, 200)).unwrap();
    store.add(record("gitlab", -1, 5)).unwrap();
    let mut file = SecretBuffer::new(vec![1, 2, 3]);
    store.persist(&mut file).unwrap();
    let opened = PasswordStore::open(secret(), file.as_slice()).unwrap();
    assert_eq!(opened.len(), store.len());
    assert_eq!(opened.format_version(), store.format_version());
    assert_eq!(opened.master_secret().as_slice(), store.master_secret().as_slice());
    for i in 0..store.len() {
        let a = store.record(i).unwrap();
        let b = opened.record(i).unwrap();
        assert_eq!(a.name(), b.name());
        assert_eq!(a.username(), b.username());
        assert_eq!(a.secret().as_slice(), b.secret().as_slice());
        assert_eq!(a.created_at(), b.created_at());
        assert_eq!(a.updated_at(), b.updated_at());
    }
    let mut again = SecretBuffer::new(Vec::new());
    opened.persist(&mut again).unwrap();
    let reopened = PasswordStore::open(secret(), again.as_slice()).unwrap();
    assert_eq!(reopened.len(), 2);
    assert_eq!(reopened.record(0).unwrap().created_at(), 100);
    assert_eq!(reopened.record(1).unwrap().updated_at(), 5);
}

#[test]
fn persist_replaces_the_whole_destination() {
    let store = PasswordStore::create(secret());
    let mut file = SecretBuffer::new(vec![0xaa; 1000]);
    store.persist(&mut file).unwrap();
    assert_eq!(file.len(), 116 + 16);
    assert_eq!(&file.as_slice()[0..4], &[0, 0, 0, 2]);
}

#[test]
fn open_with_wrong_secret_fails() {
    let mut store = PasswordStore::create(secret());
    store.add(record("one", 1, 1)).unwrap();
    let mut file = SecretBuffer::new(Vec::new());
    store.persist(&mut file).unwrap();
    let r = PasswordStore::open(SecretBuffer::from_text("other"), file.as_slice());
    assert!(matches!(r, Err(PasswordError::DecryptionError)));
}

#[test]
fn open_refuses_a_legacy_buffer() {
    let raw = encode(FormatVersion::Legacy, &vec![record("one", 1, 1)], &secret()).unwrap();
    let r = PasswordStore::open(secret(), &raw);
    assert!(matches!(r, Err(PasswordError::WrongVersionError)));
}

#[test]
fn open_finds_a_name_twice_corrupt() {
    let twice = vec![record("one", 1, 1), record("ONE", 2, 2)];
    let raw = encode(FormatVersion::Current, &twice, &secret()).unwrap();
    let r = PasswordStore::open(secret(), &raw);
    assert!(matches!(r, Err(PasswordError::CorruptionError)));
}

#[test]
fn open_of_an_empty_buffer_is_corrupt() {
    let r = PasswordStore::open(secret(), &[]);
    assert!(matches!(r, Err(PasswordError::CorruptionError)));
}

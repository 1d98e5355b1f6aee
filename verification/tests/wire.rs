use rooster::password::credential::Credential;
use rooster::password::wire::{read_list, write_list};
use rooster::secret::SecretBuffer;

fn one() -> Credential {
    Credential::restore(
        "ab".to_string(),
        "c".to_string(),
        SecretBuffer::new(vec![0xfe]),
        1,
        -1,
    )
    .unwrap()
}

fn one_written() -> Vec<u8> {
    let mut bytes = vec![0u8, 0, 0, 0, 0, 0, 0, 1];
    bytes.extend_from_slice(&[0, 0, 0, 0, 0, 0, 0, 2, b'a', b'b']);
    bytes.extend_from_slice(&[0, 0, 0, 0, 0, 0, 0, 1, b'c']);
    bytes.extend_from_slice(&[0, 0, 0, 0, 0, 0, 0, 1, 0xfe]);
    bytes.extend_from_slice(&[0, 0, 0, 0, 0, 0, 0, 1]);
    bytes.extend_from_slice(&[0xff; 8]);
    bytes
}

#[test]
fn empty_list_is_its_count() {
    let out = write_list(&Vec::new());
    assert_eq!(out.as_slice(), &[0u8; 8]);
    assert_eq!(read_list(&[0u8; 8]).unwrap().len(), 0);
}

#[test]
fn record_is_written_field_by_field() {
    let out = write_list(&vec![one()]);
    assert_eq!(out.as_slice(), &one_written()[..]);
}

#[test]
fn written_record_is_read_back() {
    let found = read_list(&one_written()).unwrap();
    assert_eq!(found.len(), 1);
    assert_eq!(found[0].name(), "ab");
    assert_eq!(found[0].username(), "c");
    assert_eq!(found[0].secret().as_slice(), &[0xfe]);
    assert_eq!(found[0].created_at(), 1);
    assert_eq!(found[0].updated_at(), -1);
}

#[test]
fn timestamps_keep_their_sign_and_size() {
    for t in [0i64, 1, -1, i64::MAX, i64::MIN, 1_500_000_000, 0x0102_0304_0506_0708] {
        let r = Credential::restore(
            "n".to_string(),
            String::new(),
            SecretBuffer::new(Vec::new()),
            t,
            t.wrapping_add(1),
        )
        .unwrap();
        let out = write_list(&vec![r]);
        let found = read_list(out.as_slice()).unwrap();
        assert_eq!(found[0].created_at(), t);
        assert_eq!(found[0].updated_at(), t.wrapping_add(1));
    }
}

#[test]
fn large_number_is_written_most_significant_byte_first() {
    let r = Credential::restore(
        "n".to_string(),
        String::new(),
        SecretBuffer::new(Vec::new()),
        0x0102_0304_0506_0708,
        0,
    )
    .unwrap();
    let out = write_list(&vec![r]);
    let bytes = out.as_slice();
    let at = 8 + 9 + 8 + 8;
    assert_eq!(&bytes[at..at + 8], &[1, 2, 3, 4, 5, 6, 7, 8]);
}

#[test]
fn cut_list_is_refused() {
    let whole = one_written();
    for len in 0..whole.len() {
        assert!(read_list(&whole[..len]).is_none(), "length {}", len);
    }
}

#[test]
fn list_with_a_tail_is_refused() {
    let mut longer = one_written();
    longer.push(0);
    assert!(read_list(&longer).is_none());
}

#[test]
fn overstated_count_or_length_is_refused() {
    let mut bytes = one_written();
    bytes[7] = 2;
    assert!(read_list(&bytes).is_none());
    let mut bytes = one_written();
    bytes[0] = 0xff;
    assert!(read_list(&bytes).is_none());
    let mut bytes = one_written();
    bytes[8] = 0xff;
    assert!(read_list(&bytes).is_none());
}

#[test]
fn text_that_is_no_utf8_is_refused() {
    let mut bytes = one_written();
    bytes[16] = 0xff;
    assert!(read_list(&bytes).is_none());
    let mut bytes = one_written();
    bytes[26] = 0x80;
    assert!(read_list(&bytes).is_none());
}

#[test]
fn record_without_name_is_refused_on_reading() {
    let mut bytes = vec![0u8, 0, 0, 0, 0, 0, 0, 1];
    bytes.extend_from_slice(&[0u8; 8]);
    bytes.extend_from_slice(&[0u8; 8]);
    bytes.extend_from_slice(&[0u8; 8]);
    bytes.extend_from_slice(&[0u8; 16]);
    assert!(read_list(&bytes).is_none());
}

#[test]
fn several_records_keep_their_order() {
    let names = ["zeta", "alpha", "Mitte"];
    let list: Vec<Credential> = names
        .iter()
        .enumerate()
        .map(|(i, n)| {
            Credential::restore(
                n.to_string(),
                format!("user{}", i),
                SecretBuffer::from_text(n),
                i as i64,
                10 + i as i64,
            )
            .unwrap()
        })
        .collect();
    let out = write_list(&list);
    let found = read_list(out.as_slice()).unwrap();
    assert_eq!(found.len(), 3);
    for (i, n) in names.iter().enumerate() {
        assert_eq!(found[i].name(), *n);
        assert_eq!(found[i].username(), format!("user{}", i));
        assert_eq!(found[i].secret().as_slice(), n.as_bytes());
        assert_eq!(found[i].created_at(), i as i64);
        assert_eq!(found[i].updated_at(), 10 + i as i64);
    }
}

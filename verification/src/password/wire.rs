//! The layout of a list of credentials as bytes, and of the integers in it.
//!
//! A list is its length followed by its records. A record is its name, its
//! user name and its secret, each as a length followed by that many bytes,
//! then the two timestamps. Texts are in UTF-8; lengths and timestamps are
//! 64-bit integers, most significant byte first.

use vstd::prelude::*;
use vstd::slice::{slice_subrange, slice_to_vec};
use vstd::utf8::{decode_utf8, encode_utf8, encode_utf8_decode_utf8, encode_utf8_valid_utf8, valid_utf8};
use byteorder::{BigEndian, ByteOrder};
use crate::password::credential::{views, Credential, CredentialView};
use crate::secret::SecretBuffer;

verus! {

/// The four bytes of `n`, most significant first.
pub open spec fn u32_be(n: u32) -> Seq<u8> {
    seq![
        (n / 0x100_0000) as u8,
        ((n / 0x1_0000) % 0x100) as u8,
        ((n / 0x100) % 0x100) as u8,
        (n % 0x100) as u8,
    ]
}

/// The number whose bytes, most significant first, are the first four of
/// `bytes`.
pub open spec fn u32_from_be(bytes: Seq<u8>) -> int {
    bytes[0] * 0x100_0000 + bytes[1] * 0x1_0000 + bytes[2] * 0x100 + bytes[3]
}

/// The eight bytes of `n`, most significant first.
pub open spec fn u64_be(n: u64) -> Seq<u8> {
    seq![
        (n / 0x100_0000_0000_0000) as u8,
        ((n / 0x1_0000_0000_0000) % 0x100) as u8,
        ((n / 0x100_0000_0000) % 0x100) as u8,
        ((n / 0x1_0000_0000) % 0x100) as u8,
        ((n / 0x100_0000) % 0x100) as u8,
        ((n / 0x1_0000) % 0x100) as u8,
        ((n / 0x100) % 0x100) as u8,
        (n % 0x100) as u8,
    ]
}

/// The number whose bytes, most significant first, are the first eight of
/// `bytes`.
pub open spec fn u64_from_be(bytes: Seq<u8>) -> int {
    bytes[0] * 0x100_0000_0000_0000 + bytes[1] * 0x1_0000_0000_0000 + bytes[2]
        * 0x100_0000_0000 + bytes[3] * 0x1_0000_0000 + bytes[4] * 0x100_0000 + bytes[5]
        * 0x1_0000 + bytes[6] * 0x100 + bytes[7]
}

/// Reading the bytes of a 32-bit number gives the number.
pub proof fn lemma_u32_round_trip(n: u32)
    ensures
        u32_be(n).len() == 4,
        u32_from_be(u32_be(n)) == n,
{
}

/// Reading the bytes of a 64-bit number gives the number.
pub proof fn lemma_u64_round_trip(n: u64)
    ensures
        u64_be(n).len() == 8,
        u64_from_be(u64_be(n)) == n,
{
    let n1 = n / 0x100;
    let n2 = n1 / 0x100;
    let n3 = n2 / 0x100;
    let n4 = n3 / 0x100;
    let n5 = n4 / 0x100;
    let n6 = n5 / 0x100;
    let n7 = n6 / 0x100;
    assert(n2 == n / 0x1_0000);
    assert(n3 == n / 0x100_0000);
    assert(n4 == n / 0x1_0000_0000);
    assert(n5 == n / 0x100_0000_0000);
    assert(n6 == n / 0x1_0000_0000_0000);
    assert(n7 == n / 0x100_0000_0000_0000);
    assert(n7 < 0x100);
}

/// `<BigEndian as ByteOrder>::read_u32` of the crate `byteorder`: the
/// number that the first four bytes of `bytes` spell, most significant byte
/// first. It panics on fewer than four bytes, which `requires` leaves out.
#[verifier::external_body]
pub(crate) fn read_u32_be(bytes: &[u8]) -> (n: u32)
    requires
        bytes@.len() >= 4,
    ensures
        n == u32_from_be(bytes@),
{
    BigEndian::read_u32(bytes)
}

/// `<BigEndian as ByteOrder>::write_u32` of the crate `byteorder`, on a
/// buffer of four bytes: the bytes of `n`, most significant first.
#[verifier::external_body]
pub(crate) fn write_u32_be(n: u32) -> (bytes: Vec<u8>)
    ensures
        bytes@ == u32_be(n),
{
    let mut bytes = vec![0u8; 4];
    BigEndian::write_u32(&mut bytes, n);
    bytes
}

/// `<BigEndian as ByteOrder>::read_u64` of the crate `byteorder`: the
/// number that the first eight bytes of `bytes` spell, most significant byte
/// first. It panics on fewer than eight bytes, which `requires` leaves out.
#[verifier::external_body]
pub(crate) fn read_u64_be(bytes: &[u8]) -> (n: u64)
    requires
        bytes@.len() >= 8,
    ensures
        n == u64_from_be(bytes@),
{
    BigEndian::read_u64(bytes)
}

/// `<BigEndian as ByteOrder>::write_u64` of the crate `byteorder`, on a
/// buffer of eight bytes: the bytes of `n`, most significant first.
#[verifier::external_body]
pub(crate) fn write_u64_be(n: u64) -> (bytes: Vec<u8>)
    ensures
        bytes@ == u64_be(n),
{
    let mut bytes = vec![0u8; 8];
    BigEndian::write_u64(&mut bytes, n);
    bytes
}

/// `String::from_utf8` from the standard library: the text that `bytes`
/// encode in UTF-8, or nothing if they encode none.
#[verifier::external_body]
pub(crate) fn text_from_utf8(bytes: Vec<u8>) -> (text: Option<String>)
    ensures
        text is Some <==> valid_utf8(bytes@),
        text matches Some(t) ==> t@ == decode_utf8(bytes@),
{
    String::from_utf8(bytes).ok()
}

/// A run of bytes as it is written: its length, then the bytes.
pub open spec fn field_bytes(content: Seq<u8>) -> Seq<u8> {
    u64_be(content.len() as u64) + content
}

/// A record as it is written.
#[verifier::opaque]
pub open spec fn record_bytes(record: CredentialView) -> Seq<u8> {
    field_bytes(encode_utf8(record.name)) + field_bytes(encode_utf8(record.username))
        + field_bytes(record.secret) + u64_be(record.created_at as u64) + u64_be(
        record.updated_at as u64,
    )
}

/// Records as they are written, one after the other.
pub open spec fn records_bytes(records: Seq<CredentialView>) -> Seq<u8>
    decreases records.len(),
{
    if records.len() == 0 {
        Seq::empty()
    } else {
        record_bytes(records.first()) + records_bytes(records.drop_first())
    }
}

/// A list of records as it is written: their number, then the records.
pub open spec fn list_bytes(records: Seq<CredentialView>) -> Seq<u8> {
    u64_be(records.len() as u64) + records_bytes(records)
}

/// The record can be written and read back: its name is not empty and each
/// length fits the 64 bits it is written in.
pub open spec fn writable(record: CredentialView) -> bool {
    &&& record.name.len() > 0
    &&& encode_utf8(record.name).len() <= u64::MAX
    &&& encode_utf8(record.username).len() <= u64::MAX
    &&& record.secret.len() <= u64::MAX
}

/// Every record of the list can be written, and so can their number.
pub open spec fn all_writable(records: Seq<CredentialView>) -> bool {
    &&& records.len() <= u64::MAX
    &&& forall|i: int| 0 <= i < records.len() ==> writable(#[trigger] records[i])
}

/// The 64-bit number at the front of `bytes`, and what follows it.
pub open spec fn take_u64(bytes: Seq<u8>) -> Option<(u64, Seq<u8>)> {
    if bytes.len() >= 8 {
        Some((u64_from_be(bytes) as u64, bytes.skip(8)))
    } else {
        None
    }
}

/// The run of bytes at the front of `bytes`, and what follows it.
pub open spec fn take_field(bytes: Seq<u8>) -> Option<(Seq<u8>, Seq<u8>)> {
    match take_u64(bytes) {
        Some((length, rest)) => if length <= rest.len() {
            Some((rest.take(length as int), rest.skip(length as int)))
        } else {
            None
        },
        None => None,
    }
}

/// The text at the front of `bytes`, and what follows it.
pub open spec fn take_text(bytes: Seq<u8>) -> Option<(Seq<char>, Seq<u8>)> {
    match take_field(bytes) {
        Some((content, rest)) => if valid_utf8(content) {
            Some((decode_utf8(content), rest))
        } else {
            None
        },
        None => None,
    }
}

/// The record at the front of `bytes`, and what follows it. A record
/// without a name is none.
#[verifier::opaque]
pub open spec fn take_record(bytes: Seq<u8>) -> Option<(CredentialView, Seq<u8>)> {
    match take_text(bytes) {
        Some((name, after_name)) => match take_text(after_name) {
            Some((username, after_username)) => match take_field(after_username) {
                Some((secret, after_secret)) => match take_u64(after_secret) {
                    Some((created, after_created)) => match take_u64(after_created) {
                        Some((updated, rest)) => if name.len() > 0 {
                            Some(
                                (
                                    CredentialView {
                                        name,
                                        username,
                                        secret,
                                        created_at: created as i64,
                                        updated_at: updated as i64,
                                    },
                                    rest,
                                ),
                            )
                        } else {
                            None
                        },
                        None => None,
                    },
                    None => None,
                },
                None => None,
            },
            None => None,
        },
        None => None,
    }
}

/// The `count` records at the front of `bytes`, and what follows them.
pub open spec fn take_records(bytes: Seq<u8>, count: nat) -> Option<
    (Seq<CredentialView>, Seq<u8>),
>
    decreases count,
{
    if count == 0 {
        Some((Seq::empty(), bytes))
    } else {
        match take_record(bytes) {
            Some((record, rest)) => match take_records(rest, (count - 1) as nat) {
                Some((records, tail)) => Some((seq![record] + records, tail)),
                None => None,
            },
            None => None,
        }
    }
}

/// The list of records that `bytes` spell from their first byte to their
/// last, if they spell one.
pub open spec fn parse_list(bytes: Seq<u8>) -> Option<Seq<CredentialView>> {
    match take_u64(bytes) {
        Some((count, rest)) => match take_records(rest, count as nat) {
            Some((records, tail)) => if tail.len() == 0 {
                Some(records)
            } else {
                None
            },
            None => None,
        },
        None => None,
    }
}

/// A number that was written is read back, and what followed it is left.
pub proof fn lemma_take_u64(n: u64, tail: Seq<u8>)
    ensures
        take_u64(u64_be(n) + tail) == Some((n, tail)),
{
    lemma_u64_round_trip(n);
    let bytes = u64_be(n) + tail;
    assert(bytes.skip(8) =~= tail);
    assert(forall|i: int| 0 <= i < 8 ==> bytes[i] == u64_be(n)[i]);
}

/// A run of bytes that was written is read back.
pub proof fn lemma_take_field(content: Seq<u8>, tail: Seq<u8>)
    requires
        content.len() <= u64::MAX,
    ensures
        take_field(field_bytes(content) + tail) == Some((content, tail)),
{
    let n = content.len() as u64;
    assert(field_bytes(content) + tail =~= u64_be(n) + (content + tail));
    lemma_take_u64(n, content + tail);
    assert((content + tail).take(n as int) =~= content);
    assert((content + tail).skip(n as int) =~= tail);
}

/// A text that was written is read back.
pub proof fn lemma_take_text(text: Seq<char>, tail: Seq<u8>)
    requires
        encode_utf8(text).len() <= u64::MAX,
    ensures
        take_text(field_bytes(encode_utf8(text)) + tail) == Some((text, tail)),
{
    lemma_take_field(encode_utf8(text), tail);
    encode_utf8_valid_utf8(text);
    encode_utf8_decode_utf8(text);
}

/// A timestamp comes back from the 64 bits it was written in.
pub proof fn lemma_timestamp_round_trip(t: i64)
    ensures
        (t as u64) as i64 == t,
{
    assert((t as u64) as i64 == t) by (bit_vector);
}

/// A record that was written is read back.
pub proof fn lemma_take_record(record: CredentialView, tail: Seq<u8>)
    requires
        writable(record),
    ensures
        take_record(record_bytes(record) + tail) == Some((record, tail)),
{
    reveal(take_record);
    reveal(record_bytes);
    let name = field_bytes(encode_utf8(record.name));
    let username = field_bytes(encode_utf8(record.username));
    let secret = field_bytes(record.secret);
    let created = u64_be(record.created_at as u64);
    let updated = u64_be(record.updated_at as u64);
    let after_name = username + (secret + (created + (updated + tail)));
    let after_username = secret + (created + (updated + tail));
    let after_secret = created + (updated + tail);
    let after_created = updated + tail;
    assert(record_bytes(record) + tail =~= name + after_name);
    lemma_take_text(record.name, after_name);
    lemma_take_text(record.username, after_username);
    lemma_take_field(record.secret, after_secret);
    lemma_take_u64(record.created_at as u64, after_created);
    lemma_take_u64(record.updated_at as u64, tail);
    lemma_timestamp_round_trip(record.created_at);
    lemma_timestamp_round_trip(record.updated_at);
}

/// Records that were written are read back, in their order.
pub proof fn lemma_take_records(records: Seq<CredentialView>, tail: Seq<u8>)
    requires
        forall|i: int| 0 <= i < records.len() ==> writable(#[trigger] records[i]),
    ensures
        take_records(records_bytes(records) + tail, records.len()) == Some((records, tail)),
    decreases records.len(),
{
    if records.len() == 0 {
        assert(records_bytes(records) + tail =~= tail);
        assert(records =~= Seq::empty());
    } else {
        let first = records.first();
        let others = records.drop_first();
        let rest = records_bytes(others) + tail;
        assert(records_bytes(records) + tail =~= record_bytes(first) + rest);
        assert(writable(records[0]));
        lemma_take_record(first, rest);
        assert forall|i: int| 0 <= i < others.len() implies writable(#[trigger] others[i]) by {
            assert(others[i] == records[i + 1]);
        }
        lemma_take_records(others, tail);
        assert(seq![first] + others =~= records);
    }
}

/// A list that was written is read back: the same records with the same
/// names, user names, secrets and timestamps, in the same order.
pub proof fn lemma_parse_list(records: Seq<CredentialView>)
    requires
        all_writable(records),
    ensures
        parse_list(list_bytes(records)) == Some(records),
{
    lemma_take_u64(records.len() as u64, records_bytes(records));
    lemma_take_records(records, Seq::empty());
    assert(records_bytes(records) + Seq::<u8>::empty() =~= records_bytes(records));
}

/// Writing one more record appends its bytes.
pub proof fn lemma_records_bytes_push(records: Seq<CredentialView>, record: CredentialView)
    ensures
        records_bytes(records.push(record)) == records_bytes(records) + record_bytes(record),
    decreases records.len(),
{
    let longer = records.push(record);
    if records.len() == 0 {
        assert(longer.drop_first() =~= Seq::<CredentialView>::empty());
        assert(records_bytes(longer.drop_first()) =~= Seq::<u8>::empty());
        assert(records_bytes(longer) =~= record_bytes(record));
        assert(records_bytes(records) + record_bytes(record) =~= record_bytes(record));
    } else {
        assert(longer.drop_first() =~= records.drop_first().push(record));
        lemma_records_bytes_push(records.drop_first(), record);
        assert(records_bytes(longer) =~= records_bytes(records) + record_bytes(record));
    }
}

/// Appends `bytes` to `out`.
pub(crate) fn put(out: &mut Vec<u8>, bytes: &[u8])
    ensures
        final(out)@ == old(out)@ + bytes@,
{
    out.extend_from_slice(bytes);
    assert(out@ =~= old(out)@ + bytes@);
}

/// Appends a 64-bit number to `out`.
fn put_u64(out: &mut Vec<u8>, n: u64)
    ensures
        final(out)@ == old(out)@ + u64_be(n),
{
    let bytes = write_u64_be(n);
    put(out, bytes.as_slice());
}

/// Appends a run of bytes to `out`: its length, then the bytes.
fn put_field(out: &mut Vec<u8>, content: &[u8])
    ensures
        final(out)@ == old(out)@ + field_bytes(content@),
        content@.len() <= u64::MAX,
{
    put_u64(out, content.len() as u64);
    put(out, content);
    assert(out@ =~= old(out)@ + field_bytes(content@));
}

/// Appends a record to `out`.
fn put_record(out: &mut Vec<u8>, record: &Credential)
    ensures
        final(out)@ == old(out)@ + record_bytes(record@),
        writable(record@),
{
    let ghost start = out@;
    let ghost name = field_bytes(encode_utf8(record@.name));
    let ghost username = field_bytes(encode_utf8(record@.username));
    let ghost secret = field_bytes(record@.secret);
    let ghost created = u64_be(record@.created_at as u64);
    let ghost updated = u64_be(record@.updated_at as u64);
    put_field(out, record.name().as_bytes());
    put_field(out, record.username().as_bytes());
    assert(out@ == start + name + username);
    put_field(out, record.secret().as_slice());
    put_u64(out, record.created_at() as u64);
    assert(out@ == start + name + username + secret + created);
    put_u64(out, record.updated_at() as u64);
    assert(record_bytes(record@) == name + username + secret + created + updated) by {
        reveal(record_bytes);
    }
    assert(out@ =~= start + (name + username + secret + created + updated));
}

/// Writes a list of records. The bytes hold every secret of the list, so
/// they come in a buffer that is wiped on release.
pub fn write_list(records: &Vec<Credential>) -> (out: SecretBuffer)
    ensures
        out@ == list_bytes(views(records@)),
        all_writable(views(records@)),
{
    let mut out: Vec<u8> = Vec::new();
    put_u64(&mut out, records.len() as u64);
    let ghost all = views(records@);
    let mut i: usize = 0;
    assert(all.take(0) =~= Seq::<CredentialView>::empty());
    assert(out@ =~= u64_be(all.len() as u64) + records_bytes(all.take(0)));
    while i < records.len()
        invariant
            i <= records@.len(),
            all == views(records@),
            out@ == u64_be(all.len() as u64) + records_bytes(all.take(i as int)),
            forall|k: int| 0 <= k < i ==> writable(#[trigger] all[k]),
        decreases records@.len() - i,
    {
        let ghost before = out@;
        put_record(&mut out, &records[i]);
        proof {
            lemma_records_bytes_push(all.take(i as int), all[i as int]);
            assert(all.take(i as int + 1) =~= all.take(i as int).push(all[i as int]));
            assert(out@ =~= u64_be(all.len() as u64) + records_bytes(all.take(i as int + 1)));
        }
        i += 1;
    }
    assert(all.take(i as int) =~= all);
    SecretBuffer::new(out)
}

/// Reads the 64-bit number that starts at `pos`.
fn get_u64(buf: &[u8], pos: usize) -> (found: Option<(u64, usize)>)
    requires
        pos <= buf@.len(),
    ensures
        match take_u64(buf@.skip(pos as int)) {
            Some((n, rest)) => found matches Some((m, next)) && m == n && next <= buf@.len()
                && buf@.skip(next as int) == rest,
            None => found is None,
        },
{
    if buf.len() - pos < 8 {
        return None;
    }
    let window = slice_subrange(buf, pos, pos + 8);
    let n = read_u64_be(window);
    proof {
        let here = buf@.skip(pos as int);
        assert(forall|i: int| 0 <= i < 8 ==> window@[i] == here[i]);
        assert(here.skip(8) =~= buf@.skip(pos + 8));
    }
    Some((n, pos + 8))
}

/// Reads the run of bytes that starts at `pos`.
fn get_field(buf: &[u8], pos: usize) -> (found: Option<(Vec<u8>, usize)>)
    requires
        pos <= buf@.len(),
    ensures
        match take_field(buf@.skip(pos as int)) {
            Some((content, rest)) => found matches Some((bytes, next)) && bytes@ == content
                && next <= buf@.len() && buf@.skip(next as int) == rest,
            None => found is None,
        },
{
    match get_u64(buf, pos) {
        None => None,
        Some((length, start)) => {
            if length > (buf.len() - start) as u64 {
                return None;
            }
            let end = start + length as usize;
            let content = slice_to_vec(slice_subrange(buf, start, end));
            proof {
                let rest = buf@.skip(start as int);
                assert(content@ =~= rest.take(length as int));
                assert(rest.skip(length as int) =~= buf@.skip(end as int));
            }
            Some((content, end))
        },
    }
}

/// Reads the text that starts at `pos`.
fn get_text(buf: &[u8], pos: usize) -> (found: Option<(String, usize)>)
    requires
        pos <= buf@.len(),
    ensures
        match take_text(buf@.skip(pos as int)) {
            Some((text, rest)) => found matches Some((t, next)) && t@ == text && next
                <= buf@.len() && buf@.skip(next as int) == rest,
            None => found is None,
        },
{
    match get_field(buf, pos) {
        None => None,
        Some((content, next)) => match text_from_utf8(content) {
            None => None,
            Some(text) => Some((text, next)),
        },
    }
}

/// Reads the record that starts at `pos`.
fn get_record(buf: &[u8], pos: usize) -> (found: Option<(Credential, usize)>)
    requires
        pos <= buf@.len(),
    ensures
        match take_record(buf@.skip(pos as int)) {
            Some((record, rest)) => found matches Some((r, next)) && r@ == record && next
                <= buf@.len() && buf@.skip(next as int) == rest,
            None => found is None,
        },
{
    reveal(take_record);
    let (name, after_name) = match get_text(buf, pos) {
        None => {
            return None;
        },
        Some(found) => found,
    };
    let (username, after_username) = match get_text(buf, after_name) {
        None => {
            return None;
        },
        Some(found) => found,
    };
    let (secret, after_secret) = match get_field(buf, after_username) {
        None => {
            return None;
        },
        Some(found) => found,
    };
    let (created, after_created) = match get_u64(buf, after_secret) {
        None => {
            return None;
        },
        Some(found) => found,
    };
    let (updated, next) = match get_u64(buf, after_created) {
        None => {
            return None;
        },
        Some(found) => found,
    };
    match Credential::restore(
        name,
        username,
        SecretBuffer::new(secret),
        created as i64,
        updated as i64,
    ) {
        None => None,
        Some(record) => Some((record, next)),
    }
}

/// Reads a list of records that fills `buf` from its first byte to its
/// last. There is none if `buf` is cut short, goes on after the last
/// record, or holds a text that is no UTF-8 or a record without a name.
pub fn read_list(buf: &[u8]) -> (records: Option<Vec<Credential>>)
    ensures
        match parse_list(buf@) {
            Some(list) => records matches Some(found) && views(found@) == list,
            None => records is None,
        },
{
    assert(buf@.skip(0) =~= buf@);
    let (count, start) = match get_u64(buf, 0) {
        None => {
            return None;
        },
        Some(found) => found,
    };
    let mut found: Vec<Credential> = Vec::new();
    let mut pos: usize = start;
    let mut k: u64 = 0;
    let ghost first = buf@.skip(start as int);
    assert(views(found@) =~= Seq::<CredentialView>::empty());
    proof {
        match take_records(first, count as nat) {
            Some((rs, tail)) => {
                assert(views(found@) + rs =~= rs);
            },
            None => {},
        }
    }
    while k < count
        invariant
            k <= count,
            pos <= buf@.len(),
            take_u64(buf@) == Some((count, first)),
            take_records(first, count as nat) == match take_records(
                buf@.skip(pos as int),
                (count - k) as nat,
            ) {
                Some((rs, tail)) => Some((views(found@) + rs, tail)),
                None => None,
            },
        decreases count - k,
    {
        let ghost here = buf@.skip(pos as int);
        let ghost so_far = views(found@);
        match get_record(buf, pos) {
            None => {
                assert(take_records(here, (count - k) as nat) is None);
                return None;
            },
            Some((record, next)) => {
                found.push(record);
                proof {
                    let rest = buf@.skip(next as int);
                    assert(views(found@) =~= so_far.push(record@));
                    match take_records(rest, (count - k - 1) as nat) {
                        Some((rs, tail)) => {
                            assert(so_far + (seq![record@] + rs) =~= views(found@) + rs);
                        },
                        None => {},
                    }
                }
                pos = next;
            },
        }
        k += 1;
    }
    proof {
        assert(views(found@) + Seq::<CredentialView>::empty() =~= views(found@));
    }
    if pos == buf.len() {
        Some(found)
    } else {
        None
    }
}

} // verus!

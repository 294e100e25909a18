//! The stored form of the records.
//!
//! A stored file record always takes `File::LEN` bytes. It opens with an
//! eight-byte tag, followed by the owner, the three variable-length fields
//! (each behind a four-byte little-endian length), the two timestamps, the
//! grant counter and the bump. Whatever the fields leave unused is padding.
//!
//! A stored grant always takes `AccessGrant::LEN` bytes: its tag, the file
//! handle, the grantee, the instant of issue, the expiry behind a presence
//! byte, and one byte for each flag. A grant without expiry leaves eight
//! bytes of padding.

use crate::access::{AccessGrant, GrantView};
use crate::bytes::{append, lemma_timestamp_roundtrip, pad, spec_zeros};
use crate::error::{DecodeError, Error, Field};
use crate::file::{spec_max_len, File, FileView};
use crate::identity::Identity;
use crate::registry::FileHandle;
use vstd::bytes::*;
use vstd::prelude::*;
use vstd::slice::*;
use vstd::utf8::*;

verus! {

/// The tag of a file record, written little-endian as the record's first
/// eight bytes. A change of layout takes a new tag.
pub const FILE_TAG: u64 = 0xfc30_6a81_f0dd_8b2a;

/// A variable-length field behind its four-byte length.
pub open spec fn spec_prefixed(bytes: Seq<u8>) -> Seq<u8> {
    spec_u32_to_le_bytes(bytes.len() as u32) + bytes
}

/// The bytes that carry the record's content: everything but the padding.
pub open spec fn spec_payload(v: FileView) -> Seq<u8> {
    spec_u64_to_le_bytes(FILE_TAG) + v.owner + spec_prefixed(encode_utf8(v.file_id))
        + spec_prefixed(encode_utf8(v.cid)) + spec_prefixed(v.encrypted_key)
        + spec_u64_to_le_bytes(v.created_at as u64) + spec_u64_to_le_bytes(v.updated_at as u64)
        + spec_u32_to_le_bytes(v.access_count) + seq![v.bump]
}

/// The number of bytes of `spec_payload`.
pub open spec fn spec_payload_len(v: FileView) -> nat {
    8 + v.owner.len() + 4 + v.field_len(Field::FileId) + 4 + v.field_len(Field::Cid) + 4
        + v.field_len(Field::EncryptedKey) + 8 + 8 + 4 + 1
}

/// The stored form of a record that is within bounds: its payload, then
/// zero bytes up to the fixed size.
pub open spec fn spec_encode(v: FileView) -> Seq<u8> {
    spec_payload(v) + spec_zeros(File::LEN - spec_payload_len(v))
}

/// The first field, in record order, that exceeds its declared maximum.
pub open spec fn spec_oversized(v: FileView) -> Option<Field> {
    if v.field_len(Field::FileId) > spec_max_len(Field::FileId) {
        Some(Field::FileId)
    } else if v.field_len(Field::Cid) > spec_max_len(Field::Cid) {
        Some(Field::Cid)
    } else if v.field_len(Field::EncryptedKey) > spec_max_len(Field::EncryptedKey) {
        Some(Field::EncryptedKey)
    } else {
        None
    }
}

/// The storage that a record layout takes when its three variable-length
/// fields may grow to the given maxima.
pub open spec fn spec_storage_size(max_file_id: nat, max_cid: nat, max_key: nat) -> nat {
    8 + 32 + (4 + max_file_id) + (4 + max_cid) + (4 + max_key) + 8 + 8 + 4 + 1
}

/// The payload has the length that `spec_payload_len` gives, and fits the
/// fixed size whenever the record is within bounds.
pub proof fn lemma_payload_len(v: FileView)
    ensures
        spec_payload(v).len() == spec_payload_len(v),
        v.within_bounds() ==> spec_payload_len(v) <= File::LEN,
        v.within_bounds() ==> spec_encode(v).len() == File::LEN,
        File::LEN == 521,
        File::LEN == spec_storage_size(
            spec_max_len(Field::FileId),
            spec_max_len(Field::Cid),
            spec_max_len(Field::EncryptedKey),
        ),
{
    lemma_auto_spec_u64_to_from_le_bytes();
    lemma_auto_spec_u32_to_from_le_bytes();
}

/// Computes the exact storage of a record layout from the declared maxima of
/// its variable-length fields; `None` where the size does not fit a `usize`.
pub fn storage_size(max_file_id: usize, max_cid: usize, max_key: usize) -> (size: Option<usize>)
    ensures
        match size {
            Some(n) => n == spec_storage_size(max_file_id as nat, max_cid as nat, max_key as nat),
            None => spec_storage_size(max_file_id as nat, max_cid as nat, max_key as nat)
                > usize::MAX,
        },
{
    let fixed: usize = 8 + 32 + 4 + 4 + 4 + 8 + 8 + 4 + 1;
    match fixed.checked_add(max_file_id) {
        None => None,
        Some(a) => match a.checked_add(max_cid) {
            None => None,
            Some(b) => b.checked_add(max_key),
        },
    }
}

/// Appends a variable-length field behind its four-byte length.
fn append_prefixed(out: &mut Vec<u8>, src: &[u8])
    requires
        src@.len() <= u32::MAX,
    ensures
        final(out)@ == old(out)@ + spec_prefixed(src@),
{
    let n = u32_to_le_bytes(src.len() as u32);
    append(out, n.as_slice());
    append(out, src);
    assert(out@ =~= old(out)@ + spec_prefixed(src@));
}

/// Writes the stored form of `file`.
///
/// Fails with `FieldTooLong`, naming the first offending field, exactly when
/// a field exceeds its declared maximum; a field of exactly the maximum
/// length is stored. On success the result has `File::LEN` bytes.
pub fn encode(file: &File) -> (res: Result<Vec<u8>, Error>)
    ensures
        match spec_oversized(file@) {
            Some(field) => res == Err::<Vec<u8>, Error>(Error::FieldTooLong(field)),
            None => res matches Ok(bytes) && bytes@ == spec_encode(file@) && bytes@.len()
                == File::LEN,
        },
{
    let file_id = file.file_id.as_str().as_bytes();
    let cid = file.cid.as_str().as_bytes();
    if file_id.len() > File::MAX_FILE_ID_LEN {
        return Err(Error::FieldTooLong(Field::FileId));
    }
    if cid.len() > File::MAX_CID_LEN {
        return Err(Error::FieldTooLong(Field::Cid));
    }
    if file.encrypted_key.len() > File::MAX_ENCRYPTED_KEY_LEN {
        return Err(Error::FieldTooLong(Field::EncryptedKey));
    }
    proof {
        lemma_payload_len(file@);
    }
    let mut out: Vec<u8> = Vec::with_capacity(File::LEN);
    let tag = u64_to_le_bytes(FILE_TAG);
    append(&mut out, tag.as_slice());
    append(&mut out, file.owner.bytes.as_slice());
    append_prefixed(&mut out, file_id);
    append_prefixed(&mut out, cid);
    append_prefixed(&mut out, file.encrypted_key.as_slice());
    let created = u64_to_le_bytes(file.created_at as u64);
    append(&mut out, created.as_slice());
    let updated = u64_to_le_bytes(file.updated_at as u64);
    append(&mut out, updated.as_slice());
    let count = u32_to_le_bytes(file.access_count);
    append(&mut out, count.as_slice());
    out.push(file.bump);
    assert(out@ =~= spec_payload(file@));
    pad(&mut out, File::LEN);
    Ok(out)
}

/// A length-prefixed field read at offset `at`: its bytes, or `None` where
/// the length that the prefix declares exceeds `max`.
pub open spec fn spec_field_at(b: Seq<u8>, at: int, max: nat) -> Option<Seq<u8>> {
    let n = spec_u32_from_le_bytes(b.subrange(at, at + 4)) as int;
    if n > max {
        None
    } else {
        Some(b.subrange(at + 4, at + 4 + n))
    }
}

/// What remains to be read once the three variable-length fields are known:
/// the fixed-size fields that start at offset `at`.
pub open spec fn spec_decode_tail(
    b: Seq<u8>,
    file_id: Seq<u8>,
    cid: Seq<u8>,
    key: Seq<u8>,
    at: int,
) -> FileView {
    FileView {
        owner: b.subrange(8, 40),
        file_id: decode_utf8(file_id),
        cid: decode_utf8(cid),
        encrypted_key: key,
        created_at: spec_u64_from_le_bytes(b.subrange(at, at + 8)) as i64,
        updated_at: spec_u64_from_le_bytes(b.subrange(at + 8, at + 16)) as i64,
        access_count: spec_u32_from_le_bytes(b.subrange(at + 16, at + 20)),
        bump: b[at + 20],
    }
}

/// The record that a byte string stores, or the first reason, in reading
/// order, why it stores none. Padding is not looked at.
pub open spec fn spec_decode(b: Seq<u8>) -> Result<FileView, DecodeError> {
    if b.len() != File::LEN {
        Err(DecodeError::WrongLength)
    } else if b.subrange(0, 8) != spec_u64_to_le_bytes(FILE_TAG) {
        Err(DecodeError::WrongTag)
    } else {
        match spec_field_at(b, 40, spec_max_len(Field::FileId)) {
            None => Err(DecodeError::FieldTooLong(Field::FileId)),
            Some(file_id) => if !valid_utf8(file_id) {
                Err(DecodeError::InvalidText(Field::FileId))
            } else {
                let at = 44 + file_id.len() as int;
                match spec_field_at(b, at, spec_max_len(Field::Cid)) {
                    None => Err(DecodeError::FieldTooLong(Field::Cid)),
                    Some(cid) => if !valid_utf8(cid) {
                        Err(DecodeError::InvalidText(Field::Cid))
                    } else {
                        let at = at + 4 + cid.len() as int;
                        match spec_field_at(b, at, spec_max_len(Field::EncryptedKey)) {
                            None => Err(DecodeError::FieldTooLong(Field::EncryptedKey)),
                            Some(key) => Ok(
                                spec_decode_tail(b, file_id, cid, key, at + 4 + key.len() as int),
                            ),
                        }
                    },
                }
            },
        }
    }
}

/// `String::from_utf8` of std: the bytes become a string exactly when they
/// are valid UTF-8, and the string then consists of those very bytes.
#[verifier::external_body]
fn text_from_utf8(bytes: Vec<u8>) -> (res: Option<String>)
    ensures
        res is Some <==> valid_utf8(bytes@),
        res matches Some(s) ==> encode_utf8(s@) == bytes@,
{
    match String::from_utf8(bytes) {
        Ok(s) => Some(s),
        Err(_) => None,
    }
}

/// Reads the length-prefixed field at offset `at`.
fn field_at(bytes: &[u8], at: usize, max: usize) -> (res: Option<Vec<u8>>)
    requires
        at + 4 + max <= bytes@.len(),
    ensures
        match spec_field_at(bytes@, at as int, max as nat) {
            Some(field) => res matches Some(v) && v@ == field && field.len() <= max,
            None => res is None,
        },
{
    let total = bytes.len();
    assert(at + 4 + max <= total);
    let n = u32_from_le_bytes(slice_subrange(bytes, at, at + 4)) as usize;
    if n > max {
        None
    } else {
        Some(slice_to_vec(slice_subrange(bytes, at + 4, at + 4 + n)))
    }
}

/// Reads a stored record back.
///
/// Succeeds exactly on the byte strings of `File::LEN` bytes that open with
/// the payload of a record within bounds, and returns that record; the
/// padding behind the payload is ignored. Otherwise the error names the
/// first thing, in reading order, that is wrong.
pub fn decode(bytes: &[u8]) -> (res: Result<File, DecodeError>)
    ensures
        match spec_decode(bytes@) {
            Ok(v) => res matches Ok(file) && file@ == v,
            Err(e) => res == Err::<File, DecodeError>(e),
        },
{
    if bytes.len() != File::LEN {
        return Err(DecodeError::WrongLength);
    }
    let tag = u64_from_le_bytes(slice_subrange(bytes, 0, 8));
    proof {
        lemma_auto_spec_u64_to_from_le_bytes();
        lemma_auto_spec_u32_to_from_le_bytes();
    }
    if tag != FILE_TAG {
        return Err(DecodeError::WrongTag);
    }
    let mut owner = [0u8; 32];
    let mut i: usize = 0;
    while i < 32
        invariant
            i <= 32,
            bytes@.len() == File::LEN,
            forall|k: int| 0 <= k < i ==> owner@[k] == bytes@[8 + k],
        decreases 32 - i,
    {
        owner[i] = bytes[8 + i];
        i += 1;
    }
    assert(owner@ =~= bytes@.subrange(8, 40));
    let file_id = match field_at(bytes, 40, File::MAX_FILE_ID_LEN) {
        None => { return Err(DecodeError::FieldTooLong(Field::FileId)); },
        Some(raw) => raw,
    };
    let ghost file_id_bytes = file_id@;
    let mut at: usize = 44 + file_id.len();
    let file_id = match text_from_utf8(file_id) {
        None => { return Err(DecodeError::InvalidText(Field::FileId)); },
        Some(text) => text,
    };
    let cid = match field_at(bytes, at, File::MAX_CID_LEN) {
        None => { return Err(DecodeError::FieldTooLong(Field::Cid)); },
        Some(raw) => raw,
    };
    let ghost cid_bytes = cid@;
    at = at + 4 + cid.len();
    let cid = match text_from_utf8(cid) {
        None => { return Err(DecodeError::InvalidText(Field::Cid)); },
        Some(text) => text,
    };
    let encrypted_key = match field_at(bytes, at, File::MAX_ENCRYPTED_KEY_LEN) {
        None => { return Err(DecodeError::FieldTooLong(Field::EncryptedKey)); },
        Some(raw) => raw,
    };
    at = at + 4 + encrypted_key.len();
    let created_at = u64_from_le_bytes(slice_subrange(bytes, at, at + 8)) as i64;
    let updated_at = u64_from_le_bytes(slice_subrange(bytes, at + 8, at + 16)) as i64;
    let access_count = u32_from_le_bytes(slice_subrange(bytes, at + 16, at + 20));
    let bump = bytes[at + 20];
    proof {
        encode_utf8_decode_utf8(file_id@);
        encode_utf8_decode_utf8(cid@);
    }
    Ok(
        File {
            owner: Identity { bytes: owner },
            file_id,
            cid,
            encrypted_key,
            created_at,
            updated_at,
            access_count,
            bump,
        },
    )
}

/// Decoding inverts encoding: every record within bounds is read back from
/// its stored form unchanged.
pub proof fn lemma_decode_encode(v: FileView)
    requires
        v.within_bounds(),
    ensures
        spec_decode(spec_encode(v)) == Ok::<FileView, DecodeError>(v),
{
    lemma_auto_spec_u64_to_from_le_bytes();
    lemma_auto_spec_u32_to_from_le_bytes();
    lemma_payload_len(v);
    lemma_timestamp_roundtrip(v.created_at, 0);
    lemma_timestamp_roundtrip(v.updated_at, 0);
    encode_utf8_decode_utf8(v.file_id);
    encode_utf8_decode_utf8(v.cid);
    encode_utf8_valid_utf8(v.file_id);
    encode_utf8_valid_utf8(v.cid);
    let b = spec_encode(v);
    let file_id = encode_utf8(v.file_id);
    let cid = encode_utf8(v.cid);
    let key = v.encrypted_key;
    let n1 = file_id.len() as int;
    let n2 = cid.len() as int;
    let n3 = key.len() as int;
    assert(b.subrange(0, 8) =~= spec_u64_to_le_bytes(FILE_TAG));
    assert(b.subrange(8, 40) =~= v.owner);
    assert(b.subrange(40, 44) =~= spec_u32_to_le_bytes(n1 as u32));
    assert(b.subrange(44, 44 + n1) =~= file_id);
    let a2 = 44 + n1;
    assert(b.subrange(a2, a2 + 4) =~= spec_u32_to_le_bytes(n2 as u32));
    assert(b.subrange(a2 + 4, a2 + 4 + n2) =~= cid);
    let a3 = a2 + 4 + n2;
    assert(b.subrange(a3, a3 + 4) =~= spec_u32_to_le_bytes(n3 as u32));
    assert(b.subrange(a3 + 4, a3 + 4 + n3) =~= key);
    let a4 = a3 + 4 + n3;
    assert(b.subrange(a4, a4 + 8) =~= spec_u64_to_le_bytes(v.created_at as u64));
    assert(b.subrange(a4 + 8, a4 + 16) =~= spec_u64_to_le_bytes(v.updated_at as u64));
    assert(b.subrange(a4 + 16, a4 + 20) =~= spec_u32_to_le_bytes(v.access_count));
    assert(b[a4 + 20] == v.bump);
    assert(spec_field_at(b, 40, spec_max_len(Field::FileId)) == Some(file_id));
    assert(spec_field_at(b, a2, spec_max_len(Field::Cid)) == Some(cid));
    assert(spec_field_at(b, a3, spec_max_len(Field::EncryptedKey)) == Some(key));
    assert(spec_decode_tail(b, file_id, cid, key, a4) =~= v);
}

/// Decoding accepts only stored records: a byte string that decodes to `v`
/// has the fixed size and opens with the payload of `v`, and `v` is within
/// bounds.
pub proof fn lemma_decode_sound(b: Seq<u8>, v: FileView)
    requires
        spec_decode(b) == Ok::<FileView, DecodeError>(v),
    ensures
        v.within_bounds(),
        b.len() == File::LEN,
        b.subrange(0, spec_payload_len(v) as int) == spec_payload(v),
{
    lemma_auto_spec_u64_to_from_le_bytes();
    lemma_auto_spec_u32_to_from_le_bytes();
    let file_id = spec_field_at(b, 40, spec_max_len(Field::FileId))->0;
    let a2 = 44 + file_id.len() as int;
    let cid = spec_field_at(b, a2, spec_max_len(Field::Cid))->0;
    let a3 = a2 + 4 + cid.len() as int;
    let key = spec_field_at(b, a3, spec_max_len(Field::EncryptedKey))->0;
    let a4 = a3 + 4 + key.len() as int;
    decode_utf8_encode_utf8(file_id);
    decode_utf8_encode_utf8(cid);
    lemma_timestamp_roundtrip(0, spec_u64_from_le_bytes(b.subrange(a4, a4 + 8)));
    lemma_timestamp_roundtrip(0, spec_u64_from_le_bytes(b.subrange(a4 + 8, a4 + 16)));
    assert(encode_utf8(v.file_id) == file_id);
    assert(encode_utf8(v.cid) == cid);
    assert(v.encrypted_key == key);
    lemma_payload_len(v);
    assert(spec_prefixed(file_id) =~= b.subrange(40, a2));
    assert(spec_prefixed(cid) =~= b.subrange(a2, a3));
    assert(spec_prefixed(key) =~= b.subrange(a3, a4));
    assert(spec_u64_to_le_bytes(v.created_at as u64) == b.subrange(a4, a4 + 8));
    assert(spec_u64_to_le_bytes(v.updated_at as u64) == b.subrange(a4 + 8, a4 + 16));
    assert(spec_u32_to_le_bytes(v.access_count) == b.subrange(a4 + 16, a4 + 20));
    assert(b.subrange(0, spec_payload_len(v) as int) =~= spec_payload(v));
}

/// The tag of a grant record, written little-endian as the record's first
/// eight bytes.
pub const GRANT_TAG: u64 = 0x36cd_87cc_cd0b_a6a1;

/// The byte that stands for a yes or no.
pub open spec fn spec_flag(b: bool) -> u8 {
    if b {
        1u8
    } else {
        0u8
    }
}

/// An optional expiry: a presence byte, then the instant if there is one.
pub open spec fn spec_expiry(expires_at: Option<i64>) -> Seq<u8> {
    match expires_at {
        None => seq![0u8],
        Some(end) => seq![1u8] + spec_u64_to_le_bytes(end as u64),
    }
}

/// The bytes that carry the grant's content: everything but the padding.
pub open spec fn spec_grant_payload(g: GrantView) -> Seq<u8> {
    spec_u64_to_le_bytes(GRANT_TAG) + spec_u64_to_le_bytes(g.file_ref.index as u64) + g.grantee
        + spec_u64_to_le_bytes(g.granted_at as u64) + spec_expiry(g.expires_at)
        + seq![spec_flag(g.revoked)] + seq![spec_flag(g.verified)]
}

/// The number of bytes of `spec_grant_payload`.
pub open spec fn spec_grant_payload_len(g: GrantView) -> nat {
    if g.expires_at is Some {
        (8 + 8 + g.grantee.len() + 8 + 9 + 1 + 1) as nat
    } else {
        (8 + 8 + g.grantee.len() + 8 + 1 + 1 + 1) as nat
    }
}

/// The stored form of a grant: its payload, then zero bytes up to the fixed
/// size.
pub open spec fn spec_encode_grant(g: GrantView) -> Seq<u8> {
    spec_grant_payload(g) + spec_zeros(AccessGrant::LEN - spec_grant_payload_len(g))
}

/// The grant payload has the length that `spec_grant_payload_len` gives, and
/// the stored form has the fixed size.
pub proof fn lemma_grant_payload_len(g: GrantView)
    ensures
        spec_grant_payload(g).len() == spec_grant_payload_len(g),
        g.grantee.len() == 32 ==> spec_encode_grant(g).len() == AccessGrant::LEN,
        AccessGrant::LEN == 67,
{
    lemma_auto_spec_u64_to_from_le_bytes();
}

/// Writes the stored form of `grant`. The result has `AccessGrant::LEN`
/// bytes.
pub fn encode_grant(grant: &AccessGrant) -> (bytes: Vec<u8>)
    ensures
        bytes@ == spec_encode_grant(grant@),
        bytes@.len() == AccessGrant::LEN,
{
    proof {
        lemma_grant_payload_len(grant@);
    }
    let mut out: Vec<u8> = Vec::with_capacity(AccessGrant::LEN);
    let tag = u64_to_le_bytes(GRANT_TAG);
    append(&mut out, tag.as_slice());
    let file = u64_to_le_bytes(grant.file_ref.index as u64);
    append(&mut out, file.as_slice());
    append(&mut out, grant.grantee.bytes.as_slice());
    let granted = u64_to_le_bytes(grant.granted_at as u64);
    append(&mut out, granted.as_slice());
    match grant.expires_at {
        None => {
            out.push(0u8);
        },
        Some(end) => {
            out.push(1u8);
            let end = u64_to_le_bytes(end as u64);
            append(&mut out, end.as_slice());
        },
    }
    out.push(if grant.revoked { 1u8 } else { 0u8 });
    out.push(if grant.verified { 1u8 } else { 0u8 });
    assert(out@ =~= spec_grant_payload(grant@));
    pad(&mut out, AccessGrant::LEN);
    out
}

/// The yes or no that a byte stands for, if it stands for one.
pub open spec fn spec_flag_of(byte: u8) -> Option<bool> {
    if byte == 0 {
        Some(false)
    } else if byte == 1 {
        Some(true)
    } else {
        None
    }
}

/// What remains to be read of a grant once its expiry is known: the two
/// flags, which start at offset `at`.
pub open spec fn spec_decode_grant_tail(b: Seq<u8>, expires_at: Option<i64>, at: int) -> Result<
    GrantView,
    DecodeError,
> {
    match (spec_flag_of(b[at]), spec_flag_of(b[at + 1])) {
        (Some(revoked), Some(verified)) => Ok(
            GrantView {
                file_ref: FileHandle { index: spec_u64_from_le_bytes(b.subrange(8, 16)) as usize },
                grantee: b.subrange(16, 48),
                granted_at: spec_u64_from_le_bytes(b.subrange(48, 56)) as i64,
                expires_at,
                revoked,
                verified,
            },
        ),
        _ => Err(DecodeError::InvalidFlag),
    }
}

/// The grant that a byte string stores, or the first reason, in reading
/// order, why it stores none. Padding is not looked at.
pub open spec fn spec_decode_grant(b: Seq<u8>) -> Result<GrantView, DecodeError> {
    if b.len() != AccessGrant::LEN {
        Err(DecodeError::WrongLength)
    } else if b.subrange(0, 8) != spec_u64_to_le_bytes(GRANT_TAG) {
        Err(DecodeError::WrongTag)
    } else if spec_u64_from_le_bytes(b.subrange(8, 16)) > usize::MAX {
        Err(DecodeError::HandleOutOfRange)
    } else {
        match spec_flag_of(b[56]) {
            None => Err(DecodeError::InvalidFlag),
            Some(false) => spec_decode_grant_tail(b, None, 57),
            Some(true) => spec_decode_grant_tail(
                b,
                Some(spec_u64_from_le_bytes(b.subrange(57, 65)) as i64),
                65,
            ),
        }
    }
}

/// Reads the byte that stands for a yes or no.
fn flag_of(byte: u8) -> (res: Option<bool>)
    ensures
        res == spec_flag_of(byte),
{
    if byte == 0 {
        Some(false)
    } else if byte == 1 {
        Some(true)
    } else {
        None
    }
}

/// Reads a stored grant back.
///
/// Succeeds exactly on the byte strings of `AccessGrant::LEN` bytes that
/// open with the payload of a grant, and returns that grant; the padding
/// behind the payload is ignored. Otherwise the error names the first thing,
/// in reading order, that is wrong.
pub fn decode_grant(bytes: &[u8]) -> (res: Result<AccessGrant, DecodeError>)
    ensures
        match spec_decode_grant(bytes@) {
            Ok(g) => res matches Ok(grant) && grant@ == g,
            Err(e) => res == Err::<AccessGrant, DecodeError>(e),
        },
{
    if bytes.len() != AccessGrant::LEN {
        return Err(DecodeError::WrongLength);
    }
    let tag = u64_from_le_bytes(slice_subrange(bytes, 0, 8));
    proof {
        lemma_auto_spec_u64_to_from_le_bytes();
    }
    if tag != GRANT_TAG {
        return Err(DecodeError::WrongTag);
    }
    let raw = u64_from_le_bytes(slice_subrange(bytes, 8, 16));
    if raw > usize::MAX as u64 {
        return Err(DecodeError::HandleOutOfRange);
    }
    let file_ref = FileHandle { index: raw as usize };
    let mut grantee = [0u8; 32];
    let mut i: usize = 0;
    while i < 32
        invariant
            i <= 32,
            bytes@.len() == AccessGrant::LEN,
            forall|k: int| 0 <= k < i ==> grantee@[k] == bytes@[16 + k],
        decreases 32 - i,
    {
        grantee[i] = bytes[16 + i];
        i += 1;
    }
    assert(grantee@ =~= bytes@.subrange(16, 48));
    let granted_at = u64_from_le_bytes(slice_subrange(bytes, 48, 56)) as i64;
    let (expires_at, at): (Option<i64>, usize) = match flag_of(bytes[56]) {
        None => { return Err(DecodeError::InvalidFlag); },
        Some(false) => (None, 57),
        Some(true) => (Some(u64_from_le_bytes(slice_subrange(bytes, 57, 65)) as i64), 65),
    };
    let revoked = match flag_of(bytes[at]) {
        None => { return Err(DecodeError::InvalidFlag); },
        Some(flag) => flag,
    };
    let verified = match flag_of(bytes[at + 1]) {
        None => { return Err(DecodeError::InvalidFlag); },
        Some(flag) => flag,
    };
    Ok(
        AccessGrant {
            file_ref,
            grantee: Identity { bytes: grantee },
            granted_at,
            expires_at,
            revoked,
            verified,
        },
    )
}

/// Decoding inverts encoding for grants: every grant is read back from its
/// stored form unchanged.
pub proof fn lemma_decode_encode_grant(g: GrantView)
    requires
        g.grantee.len() == 32,
    ensures
        spec_decode_grant(spec_encode_grant(g)) == Ok::<GrantView, DecodeError>(g),
{
    lemma_auto_spec_u64_to_from_le_bytes();
    lemma_grant_payload_len(g);
    lemma_timestamp_roundtrip(g.granted_at, 0);
    let b = spec_encode_grant(g);
    assert(b.subrange(0, 8) =~= spec_u64_to_le_bytes(GRANT_TAG));
    assert(b.subrange(8, 16) =~= spec_u64_to_le_bytes(g.file_ref.index as u64));
    assert(b.subrange(16, 48) =~= g.grantee);
    assert(b.subrange(48, 56) =~= spec_u64_to_le_bytes(g.granted_at as u64));
    match g.expires_at {
        None => {
            assert(b[56] == 0u8);
            assert(b[57] == spec_flag(g.revoked));
            assert(b[58] == spec_flag(g.verified));
            assert(spec_decode_grant_tail(b, None, 57) =~= Ok::<GrantView, DecodeError>(g));
        },
        Some(end) => {
            lemma_timestamp_roundtrip(end, 0);
            assert(b[56] == 1u8);
            assert(b.subrange(57, 65) =~= spec_u64_to_le_bytes(end as u64));
            assert(b[65] == spec_flag(g.revoked));
            assert(b[66] == spec_flag(g.verified));
            assert(spec_decode_grant_tail(b, Some(end), 65) =~= Ok::<GrantView, DecodeError>(g));
        },
    }
}

/// Decoding accepts only stored grants: a byte string that decodes to `g`
/// has the fixed size and opens with the payload of `g`.
pub proof fn lemma_decode_grant_sound(b: Seq<u8>, g: GrantView)
    requires
        spec_decode_grant(b) == Ok::<GrantView, DecodeError>(g),
    ensures
        g.grantee.len() == 32,
        b.len() == AccessGrant::LEN,
        b.subrange(0, spec_grant_payload_len(g) as int) == spec_grant_payload(g),
{
    lemma_auto_spec_u64_to_from_le_bytes();
    lemma_grant_payload_len(g);
    lemma_timestamp_roundtrip(0, spec_u64_from_le_bytes(b.subrange(48, 56)));
    lemma_timestamp_roundtrip(0, spec_u64_from_le_bytes(b.subrange(57, 65)));
    assert(spec_u64_to_le_bytes(g.file_ref.index as u64) == b.subrange(8, 16));
    assert(spec_u64_to_le_bytes(g.granted_at as u64) == b.subrange(48, 56));
    match g.expires_at {
        None => {
            assert(spec_expiry(g.expires_at) =~= b.subrange(56, 57));
        },
        Some(end) => {
            assert(spec_u64_to_le_bytes(end as u64) == b.subrange(57, 65));
            assert(spec_expiry(g.expires_at) =~= b.subrange(56, 65));
        },
    }
    assert(b.subrange(0, spec_grant_payload_len(g) as int) =~= spec_grant_payload(g));
}

} // verus!

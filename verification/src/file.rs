//! The file record: a pointer to an encrypted payload, with its owner,
//! its encrypted key and its bookkeeping.

use crate::error::{Error, Field};
use crate::identity::Identity;
use vstd::prelude::*;
use vstd::utf8::*;

verus! {

/// One registered file.
#[derive(Clone, Debug, PartialEq, Eq)]
pub struct File {
    /// File owner
    pub owner: Identity,
    /// Unique file identifier
    pub file_id: String,
    /// Content identifier of the encrypted payload
    pub cid: String,
    /// Encrypted symmetric key
    pub encrypted_key: Vec<u8>,
    /// Creation timestamp
    pub created_at: i64,
    /// Last update timestamp
    pub updated_at: i64,
    /// Number of access grants ever issued
    pub access_count: u32,
    /// Bump seed of the record's derived address
    pub bump: u8,
}

/// The mathematical content of a file record.
#[verifier::ext_equal]
pub struct FileView {
    pub owner: Seq<u8>,
    pub file_id: Seq<char>,
    pub cid: Seq<char>,
    pub encrypted_key: Seq<u8>,
    pub created_at: i64,
    pub updated_at: i64,
    pub access_count: u32,
    pub bump: u8,
}

impl View for File {
    type V = FileView;

    open spec fn view(&self) -> FileView {
        FileView {
            owner: self.owner@,
            file_id: self.file_id@,
            cid: self.cid@,
            encrypted_key: self.encrypted_key@,
            created_at: self.created_at,
            updated_at: self.updated_at,
            access_count: self.access_count,
            bump: self.bump,
        }
    }
}

/// The declared maximum, in bytes, of a variable-length field.
pub open spec fn spec_max_len(field: Field) -> nat {
    match field {
        Field::FileId => 64,
        Field::Cid => 128,
        Field::EncryptedKey => 256,
    }
}

impl FileView {
    /// The length in bytes of a variable-length field; text counts by its
    /// UTF-8 bytes.
    pub open spec fn field_len(self, field: Field) -> nat {
        match field {
            Field::FileId => encode_utf8(self.file_id).len(),
            Field::Cid => encode_utf8(self.cid).len(),
            Field::EncryptedKey => self.encrypted_key.len(),
        }
    }

    /// No field exceeds its declared maximum, and the owner is a whole
    /// identity.
    pub open spec fn within_bounds(self) -> bool {
        &&& self.owner.len() == 32
        &&& self.field_len(Field::FileId) <= spec_max_len(Field::FileId)
        &&& self.field_len(Field::Cid) <= spec_max_len(Field::Cid)
        &&& self.field_len(Field::EncryptedKey) <= spec_max_len(Field::EncryptedKey)
    }

    /// What holds of every record that a registry keeps: the fields are
    /// within bounds and not empty, and the record was not updated before it
    /// was created.
    pub open spec fn well_formed(self) -> bool {
        &&& self.within_bounds()
        &&& self.field_len(Field::FileId) > 0
        &&& self.field_len(Field::Cid) > 0
        &&& self.field_len(Field::EncryptedKey) > 0
        &&& self.created_at <= self.updated_at
    }
}

/// The verdict on one field's length: an empty field is refused, and so is
/// one beyond its declared maximum.
pub open spec fn spec_check_field(field: Field, len: nat) -> Result<(), Error> {
    if len == 0 {
        Err(Error::FieldEmpty(field))
    } else if len > spec_max_len(field) {
        Err(Error::FieldTooLong(field))
    } else {
        Ok(())
    }
}

/// The declared maximum, in bytes, of a variable-length field.
pub fn max_len(field: Field) -> (max: usize)
    ensures
        max == spec_max_len(field),
{
    match field {
        Field::FileId => File::MAX_FILE_ID_LEN,
        Field::Cid => File::MAX_CID_LEN,
        Field::EncryptedKey => File::MAX_ENCRYPTED_KEY_LEN,
    }
}

/// Checks one field's length against the rule that fields are neither empty
/// nor longer than their declared maximum.
pub fn check_field(field: Field, len: usize) -> (res: Result<(), Error>)
    ensures
        res == spec_check_field(field, len as nat),
{
    if len == 0 {
        Err(Error::FieldEmpty(field))
    } else if len > max_len(field) {
        Err(Error::FieldTooLong(field))
    } else {
        Ok(())
    }
}

impl File {
    /// The most bytes that a file id may take.
    pub const MAX_FILE_ID_LEN: usize = 64;

    /// The most bytes that a content identifier may take.
    pub const MAX_CID_LEN: usize = 128;

    /// The most bytes that an encrypted key may take.
    pub const MAX_ENCRYPTED_KEY_LEN: usize = 256;

    /// The exact size of a stored record: tag, owner, the three
    /// length-prefixed fields at their maxima, two timestamps, the counter
    /// and the bump.
    pub const LEN: usize = 8 + 32 + 4 + Self::MAX_FILE_ID_LEN + 4 + Self::MAX_CID_LEN + 4
        + Self::MAX_ENCRYPTED_KEY_LEN + 8 + 8 + 4 + 1;

    /// Whether `caller` is the owner of this record.
    pub fn is_owned_by(&self, caller: &Identity) -> (yes: bool)
        ensures
            yes == (self@.owner == caller@),
    {
        self.owner.same(caller)
    }

    /// Makes the record of a newly registered file.
    ///
    /// The three fields are checked in record order, each for emptiness and
    /// then against its maximum, and the first failure is reported. On
    /// success the record is created and last updated at `now`, with no
    /// grant issued yet.
    pub fn create(
        owner: Identity,
        file_id: String,
        cid: String,
        encrypted_key: Vec<u8>,
        now: i64,
        bump: u8,
    ) -> (res: Result<File, Error>)
        ensures
            match spec_validate(file_id@, cid@, encrypted_key@) {
                Err(e) => res == Err::<File, Error>(e),
                Ok(()) => res matches Ok(file) && file@ == FileView::created(
                    owner@,
                    file_id@,
                    cid@,
                    encrypted_key@,
                    now,
                    bump,
                ),
            },
            res matches Ok(file) ==> file@.well_formed(),
    {
        match check_field(Field::FileId, file_id.as_str().as_bytes().len()) {
            Err(e) => { return Err(e); },
            Ok(()) => {},
        }
        match check_field(Field::Cid, cid.as_str().as_bytes().len()) {
            Err(e) => { return Err(e); },
            Ok(()) => {},
        }
        match check_field(Field::EncryptedKey, encrypted_key.len()) {
            Err(e) => { return Err(e); },
            Ok(()) => {},
        }
        Ok(
            File {
                owner,
                file_id,
                cid,
                encrypted_key,
                created_at: now,
                updated_at: now,
                access_count: 0,
                bump,
            },
        )
    }

    /// Updates the record's metadata on behalf of `caller`.
    ///
    /// Only the owner may update. A new content identifier, where one is
    /// given, is checked like the one the record was created with and then
    /// replaces it. Every successful update, with or without a new content
    /// identifier, sets the update stamp to `now`; only where `now` lies
    /// before the record's creation does the stamp stay as it was. A refused
    /// update changes nothing.
    pub fn update(&mut self, caller: &Identity, new_cid: Option<String>, now: i64) -> (res: Result<
        (),
        Error,
    >)
        ensures
            res == old(self)@.update(*caller, spec_text(new_cid), now).0,
            final(self)@ == old(self)@.update(*caller, spec_text(new_cid), now).1,
            res is Ok && now >= old(self).created_at ==> final(self).updated_at == now,
            res is Ok && now < old(self).created_at ==> final(self).updated_at == old(
                self,
            ).updated_at,
    {
        if !self.owner.same(caller) {
            return Err(Error::Unauthorized(*caller));
        }
        match new_cid {
            Some(cid) => {
                match check_field(Field::Cid, cid.as_str().as_bytes().len()) {
                    Err(e) => { return Err(e); },
                    Ok(()) => {},
                }
                self.cid = cid;
            },
            None => {},
        }
        self.updated_at = refreshed(self.created_at, self.updated_at, now);
        Ok(())
    }

    /// Counts one more grant issued on behalf of `caller`.
    ///
    /// Only the owner may issue grants, and the counter must have room.
    /// Issuing a grant changes the record, so the update stamp is refreshed
    /// as in `update`. A refused call changes nothing.
    pub fn count_grant(&mut self, caller: &Identity, now: i64) -> (res: Result<(), Error>)
        ensures
            res == old(self)@.count_grant(*caller, now).0,
            final(self)@ == old(self)@.count_grant(*caller, now).1,
    {
        if !self.owner.same(caller) {
            return Err(Error::Unauthorized(*caller));
        }
        if self.access_count == u32::MAX {
            return Err(Error::CounterExhausted);
        }
        self.access_count = self.access_count + 1;
        self.updated_at = refreshed(self.created_at, self.updated_at, now);
        Ok(())
    }

    /// Whether the record is fit to be kept by a registry: no field is
    /// empty or beyond its maximum, and the record was not updated before it
    /// was created.
    pub fn is_well_formed(&self) -> (ok: bool)
        ensures
            ok == self@.well_formed(),
    {
        check_field(Field::FileId, self.file_id.as_str().as_bytes().len()).is_ok() && check_field(
            Field::Cid,
            self.cid.as_str().as_bytes().len(),
        ).is_ok() && check_field(Field::EncryptedKey, self.encrypted_key.len()).is_ok()
            && self.created_at <= self.updated_at
    }

    /// A copy of the record as it stands.
    pub fn snapshot(&self) -> (copy: File)
        ensures
            copy@ == self@,
    {
        File {
            owner: self.owner,
            file_id: self.file_id.clone(),
            cid: self.cid.clone(),
            encrypted_key: self.encrypted_key.clone(),
            created_at: self.created_at,
            updated_at: self.updated_at,
            access_count: self.access_count,
            bump: self.bump,
        }
    }
}

/// The update stamp of a record after a change made at `now`: the stamp
/// becomes `now`. Only a `now` that lies before the record's creation is not
/// taken, since no record is updated before it is created: the stamp then
/// stays as it was.
pub open spec fn spec_refreshed(created_at: i64, updated_at: i64, now: i64) -> i64 {
    if now >= created_at {
        now
    } else {
        updated_at
    }
}

/// The update stamp of a record after a change made at `now`.
pub fn refreshed(created_at: i64, updated_at: i64, now: i64) -> (stamp: i64)
    ensures
        stamp == spec_refreshed(created_at, updated_at, now),
{
    if now >= created_at {
        now
    } else {
        updated_at
    }
}

/// The content of an optional text.
pub open spec fn spec_text(text: Option<String>) -> Option<Seq<char>> {
    match text {
        Some(s) => Some(s@),
        None => None,
    }
}

/// The verdict on the three fields of a new record: the first failure of
/// `spec_check_field`, taken in record order.
pub open spec fn spec_validate(file_id: Seq<char>, cid: Seq<char>, key: Seq<u8>) -> Result<
    (),
    Error,
> {
    if spec_check_field(Field::FileId, encode_utf8(file_id).len()) is Err {
        spec_check_field(Field::FileId, encode_utf8(file_id).len())
    } else if spec_check_field(Field::Cid, encode_utf8(cid).len()) is Err {
        spec_check_field(Field::Cid, encode_utf8(cid).len())
    } else {
        spec_check_field(Field::EncryptedKey, key.len())
    }
}

impl FileView {
    /// The record of a file registered at `now`.
    pub open spec fn created(
        owner: Seq<u8>,
        file_id: Seq<char>,
        cid: Seq<char>,
        key: Seq<u8>,
        now: i64,
        bump: u8,
    ) -> FileView {
        FileView {
            owner,
            file_id,
            cid,
            encrypted_key: key,
            created_at: now,
            updated_at: now,
            access_count: 0,
            bump,
        }
    }

    /// The record after a change made at `now`: the update stamp is
    /// refreshed as `spec_refreshed` says.
    pub open spec fn touched(self, now: i64) -> FileView {
        FileView {
            updated_at: spec_refreshed(self.created_at, self.updated_at, now),
            ..self
        }
    }

    /// The outcome of a metadata update requested by `caller` at `now`.
    pub open spec fn update(self, caller: Identity, new_cid: Option<Seq<char>>, now: i64) -> (
        Result<(), Error>,
        FileView,
    ) {
        if self.owner != caller@ {
            (Err(Error::Unauthorized(caller)), self)
        } else {
            match new_cid {
                None => (Ok(()), self.touched(now)),
                Some(cid) => match spec_check_field(Field::Cid, encode_utf8(cid).len()) {
                    Err(e) => (Err(e), self),
                    Ok(()) => (Ok(()), FileView { cid, ..self }.touched(now)),
                },
            }
        }
    }

    /// The outcome of counting a grant issued by `caller` at `now`.
    pub open spec fn count_grant(self, caller: Identity, now: i64) -> (Result<(), Error>, FileView) {
        if self.owner != caller@ {
            (Err(Error::Unauthorized(caller)), self)
        } else if self.access_count == u32::MAX {
            (Err(Error::CounterExhausted), self)
        } else {
            (
                Ok(()),
                FileView { access_count: (self.access_count + 1) as u32, ..self }.touched(now),
            )
        }
    }
}

} // verus!


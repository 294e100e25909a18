//! Proof verification.
//!
//! A grantee proves, to a verifier that this crate does not look into, a
//! statement that is bound to one file and one grant. Only an accepted proof
//! marks the grant verified, and only a grant that is live and verified
//! lets the file's encrypted key out.

use crate::access::{lemma_with_grant_well_formed, AccessGrant, GrantView};
use crate::bytes::{append, lemma_timestamp_roundtrip};
use crate::error::Error;
use crate::file::{File, FileView};
use crate::identity::{lemma_identity_by_bytes, Identity};
use crate::registry::{FileHandle, Registry, RegistryView};
use vstd::bytes::*;
use vstd::prelude::*;
use vstd::utf8::*;

verus! {

/// The statement that a proof must establish for one grant: the file's
/// owner, the file id behind its eight-byte little-endian length, the
/// grantee, and the instant at which the grant was issued.
pub open spec fn spec_statement(
    owner: Seq<u8>,
    file_id: Seq<char>,
    grantee: Seq<u8>,
    granted_at: i64,
) -> Seq<u8> {
    owner + spec_u64_to_le_bytes(encode_utf8(file_id).len() as u64) + encode_utf8(file_id)
        + grantee + spec_u64_to_le_bytes(granted_at as u64)
}

/// Builds the statement that binds a proof to `grant` on `file`.
pub fn bound_statement(file: &File, grant: &AccessGrant) -> (statement: Vec<u8>)
    ensures
        statement@ == spec_statement(
            file@.owner,
            file@.file_id,
            grant@.grantee,
            grant@.granted_at,
        ),
{
    let file_id = file.file_id.as_str().as_bytes();
    let mut out: Vec<u8> = Vec::new();
    append(&mut out, file.owner.bytes.as_slice());
    let n = u64_to_le_bytes(file_id.len() as u64);
    append(&mut out, n.as_slice());
    append(&mut out, file_id);
    append(&mut out, grant.grantee.bytes.as_slice());
    let at = u64_to_le_bytes(grant.granted_at as u64);
    append(&mut out, at.as_slice());
    assert(out@ =~= spec_statement(
        file@.owner,
        file@.file_id,
        grant@.grantee,
        grant@.granted_at,
    ));
    out
}

/// A statement is bound to its file, its grantee and its grant: statements
/// that agree as bytes were built from the same owner, file id, grantee and
/// instant of issue. A proof of one statement therefore proves no other.
pub proof fn lemma_statement_binds(
    owner1: Seq<u8>,
    file_id1: Seq<char>,
    grantee1: Seq<u8>,
    granted_at1: i64,
    owner2: Seq<u8>,
    file_id2: Seq<char>,
    grantee2: Seq<u8>,
    granted_at2: i64,
)
    requires
        owner1.len() == 32,
        owner2.len() == 32,
        grantee1.len() == 32,
        grantee2.len() == 32,
        encode_utf8(file_id1).len() <= u64::MAX,
        encode_utf8(file_id2).len() <= u64::MAX,
        spec_statement(owner1, file_id1, grantee1, granted_at1) == spec_statement(
            owner2,
            file_id2,
            grantee2,
            granted_at2,
        ),
    ensures
        owner1 == owner2,
        file_id1 == file_id2,
        grantee1 == grantee2,
        granted_at1 == granted_at2,
{
    lemma_auto_spec_u64_to_from_le_bytes();
    let s1 = spec_statement(owner1, file_id1, grantee1, granted_at1);
    let s2 = spec_statement(owner2, file_id2, grantee2, granted_at2);
    let b1 = encode_utf8(file_id1);
    let b2 = encode_utf8(file_id2);
    let n1 = b1.len() as int;
    let n2 = b2.len() as int;
    assert(s1.subrange(0, 32) =~= owner1);
    assert(s2.subrange(0, 32) =~= owner2);
    assert(s1.subrange(32, 40) =~= spec_u64_to_le_bytes(n1 as u64));
    assert(s2.subrange(32, 40) =~= spec_u64_to_le_bytes(n2 as u64));
    assert(n1 as u64 == n2 as u64);
    assert(n1 == n2);
    assert(s1.subrange(40, 40 + n1) =~= b1);
    assert(s2.subrange(40, 40 + n2) =~= b2);
    encode_utf8_decode_utf8(file_id1);
    encode_utf8_decode_utf8(file_id2);
    assert(s1.subrange(40 + n1, 72 + n1) =~= grantee1);
    assert(s2.subrange(40 + n2, 72 + n2) =~= grantee2);
    assert(s1.subrange(72 + n1, 80 + n1) =~= spec_u64_to_le_bytes(granted_at1 as u64));
    assert(s2.subrange(72 + n2, 80 + n2) =~= spec_u64_to_le_bytes(granted_at2 as u64));
    assert(granted_at1 as u64 == granted_at2 as u64);
    lemma_timestamp_roundtrip(granted_at1, 0);
    lemma_timestamp_roundtrip(granted_at2, 0);
}

impl RegistryView {
    /// The statement bound to the grant on `file` for `grantee`, where there
    /// is one.
    pub open spec fn statement(self, file: FileHandle, grantee: Seq<u8>) -> Seq<u8> {
        let grant = self.grants[self.grant_index(file, grantee)];
        spec_statement(self.file(file).owner, self.file(file).file_id, grantee, grant.granted_at)
    }

    /// Whether the key of `file` may be released to `grantee` at `now`: the
    /// grant on record is live, and it is verified.
    pub open spec fn releases_key(self, file: FileHandle, grantee: Seq<u8>, now: i64) -> bool {
        exists|i: int| self.is_grant_for(i, file, grantee) && self.grants[i].releases_key(now)
    }

    /// The outcome of the verifier's verdict on a proof that `grantee`
    /// submitted for `file` at `now`.
    ///
    /// Without a grant that is live at `now` the call is refused, whatever
    /// the verdict. A rejected proof fails and changes nothing, so that an
    /// earlier acceptance stands. An accepted proof marks the grant verified.
    pub open spec fn record_verdict(
        self,
        file: FileHandle,
        grantee: Identity,
        now: i64,
        accepted: bool,
    ) -> (Result<(), Error>, RegistryView) {
        if !self.has_grant(file, grantee@) {
            (Err(Error::Unauthorized(grantee)), self)
        } else {
            let i = self.grant_index(file, grantee@);
            let (res, grant) = self.grants[i].record_verdict(grantee, now, accepted);
            (res, self.with_grant(i, grant))
        }
    }
}

/// A verdict is refused as unauthorized exactly where the grantee is not
/// authorized at that instant: without any grant, with a revoked one, or
/// past the expiry. Whenever a verdict is refused or the proof rejected,
/// nothing changes.
pub proof fn lemma_record_verdict(
    r: RegistryView,
    file: FileHandle,
    grantee: Identity,
    now: i64,
    accepted: bool,
)
    requires
        r.well_formed(),
    ensures
        r.record_verdict(file, grantee, now, accepted).1.well_formed(),
        !r.is_authorized(file, grantee@, now) <==> r.record_verdict(
            file,
            grantee,
            now,
            accepted,
        ).0 == Err::<(), Error>(Error::Unauthorized(grantee)),
        r.is_authorized(file, grantee@, now) && !accepted ==> r.record_verdict(
            file,
            grantee,
            now,
            accepted,
        ).0 == Err::<(), Error>(Error::ProofInvalid),
        r.is_authorized(file, grantee@, now) && accepted ==> r.record_verdict(
            file,
            grantee,
            now,
            accepted,
        ).0 == Ok::<(), Error>(()),
        r.record_verdict(file, grantee, now, accepted).0 is Err ==> r.record_verdict(
            file,
            grantee,
            now,
            accepted,
        ).1 == r,
{
    if r.has_grant(file, grantee@) {
        let i = r.grant_index(file, grantee@);
        assert(r.is_grant_for(i, file, grantee@));
        let (res, grant) = r.grants[i].record_verdict(grantee, now, accepted);
        lemma_with_grant_well_formed(r, i, grant);
        if r.is_authorized(file, grantee@, now) {
            let j = choose|j: int|
                r.is_grant_for(j, file, grantee@) && r.grants[j].is_live(now);
            assert(r.is_grant_for(j, file, grantee@));
        }
        if res is Err {
            assert(r.with_grant(i, grant) =~= r);
        }
    }
}

impl Registry {
    /// The statement that a proof by `grantee` for `file` must establish;
    /// `None` where the file has no grant record for `grantee`.
    pub fn statement(&self, file: FileHandle, grantee: &Identity) -> (res: Option<Vec<u8>>)
        requires
            self@.well_formed(),
        ensures
            match res {
                Some(statement) => self@.has_grant(file, grantee@) && statement@
                    == self@.statement(file, grantee@),
                None => !self@.has_grant(file, grantee@),
            },
    {
        match self.find_grant(file, grantee) {
            None => None,
            Some(found) => {
                proof {
                    let i = self@.grant_index(file, grantee@);
                    assert(self@.is_grant_for(found.index as int, file, grantee@));
                    assert(self@.is_grant_for(i, file, grantee@));
                    assert(self@.has_file(self@.grants[i].file_ref));
                }
                Some(bound_statement(&self.files[file.index], &self.grants[found.index]))
            },
        }
    }

    /// Whether the file's key may be released to `grantee` at `now`.
    /// Authorization is asked before the verified flag.
    pub fn releases_key(&self, file: FileHandle, grantee: &Identity, now: i64) -> (yes: bool)
        requires
            self@.well_formed(),
        ensures
            yes == self@.releases_key(file, grantee@, now),
            yes == (self@.is_authorized(file, grantee@, now) && self@.grants[self@.grant_index(
                file,
                grantee@,
            )].verified),
    {
        match self.find_grant(file, grantee) {
            None => false,
            Some(found) => {
                proof {
                    let i = self@.grant_index(file, grantee@);
                    assert(self@.is_grant_for(found.index as int, file, grantee@));
                    assert(self@.is_grant_for(i, file, grantee@));
                    assert forall|k: int|
                        self@.is_grant_for(k, file, grantee@) implies k == found.index by {
                        assert(self@.is_grant_for(found.index as int, file, grantee@));
                    }
                }
                self.grants[found.index].releases_key(now)
            },
        }
    }

    /// Hands out the file's encrypted key to `grantee` at `now`, provided
    /// that the grantee holds a live grant, and that this grant is verified.
    pub fn release_key(&self, file: FileHandle, grantee: &Identity, now: i64) -> (key: Option<
        Vec<u8>,
    >)
        requires
            self@.well_formed(),
        ensures
            match key {
                Some(k) => self@.releases_key(file, grantee@, now) && k@ == self@.file(
                    file,
                ).encrypted_key,
                None => !self@.releases_key(file, grantee@, now),
            },
    {
        if self.releases_key(file, grantee, now) {
            proof {
                let i = choose|i: int|
                    self@.is_grant_for(i, file, grantee@) && self@.grants[i].releases_key(now);
                assert(self@.has_file(self@.grants[i].file_ref));
            }
            Some(self.files[file.index].encrypted_key.clone())
        } else {
            None
        }
    }
}

/// Records the verifier's verdict on a proof that `grantee` submitted for
/// a file at `now`.
///
/// Fails with `Unauthorized` where `grantee` holds no grant on the file that
/// is live at `now`, whatever the verdict. Fails with `ProofInvalid` where
/// the verifier rejected the proof; the grant then stays as it was, so an
/// earlier acceptance is not undone. An accepted proof marks the grant
/// verified; accepting again changes nothing more.
pub fn record_verdict(
    registry: &mut Registry,
    file: FileHandle,
    grantee: &Identity,
    now: i64,
    accepted: bool,
) -> (res: Result<(), Error>)
    requires
        old(registry)@.well_formed(),
    ensures
        res == old(registry)@.record_verdict(file, *grantee, now, accepted).0,
        final(registry)@ == old(registry)@.record_verdict(file, *grantee, now, accepted).1,
        final(registry)@.well_formed(),
{
    proof {
        lemma_record_verdict(old(registry)@, file, *grantee, now, accepted);
    }
    match registry.find_grant(file, grantee) {
        None => Err(Error::Unauthorized(*grantee)),
        Some(found) => {
            proof {
                let i = old(registry)@.grant_index(file, grantee@);
                assert(old(registry)@.is_grant_for(found.index as int, file, grantee@));
                assert(old(registry)@.is_grant_for(i, file, grantee@));
                lemma_identity_by_bytes(registry.grants[found.index as int].grantee, *grantee);
            }
            let res = registry.grants[found.index].record_verdict(now, accepted);
            assert(registry@ =~= old(registry)@.record_verdict(file, *grantee, now, accepted).1);
            res
        },
    }
}

/// Verifies a proof that `grantee` submits for a file at `now`.
///
/// Authorization comes first: where `grantee` holds no grant on the file
/// that is live at `now`, the call fails with `Unauthorized`, the verifier is
/// not asked, and nothing changes; so nothing is demanded of the verifier
/// there. Otherwise the verifier is asked once, with
/// the proof, the public inputs and the statement bound to the grant, and
/// its verdict is recorded as `record_verdict` says: acceptance marks the
/// grant verified, rejection fails with `ProofInvalid` and changes nothing.
pub fn verify_proof<V: FnOnce(Vec<u8>, Vec<u8>, Vec<u8>) -> bool>(
    registry: &mut Registry,
    file: FileHandle,
    grantee: &Identity,
    proof: Vec<u8>,
    public_inputs: Vec<u8>,
    now: i64,
    verifier: V,
) -> (res: Result<(), Error>)
    requires
        old(registry)@.well_formed(),
        old(registry)@.is_authorized(file, grantee@, now) ==> forall|statement: Vec<u8>|
            statement@ == old(registry)@.statement(file, grantee@) ==> call_requires(
                verifier,
                (proof, public_inputs, statement),
            ),
    ensures
        final(registry)@.well_formed(),
        !old(registry)@.is_authorized(file, grantee@, now) ==> res == Err::<(), Error>(
            Error::Unauthorized(*grantee),
        ) && final(registry)@ == old(registry)@,
        old(registry)@.is_authorized(file, grantee@, now) ==> exists|
            statement: Vec<u8>,
            accepted: bool,
        |
            {
                &&& statement@ == old(registry)@.statement(file, grantee@)
                &&& #[trigger] call_ensures(verifier, (proof, public_inputs, statement), accepted)
                &&& res == old(registry)@.record_verdict(file, *grantee, now, accepted).0
                &&& final(registry)@ == old(registry)@.record_verdict(
                    file,
                    *grantee,
                    now,
                    accepted,
                ).1
            },
{
    if !registry.is_authorized(file, grantee, now) {
        return Err(Error::Unauthorized(*grantee));
    }
    let statement = match registry.statement(file, grantee) {
        None => { return Err(Error::Unauthorized(*grantee)); },
        Some(statement) => statement,
    };
    let accepted = verifier(proof, public_inputs, statement);
    record_verdict(registry, file, grantee, now, accepted)
}

} // verus!

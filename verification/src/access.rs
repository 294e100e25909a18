//! Access grants: one grantee's time-bounded authorization to one file.

use crate::error::{Error, Missing};
use crate::identity::Identity;
use crate::registry::{FileHandle, GrantHandle, Registry, RegistryView};
use vstd::prelude::*;

verus! {

/// One grantee's authorization to one file.
#[derive(Clone, Copy, Debug, PartialEq, Eq)]
pub struct AccessGrant {
    /// The file that the grant is for
    pub file_ref: FileHandle,
    /// The identity that was granted access
    pub grantee: Identity,
    /// When the grant was issued
    pub granted_at: i64,
    /// The instant from which the grant no longer holds; `None` for no expiry
    pub expires_at: Option<i64>,
    /// Whether the owner has revoked the grant
    pub revoked: bool,
    /// Whether a proof bound to this grant has passed the verifier
    pub verified: bool,
}

/// The mathematical content of an access grant.
#[verifier::ext_equal]
pub struct GrantView {
    pub file_ref: FileHandle,
    pub grantee: Seq<u8>,
    pub granted_at: i64,
    pub expires_at: Option<i64>,
    pub revoked: bool,
    pub verified: bool,
}

impl View for AccessGrant {
    type V = GrantView;

    open spec fn view(&self) -> GrantView {
        GrantView {
            file_ref: self.file_ref,
            grantee: self.grantee@,
            granted_at: self.granted_at,
            expires_at: self.expires_at,
            revoked: self.revoked,
            verified: self.verified,
        }
    }
}

impl GrantView {
    /// The grant that is issued at `now`: neither revoked nor verified.
    pub open spec fn issued(
        file_ref: FileHandle,
        grantee: Seq<u8>,
        expires_at: Option<i64>,
        now: i64,
    ) -> GrantView {
        GrantView { file_ref, grantee, granted_at: now, expires_at, revoked: false, verified: false }
    }

    /// Whether the grant authorizes at `now`: it is not revoked, and `now`
    /// lies strictly before the expiry, if there is one.
    pub open spec fn is_live(self, now: i64) -> bool {
        &&& !self.revoked
        &&& match self.expires_at {
            None => true,
            Some(end) => now < end,
        }
    }

    /// Whether the grant lets the file's key out at `now`: it is live and
    /// verified. Liveness is asked first, so a verified flag on a revoked or
    /// expired grant counts for nothing.
    pub open spec fn releases_key(self, now: i64) -> bool {
        self.is_live(now) && self.verified
    }

    /// The grant once revoked.
    pub open spec fn revoke(self) -> GrantView {
        GrantView { revoked: true, ..self }
    }

    /// The grant once a proof bound to it has been accepted.
    pub open spec fn verify(self) -> GrantView {
        GrantView { verified: true, ..self }
    }

    /// The outcome of a verifier's verdict on a proof that `who`, the
    /// grantee, submitted at `now`: a grant that is not live refuses whatever
    /// the verdict, a rejected proof fails and leaves the flag as it was, an
    /// accepted one sets it.
    pub open spec fn record_verdict(self, who: Identity, now: i64, accepted: bool) -> (
        Result<(), Error>,
        GrantView,
    ) {
        if !self.is_live(now) {
            (Err(Error::Unauthorized(who)), self)
        } else if accepted {
            (Ok(()), self.verify())
        } else {
            (Err(Error::ProofInvalid), self)
        }
    }
}

impl AccessGrant {
    /// The exact size of a stored grant: tag, file handle, grantee, the
    /// instant of issue, the optional expiry behind its presence byte, and
    /// the two flags.
    pub const LEN: usize = 8 + 8 + 32 + 8 + 1 + 8 + 1 + 1;

    /// Issues a grant at `now`. An expiry that already lies in the past is
    /// accepted: the grant is then created expired.
    pub fn issue(file_ref: FileHandle, grantee: Identity, expires_at: Option<i64>, now: i64) -> (grant:
        AccessGrant)
        ensures
            grant@ == GrantView::issued(file_ref, grantee@, expires_at, now),
    {
        AccessGrant { file_ref, grantee, granted_at: now, expires_at, revoked: false, verified: false }
    }

    /// Whether the grant authorizes at `now`.
    pub fn is_live(&self, now: i64) -> (live: bool)
        ensures
            live == self@.is_live(now),
    {
        if self.revoked {
            false
        } else {
            match self.expires_at {
                None => true,
                Some(end) => now < end,
            }
        }
    }

    /// Whether the grant lets the file's key out at `now`.
    pub fn releases_key(&self, now: i64) -> (yes: bool)
        ensures
            yes == self@.releases_key(now),
    {
        if !self.is_live(now) {
            false
        } else {
            self.verified
        }
    }

    /// Marks the grant revoked. Revoking twice is the same as revoking once.
    pub fn revoke(&mut self)
        ensures
            final(self)@ == old(self)@.revoke(),
    {
        self.revoked = true;
    }

    /// Marks the grant verified.
    pub fn verify(&mut self)
        ensures
            final(self)@ == old(self)@.verify(),
    {
        self.verified = true;
    }

    /// Records the verifier's verdict on a proof submitted at `now`.
    ///
    /// Fails with `Unauthorized` where the grant is not live at `now`,
    /// whatever the verdict; with `ProofInvalid` where the verifier rejected
    /// the proof, which leaves an earlier acceptance standing. An accepted
    /// proof marks the grant verified.
    pub fn record_verdict(&mut self, now: i64, accepted: bool) -> (res: Result<(), Error>)
        ensures
            res == old(self)@.record_verdict(old(self).grantee, now, accepted).0,
            final(self)@ == old(self)@.record_verdict(old(self).grantee, now, accepted).1,
    {
        if !self.is_live(now) {
            Err(Error::Unauthorized(self.grantee))
        } else if accepted {
            self.verified = true;
            Ok(())
        } else {
            Err(Error::ProofInvalid)
        }
    }
}

impl RegistryView {
    /// Whether `grantee` is authorized on `file` at `now`: a grant is on
    /// record for the pair, and it is live.
    pub open spec fn is_authorized(self, file: FileHandle, grantee: Seq<u8>, now: i64) -> bool {
        exists|i: int| self.is_grant_for(i, file, grantee) && self.grants[i].is_live(now)
    }

    /// The outcome of a grant that `caller` issues to `grantee` at `now`.
    ///
    /// The file's counter moves with every grant issued. A grant already on
    /// record for the pair is replaced where it stands; otherwise the new
    /// grant goes behind the next free handle.
    pub open spec fn grant_access(
        self,
        file: FileHandle,
        caller: Identity,
        grantee: Identity,
        expires_at: Option<i64>,
        now: i64,
    ) -> (Result<GrantHandle, Error>, RegistryView) {
        if !self.has_file(file) {
            (Err(Error::NotFound(Missing::File)), self)
        } else {
            let (counted, record) = self.file(file).count_grant(caller, now);
            match counted {
                Err(e) => (Err(e), self),
                Ok(()) => {
                    let fresh = GrantView::issued(file, grantee@, expires_at, now);
                    let counted = self.with_file(file, record);
                    if self.has_grant(file, grantee@) {
                        let i = self.grant_index(file, grantee@);
                        (Ok(GrantHandle { index: i as usize }), counted.with_grant(i, fresh))
                    } else {
                        (
                            Ok(GrantHandle { index: self.grants.len() as usize }),
                            RegistryView { grants: counted.grants.push(fresh), ..counted },
                        )
                    }
                },
            }
        }
    }

    /// The outcome of `caller` revoking the grant of `grantee`.
    ///
    /// Any grant on record can be revoked, be it live, expired or revoked
    /// already; only where the pair has no grant record at all is there
    /// nothing to find.
    pub open spec fn revoke_access(self, file: FileHandle, caller: Identity, grantee: Identity) -> (
        Result<(), Error>,
        RegistryView,
    ) {
        if !self.has_file(file) {
            (Err(Error::NotFound(Missing::File)), self)
        } else if self.file(file).owner != caller@ {
            (Err(Error::Unauthorized(caller)), self)
        } else if !self.has_grant(file, grantee@) {
            (Err(Error::NotFound(Missing::Grant(grantee))), self)
        } else {
            let i = self.grant_index(file, grantee@);
            (Ok(()), self.with_grant(i, self.grants[i].revoke()))
        }
    }
}

/// Replacing a grant record by one for the same file and grantee keeps the
/// registry well formed.
pub proof fn lemma_with_grant_well_formed(r: RegistryView, i: int, grant: GrantView)
    requires
        r.well_formed(),
        0 <= i < r.grants.len(),
        grant.file_ref == r.grants[i].file_ref,
        grant.grantee == r.grants[i].grantee,
    ensures
        r.with_grant(i, grant).well_formed(),
{
    let s = r.with_grant(i, grant);
    assert forall|a: int, b: int, owner: Seq<u8>, file_id: Seq<char>|
        s.is_file_named(a, owner, file_id) && s.is_file_named(b, owner, file_id) implies a
        == b by {
        assert(r.is_file_named(a, owner, file_id));
        assert(r.is_file_named(b, owner, file_id));
    }
    assert forall|a: int, b: int, f: FileHandle, grantee: Seq<u8>|
        s.is_grant_for(a, f, grantee) && s.is_grant_for(b, f, grantee) implies a == b by {
        assert(r.is_grant_for(a, f, grantee));
        assert(r.is_grant_for(b, f, grantee));
    }
    assert forall|a: int| 0 <= a < s.grants.len() implies s.has_file(
        (#[trigger] s.grants[a]).file_ref,
    ) && s.grants[a].grantee.len() == 32 by {
        assert(r.has_file(r.grants[a].file_ref));
        assert(r.grants[a].grantee.len() == 32);
    }
}

/// Adding the first grant for a file and grantee keeps the registry well
/// formed, as long as the handles do not run out.
pub proof fn lemma_push_grant_well_formed(r: RegistryView, grant: GrantView)
    requires
        r.well_formed(),
        r.grants.len() < usize::MAX,
        r.has_file(grant.file_ref),
        grant.grantee.len() == 32,
        !r.has_grant(grant.file_ref, grant.grantee),
    ensures
        (RegistryView { grants: r.grants.push(grant), ..r }).well_formed(),
{
    let s = RegistryView { grants: r.grants.push(grant), ..r };
    let n = r.grants.len() as int;
    assert forall|a: int, b: int, owner: Seq<u8>, file_id: Seq<char>|
        s.is_file_named(a, owner, file_id) && s.is_file_named(b, owner, file_id) implies a
        == b by {
        assert(r.is_file_named(a, owner, file_id));
        assert(r.is_file_named(b, owner, file_id));
    }
    assert forall|a: int, b: int, f: FileHandle, grantee: Seq<u8>|
        s.is_grant_for(a, f, grantee) && s.is_grant_for(b, f, grantee) implies a == b by {
        if a < n && b < n {
            assert(r.is_grant_for(a, f, grantee));
            assert(r.is_grant_for(b, f, grantee));
        } else if a < n {
            assert(r.is_grant_for(a, grant.file_ref, grant.grantee));
        } else if b < n {
            assert(r.is_grant_for(b, grant.file_ref, grant.grantee));
        }
    }
    assert forall|a: int| 0 <= a < s.grants.len() implies s.has_file(
        (#[trigger] s.grants[a]).file_ref,
    ) && s.grants[a].grantee.len() == 32 by {
        if a < n {
            assert(r.has_file(r.grants[a].file_ref));
            assert(r.grants[a].grantee.len() == 32);
        }
    }
}

/// Issuing a grant keeps the registry well formed, as long as a new grant
/// record finds a free handle.
pub proof fn lemma_grant_access_well_formed(
    r: RegistryView,
    file: FileHandle,
    caller: Identity,
    grantee: Identity,
    expires_at: Option<i64>,
    now: i64,
)
    requires
        r.well_formed(),
        r.has_grant(file, grantee@) || r.grants.len() < usize::MAX,
    ensures
        r.grant_access(file, caller, grantee, expires_at, now).1.well_formed(),
{
    if r.has_file(file) {
        let (counted, record) = r.file(file).count_grant(caller, now);
        if counted is Ok {
            assert(r.file(file).well_formed());
            crate::registry::lemma_with_file_well_formed(r, file, record);
            let fresh = GrantView::issued(file, grantee@, expires_at, now);
            let counted = r.with_file(file, record);
            if r.has_grant(file, grantee@) {
                let i = r.grant_index(file, grantee@);
                assert(r.is_grant_for(i, file, grantee@));
                lemma_with_grant_well_formed(counted, i, fresh);
            } else {
                assert forall|k: int| !counted.is_grant_for(k, file, grantee@) by {
                    assert(!r.is_grant_for(k, file, grantee@));
                }
                lemma_push_grant_well_formed(counted, fresh);
            }
        }
    }
}

/// Revoking keeps the registry well formed.
pub proof fn lemma_revoke_access_well_formed(
    r: RegistryView,
    file: FileHandle,
    caller: Identity,
    grantee: Identity,
)
    requires
        r.well_formed(),
    ensures
        r.revoke_access(file, caller, grantee).1.well_formed(),
{
    if r.revoke_access(file, caller, grantee).0 is Ok {
        let i = r.grant_index(file, grantee@);
        assert(r.is_grant_for(i, file, grantee@));
        lemma_with_grant_well_formed(r, i, r.grants[i].revoke());
    }
}

impl Registry {
    /// Whether `grantee` is authorized on the file at `now`: a grant is on
    /// record, it is not revoked, and `now` lies strictly before its expiry,
    /// if it has one. The verified flag plays no part.
    pub fn is_authorized(&self, file: FileHandle, grantee: &Identity, now: i64) -> (yes: bool)
        requires
            self@.well_formed(),
        ensures
            yes == self@.is_authorized(file, grantee@, now),
    {
        match self.find_grant(file, grantee) {
            None => false,
            Some(found) => {
                assert forall|i: int|
                    self@.is_grant_for(i, file, grantee@) implies i == found.index by {
                    assert(self@.is_grant_for(found.index as int, file, grantee@));
                }
                self.grants[found.index].is_live(now)
            },
        }
    }
}

/// Issues a grant on a file to `grantee`, on behalf of `caller`, at `now`.
///
/// Fails with `NotFound` for a handle without record, with `Unauthorized`
/// unless `caller` owns the file, and with `CounterExhausted` where the
/// file's counter is at its largest value. On success the file's counter
/// has grown by one, and the file has exactly one grant for `grantee`: a
/// new one, or the earlier one replaced, issued at `now` with the given
/// expiry, neither revoked nor verified. An expiry in the past is accepted.
/// A refused call changes nothing.
pub fn grant_access(
    registry: &mut Registry,
    file: FileHandle,
    caller: &Identity,
    grantee: Identity,
    expires_at: Option<i64>,
    now: i64,
) -> (res: Result<GrantHandle, Error>)
    requires
        old(registry)@.well_formed(),
    ensures
        res == old(registry)@.grant_access(file, *caller, grantee, expires_at, now).0,
        final(registry)@ == old(registry)@.grant_access(file, *caller, grantee, expires_at, now).1,
        final(registry)@.well_formed(),
{
    if file.index >= registry.files.len() {
        return Err(Error::NotFound(Missing::File));
    }
    match registry.files[file.index].count_grant(caller, now) {
        Err(e) => { return Err(e); },
        Ok(()) => {},
    }
    let fresh = AccessGrant::issue(file, grantee, expires_at, now);
    let ghost spec = old(registry)@.grant_access(file, *caller, grantee, expires_at, now);
    let ghost counted = registry@;
    match registry.find_grant(file, &grantee) {
        Some(found) => {
            proof {
                let i = old(registry)@.grant_index(file, grantee@);
                assert(old(registry)@.is_grant_for(found.index as int, file, grantee@));
                assert(old(registry)@.is_grant_for(i, file, grantee@));
                lemma_grant_access_well_formed(
                    old(registry)@,
                    file,
                    *caller,
                    grantee,
                    expires_at,
                    now,
                );
            }
            registry.grants.set(found.index, fresh);
            assert(registry@ =~= spec.1);
            Ok(found)
        },
        None => {
            let handle = GrantHandle { index: registry.grants.len() };
            registry.grants.push(fresh);
            proof {
                assert(registry.grants@.len() == registry.grants.len());
                assert forall|k: int| !old(registry)@.is_grant_for(k, file, grantee@) by {
                    assert(!counted.is_grant_for(k, file, grantee@));
                }
                lemma_grant_access_well_formed(
                    old(registry)@,
                    file,
                    *caller,
                    grantee,
                    expires_at,
                    now,
                );
                assert(registry@ =~= spec.1);
            }
            Ok(handle)
        },
    }
}

/// Revokes the grant of `grantee` on a file, on behalf of `caller`.
///
/// Fails with `NotFound` for a handle without record, with `Unauthorized`
/// unless `caller` owns the file, and with `NotFound` where the file has no
/// grant record for `grantee`. On success the grant is marked revoked;
/// revoking a grant that is revoked already succeeds and changes nothing.
/// A refused call changes nothing.
pub fn revoke_access(
    registry: &mut Registry,
    file: FileHandle,
    caller: &Identity,
    grantee: &Identity,
) -> (res: Result<(), Error>)
    requires
        old(registry)@.well_formed(),
    ensures
        res == old(registry)@.revoke_access(file, *caller, *grantee).0,
        final(registry)@ == old(registry)@.revoke_access(file, *caller, *grantee).1,
        final(registry)@.well_formed(),
{
    if file.index >= registry.files.len() {
        return Err(Error::NotFound(Missing::File));
    }
    if !registry.files[file.index].is_owned_by(caller) {
        return Err(Error::Unauthorized(*caller));
    }
    match registry.find_grant(file, grantee) {
        None => Err(Error::NotFound(Missing::Grant(*grantee))),
        Some(found) => {
            proof {
                let i = old(registry)@.grant_index(file, grantee@);
                assert(old(registry)@.is_grant_for(found.index as int, file, grantee@));
                assert(old(registry)@.is_grant_for(i, file, grantee@));
                lemma_revoke_access_well_formed(old(registry)@, file, *caller, *grantee);
            }
            registry.grants[found.index].revoke();
            assert(registry@ =~= old(registry)@.revoke_access(file, *caller, *grantee).1);
            Ok(())
        },
    }
}

} // verus!

//! What holds of the registry across operations.
//!
//! Every operation of this crate changes a registry exactly as one of the
//! steps below changes its content, so what is proved here of steps and of
//! runs of steps holds of every use of the crate.

use crate::access::{
    lemma_grant_access_well_formed, lemma_revoke_access_well_formed, GrantView,
};
use crate::codec::{spec_oversized};
use crate::error::{Error, Field};
use crate::file::{spec_max_len, FileView};
use crate::verification::lemma_record_verdict;
use crate::identity::Identity;
use crate::registry::{
    lemma_initialize_file_well_formed, lemma_update_file_well_formed, FileHandle, GrantHandle,
    RegistryView,
};
use vstd::prelude::*;
use vstd::utf8::*;

verus! {

/// One operation on a registry, with its arguments.
pub enum Operation {
    InitializeFile {
        owner: Identity,
        file_id: Seq<char>,
        cid: Seq<char>,
        key: Seq<u8>,
        now: i64,
        bump: u8,
    },
    UpdateFile { file: FileHandle, caller: Identity, new_cid: Option<Seq<char>>, now: i64 },
    GrantAccess {
        file: FileHandle,
        caller: Identity,
        grantee: Identity,
        expires_at: Option<i64>,
        now: i64,
    },
    RevokeAccess { file: FileHandle, caller: Identity, grantee: Identity },
    RecordVerdict { file: FileHandle, grantee: Identity, now: i64, accepted: bool },
}

impl RegistryView {
    /// The registry after one operation.
    pub open spec fn step(self, op: Operation) -> RegistryView {
        match op {
            Operation::InitializeFile { owner, file_id, cid, key, now, bump } => {
                self.initialize_file(owner, file_id, cid, key, now, bump).1
            },
            Operation::UpdateFile { file, caller, new_cid, now } => {
                self.update_file(file, caller, new_cid, now).1
            },
            Operation::GrantAccess { file, caller, grantee, expires_at, now } => {
                self.grant_access(file, caller, grantee, expires_at, now).1
            },
            Operation::RevokeAccess { file, caller, grantee } => {
                self.revoke_access(file, caller, grantee).1
            },
            Operation::RecordVerdict { file, grantee, now, accepted } => {
                self.record_verdict(file, grantee, now, accepted).1
            },
        }
    }

    /// Whether the operation is refused.
    pub open spec fn refuses(self, op: Operation) -> bool {
        match op {
            Operation::InitializeFile { owner, file_id, cid, key, now, bump } => {
                self.initialize_file(owner, file_id, cid, key, now, bump).0 is Err
            },
            Operation::UpdateFile { file, caller, new_cid, now } => {
                self.update_file(file, caller, new_cid, now).0 is Err
            },
            Operation::GrantAccess { file, caller, grantee, expires_at, now } => {
                self.grant_access(file, caller, grantee, expires_at, now).0 is Err
            },
            Operation::RevokeAccess { file, caller, grantee } => {
                self.revoke_access(file, caller, grantee).0 is Err
            },
            Operation::RecordVerdict { file, grantee, now, accepted } => {
                self.record_verdict(file, grantee, now, accepted).0 is Err
            },
        }
    }

    /// The registry after a run of operations, first to last.
    pub open spec fn run(self, ops: Seq<Operation>) -> RegistryView
        decreases ops.len(),
    {
        if ops.len() == 0 {
            self
        } else {
            self.step(ops[0]).run(ops.drop_first())
        }
    }

    /// Whether `op`, applied to this registry, issues a grant on `file` to
    /// `grantee`.
    pub open spec fn is_grant_to(self, op: Operation, file: FileHandle, grantee: Seq<u8>) -> bool {
        match op {
            Operation::GrantAccess { file: f, caller, grantee: g, expires_at, now } => {
                &&& f == file
                &&& g@ == grantee
                &&& self.grant_access(f, caller, g, expires_at, now).0 is Ok
            },
            _ => false,
        }
    }

    /// Whether a run of operations, applied to this registry, issues a grant
    /// on `file` to `grantee` along the way.
    pub open spec fn run_grants_to(
        self,
        ops: Seq<Operation>,
        file: FileHandle,
        grantee: Seq<u8>,
    ) -> bool
        decreases ops.len(),
    {
        if ops.len() == 0 {
            false
        } else {
            self.is_grant_to(ops[0], file, grantee) || self.step(ops[0]).run_grants_to(
                ops.drop_first(),
                file,
                grantee,
            )
        }
    }

    /// Whether every grant on record for the pair is revoked.
    pub open spec fn all_revoked(self, file: FileHandle, grantee: Seq<u8>) -> bool {
        forall|i: int| #[trigger] self.is_grant_for(i, file, grantee) ==> self.grants[i].revoked
    }
}

/// Every operation keeps the registry well formed, as long as a new record
/// finds a free handle.
pub proof fn lemma_step_well_formed(r: RegistryView, op: Operation)
    requires
        r.well_formed(),
        r.files.len() < usize::MAX,
        r.grants.len() < usize::MAX,
    ensures
        r.step(op).well_formed(),
{
    match op {
        Operation::InitializeFile { owner, file_id, cid, key, now, bump } => {
            lemma_initialize_file_well_formed(r, owner, file_id, cid, key, now, bump);
        },
        Operation::UpdateFile { file, caller, new_cid, now } => {
            lemma_update_file_well_formed(r, file, caller, new_cid, now);
        },
        Operation::GrantAccess { file, caller, grantee, expires_at, now } => {
            lemma_grant_access_well_formed(r, file, caller, grantee, expires_at, now);
        },
        Operation::RevokeAccess { file, caller, grantee } => {
            lemma_revoke_access_well_formed(r, file, caller, grantee);
        },
        Operation::RecordVerdict { file, grantee, now, accepted } => {
            lemma_record_verdict(r, file, grantee, now, accepted);
        },
    }
}

/// A refused operation changes nothing: no record is touched on the way to
/// a refusal.
pub proof fn lemma_refusal_changes_nothing(r: RegistryView, op: Operation)
    requires
        r.refuses(op),
    ensures
        r.step(op) == r,
{
    assert(r.step(op) =~= r);
}

/// No operation removes a file record, changes its owner, its file id or
/// its creation stamp, or lowers its grant counter; and a record that was
/// not updated before it was created stays so.
pub proof fn lemma_step_keeps_files(r: RegistryView, op: Operation, file: FileHandle)
    requires
        r.has_file(file),
    ensures
        r.step(op).has_file(file),
        r.step(op).file(file).owner == r.file(file).owner,
        r.step(op).file(file).file_id == r.file(file).file_id,
        r.step(op).file(file).created_at == r.file(file).created_at,
        r.step(op).file(file).access_count >= r.file(file).access_count,
        r.file(file).created_at <= r.file(file).updated_at ==> r.step(op).file(file).created_at
            <= r.step(op).file(file).updated_at,
{
}

/// What holds of a file record after one operation holds after any run of
/// them: the record is still there, under the same owner and file id, with
/// the creation stamp it was given; its grant counter has not gone down,
/// and it was last updated no earlier than it was created.
pub proof fn lemma_run_keeps_files(r: RegistryView, ops: Seq<Operation>, file: FileHandle)
    requires
        r.has_file(file),
    ensures
        r.run(ops).has_file(file),
        r.run(ops).file(file).owner == r.file(file).owner,
        r.run(ops).file(file).file_id == r.file(file).file_id,
        r.run(ops).file(file).created_at == r.file(file).created_at,
        r.run(ops).file(file).access_count >= r.file(file).access_count,
        r.file(file).created_at <= r.file(file).updated_at ==> r.run(ops).file(file).created_at
            <= r.run(ops).file(file).updated_at,
    decreases ops.len(),
{
    if ops.len() > 0 {
        lemma_step_keeps_files(r, ops[0], file);
        lemma_run_keeps_files(r.step(ops[0]), ops.drop_first(), file);
    }
}

/// An update refreshes: whenever the owner updates a file on record, with
/// no new content identifier or with one of 1 to 128 bytes, the update
/// succeeds and the update stamp becomes `now`, provided that `now` is not
/// before the record's creation. The content identifier is the new one if
/// one was given, and the old one otherwise. Nothing else changes: not the
/// rest of the record, not another file, not a grant.
pub proof fn lemma_update_refreshes(
    r: RegistryView,
    file: FileHandle,
    caller: Identity,
    new_cid: Option<Seq<char>>,
    now: i64,
)
    requires
        r.has_file(file),
        r.file(file).owner == caller@,
        new_cid matches Some(cid) ==> 1 <= encode_utf8(cid).len() <= 128,
    ensures
        r.update_file(file, caller, new_cid, now).0 == Ok::<(), Error>(()),
        now >= r.file(file).created_at ==> r.update_file(file, caller, new_cid, now).1.file(
            file,
        ).updated_at == now,
        now < r.file(file).created_at ==> r.update_file(file, caller, new_cid, now).1.file(
            file,
        ).updated_at == r.file(file).updated_at,
        r.update_file(file, caller, new_cid, now).1.file(file).cid == (match new_cid {
            Some(cid) => cid,
            None => r.file(file).cid,
        }),
        r.update_file(file, caller, new_cid, now).1.file(file) == (FileView {
            cid: r.update_file(file, caller, new_cid, now).1.file(file).cid,
            updated_at: r.update_file(file, caller, new_cid, now).1.file(file).updated_at,
            ..r.file(file)
        }),
        r.update_file(file, caller, new_cid, now).1.grants == r.grants,
        r.update_file(file, caller, new_cid, now).1.files.len() == r.files.len(),
        forall|other: FileHandle|
            r.has_file(other) && other != file ==> #[trigger] r.update_file(
                file,
                caller,
                new_cid,
                now,
            ).1.file(other) == r.file(other),
{
}

/// Every run of operations keeps the registry well formed, as long as the
/// handles cannot run out on the way. In particular every record in it
/// keeps its fields within their bounds, and was last updated no earlier
/// than it was created.
pub proof fn lemma_run_well_formed(r: RegistryView, ops: Seq<Operation>)
    requires
        r.well_formed(),
        r.files.len() + ops.len() <= usize::MAX,
        r.grants.len() + ops.len() <= usize::MAX,
    ensures
        r.run(ops).well_formed(),
    decreases ops.len(),
{
    if ops.len() > 0 {
        lemma_step_well_formed(r, ops[0]);
        assert(r.step(ops[0]).files.len() <= r.files.len() + 1);
        assert(r.step(ops[0]).grants.len() <= r.grants.len() + 1);
        lemma_run_well_formed(r.step(ops[0]), ops.drop_first());
    }
}

/// Only a grant that is issued adds to a file's counter, and each adds one.
pub proof fn lemma_counter_counts_grants(r: RegistryView, op: Operation, file: FileHandle)
    requires
        r.has_file(file),
    ensures
        r.step(op).file(file).access_count == r.file(file).access_count + (if exists|
            grantee: Seq<u8>,
        |
            r.is_grant_to(op, file, grantee) {
            1int
        } else {
            0int
        }),
{
    match op {
        Operation::GrantAccess { file: f, caller, grantee, expires_at, now } => {
            if f == file && r.grant_access(f, caller, grantee, expires_at, now).0 is Ok {
                assert(r.is_grant_to(op, file, grantee@));
            }
        },
        _ => {},
    }
}

/// An operation that does not issue the grantee a new grant on the file
/// leaves their grant record where it stands, with its instant of issue and
/// its expiry; and a flag of it that is set stays set. So a verified grant
/// stays verified, also through a proof that the verifier rejects.
pub proof fn lemma_step_keeps_grant(
    r: RegistryView,
    op: Operation,
    file: FileHandle,
    grantee: Seq<u8>,
    i: int,
)
    requires
        r.is_grant_for(i, file, grantee),
        !r.is_grant_to(op, file, grantee),
    ensures
        r.step(op).is_grant_for(i, file, grantee),
        r.step(op).grants[i].granted_at == r.grants[i].granted_at,
        r.step(op).grants[i].expires_at == r.grants[i].expires_at,
        r.grants[i].revoked ==> r.step(op).grants[i].revoked,
        r.grants[i].verified ==> r.step(op).grants[i].verified,
{
    match op {
        Operation::GrantAccess { file: f, caller, grantee: g, expires_at, now } => {
            if r.grant_access(f, caller, g, expires_at, now).0 is Ok && r.has_grant(f, g@) {
                let j = r.grant_index(f, g@);
                assert(r.is_grant_for(j, f, g@));
            }
        },
        Operation::RevokeAccess { file: f, caller, grantee: g } => {
            if r.has_grant(f, g@) {
                let j = r.grant_index(f, g@);
                assert(r.is_grant_for(j, f, g@));
            }
        },
        Operation::RecordVerdict { file: f, grantee: g, now, accepted } => {
            if r.has_grant(f, g@) {
                let j = r.grant_index(f, g@);
                assert(r.is_grant_for(j, f, g@));
            }
        },
        _ => {},
    }
}

/// Once revoked, a grantee stays revoked through any operation that does
/// not issue them a new grant on that file.
pub proof fn lemma_step_keeps_revoked(
    r: RegistryView,
    op: Operation,
    file: FileHandle,
    grantee: Seq<u8>,
)
    requires
        r.all_revoked(file, grantee),
        !r.is_grant_to(op, file, grantee),
    ensures
        r.step(op).all_revoked(file, grantee),
{
    let s = r.step(op);
    assert forall|i: int| #[trigger] s.is_grant_for(i, file, grantee) implies s.grants[i].revoked by {
        match op {
            Operation::InitializeFile { owner, file_id, cid, key, now, bump } => {
                assert(r.is_grant_for(i, file, grantee));
            },
            Operation::UpdateFile { file: f, caller, new_cid, now } => {
                assert(r.is_grant_for(i, file, grantee));
            },
            Operation::GrantAccess { file: f, caller, grantee: g, expires_at, now } => {
                if r.grant_access(f, caller, g, expires_at, now).0 is Ok {
                    if r.has_grant(f, g@) {
                        let j = r.grant_index(f, g@);
                        assert(r.is_grant_for(j, f, g@));
                        assert(i != j);
                    }
                    assert(r.is_grant_for(i, file, grantee));
                } else {
                    assert(r.is_grant_for(i, file, grantee));
                }
            },
            Operation::RevokeAccess { file: f, caller, grantee: g } => {
                if r.revoke_access(f, caller, g).0 is Ok {
                    let j = r.grant_index(f, g@);
                    assert(r.is_grant_for(j, f, g@));
                    if i != j {
                        assert(r.is_grant_for(i, file, grantee));
                    }
                } else {
                    assert(r.is_grant_for(i, file, grantee));
                }
            },
            Operation::RecordVerdict { file: f, grantee: g, now, accepted } => {
                if r.has_grant(f, g@) {
                    let j = r.grant_index(f, g@);
                    assert(r.is_grant_for(j, f, g@));
                    assert(r.is_grant_for(i, file, grantee));
                } else {
                    assert(r.is_grant_for(i, file, grantee));
                }
            },
        }
    }
}

/// Once revoked, a grantee stays revoked through any run of operations that
/// does not issue them a new grant on that file.
pub proof fn lemma_run_keeps_revoked(
    r: RegistryView,
    ops: Seq<Operation>,
    file: FileHandle,
    grantee: Seq<u8>,
)
    requires
        r.all_revoked(file, grantee),
        !r.run_grants_to(ops, file, grantee),
    ensures
        r.run(ops).all_revoked(file, grantee),
    decreases ops.len(),
{
    if ops.len() > 0 {
        lemma_step_keeps_revoked(r, ops[0], file, grantee);
        lemma_run_keeps_revoked(r.step(ops[0]), ops.drop_first(), file, grantee);
    }
}

/// Revocation lasts: after a successful `revoke_access`, the grantee is not
/// authorized on that file at any instant, whatever their grant's verified
/// flag or expiry, and stays so through every run of later operations that
/// does not issue them a new grant on that file.
pub proof fn lemma_revocation_lasts(
    r: RegistryView,
    file: FileHandle,
    caller: Identity,
    grantee: Identity,
    ops: Seq<Operation>,
    now: i64,
)
    requires
        r.well_formed(),
        r.revoke_access(file, caller, grantee).0 is Ok,
        !r.revoke_access(file, caller, grantee).1.run_grants_to(ops, file, grantee@),
    ensures
        !r.revoke_access(file, caller, grantee).1.is_authorized(file, grantee@, now),
        !r.revoke_access(file, caller, grantee).1.run(ops).is_authorized(file, grantee@, now),
        !r.revoke_access(file, caller, grantee).1.run(ops).releases_key(file, grantee@, now),
{
    let s = r.revoke_access(file, caller, grantee).1;
    let i = r.grant_index(file, grantee@);
    assert(r.is_grant_for(i, file, grantee@));
    assert forall|k: int| #[trigger] s.is_grant_for(k, file, grantee@) implies s.grants[k].revoked by {
        assert(r.is_grant_for(k, file, grantee@));
    }
    lemma_run_keeps_revoked(s, ops, file, grantee@);
}

/// Expiry is exclusive: a grant issued with expiry `end` authorizes at
/// every instant before `end` and at none from `end` on; in particular not
/// at `end` itself, and still at the instant just before it.
pub proof fn lemma_expiry_is_exclusive(
    r: RegistryView,
    file: FileHandle,
    caller: Identity,
    grantee: Identity,
    end: i64,
    now: i64,
    at: i64,
)
    requires
        r.well_formed(),
        r.grant_access(file, caller, grantee, Some(end), now).0 is Ok,
    ensures
        r.grant_access(file, caller, grantee, Some(end), now).1.is_authorized(file, grantee@, at)
            <==> at < end,
        !r.grant_access(file, caller, grantee, Some(end), now).1.is_authorized(
            file,
            grantee@,
            end,
        ),
        end > i64::MIN ==> r.grant_access(file, caller, grantee, Some(end), now).1.is_authorized(
            file,
            grantee@,
            (end - 1) as i64,
        ),
{
    lemma_granted(r, file, caller, grantee, Some(end), now);
    let s = r.grant_access(file, caller, grantee, Some(end), now).1;
    let i = r.grant_access(file, caller, grantee, Some(end), now).0->Ok_0.index as int;
    assert(s.is_grant_for(i, file, grantee@));
    assert forall|q: i64| s.is_authorized(file, grantee@, q) <==> q < end by {
        if q < end {
            assert(s.is_grant_for(i, file, grantee@) && s.grants[i].is_live(q));
        }
        if s.is_authorized(file, grantee@, q) {
            let k = choose|k: int| s.is_grant_for(k, file, grantee@) && s.grants[k].is_live(q);
            assert(k == i);
        }
    }
}

/// What a successful `grant_access` leaves behind: the file has exactly one
/// grant record for the grantee, behind the handle returned, and it is the
/// grant just issued. Every other grant record is as it was.
pub proof fn lemma_granted(
    r: RegistryView,
    file: FileHandle,
    caller: Identity,
    grantee: Identity,
    expires_at: Option<i64>,
    now: i64,
)
    requires
        r.well_formed(),
        r.grant_access(file, caller, grantee, expires_at, now).0 is Ok,
    ensures
        ({
            let (res, s) = r.grant_access(file, caller, grantee, expires_at, now);
            let i = res->Ok_0.index as int;
            &&& s.is_grant_for(i, file, grantee@)
            &&& s.grants[i] == GrantView::issued(file, grantee@, expires_at, now)
            &&& forall|k: int| #[trigger] s.is_grant_for(k, file, grantee@) ==> k == i
            &&& forall|k: int| 0 <= k < r.grants.len() && k != i ==> s.grants[k] == r.grants[k]
            &&& s.grants.len() == if r.has_grant(file, grantee@) {
                r.grants.len()
            } else {
                r.grants.len() + 1
            }
            &&& s.file(file).access_count == r.file(file).access_count + 1
        }),
{
    let (res, s) = r.grant_access(file, caller, grantee, expires_at, now);
    let i = res->Ok_0.index as int;
    if r.has_grant(file, grantee@) {
        let j = r.grant_index(file, grantee@);
        assert(r.is_grant_for(j, file, grantee@));
        assert forall|k: int| #[trigger] s.is_grant_for(k, file, grantee@) implies k == i by {
            if k != j {
                assert(r.is_grant_for(k, file, grantee@));
            }
        }
    } else {
        assert forall|k: int| #[trigger] s.is_grant_for(k, file, grantee@) implies k == i by {
            if k != i {
                assert(r.is_grant_for(k, file, grantee@));
            }
        }
    }
}

/// Granting again replaces: two grants in a row to one grantee, with
/// whatever expiries, leave exactly one grant record for them, behind the
/// same handle, and it carries the second call's expiry.
pub proof fn lemma_regrant_replaces(
    r: RegistryView,
    file: FileHandle,
    caller: Identity,
    grantee: Identity,
    first_expiry: Option<i64>,
    first_now: i64,
    second_expiry: Option<i64>,
    second_now: i64,
)
    requires
        r.well_formed(),
        r.has_grant(file, grantee@) || r.grants.len() < usize::MAX,
        r.grant_access(file, caller, grantee, first_expiry, first_now).0 is Ok,
        r.grant_access(file, caller, grantee, first_expiry, first_now).1.grant_access(
            file,
            caller,
            grantee,
            second_expiry,
            second_now,
        ).0 is Ok,
    ensures
        ({
            let (first, s1) = r.grant_access(file, caller, grantee, first_expiry, first_now);
            let (second, s2) = s1.grant_access(file, caller, grantee, second_expiry, second_now);
            let i = second->Ok_0.index as int;
            &&& second == first
            &&& s2.grants.len() == s1.grants.len()
            &&& s2.is_grant_for(i, file, grantee@)
            &&& forall|k: int| #[trigger] s2.is_grant_for(k, file, grantee@) ==> k == i
            &&& s2.grants[i] == GrantView::issued(file, grantee@, second_expiry, second_now)
            &&& s2.grants[i].expires_at == second_expiry
        }),
{
    let (first, s1) = r.grant_access(file, caller, grantee, first_expiry, first_now);
    lemma_granted(r, file, caller, grantee, first_expiry, first_now);
    lemma_grant_access_well_formed(r, file, caller, grantee, first_expiry, first_now);
    lemma_granted(s1, file, caller, grantee, second_expiry, second_now);
    let i = first->Ok_0.index as int;
    assert(s1.is_grant_for(i, file, grantee@));
    let j = s1.grant_index(file, grantee@);
    assert(s1.is_grant_for(j, file, grantee@));
}

/// Verification is gated: a grantee who was never granted access cannot
/// have a proof accepted, whatever the verifier says, and nothing changes.
/// A grantee who is authorized and whose proof the verifier accepts ends
/// up verified, and the file's key may be released to them.
pub proof fn lemma_verification_is_gated(
    r: RegistryView,
    file: FileHandle,
    grantee: Identity,
    now: i64,
    accepted: bool,
)
    requires
        r.well_formed(),
    ensures
        !r.has_grant(file, grantee@) ==> r.record_verdict(file, grantee, now, accepted) == (
            Err::<(), Error>(Error::Unauthorized(grantee)),
            r,
        ),
        r.is_authorized(file, grantee@, now) && accepted ==> {
            &&& r.record_verdict(file, grantee, now, accepted).0 is Ok
            &&& r.record_verdict(file, grantee, now, accepted).1.releases_key(file, grantee@, now)
            &&& r.record_verdict(file, grantee, now, accepted).1.grants[r.grant_index(
                file,
                grantee@,
            )].verified
        },
        r.releases_key(file, grantee@, now) ==> r.record_verdict(
            file,
            grantee,
            now,
            accepted,
        ).1.releases_key(file, grantee@, now),
{
    lemma_record_verdict(r, file, grantee, now, accepted);
    let s = r.record_verdict(file, grantee, now, accepted).1;
    if r.has_grant(file, grantee@) {
        let i = r.grant_index(file, grantee@);
        assert(r.is_grant_for(i, file, grantee@));
        if r.is_authorized(file, grantee@, now) {
            let j = choose|j: int| r.is_grant_for(j, file, grantee@) && r.grants[j].is_live(now);
            assert(j == i);
            if accepted {
                assert(s.is_grant_for(i, file, grantee@) && s.grants[i].releases_key(now));
            }
        }
        if r.releases_key(file, grantee@, now) {
            let j = choose|j: int| r.is_grant_for(j, file, grantee@) && r.grants[j].releases_key(now);
            assert(j == i);
            assert(s.is_grant_for(i, file, grantee@) && s.grants[i].releases_key(now));
        }
    }
}

/// Encoding refuses a record exactly when one of its fields exceeds the
/// declared maximum; a field of exactly the maximum length is no reason to
/// refuse.
pub proof fn lemma_size_bound(v: FileView, field: Field)
    ensures
        v.field_len(field) > spec_max_len(field) ==> spec_oversized(v) is Some,
        spec_oversized(v) == Some(field) ==> v.field_len(field) > spec_max_len(field),
        spec_oversized(v) is None <==> (v.field_len(Field::FileId) <= spec_max_len(Field::FileId)
            && v.field_len(Field::Cid) <= spec_max_len(Field::Cid) && v.field_len(
            Field::EncryptedKey,
        ) <= spec_max_len(Field::EncryptedKey)),
{
}

} // verus!

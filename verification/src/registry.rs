//! The registry: the file records, keyed by owner and file id, and the
//! grants on them, keyed by file and grantee.

use crate::access::{AccessGrant, GrantView};
use crate::error::{Error, Field, Missing};
use crate::file::{spec_text, spec_validate, File, FileView};
use crate::identity::Identity;
use vstd::prelude::*;

verus! {

/// Names a file record of a registry. Files are never removed, so a handle
/// stays good.
#[derive(Clone, Copy, Debug, PartialEq, Eq, Hash)]
pub struct FileHandle {
    pub index: usize,
}

/// Names a grant record of a registry. Grants are replaced in place and
/// never removed, so a handle stays good.
#[derive(Clone, Copy, Debug, PartialEq, Eq, Hash)]
pub struct GrantHandle {
    pub index: usize,
}

/// The file records and the grants on them.
pub struct Registry {
    pub(crate) files: Vec<File>,
    pub(crate) grants: Vec<AccessGrant>,
}

/// The mathematical content of a registry.
#[verifier::ext_equal]
pub struct RegistryView {
    pub files: Seq<FileView>,
    pub grants: Seq<GrantView>,
}

/// The content of a registry that holds the given records.
pub open spec fn spec_records(files: Seq<File>, grants: Seq<AccessGrant>) -> RegistryView {
    RegistryView {
        files: files.map_values(|f: File| f@),
        grants: grants.map_values(|g: AccessGrant| g@),
    }
}

impl View for Registry {
    type V = RegistryView;

    open(crate) spec fn view(&self) -> RegistryView {
        spec_records(self.files@, self.grants@)
    }
}

impl RegistryView {
    /// Whether the handle names a file record.
    pub open spec fn has_file(self, handle: FileHandle) -> bool {
        handle.index < self.files.len()
    }

    /// The file record behind a handle.
    pub open spec fn file(self, handle: FileHandle) -> FileView {
        self.files[handle.index as int]
    }

    /// Whether record `i` is the file that `owner` keeps under `file_id`.
    pub open spec fn is_file_named(self, i: int, owner: Seq<u8>, file_id: Seq<char>) -> bool {
        &&& 0 <= i < self.files.len()
        &&& self.files[i].owner == owner
        &&& self.files[i].file_id == file_id
    }

    /// Whether `owner` keeps a file under `file_id`.
    pub open spec fn file_named(self, owner: Seq<u8>, file_id: Seq<char>) -> bool {
        exists|i: int| self.is_file_named(i, owner, file_id)
    }

    /// Whether record `i` is the grant on `file` for `grantee`.
    pub open spec fn is_grant_for(self, i: int, file: FileHandle, grantee: Seq<u8>) -> bool {
        &&& 0 <= i < self.grants.len()
        &&& self.grants[i].file_ref == file
        &&& self.grants[i].grantee == grantee
    }

    /// Whether a grant on `file` for `grantee` is on record, live or not.
    pub open spec fn has_grant(self, file: FileHandle, grantee: Seq<u8>) -> bool {
        exists|i: int| self.is_grant_for(i, file, grantee)
    }

    /// The position of the grant on `file` for `grantee`, where there is one.
    pub open spec fn grant_index(self, file: FileHandle, grantee: Seq<u8>) -> int {
        choose|i: int| self.is_grant_for(i, file, grantee)
    }

    /// What holds of every registry: each file record is well formed, no
    /// owner keeps two files under one id, each grant is for a file on
    /// record, and no file has two grants for one grantee.
    pub open spec fn well_formed(self) -> bool {
        &&& self.files.len() <= usize::MAX
        &&& self.grants.len() <= usize::MAX
        &&& forall|i: int| 0 <= i < self.files.len() ==> (#[trigger] self.files[i]).well_formed()
        &&& forall|i: int, j: int, owner: Seq<u8>, file_id: Seq<char>|
            #![trigger self.is_file_named(i, owner, file_id), self.is_file_named(j, owner, file_id)]
            self.is_file_named(i, owner, file_id) && self.is_file_named(j, owner, file_id) ==> i
                == j
        &&& forall|i: int|
            0 <= i < self.grants.len() ==> self.has_file((#[trigger] self.grants[i]).file_ref)
                && self.grants[i].grantee.len() == 32
        &&& forall|i: int, j: int, file: FileHandle, grantee: Seq<u8>|
            #![trigger self.is_grant_for(i, file, grantee), self.is_grant_for(j, file, grantee)]
            self.is_grant_for(i, file, grantee) && self.is_grant_for(j, file, grantee) ==> i == j
    }

    /// The registry with one file record replaced.
    pub open spec fn with_file(self, handle: FileHandle, file: FileView) -> RegistryView {
        RegistryView { files: self.files.update(handle.index as int, file), ..self }
    }

    /// The registry with one grant record replaced.
    pub open spec fn with_grant(self, i: int, grant: GrantView) -> RegistryView {
        RegistryView { grants: self.grants.update(i, grant), ..self }
    }

    /// The outcome of registering a file at `now`.
    ///
    /// The fields are validated first; then the key must be new to the
    /// owner. The new record goes behind the next free handle.
    pub open spec fn initialize_file(
        self,
        owner: Identity,
        file_id: Seq<char>,
        cid: Seq<char>,
        key: Seq<u8>,
        now: i64,
        bump: u8,
    ) -> (Result<FileHandle, Error>, RegistryView) {
        match spec_validate(file_id, cid, key) {
            Err(e) => (Err(e), self),
            Ok(()) => if self.file_named(owner@, file_id) {
                (Err(Error::AlreadyExists), self)
            } else {
                (
                    Ok(FileHandle { index: self.files.len() as usize }),
                    RegistryView {
                        files: self.files.push(
                            FileView::created(owner@, file_id, cid, key, now, bump),
                        ),
                        ..self
                    },
                )
            },
        }
    }

    /// The outcome of a metadata update requested by `caller` at `now`.
    pub open spec fn update_file(
        self,
        handle: FileHandle,
        caller: Identity,
        new_cid: Option<Seq<char>>,
        now: i64,
    ) -> (Result<(), Error>, RegistryView) {
        if !self.has_file(handle) {
            (Err(Error::NotFound(Missing::File)), self)
        } else {
            let (res, file) = self.file(handle).update(caller, new_cid, now);
            (res, self.with_file(handle, file))
        }
    }
}

/// Replacing a file record by one with the same key, itself well formed,
/// keeps the registry well formed.
pub proof fn lemma_with_file_well_formed(r: RegistryView, handle: FileHandle, file: FileView)
    requires
        r.well_formed(),
        r.has_file(handle),
        file.well_formed(),
        file.owner == r.file(handle).owner,
        file.file_id == r.file(handle).file_id,
    ensures
        r.with_file(handle, file).well_formed(),
{
    let s = r.with_file(handle, file);
    assert forall|i: int, j: int, owner: Seq<u8>, file_id: Seq<char>|
        s.is_file_named(i, owner, file_id) && s.is_file_named(j, owner, file_id) implies i
        == j by {
        assert(r.is_file_named(i, owner, file_id));
        assert(r.is_file_named(j, owner, file_id));
    }
    assert forall|i: int, j: int, f: FileHandle, grantee: Seq<u8>|
        s.is_grant_for(i, f, grantee) && s.is_grant_for(j, f, grantee) implies i == j by {
        assert(r.is_grant_for(i, f, grantee));
        assert(r.is_grant_for(j, f, grantee));
    }
    assert forall|i: int| 0 <= i < s.grants.len() implies s.has_file(
        (#[trigger] s.grants[i]).file_ref,
    ) && s.grants[i].grantee.len() == 32 by {
        assert(r.has_file(r.grants[i].file_ref));
    }
}

/// Registering a file keeps the registry well formed, as long as the
/// handles do not run out.
pub proof fn lemma_initialize_file_well_formed(
    r: RegistryView,
    owner: Identity,
    file_id: Seq<char>,
    cid: Seq<char>,
    key: Seq<u8>,
    now: i64,
    bump: u8,
)
    requires
        r.well_formed(),
        r.files.len() < usize::MAX,
    ensures
        r.initialize_file(owner, file_id, cid, key, now, bump).1.well_formed(),
{
    let (res, s) = r.initialize_file(owner, file_id, cid, key, now, bump);
    if res is Ok {
        let n = r.files.len() as int;
        assert(s.files[n].well_formed());
        assert forall|i: int, j: int, o: Seq<u8>, f: Seq<char>|
            s.is_file_named(i, o, f) && s.is_file_named(j, o, f) implies i == j by {
            if i < n && j < n {
                assert(r.is_file_named(i, o, f));
                assert(r.is_file_named(j, o, f));
            } else if i < n {
                assert(r.is_file_named(i, owner@, file_id));
            } else if j < n {
                assert(r.is_file_named(j, owner@, file_id));
            }
        }
        assert forall|i: int, j: int, f: FileHandle, grantee: Seq<u8>|
            s.is_grant_for(i, f, grantee) && s.is_grant_for(j, f, grantee) implies i == j by {
            assert(r.is_grant_for(i, f, grantee));
            assert(r.is_grant_for(j, f, grantee));
        }
        assert forall|i: int| 0 <= i < s.grants.len() implies s.has_file(
            (#[trigger] s.grants[i]).file_ref,
        ) && s.grants[i].grantee.len() == 32 by {
            assert(r.has_file(r.grants[i].file_ref));
        }
    }
}

/// A metadata update keeps the registry well formed.
pub proof fn lemma_update_file_well_formed(
    r: RegistryView,
    handle: FileHandle,
    caller: Identity,
    new_cid: Option<Seq<char>>,
    now: i64,
)
    requires
        r.well_formed(),
    ensures
        r.update_file(handle, caller, new_cid, now).1.well_formed(),
{
    if r.has_file(handle) {
        let (res, file) = r.file(handle).update(caller, new_cid, now);
        assert(r.file(handle).well_formed());
        lemma_with_file_well_formed(r, handle, file);
    }
}

impl Registry {
    /// A registry without records.
    pub fn new() -> (registry: Registry)
        ensures
            registry@.files.len() == 0,
            registry@.grants.len() == 0,
            registry@.well_formed(),
    {
        Registry { files: Vec::new(), grants: Vec::new() }
    }

    /// Builds a registry from records, such as were read back from storage;
    /// the position of a record becomes its handle.
    ///
    /// Succeeds exactly when the records make a well-formed registry: every
    /// file record is well formed, no owner keeps two files under one id,
    /// every grant is for a file among the records, and no file has two
    /// grants for one grantee.
    pub fn restore(files: Vec<File>, grants: Vec<AccessGrant>) -> (res: Option<Registry>)
        ensures
            match res {
                Some(registry) => registry@ == spec_records(files@, grants@)
                    && registry@.well_formed(),
                None => !spec_records(files@, grants@).well_formed(),
            },
    {
        let ghost view = spec_records(files@, grants@);
        let mut i: usize = 0;
        while i < files.len()
            invariant
                i <= files.len(),
                view == spec_records(files@, grants@),
                forall|a: int| 0 <= a < i ==> (#[trigger] view.files[a]).well_formed(),
                forall|a: int, b: int|
                    #![trigger view.files[a], view.files[b]]
                    0 <= a < b < i ==> !(view.files[a].owner == view.files[b].owner
                        && view.files[a].file_id == view.files[b].file_id),
            decreases files.len() - i,
        {
            if !files[i].is_well_formed() {
                assert(!view.files[i as int].well_formed());
                return None;
            }
            let mut j: usize = 0;
            while j < i
                invariant
                    j <= i < files.len(),
                    view == spec_records(files@, grants@),
                    forall|a: int|
                        #![trigger view.files[a]]
                        0 <= a < j ==> !(view.files[a].owner == view.files[i as int].owner
                            && view.files[a].file_id == view.files[i as int].file_id),
                decreases i - j,
            {
                if files[j].owner.same(&files[i].owner) && files[j].file_id == files[i].file_id {
                    proof {
                        let owner = view.files[i as int].owner;
                        let file_id = view.files[i as int].file_id;
                        assert(view.is_file_named(j as int, owner, file_id));
                        assert(view.is_file_named(i as int, owner, file_id));
                    }
                    return None;
                }
                j += 1;
            }
            i += 1;
        }
        let mut i: usize = 0;
        while i < grants.len()
            invariant
                i <= grants.len(),
                view == spec_records(files@, grants@),
                forall|a: int|
                    0 <= a < i ==> view.has_file((#[trigger] view.grants[a]).file_ref)
                        && view.grants[a].grantee.len() == 32,
                forall|a: int, b: int|
                    #![trigger view.grants[a], view.grants[b]]
                    0 <= a < b < i ==> !(view.grants[a].file_ref == view.grants[b].file_ref
                        && view.grants[a].grantee == view.grants[b].grantee),
            decreases grants.len() - i,
        {
            if grants[i].file_ref.index >= files.len() {
                assert(!view.has_file(view.grants[i as int].file_ref));
                return None;
            }
            let mut j: usize = 0;
            while j < i
                invariant
                    j <= i < grants.len(),
                    view == spec_records(files@, grants@),
                    forall|a: int|
                        #![trigger view.grants[a]]
                        0 <= a < j ==> !(view.grants[a].file_ref == view.grants[i as int].file_ref
                            && view.grants[a].grantee == view.grants[i as int].grantee),
                decreases i - j,
            {
                if grants[j].file_ref.index == grants[i].file_ref.index && grants[j].grantee.same(
                    &grants[i].grantee,
                ) {
                    proof {
                        let file = view.grants[i as int].file_ref;
                        let grantee = view.grants[i as int].grantee;
                        assert(view.is_grant_for(j as int, file, grantee));
                        assert(view.is_grant_for(i as int, file, grantee));
                    }
                    return None;
                }
                j += 1;
            }
            i += 1;
        }
        proof {
            assert forall|a: int, b: int, owner: Seq<u8>, file_id: Seq<char>|
                view.is_file_named(a, owner, file_id) && view.is_file_named(
                    b,
                    owner,
                    file_id,
                ) implies a == b by {
                if a < b {
                    assert(!(view.files[a].owner == view.files[b].owner && view.files[a].file_id
                        == view.files[b].file_id));
                } else if b < a {
                    assert(!(view.files[b].owner == view.files[a].owner && view.files[b].file_id
                        == view.files[a].file_id));
                }
            }
            assert forall|a: int, b: int, file: FileHandle, grantee: Seq<u8>|
                view.is_grant_for(a, file, grantee) && view.is_grant_for(
                    b,
                    file,
                    grantee,
                ) implies a == b by {
                if a < b {
                    assert(!(view.grants[a].file_ref == view.grants[b].file_ref
                        && view.grants[a].grantee == view.grants[b].grantee));
                } else if b < a {
                    assert(!(view.grants[b].file_ref == view.grants[a].file_ref
                        && view.grants[b].grantee == view.grants[a].grantee));
                }
            }
            assert(files@.len() == files.len());
            assert(grants@.len() == grants.len());
        }
        Some(Registry { files, grants })
    }

    /// The number of file records.
    pub fn file_count(&self) -> (n: usize)
        ensures
            n == self@.files.len(),
    {
        self.files.len()
    }

    /// The number of grant records.
    pub fn grant_count(&self) -> (n: usize)
        ensures
            n == self@.grants.len(),
    {
        self.grants.len()
    }

    /// The file record behind a handle. Never fails for a handle that
    /// `initialize_file` returned for this registry.
    pub fn get(&self, handle: FileHandle) -> (res: Result<&File, Error>)
        ensures
            match res {
                Ok(file) => self@.has_file(handle) && file@ == self@.file(handle),
                Err(e) => !self@.has_file(handle) && e == Error::NotFound(Missing::File),
            },
    {
        if handle.index < self.files.len() {
            Ok(&self.files[handle.index])
        } else {
            Err(Error::NotFound(Missing::File))
        }
    }

    /// The handle of the file that `owner` keeps under `file_id`.
    pub fn find_file(&self, owner: &Identity, file_id: &String) -> (found: Option<FileHandle>)
        ensures
            match found {
                Some(handle) => self@.is_file_named(handle.index as int, owner@, file_id@),
                None => !self@.file_named(owner@, file_id@),
            },
    {
        let mut i: usize = 0;
        while i < self.files.len()
            invariant
                i <= self.files.len(),
                forall|k: int| 0 <= k < i ==> !self@.is_file_named(k, owner@, file_id@),
            decreases self.files.len() - i,
        {
            if self.files[i].owner.same(owner) && self.files[i].file_id == *file_id {
                return Some(FileHandle { index: i });
            }
            i += 1;
        }
        None
    }

    /// The handle of the grant on `file` for `grantee`, live or not.
    pub fn find_grant(&self, file: FileHandle, grantee: &Identity) -> (found: Option<GrantHandle>)
        ensures
            match found {
                Some(handle) => self@.is_grant_for(handle.index as int, file, grantee@),
                None => !self@.has_grant(file, grantee@),
            },
    {
        let mut i: usize = 0;
        while i < self.grants.len()
            invariant
                i <= self.grants.len(),
                forall|k: int| 0 <= k < i ==> !self@.is_grant_for(k, file, grantee@),
            decreases self.grants.len() - i,
        {
            if self.grants[i].file_ref.index == file.index && self.grants[i].grantee.same(grantee) {
                return Some(GrantHandle { index: i });
            }
            i += 1;
        }
        None
    }

    /// The grant record behind a handle.
    pub fn grant(&self, handle: GrantHandle) -> (res: Option<&AccessGrant>)
        ensures
            match res {
                Some(grant) => handle.index < self@.grants.len() && grant@
                    == self@.grants[handle.index as int],
                None => handle.index >= self@.grants.len(),
            },
    {
        if handle.index < self.grants.len() {
            Some(&self.grants[handle.index])
        } else {
            None
        }
    }
}

/// Registers a file for `owner` at `now`.
///
/// Fails with `FieldEmpty` or `FieldTooLong`, naming the first offending
/// field, where a field breaks its rule; else with `AlreadyExists` where the
/// owner already keeps a file under `file_id`. On success the new record is
/// created and last updated at `now` with no grant issued, and its handle is
/// returned. A refused call changes nothing.
pub fn initialize_file(
    registry: &mut Registry,
    owner: Identity,
    file_id: String,
    cid: String,
    encrypted_key: Vec<u8>,
    now: i64,
    bump: u8,
) -> (res: Result<FileHandle, Error>)
    requires
        old(registry)@.well_formed(),
    ensures
        res == old(registry)@.initialize_file(owner, file_id@, cid@, encrypted_key@, now, bump).0,
        final(registry)@ == old(registry)@.initialize_file(
            owner,
            file_id@,
            cid@,
            encrypted_key@,
            now,
            bump,
        ).1,
        final(registry)@.well_formed(),
{
    let file = match File::create(owner, file_id, cid, encrypted_key, now, bump) {
        Err(e) => { return Err(e); },
        Ok(file) => file,
    };
    match registry.find_file(&file.owner, &file.file_id) {
        Some(_) => Err(Error::AlreadyExists),
        None => {
            let handle = FileHandle { index: registry.files.len() };
            let ghost added = file@;
            registry.files.push(file);
            proof {
                assert(registry.files@.len() == registry.files.len());
                lemma_initialize_file_well_formed(
                    old(registry)@,
                    owner,
                    file_id@,
                    cid@,
                    encrypted_key@,
                    now,
                    bump,
                );
                assert(registry@.files =~= old(registry)@.files.push(added));
            }
            Ok(handle)
        },
    }
}

/// Updates a file's metadata on behalf of `caller` at `now`.
///
/// Fails with `NotFound` for a handle without record, with `Unauthorized`
/// unless `caller` owns the file, and with `FieldEmpty` or `FieldTooLong`
/// where a new content identifier breaks its rule. On success the content
/// identifier, if one was given, is replaced, and the update stamp is set to
/// `now`, whether or not a content identifier was given; only where `now`
/// lies before the record's creation does the stamp stay as it was, so that
/// no record is ever updated before it was created. Nothing else changes. A
/// refused call changes nothing.
pub fn update_file(
    registry: &mut Registry,
    handle: FileHandle,
    caller: &Identity,
    new_cid: Option<String>,
    now: i64,
) -> (res: Result<(), Error>)
    requires
        old(registry)@.well_formed(),
    ensures
        res == old(registry)@.update_file(handle, *caller, spec_text(new_cid), now).0,
        final(registry)@ == old(registry)@.update_file(handle, *caller, spec_text(new_cid), now).1,
        final(registry)@.well_formed(),
        res is Ok && now >= old(registry)@.file(handle).created_at ==> final(registry)@.file(
            handle,
        ).updated_at == now,
        res is Ok && now < old(registry)@.file(handle).created_at ==> final(registry)@.file(
            handle,
        ).updated_at == old(registry)@.file(handle).updated_at,
{
    proof {
        lemma_update_file_well_formed(old(registry)@, handle, *caller, spec_text(new_cid), now);
    }
    if handle.index >= registry.files.len() {
        return Err(Error::NotFound(Missing::File));
    }
    let res = registry.files[handle.index].update(caller, new_cid, now);
    proof {
        assert(registry@ =~= old(registry)@.update_file(
            handle,
            *caller,
            spec_text(new_cid),
            now,
        ).1);
    }
    res
}

} // verus!

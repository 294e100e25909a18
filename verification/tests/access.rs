use zkfile::{
    grant_access, initialize_file, revoke_access, AccessGrant, Error, FileHandle, GrantHandle,
    Identity, Missing, Registry,
};

fn owner() -> Identity {
    Identity::new([1u8; 32])
}

fn grantee() -> Identity {
    Identity::new([2u8; 32])
}

fn other() -> Identity {
    let mut bytes = [2u8; 32];
    bytes[31] = 3;
    Identity::new(bytes)
}

fn with_file() -> (Registry, FileHandle) {
    let mut registry = Registry::new();
    let handle = initialize_file(
        &mut registry,
        owner(),
        "report.pdf".to_string(),
        "bafyxyz".to_string(),
        vec![7u8; 32],
        1_000,
        254,
    )
    .unwrap();
    (registry, handle)
}

#[test]
fn identities_compare_by_their_bytes() {
    assert!(grantee().same(&Identity::new([2u8; 32])));
    assert!(!grantee().same(&other()));
    assert!(!owner().same(&grantee()));
    assert_eq!(Identity::new([9u8; 32]).bytes, [9u8; 32]);
}

#[test]
fn nobody_is_authorized_before_a_grant() {
    let (registry, handle) = with_file();
    assert!(!registry.is_authorized(handle, &grantee(), 1_000));
    assert!(!registry.is_authorized(handle, &owner(), 1_000));
    assert!(!registry.is_authorized(FileHandle { index: 9 }, &grantee(), 1_000));
    assert_eq!(registry.find_grant(handle, &grantee()), None);
    assert_eq!(registry.grant(GrantHandle { index: 0 }), None);
}

#[test]
fn a_grant_authorizes_and_counts() {
    let (mut registry, handle) = with_file();
    let grant = grant_access(&mut registry, handle, &owner(), grantee(), None, 1_500).unwrap();
    assert_eq!(grant, GrantHandle { index: 0 });
    assert_eq!(
        registry.grant(grant),
        Some(&AccessGrant {
            file_ref: handle,
            grantee: grantee(),
            granted_at: 1_500,
            expires_at: None,
            revoked: false,
            verified: false,
        })
    );
    assert_eq!(registry.find_grant(handle, &grantee()), Some(grant));
    assert!(registry.is_authorized(handle, &grantee(), i64::MIN));
    assert!(registry.is_authorized(handle, &grantee(), i64::MAX));
    assert!(!registry.is_authorized(handle, &other(), 1_500));
    let file = registry.get(handle).unwrap();
    assert_eq!((file.access_count, file.created_at, file.updated_at), (1, 1_000, 1_500));
}

#[test]
fn expiry_is_exclusive() {
    let (mut registry, handle) = with_file();
    grant_access(&mut registry, handle, &owner(), grantee(), Some(5_000), 1_500).unwrap();
    assert!(registry.is_authorized(handle, &grantee(), 4_999));
    assert!(!registry.is_authorized(handle, &grantee(), 5_000));
    assert!(!registry.is_authorized(handle, &grantee(), 5_001));
    assert!(registry.is_authorized(handle, &grantee(), 0));
    assert!(registry.is_authorized(handle, &grantee(), i64::MIN));
    assert!(!registry.is_authorized(handle, &grantee(), i64::MAX));
}

#[test]
fn expiry_at_the_ends_of_time() {
    let (mut registry, handle) = with_file();
    grant_access(&mut registry, handle, &owner(), grantee(), Some(i64::MAX), 0).unwrap();
    assert!(registry.is_authorized(handle, &grantee(), i64::MAX - 1));
    assert!(!registry.is_authorized(handle, &grantee(), i64::MAX));
    grant_access(&mut registry, handle, &owner(), other(), Some(i64::MIN), 0).unwrap();
    assert!(!registry.is_authorized(handle, &other(), i64::MIN));
}

#[test]
fn a_grant_may_be_created_expired() {
    let (mut registry, handle) = with_file();
    let grant = grant_access(&mut registry, handle, &owner(), grantee(), Some(10), 1_500);
    assert_eq!(grant, Ok(GrantHandle { index: 0 }));
    assert!(!registry.is_authorized(handle, &grantee(), 1_500));
    assert!(registry.is_authorized(handle, &grantee(), 9));
    assert_eq!(registry.get(handle).unwrap().access_count, 1);
}

#[test]
fn only_the_owner_grants() {
    let (mut registry, handle) = with_file();
    assert_eq!(
        grant_access(&mut registry, handle, &grantee(), grantee(), None, 1_500),
        Err(Error::Unauthorized(grantee()))
    );
    assert_eq!(registry.grant_count(), 0);
    let file = registry.get(handle).unwrap();
    assert_eq!((file.access_count, file.updated_at), (0, 1_000));
    assert_eq!(
        grant_access(&mut registry, FileHandle { index: 1 }, &owner(), grantee(), None, 1_500),
        Err(Error::NotFound(Missing::File))
    );
}

#[test]
fn granting_again_replaces() {
    let (mut registry, handle) = with_file();
    let first = grant_access(&mut registry, handle, &owner(), grantee(), Some(2_000), 1_500).unwrap();
    let second = grant_access(&mut registry, handle, &owner(), grantee(), Some(9_000), 1_600).unwrap();
    assert_eq!(first, second);
    assert_eq!(registry.grant_count(), 1);
    let grant = registry.grant(second).unwrap();
    assert_eq!((grant.granted_at, grant.expires_at), (1_600, Some(9_000)));
    assert!(registry.is_authorized(handle, &grantee(), 2_000));
    assert!(registry.is_authorized(handle, &grantee(), 8_999));
    assert!(!registry.is_authorized(handle, &grantee(), 9_000));
    assert_eq!(registry.get(handle).unwrap().access_count, 2);
    let third = grant_access(&mut registry, handle, &owner(), grantee(), None, 1_700).unwrap();
    assert_eq!(third, first);
    assert_eq!(registry.grant_count(), 1);
    assert_eq!(registry.grant(third).unwrap().expires_at, None);
    assert_eq!(registry.get(handle).unwrap().access_count, 3);
}

#[test]
fn grants_are_kept_per_file_and_grantee() {
    let (mut registry, first_file) = with_file();
    let second_file =
        initialize_file(&mut registry, owner(), "b".to_string(), "c".to_string(), vec![1], 1, 0)
            .unwrap();
    let a = grant_access(&mut registry, first_file, &owner(), grantee(), None, 5).unwrap();
    let b = grant_access(&mut registry, first_file, &owner(), other(), Some(7), 5).unwrap();
    let c = grant_access(&mut registry, second_file, &owner(), grantee(), Some(8), 5).unwrap();
    assert_eq!((a.index, b.index, c.index), (0, 1, 2));
    assert_eq!(registry.grant_count(), 3);
    assert_eq!(registry.get(first_file).unwrap().access_count, 2);
    assert_eq!(registry.get(second_file).unwrap().access_count, 1);
    assert!(registry.is_authorized(first_file, &grantee(), 100));
    assert!(!registry.is_authorized(first_file, &other(), 100));
    assert!(!registry.is_authorized(second_file, &grantee(), 100));
    assert!(!registry.is_authorized(second_file, &other(), 6));
    assert_eq!(revoke_access(&mut registry, first_file, &owner(), &grantee()), Ok(()));
    assert!(!registry.is_authorized(first_file, &grantee(), 6));
    assert!(registry.is_authorized(second_file, &grantee(), 6));
    assert!(registry.is_authorized(first_file, &other(), 6));
}

#[test]
fn revoking_ends_authorization() {
    let (mut registry, handle) = with_file();
    let grant = grant_access(&mut registry, handle, &owner(), grantee(), Some(5_000), 1_500).unwrap();
    assert!(registry.is_authorized(handle, &grantee(), 1_600));
    assert_eq!(revoke_access(&mut registry, handle, &owner(), &grantee()), Ok(()));
    assert!(!registry.is_authorized(handle, &grantee(), 1_600));
    assert!(!registry.is_authorized(handle, &grantee(), i64::MIN));
    let record = registry.grant(grant).unwrap();
    assert!(record.revoked);
    assert_eq!((record.granted_at, record.expires_at), (1_500, Some(5_000)));
    let file = registry.get(handle).unwrap();
    assert_eq!((file.access_count, file.updated_at), (1, 1_500));
}

#[test]
fn revoking_twice_is_fine() {
    let (mut registry, handle) = with_file();
    grant_access(&mut registry, handle, &owner(), grantee(), None, 1_500).unwrap();
    assert_eq!(revoke_access(&mut registry, handle, &owner(), &grantee()), Ok(()));
    let before = *registry.grant(GrantHandle { index: 0 }).unwrap();
    assert_eq!(revoke_access(&mut registry, handle, &owner(), &grantee()), Ok(()));
    assert_eq!(registry.grant(GrantHandle { index: 0 }), Some(&before));
    assert!(!registry.is_authorized(handle, &grantee(), 1_600));
}

#[test]
fn an_expired_grant_can_be_revoked() {
    let (mut registry, handle) = with_file();
    grant_access(&mut registry, handle, &owner(), grantee(), Some(10), 1_500).unwrap();
    assert_eq!(revoke_access(&mut registry, handle, &owner(), &grantee()), Ok(()));
    assert!(!registry.is_authorized(handle, &grantee(), 5));
}

#[test]
fn revoke_refusals() {
    let (mut registry, handle) = with_file();
    assert_eq!(
        revoke_access(&mut registry, handle, &owner(), &grantee()),
        Err(Error::NotFound(Missing::Grant(grantee())))
    );
    grant_access(&mut registry, handle, &owner(), grantee(), None, 1_500).unwrap();
    assert_eq!(
        revoke_access(&mut registry, handle, &grantee(), &grantee()),
        Err(Error::Unauthorized(grantee()))
    );
    assert_eq!(
        revoke_access(&mut registry, handle, &other(), &other()),
        Err(Error::Unauthorized(other()))
    );
    assert_eq!(
        revoke_access(&mut registry, handle, &owner(), &other()),
        Err(Error::NotFound(Missing::Grant(other())))
    );
    assert_eq!(
        revoke_access(&mut registry, FileHandle { index: 4 }, &owner(), &grantee()),
        Err(Error::NotFound(Missing::File))
    );
    assert!(registry.is_authorized(handle, &grantee(), 1_600));
}

#[test]
fn a_new_grant_lifts_a_revocation() {
    let (mut registry, handle) = with_file();
    grant_access(&mut registry, handle, &owner(), grantee(), None, 1_500).unwrap();
    revoke_access(&mut registry, handle, &owner(), &grantee()).unwrap();
    assert!(!registry.is_authorized(handle, &grantee(), 1_600));
    grant_access(&mut registry, handle, &owner(), grantee(), None, 1_700).unwrap();
    assert!(registry.is_authorized(handle, &grantee(), 1_800));
    assert_eq!(registry.grant_count(), 1);
}

#[test]
fn grant_records_answer_for_themselves() {
    let mut grant = AccessGrant::issue(FileHandle { index: 0 }, grantee(), Some(50), 10);
    assert!(grant.is_live(49));
    assert!(!grant.is_live(50));
    assert!(!grant.releases_key(49));
    grant.verify();
    assert!(grant.releases_key(49));
    assert!(!grant.releases_key(50));
    grant.revoke();
    assert!(!grant.is_live(49));
    assert!(!grant.releases_key(49));
    assert!(grant.verified);
}

#[test]
fn revocation_lasts_through_other_operations() {
    let (mut registry, handle) = with_file();
    grant_access(&mut registry, handle, &owner(), grantee(), None, 1_500).unwrap();
    zkfile::record_verdict(&mut registry, handle, &grantee(), 1_600, true).unwrap();
    revoke_access(&mut registry, handle, &owner(), &grantee()).unwrap();
    zkfile::update_file(&mut registry, handle, &owner(), Some("next".to_string()), 1_700).unwrap();
    grant_access(&mut registry, handle, &owner(), other(), Some(9_000), 1_700).unwrap();
    let second =
        initialize_file(&mut registry, owner(), "b".to_string(), "c".to_string(), vec![1], 1_800, 0)
            .unwrap();
    grant_access(&mut registry, second, &owner(), grantee(), None, 1_800).unwrap();
    assert_eq!(
        zkfile::record_verdict(&mut registry, handle, &grantee(), 1_900, true),
        Err(Error::Unauthorized(grantee()))
    );
    assert_eq!(
        grant_access(&mut registry, handle, &grantee(), grantee(), None, 1_900),
        Err(Error::Unauthorized(grantee()))
    );
    revoke_access(&mut registry, handle, &owner(), &other()).unwrap();
    for now in [i64::MIN, 0, 1_500, 1_900, i64::MAX] {
        assert!(!registry.is_authorized(handle, &grantee(), now));
        assert!(!registry.releases_key(handle, &grantee(), now));
    }
    assert!(registry.grant(GrantHandle { index: 0 }).unwrap().verified);
    assert!(registry.is_authorized(second, &grantee(), 1_900));
}

#[test]
fn a_full_counter_refuses_grants() {
    let mut file = zkfile::File::create(owner(), "a".to_string(), "c".to_string(), vec![1], 7, 9).unwrap();
    file.access_count = u32::MAX;
    let mut registry = Registry::restore(vec![file.clone()], vec![]).unwrap();
    let handle = FileHandle { index: 0 };
    assert_eq!(
        grant_access(&mut registry, handle, &owner(), grantee(), None, 8),
        Err(Error::CounterExhausted)
    );
    assert_eq!(
        grant_access(&mut registry, handle, &grantee(), grantee(), None, 8),
        Err(Error::Unauthorized(grantee()))
    );
    assert_eq!(registry.get(handle), Ok(&file));
    assert_eq!(registry.grant_count(), 0);
}

#[test]
fn a_grant_refreshes_the_file_stamp() {
    let (mut registry, handle) = with_file();
    zkfile::update_file(&mut registry, handle, &owner(), None, 3_000).unwrap();
    grant_access(&mut registry, handle, &owner(), grantee(), None, 2_000).unwrap();
    let file = registry.get(handle).unwrap();
    assert_eq!((file.created_at, file.updated_at, file.access_count), (1_000, 2_000, 1));
    grant_access(&mut registry, handle, &owner(), other(), None, 999).unwrap();
    let file = registry.get(handle).unwrap();
    assert_eq!((file.created_at, file.updated_at, file.access_count), (1_000, 2_000, 2));
}

use zkfile::file::{check_field, max_len, refreshed};
use zkfile::{
    initialize_file, update_file, AccessGrant, Error, Field, File, FileHandle, GrantHandle,
    Identity, Missing, Registry,
};

fn owner() -> Identity {
    Identity::new([1u8; 32])
}

fn stranger() -> Identity {
    Identity::new([3u8; 32])
}

fn register(registry: &mut Registry, who: Identity, file_id: &str, now: i64) -> FileHandle {
    initialize_file(registry, who, file_id.to_string(), "bafy".to_string(), vec![1, 2, 3], now, 254)
        .unwrap()
}

#[test]
fn a_new_registry_is_empty() {
    let registry = Registry::new();
    assert_eq!(registry.file_count(), 0);
    assert_eq!(registry.grant_count(), 0);
    assert_eq!(registry.get(FileHandle { index: 0 }), Err(Error::NotFound(Missing::File)));
    assert_eq!(registry.find_file(&owner(), &"a".to_string()), None);
}

#[test]
fn initialize_creates_the_record() {
    let mut registry = Registry::new();
    let handle = initialize_file(
        &mut registry,
        owner(),
        "report.pdf".to_string(),
        "bafyxyz".to_string(),
        vec![7u8; 32],
        1_000,
        254,
    )
    .unwrap();
    assert_eq!(handle, FileHandle { index: 0 });
    assert_eq!(registry.file_count(), 1);
    let expected = File {
        owner: owner(),
        file_id: "report.pdf".to_string(),
        cid: "bafyxyz".to_string(),
        encrypted_key: vec![7u8; 32],
        created_at: 1_000,
        updated_at: 1_000,
        access_count: 0,
        bump: 254,
    };
    assert_eq!(registry.get(handle), Ok(&expected));
    assert_eq!(registry.get(handle).unwrap().snapshot(), expected);
    assert_eq!(registry.find_file(&owner(), &"report.pdf".to_string()), Some(handle));
    assert_eq!(registry.find_file(&stranger(), &"report.pdf".to_string()), None);
    assert_eq!(registry.find_file(&owner(), &"report.pd".to_string()), None);
}

#[test]
fn handles_count_up() {
    let mut registry = Registry::new();
    assert_eq!(register(&mut registry, owner(), "a", 1).index, 0);
    assert_eq!(register(&mut registry, owner(), "b", 2).index, 1);
    assert_eq!(register(&mut registry, stranger(), "a", 3).index, 2);
    assert_eq!(registry.file_count(), 3);
    assert_eq!(registry.get(FileHandle { index: 2 }).unwrap().owner, stranger());
    assert_eq!(registry.get(FileHandle { index: 3 }), Err(Error::NotFound(Missing::File)));
}

#[test]
fn one_owner_cannot_register_an_id_twice() {
    let mut registry = Registry::new();
    let first = register(&mut registry, owner(), "a", 1);
    let again = initialize_file(
        &mut registry,
        owner(),
        "a".to_string(),
        "other".to_string(),
        vec![9],
        5,
        1,
    );
    assert_eq!(again, Err(Error::AlreadyExists));
    assert_eq!(registry.file_count(), 1);
    assert_eq!(registry.get(first).unwrap().cid, "bafy");
    assert_eq!(registry.get(first).unwrap().updated_at, 1);
}

#[test]
fn initialize_refuses_empty_fields() {
    let mut registry = Registry::new();
    let make = |registry: &mut Registry, file_id: &str, cid: &str, key: Vec<u8>| {
        initialize_file(registry, owner(), file_id.to_string(), cid.to_string(), key, 1, 0)
    };
    assert_eq!(make(&mut registry, "", "c", vec![1]), Err(Error::FieldEmpty(Field::FileId)));
    assert_eq!(make(&mut registry, "a", "", vec![1]), Err(Error::FieldEmpty(Field::Cid)));
    assert_eq!(make(&mut registry, "a", "c", vec![]), Err(Error::FieldEmpty(Field::EncryptedKey)));
    assert_eq!(make(&mut registry, "", "", vec![]), Err(Error::FieldEmpty(Field::FileId)));
    assert_eq!(registry.file_count(), 0);
}

#[test]
fn initialize_refuses_long_fields() {
    let mut registry = Registry::new();
    let make = |registry: &mut Registry, file_id: usize, cid: usize, key: usize| {
        initialize_file(registry, owner(), "f".repeat(file_id), "c".repeat(cid), vec![1; key], 1, 0)
    };
    assert_eq!(make(&mut registry, 65, 1, 1), Err(Error::FieldTooLong(Field::FileId)));
    assert_eq!(make(&mut registry, 1, 129, 1), Err(Error::FieldTooLong(Field::Cid)));
    assert_eq!(make(&mut registry, 1, 1, 257), Err(Error::FieldTooLong(Field::EncryptedKey)));
    assert_eq!(make(&mut registry, 1, 129, 257), Err(Error::FieldTooLong(Field::Cid)));
    assert_eq!(make(&mut registry, 65, 0, 0), Err(Error::FieldTooLong(Field::FileId)));
    assert_eq!(make(&mut registry, 1, 0, 257), Err(Error::FieldEmpty(Field::Cid)));
    assert_eq!(registry.file_count(), 0);
    assert_eq!(make(&mut registry, 64, 128, 256), Ok(FileHandle { index: 0 }));
}

#[test]
fn validation_comes_before_the_key_check() {
    let mut registry = Registry::new();
    register(&mut registry, owner(), "a", 1);
    let res = initialize_file(&mut registry, owner(), "a".to_string(), String::new(), vec![1], 1, 0);
    assert_eq!(res, Err(Error::FieldEmpty(Field::Cid)));
}

#[test]
fn field_rules() {
    assert_eq!(max_len(Field::FileId), 64);
    assert_eq!(max_len(Field::Cid), 128);
    assert_eq!(max_len(Field::EncryptedKey), 256);
    assert_eq!(check_field(Field::Cid, 0), Err(Error::FieldEmpty(Field::Cid)));
    assert_eq!(check_field(Field::Cid, 1), Ok(()));
    assert_eq!(check_field(Field::Cid, 128), Ok(()));
    assert_eq!(check_field(Field::Cid, 129), Err(Error::FieldTooLong(Field::Cid)));
    assert_eq!(check_field(Field::FileId, 64), Ok(()));
    assert_eq!(check_field(Field::FileId, 65), Err(Error::FieldTooLong(Field::FileId)));
    assert_eq!(check_field(Field::EncryptedKey, 256), Ok(()));
    assert_eq!(
        check_field(Field::EncryptedKey, usize::MAX),
        Err(Error::FieldTooLong(Field::EncryptedKey))
    );
    assert_eq!(refreshed(10, 10, 20), 20);
    assert_eq!(refreshed(10, 30, 20), 20);
    assert_eq!(refreshed(10, 30, 10), 10);
    assert_eq!(refreshed(10, 30, 9), 30);
    assert_eq!(refreshed(-5, -1, -3), -3);
    assert_eq!(refreshed(i64::MIN, 0, i64::MIN), i64::MIN);
}

#[test]
fn update_replaces_the_cid() {
    let mut registry = Registry::new();
    let handle = register(&mut registry, owner(), "a", 10);
    assert_eq!(update_file(&mut registry, handle, &owner(), Some("new".to_string()), 20), Ok(()));
    let file = registry.get(handle).unwrap();
    assert_eq!(file.cid, "new");
    assert_eq!(file.created_at, 10);
    assert_eq!(file.updated_at, 20);
    assert_eq!(file.file_id, "a");
    assert_eq!(file.encrypted_key, vec![1, 2, 3]);
    assert_eq!(file.access_count, 0);
}

#[test]
fn update_without_cid_refreshes_the_stamp() {
    let mut registry = Registry::new();
    let handle = register(&mut registry, owner(), "a", 10);
    assert_eq!(update_file(&mut registry, handle, &owner(), None, 30), Ok(()));
    let file = registry.get(handle).unwrap();
    assert_eq!(file.cid, "bafy");
    assert_eq!(file.updated_at, 30);
}

#[test]
fn every_update_sets_the_stamp_to_now() {
    let mut registry = Registry::new();
    let handle = register(&mut registry, owner(), "a", 1_000);
    assert_eq!(update_file(&mut registry, handle, &owner(), Some("n".to_string()), 3_000), Ok(()));
    assert_eq!(registry.get(handle).unwrap().updated_at, 3_000);
    assert_eq!(update_file(&mut registry, handle, &owner(), Some("m".to_string()), 2_000), Ok(()));
    let file = registry.get(handle).unwrap();
    assert_eq!((file.cid.as_str(), file.created_at, file.updated_at), ("m", 1_000, 2_000));
    assert_eq!(update_file(&mut registry, handle, &owner(), None, 1_500), Ok(()));
    let file = registry.get(handle).unwrap();
    assert_eq!((file.cid.as_str(), file.created_at, file.updated_at), ("m", 1_000, 1_500));
    assert_eq!(update_file(&mut registry, handle, &owner(), None, 1_000), Ok(()));
    assert_eq!(registry.get(handle).unwrap().updated_at, 1_000);
}

#[test]
fn no_record_is_updated_before_it_was_created() {
    let mut registry = Registry::new();
    let handle = register(&mut registry, owner(), "a", 1_000);
    assert_eq!(update_file(&mut registry, handle, &owner(), None, 2_000), Ok(()));
    assert_eq!(update_file(&mut registry, handle, &owner(), Some("n".to_string()), 999), Ok(()));
    let file = registry.get(handle).unwrap();
    assert_eq!((file.cid.as_str(), file.created_at, file.updated_at), ("n", 1_000, 2_000));
    assert_eq!(update_file(&mut registry, handle, &owner(), None, i64::MIN), Ok(()));
    let file = registry.get(handle).unwrap();
    assert_eq!((file.created_at, file.updated_at), (1_000, 2_000));
}

#[test]
fn an_update_changes_nothing_else() {
    let mut registry = Registry::new();
    let first = register(&mut registry, owner(), "a", 10);
    let second = register(&mut registry, owner(), "b", 11);
    let grant = zkfile::grant_access(&mut registry, first, &owner(), stranger(), Some(90), 12).unwrap();
    zkfile::record_verdict(&mut registry, first, &stranger(), 13, true).unwrap();
    let other_before = registry.get(second).unwrap().snapshot();
    let grant_before = *registry.grant(grant).unwrap();
    assert_eq!(update_file(&mut registry, first, &owner(), Some("c".repeat(128)), 50), Ok(()));
    let file = registry.get(first).unwrap();
    assert_eq!(file.owner, owner());
    assert_eq!(file.file_id, "a");
    assert_eq!(file.encrypted_key, vec![1, 2, 3]);
    assert_eq!((file.created_at, file.updated_at, file.access_count, file.bump), (10, 50, 1, 254));
    assert_eq!(registry.get(second), Ok(&other_before));
    assert_eq!(registry.grant(grant), Some(&grant_before));
    assert_eq!((registry.file_count(), registry.grant_count()), (2, 1));
}

#[test]
fn only_the_owner_updates() {
    let mut registry = Registry::new();
    let handle = register(&mut registry, owner(), "a", 10);
    assert_eq!(
        update_file(&mut registry, handle, &stranger(), Some("new".to_string()), 20),
        Err(Error::Unauthorized(stranger()))
    );
    assert_eq!(
        update_file(&mut registry, handle, &stranger(), Some(String::new()), 20),
        Err(Error::Unauthorized(stranger()))
    );
    let file = registry.get(handle).unwrap();
    assert_eq!((file.cid.as_str(), file.updated_at), ("bafy", 10));
}

#[test]
fn update_checks_the_new_cid() {
    let mut registry = Registry::new();
    let handle = register(&mut registry, owner(), "a", 10);
    assert_eq!(
        update_file(&mut registry, handle, &owner(), Some("c".repeat(129)), 20),
        Err(Error::FieldTooLong(Field::Cid))
    );
    assert_eq!(
        update_file(&mut registry, handle, &owner(), Some(String::new()), 20),
        Err(Error::FieldEmpty(Field::Cid))
    );
    let file = registry.get(handle).unwrap();
    assert_eq!((file.cid.as_str(), file.updated_at), ("bafy", 10));
    assert_eq!(update_file(&mut registry, handle, &owner(), Some("c".repeat(128)), 20), Ok(()));
    assert_eq!(registry.get(handle).unwrap().cid.len(), 128);
}

#[test]
fn update_needs_a_record() {
    let mut registry = Registry::new();
    assert_eq!(
        update_file(&mut registry, FileHandle { index: 0 }, &owner(), None, 1),
        Err(Error::NotFound(Missing::File))
    );
    register(&mut registry, owner(), "a", 10);
    assert_eq!(
        update_file(&mut registry, FileHandle { index: 1 }, &owner(), None, 1),
        Err(Error::NotFound(Missing::File))
    );
}

#[test]
fn records_change_one_at_a_time() {
    let mut record = File::create(owner(), "a".to_string(), "c".to_string(), vec![1], 7, 9).unwrap();
    assert_eq!((record.created_at, record.updated_at, record.access_count, record.bump), (7, 7, 0, 9));
    assert!(record.is_owned_by(&owner()));
    assert!(!record.is_owned_by(&stranger()));
    assert_eq!(record.count_grant(&stranger(), 8), Err(Error::Unauthorized(stranger())));
    assert_eq!(record.access_count, 0);
    assert_eq!(record.count_grant(&owner(), 8), Ok(()));
    assert_eq!((record.access_count, record.updated_at), (1, 8));
    record.access_count = u32::MAX - 1;
    assert_eq!(record.count_grant(&owner(), 9), Ok(()));
    assert_eq!(record.access_count, u32::MAX);
    assert_eq!(record.count_grant(&owner(), 10), Err(Error::CounterExhausted));
    assert_eq!((record.access_count, record.updated_at), (u32::MAX, 9));
    assert_eq!(record.update(&owner(), None, 11), Ok(()));
    assert_eq!(record.updated_at, 11);
    assert_eq!(
        File::create(owner(), "a".to_string(), "c".to_string(), vec![], 7, 9),
        Err(Error::FieldEmpty(Field::EncryptedKey))
    );
}

fn record(who: Identity, file_id: &str) -> File {
    File::create(who, file_id.to_string(), "c".to_string(), vec![1], 7, 9).unwrap()
}

#[test]
fn restore_takes_well_formed_records() {
    let files = vec![record(owner(), "a"), record(owner(), "b"), record(stranger(), "a")];
    let grants = vec![
        AccessGrant::issue(FileHandle { index: 2 }, owner(), None, 8),
        AccessGrant::issue(FileHandle { index: 0 }, stranger(), Some(50), 8),
        AccessGrant::issue(FileHandle { index: 2 }, stranger(), None, 8),
    ];
    let registry = Registry::restore(files.clone(), grants.clone()).unwrap();
    assert_eq!((registry.file_count(), registry.grant_count()), (3, 3));
    for (i, file) in files.iter().enumerate() {
        assert_eq!(registry.get(FileHandle { index: i }), Ok(file));
    }
    for (i, grant) in grants.iter().enumerate() {
        assert_eq!(registry.grant(GrantHandle { index: i }), Some(grant));
    }
    assert!(registry.is_authorized(FileHandle { index: 0 }, &stranger(), 49));
    assert!(!registry.is_authorized(FileHandle { index: 0 }, &stranger(), 50));
    assert!(registry.is_authorized(FileHandle { index: 2 }, &owner(), 50));
    assert!(Registry::restore(Vec::new(), Vec::new()).is_some());
}

#[test]
fn restore_refuses_broken_records() {
    let grant = |file: usize, who: Identity| AccessGrant::issue(FileHandle { index: file }, who, None, 8);
    assert!(Registry::restore(vec![record(owner(), "a"), record(owner(), "a")], vec![]).is_none());
    let mut empty_cid = record(owner(), "a");
    empty_cid.cid = String::new();
    assert!(Registry::restore(vec![empty_cid], vec![]).is_none());
    let mut long_key = record(owner(), "a");
    long_key.encrypted_key = vec![0; 257];
    assert!(Registry::restore(vec![record(owner(), "b"), long_key], vec![]).is_none());
    let mut backwards = record(owner(), "a");
    backwards.updated_at = backwards.created_at - 1;
    assert!(Registry::restore(vec![backwards], vec![]).is_none());
    assert!(Registry::restore(vec![record(owner(), "a")], vec![grant(1, owner())]).is_none());
    assert!(Registry::restore(vec![], vec![grant(0, owner())]).is_none());
    assert!(Registry::restore(
        vec![record(owner(), "a")],
        vec![grant(0, stranger()), grant(0, owner()), grant(0, stranger())]
    )
    .is_none());
    assert!(Registry::restore(
        vec![record(owner(), "a"), record(owner(), "b")],
        vec![grant(0, stranger()), grant(1, stranger())]
    )
    .is_some());
}

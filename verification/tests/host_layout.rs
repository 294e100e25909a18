use anchor_lang::prelude::Pubkey;
use anchor_lang::AnchorSerialize;
use zkfile::codec::encode;
use zkfile::{File, Identity};

#[test]
fn the_payload_is_what_the_host_framework_writes() {
    let file = File {
        owner: Identity::new([0x21; 32]),
        file_id: "r\u{e9}sum\u{e9}.pdf".to_string(),
        cid: "bafybeigdyrzt5sfp7udm7hu76uh7y26nf3efuylqabf3oclgtqy55fbzdi".to_string(),
        encrypted_key: (0u8..48).collect(),
        created_at: 1_700_000_000,
        updated_at: -5,
        access_count: 0x0102_0304,
        bump: 253,
    };
    let mut host: Vec<u8> = Vec::new();
    Pubkey::new_from_array(file.owner.bytes).serialize(&mut host).unwrap();
    file.file_id.serialize(&mut host).unwrap();
    file.cid.serialize(&mut host).unwrap();
    file.encrypted_key.serialize(&mut host).unwrap();
    file.created_at.serialize(&mut host).unwrap();
    file.updated_at.serialize(&mut host).unwrap();
    file.access_count.serialize(&mut host).unwrap();
    file.bump.serialize(&mut host).unwrap();
    let stored = encode(&file).unwrap();
    assert_eq!(&stored[8..8 + host.len()], &host[..]);
    assert!(stored[8 + host.len()..].iter().all(|b| *b == 0));
}

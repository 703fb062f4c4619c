use tapestry::trees::classify_tree_account;
use tapestry::compressed::{
    new_compressed_account, CompressedRecord, PackedAddressMerkleContext,
    PackedMerkleOutputContext, TreeAccount, TreeAccountKind,
};
use tapestry::edge::{EdgeArgs, EdgeData, EdgeV1};
use tapestry::errors::ZkNftError;
use tapestry::node::{
    decode_creators, decode_properties, encode_creators, encode_properties, Creator, CreatorsVec,
    NodeArgs, PropertiesVec,
    NodeData, NodeV1, Properties,
};
use tapestry::processor::{
    create_edge, create_node, validate_merkle_trees, AnchorCompressedProof, CreateEdge,
    CreateNode, NewAccountCpiInputs,
};
use tapestry::record::{AccountKey, UpdateAuthority};
use tapestry::seed::{get_account_seed, ID};

fn prop(k: &str, v: &str) -> Properties {
    Properties { key: k.to_string(), value: v.to_string() }
}

fn trees() -> Vec<TreeAccount> {
    vec![
        TreeAccount { key: [7u8; 32], kind: TreeAccountKind::StateTree },
        TreeAccount { key: [8u8; 32], kind: TreeAccountKind::AddressTree },
        TreeAccount { key: [9u8; 32], kind: TreeAccountKind::AddressQueue },
    ]
}

fn sample_proof() -> AnchorCompressedProof {
    AnchorCompressedProof { a: [1u8; 32], b: [2u8; 64], c: [3u8; 32] }
}

fn node_ctx() -> CreateNode {
    CreateNode { owner: [1u8; 32], update_authority: Some([2u8; 32]) }
}

fn edge_ctx() -> CreateEdge {
    CreateEdge { owner: [1u8; 32], update_authority: None }
}

fn node_args(value: &str) -> NodeArgs {
    NodeArgs {
        label: "alice".to_string(),
        properties: vec![prop("k", value), prop("city", "Oslo")],
        is_mutable: true,
        creators: vec![Creator { address: [5u8; 32], verified: true, share: 100 }],
    }
}

fn edge_args(source: &str, target: &str) -> EdgeArgs {
    EdgeArgs {
        source_node: source.to_string(),
        target_node: target.to_string(),
        properties: vec![prop("kind", "follows")],
        is_mutable: false,
    }
}

fn data_of(cpi: &NewAccountCpiInputs) -> (Vec<u8>, [u8; 32], [u8; 8]) {
    let d = cpi.output_compressed_account.compressed_account.data.as_ref().unwrap();
    (d.data.clone(), d.data_hash, d.discriminator)
}

#[test]
fn properties_layout_exact_bytes() {
    let bytes = encode_properties(&vec![prop("k", "v1")]);
    assert_eq!(bytes, vec![1, 0, 0, 0, 1, 0, 0, 0, b'k', 2, 0, 0, 0, b'v', b'1']);
}

#[test]
fn creators_layout_exact_bytes() {
    let bytes = encode_creators(&vec![Creator { address: [9u8; 32], verified: false, share: 40 }]);
    let mut expected = vec![1u8, 0, 0, 0];
    expected.extend_from_slice(&[9u8; 32]);
    expected.push(0);
    expected.push(40);
    assert_eq!(bytes, expected);
}

#[test]
fn node_data_round_trip() {
    let args = node_args("v1");
    let data = NodeData::new(&args.properties, &args.creators);
    assert_eq!(data.get_properties(), args.properties);
    assert_eq!(data.get_creators(), args.creators);
}

#[test]
fn edge_data_round_trip_keeps_order() {
    let props = vec![prop("b", "2"), prop("a", "1"), prop("b", "3")];
    let data = EdgeData::new(&props);
    assert_eq!(data.get_properties(), props);
}

#[test]
fn empty_lists_round_trip() {
    let data = NodeData::new(&vec![], &vec![]);
    assert_eq!(data.properties_bytes, vec![0, 0, 0, 0]);
    assert!(data.get_properties().is_empty());
    assert!(data.get_creators().is_empty());
}

#[test]
fn malformed_properties_read_as_empty() {
    assert!(decode_properties(&[1, 2, 3]).is_empty());
    assert!(decode_properties(&[]).is_empty());
    // two items announced, one present
    assert!(decode_properties(&[2, 0, 0, 0, 1, 0, 0, 0, b'k', 1, 0, 0, 0, b'v']).is_empty());
    // a key that is not UTF-8
    assert!(decode_properties(&[1, 0, 0, 0, 1, 0, 0, 0, 0xff, 0, 0, 0, 0]).is_empty());
    let data = NodeData { properties_bytes: vec![9, 9, 9, 9, 9], creators_bytes: vec![] };
    assert!(data.get_properties().is_empty());
    assert!(data.get_creators().is_empty());
}

#[test]
fn malformed_creators_read_as_empty() {
    let mut bytes = vec![1u8, 0, 0, 0];
    bytes.extend_from_slice(&[9u8; 32]);
    bytes.push(2);
    bytes.push(40);
    assert!(decode_creators(&bytes).is_empty());
    bytes.truncate(36);
    assert!(decode_creators(&bytes).is_empty());
}

#[test]
fn trailing_bytes_are_left_unread() {
    let mut bytes = encode_properties(&vec![prop("k", "v")]);
    bytes.extend_from_slice(&[1, 2, 3]);
    assert_eq!(decode_properties(&bytes), vec![prop("k", "v")]);
}

#[test]
fn tag_and_authority_layouts() {
    assert_eq!(AccountKey::NodeV1.try_to_vec(), vec![0]);
    assert_eq!(AccountKey::EdgeV1.try_to_vec(), vec![1]);
    assert_eq!(UpdateAuthority::Unset.try_to_vec(), vec![0]);
    let mut expected = vec![1u8];
    expected.extend_from_slice(&[4u8; 32]);
    assert_eq!(UpdateAuthority::Address([4u8; 32]).try_to_vec(), expected);
}

#[test]
fn commitments_are_field_sized_hashes() {
    let c = AccountKey::EdgeV1.as_byte_vec();
    assert_eq!(c.len(), 1);
    assert_eq!(c[0].len(), 32);
    assert_eq!(c[0][0], 0);
    assert_ne!(c, AccountKey::NodeV1.as_byte_vec());
    assert_ne!(prop("k", "v1").as_byte_vec(), prop("k", "v2").as_byte_vec());
}

#[test]
fn discriminators_are_digest_prefixes() {
    assert_eq!(NodeV1::discriminator(), [233, 45, 37, 233, 139, 54, 158, 25]);
    assert_eq!(EdgeV1::discriminator(), [147, 45, 183, 166, 22, 102, 234, 252]);
}

#[test]
fn seeds_differ_by_random_bytes_and_kind() {
    let a = get_account_seed(AccountKey::NodeV1, &[1u8; 32]);
    let b = get_account_seed(AccountKey::NodeV1, &[2u8; 32]);
    let c = get_account_seed(AccountKey::EdgeV1, &[1u8; 32]);
    assert_eq!(a, get_account_seed(AccountKey::NodeV1, &[1u8; 32]));
    assert_ne!(a, b);
    assert_ne!(a, c);
    assert_eq!(a[0], 0);
    let mut seeds = Vec::new();
    for i in 0..64u8 {
        let mut r = [0u8; 32];
        r[31] = i;
        r[0] = i.wrapping_mul(37);
        seeds.push(get_account_seed(AccountKey::EdgeV1, &r));
    }
    for i in 0..seeds.len() {
        for j in (i + 1)..seeds.len() {
            assert_ne!(seeds[i], seeds[j]);
        }
    }
}

#[test]
fn program_identity_bytes() {
    assert_eq!(ID[0], 235);
    assert_eq!(ID[31], 216);
}

#[test]
fn self_referencing_edge_is_refused() {
    let r = create_edge(&edge_ctx(), &trees(), sample_proof(), 0, [4u8; 32], edge_args("alice", "alice"));
    assert_eq!(r.err(), Some(ZkNftError::SelfReferenceNotAllowed));
    let mut args = edge_args("alice", "alice");
    args.properties = vec![];
    args.is_mutable = true;
    let r = create_edge(&edge_ctx(), &trees(), sample_proof(), 3, [5u8; 32], args);
    assert_eq!(r.err(), Some(ZkNftError::SelfReferenceNotAllowed));
}

#[test]
fn invalid_output_tree_is_refused_first() {
    let mut accounts = trees();
    accounts[0].kind = TreeAccountKind::Other;
    let r = create_node(&node_ctx(), &accounts, sample_proof(), 0, [4u8; 32], node_args("v1"));
    assert_eq!(r.err(), Some(ZkNftError::InvalidOutputTree));
    let r = create_edge(&edge_ctx(), &accounts, sample_proof(), 0, [4u8; 32], edge_args("a", "a"));
    assert_eq!(r.err(), Some(ZkNftError::InvalidOutputTree));
    let r = create_node(&node_ctx(), &[], sample_proof(), 0, [4u8; 32], node_args("v1"));
    assert_eq!(r.err(), Some(ZkNftError::InvalidOutputTree));
}

#[test]
fn tree_roles_are_checked_in_order() {
    let mut accounts = trees();
    assert_eq!(validate_merkle_trees(&accounts), Ok(()));
    accounts[2].kind = TreeAccountKind::StateTree;
    assert_eq!(validate_merkle_trees(&accounts), Err(ZkNftError::InvalidAddressQueue));
    accounts[1].kind = TreeAccountKind::AddressQueue;
    assert_eq!(validate_merkle_trees(&accounts), Err(ZkNftError::InvalidAddressTree));
    assert_eq!(validate_merkle_trees(&accounts[..2]), Err(ZkNftError::InvalidAddressTree));
    assert_eq!(validate_merkle_trees(&trees()[..2]), Err(ZkNftError::InvalidAddressQueue));
}

#[test]
fn create_node_builds_the_account() {
    let args = node_args("v1");
    let cpi = create_node(&node_ctx(), &trees(), sample_proof(), 11, [4u8; 32], args.clone()).unwrap();
    assert_eq!(cpi.proof, sample_proof());
    let params = cpi.new_address_params;
    assert_eq!(params.seed, get_account_seed(AccountKey::NodeV1, &[4u8; 32]));
    assert_eq!(params.address_merkle_tree_account_index, 1);
    assert_eq!(params.address_queue_account_index, 2);
    assert_eq!(params.address_merkle_tree_root_index, 11);
    let out = &cpi.output_compressed_account;
    assert_eq!(out.merkle_tree_index, 0);
    assert_eq!(out.compressed_account.owner, ID);
    assert_eq!(out.compressed_account.lamports, 0);
    let address = out.compressed_account.address.unwrap();
    assert_eq!(address[0], 0);
    let (data, _, discriminator) = data_of(&cpi);
    assert_eq!(discriminator, NodeV1::discriminator());
    // tag, owner, authority variant and key, then the label
    assert_eq!(data[0], 0);
    assert_eq!(&data[1..33], &[1u8; 32]);
    assert_eq!(data[33], 1);
    assert_eq!(&data[34..66], &[2u8; 32]);
    assert_eq!(&data[66..75], &[5, 0, 0, 0, b'a', b'l', b'i', b'c', b'e']);
    assert_eq!(&data[data.len() - 3..], &[1, 0, 0]);
    let data_blob = NodeData::new(&args.properties, &args.creators);
    assert_eq!(data_blob.get_properties(), args.properties);
}

#[test]
fn address_depends_on_the_address_tree() {
    let a = create_node(&node_ctx(), &trees(), sample_proof(), 0, [4u8; 32], node_args("v1")).unwrap();
    let mut other = trees();
    other[1].key = [42u8; 32];
    let b = create_node(&node_ctx(), &other, sample_proof(), 0, [4u8; 32], node_args("v1")).unwrap();
    assert_ne!(
        a.output_compressed_account.compressed_account.address,
        b.output_compressed_account.compressed_account.address
    );
}

#[test]
fn node_commitment_is_deterministic_and_tracks_properties() {
    let a = create_node(&node_ctx(), &trees(), sample_proof(), 0, [4u8; 32], node_args("v1")).unwrap();
    let b = create_node(&node_ctx(), &trees(), sample_proof(), 0, [4u8; 32], node_args("v1")).unwrap();
    let c = create_node(&node_ctx(), &trees(), sample_proof(), 0, [4u8; 32], node_args("v2")).unwrap();
    let (da, ha, _) = data_of(&a);
    let (db, hb, _) = data_of(&b);
    let (dc, hc, _) = data_of(&c);
    assert_eq!(da, db);
    assert_eq!(ha, hb);
    assert_ne!(da, dc);
    assert_ne!(ha, hc);
}

#[test]
fn long_label_cannot_be_hashed() {
    let mut args = node_args("v1");
    args.label = "a label that is longer than thirty-two bytes".to_string();
    let r = create_node(&node_ctx(), &trees(), sample_proof(), 0, [4u8; 32], args);
    assert_eq!(r.err(), Some(ZkNftError::HashingFailed));
}

#[test]
fn create_edge_builds_the_account() {
    let cpi = create_edge(&edge_ctx(), &trees(), sample_proof(), 5, [6u8; 32], edge_args("alice", "bob"))
        .unwrap();
    assert_eq!(cpi.new_address_params.seed, get_account_seed(AccountKey::EdgeV1, &[6u8; 32]));
    assert_eq!(cpi.new_address_params.address_merkle_tree_root_index, 5);
    let (data, hash, discriminator) = data_of(&cpi);
    assert_eq!(discriminator, EdgeV1::discriminator());
    assert_eq!(&data[0..10], &[1, 5, 0, 0, 0, b'a', b'l', b'i', b'c', b'e']);
    assert_eq!(&data[data.len() - 3..], &[0, 0, 0]);
    let again = create_edge(&edge_ctx(), &trees(), sample_proof(), 5, [6u8; 32], edge_args("alice", "bob"))
        .unwrap();
    assert_eq!(data_of(&again).1, hash);
    let flipped = create_edge(&edge_ctx(), &trees(), sample_proof(), 5, [6u8; 32], edge_args("bob", "alice"))
        .unwrap();
    assert_ne!(data_of(&flipped).1, hash);
}

#[test]
fn tree_accounts_are_told_apart_by_owner_and_discriminator() {
    let program = [3u8; 32];
    let state = [172u8, 43, 172, 186, 29, 73, 219, 84, 0, 0];
    let address = [11u8, 161, 175, 9, 212, 229, 73, 73];
    let queue = [164u8, 200, 108, 62, 87, 63, 123, 65, 1];
    assert_eq!(classify_tree_account(&program, &state, &program), TreeAccountKind::StateTree);
    assert_eq!(classify_tree_account(&program, &address, &program), TreeAccountKind::AddressTree);
    assert_eq!(classify_tree_account(&program, &queue, &program), TreeAccountKind::AddressQueue);
    assert_eq!(classify_tree_account(&[4u8; 32], &state, &program), TreeAccountKind::Other);
    assert_eq!(classify_tree_account(&program, &state[..7], &program), TreeAccountKind::Other);
    assert_eq!(classify_tree_account(&program, &[0u8; 8], &program), TreeAccountKind::Other);
}

#[test]
fn context_past_the_account_list_is_refused() {
    let edge = EdgeV1 {
        key: AccountKey::EdgeV1,
        source_node: "a".to_string(),
        target_node: "b".to_string(),
        edge_data: EdgeData::new(&vec![]),
        is_mutable: false,
        owner: [1u8; 32],
        update_authority: UpdateAuthority::Unset,
        initialized_plugins: 0,
    };
    let r = new_compressed_account(
        &edge,
        &[0u8; 32],
        &ID,
        &PackedMerkleOutputContext { merkle_tree_pubkey_index: 0 },
        &PackedAddressMerkleContext { address_merkle_tree_pubkey_index: 1, address_queue_pubkey_index: 5 },
        0,
        &trees(),
    );
    assert_eq!(r.err(), Some(ZkNftError::AccountIndexOutOfBounds));
    let ok = new_compressed_account(
        &edge,
        &[0u8; 32],
        &ID,
        &PackedMerkleOutputContext { merkle_tree_pubkey_index: 0 },
        &PackedAddressMerkleContext { address_merkle_tree_pubkey_index: 1, address_queue_pubkey_index: 2 },
        0,
        &trees(),
    );
    assert!(ok.is_ok());
}

#[test]
fn list_and_blob_commitments() {
    let props = vec![prop("k", "v1")];
    let a = PropertiesVec(props.clone()).as_byte_vec();
    assert_eq!(a.len(), 1);
    assert_eq!(a[0][0], 0);
    assert_ne!(a, PropertiesVec(vec![prop("k", "v2")]).as_byte_vec());
    let creators = vec![Creator { address: [5u8; 32], verified: true, share: 10 }];
    let c = CreatorsVec(creators.clone()).as_byte_vec();
    assert_eq!(c[0][0], 0);
    assert_ne!(c, CreatorsVec(vec![]).as_byte_vec());
    let nd = NodeData::new(&props, &creators);
    assert_eq!(nd.try_to_vec().len(), 4 + nd.properties_bytes.len() + 4 + nd.creators_bytes.len());
    assert_ne!(nd.as_byte_vec(), EdgeData::new(&props).as_byte_vec());
}

#[test]
fn utf8_text_reads_back() {
    let props = vec![prop("städte", "Zürich ✓")];
    let bytes = encode_properties(&props);
    assert_eq!(decode_properties(&bytes), props);
}

#[test]
fn layouts_match_borsh() {
    let props = vec![prop("k", "v1"), prop("städte", "")];
    let pairs: Vec<(String, String)> = props.iter().map(|p| (p.key.clone(), p.value.clone())).collect();
    assert_eq!(encode_properties(&props), borsh::BorshSerialize::try_to_vec(&pairs).unwrap());
    let creators = vec![
        Creator { address: [5u8; 32], verified: true, share: 60 },
        Creator { address: [6u8; 32], verified: false, share: 40 },
    ];
    let triples: Vec<([u8; 32], bool, u8)> =
        creators.iter().map(|c| (c.address, c.verified, c.share)).collect();
    assert_eq!(encode_creators(&creators), borsh::BorshSerialize::try_to_vec(&triples).unwrap());
    let data = NodeData::new(&props, &creators);
    let expected = borsh::BorshSerialize::try_to_vec(&(
        data.properties_bytes.clone(),
        data.creators_bytes.clone(),
    ))
    .unwrap();
    assert_eq!(data.try_to_vec(), expected);
    let node = NodeV1 {
        key: AccountKey::NodeV1,
        owner: [1u8; 32],
        update_authority: UpdateAuthority::Address([2u8; 32]),
        label: "alice".to_string(),
        node_data: data.clone(),
        is_mutable: true,
        initialized_plugins: 7,
    };
    let expected = borsh::BorshSerialize::try_to_vec(&(
        0u8,
        [1u8; 32],
        Some([2u8; 32]),
        "alice".to_string(),
        (data.properties_bytes.clone(), data.creators_bytes.clone()),
        true,
        7u16,
    ))
    .unwrap();
    assert_eq!(CompressedRecord::try_to_vec(&node), expected);
}

#[test]
fn strict_reads_tell_empty_from_corrupt() {
    let empty = NodeData::new(&vec![], &vec![]);
    assert_eq!(empty.try_properties(), Some(vec![]));
    assert_eq!(empty.try_creators(), Some(vec![]));
    let corrupt = NodeData { properties_bytes: vec![1, 0], creators_bytes: vec![1, 0, 0, 0] };
    assert_eq!(corrupt.try_properties(), None);
    assert_eq!(corrupt.try_creators(), None);
    assert!(corrupt.get_properties().is_empty());
    let edge = EdgeData::new(&vec![prop("k", "v")]);
    assert_eq!(edge.try_properties(), Some(vec![prop("k", "v")]));
    assert_eq!(EdgeData { properties_bytes: vec![9] }.try_properties(), None);
}

#[test]
fn edge_owner_above_the_field_cannot_be_hashed() {
    let ctx = CreateEdge { owner: [0xffu8; 32], update_authority: None };
    let r = create_edge(&ctx, &trees(), sample_proof(), 0, [4u8; 32], edge_args("alice", "bob"));
    assert_eq!(r.err(), Some(ZkNftError::HashingFailed));
}

#[test]
fn built_account_lies_in_the_field() {
    let cpi = create_node(&node_ctx(), &trees(), sample_proof(), 0, [4u8; 32], node_args("v1")).unwrap();
    let account = &cpi.output_compressed_account.compressed_account;
    assert_eq!(account.address.unwrap()[0], 0);
    // BN254's order opens with 0x30 0x64
    let hash = account.data.as_ref().unwrap().data_hash;
    assert!(hash[0] < 0x30 || (hash[0] == 0x30 && hash[1] <= 0x64));
}

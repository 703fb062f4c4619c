//! The two instructions: validate the tree accounts, build the record, and
//! prepare what is handed to the compression system program.
use vstd::prelude::*;
use vstd::utf8::encode_utf8;
use crate::codec::{lemma_bytes_field_prefix_free, bool_byte, bytes_field, str_field, u16_le};
use crate::compressed::{
    builds, field_safe, new_compressed_account, CompressedRecord, NewAddressParamsPacked,
    OutputCompressedAccountWithPackedContext, PackedAddressMerkleContext,
    PackedMerkleOutputContext, TreeAccount, TreeAccountKind,
};
use crate::edge::{edge_args_fit, edge_name, EdgeArgs, EdgeData, EdgeV1};
use crate::errors::ZkNftError;
use crate::hashing::{field_hash_of, poseidon_accepts, poseidon_of, sha256_of};
use crate::node::{
    creators_of_bytes, lemma_creators_round_trip, lemma_properties_layout_injective, lemma_properties_round_trip, properties_of_bytes,
    creators_layout, creators_view, node_args_fit, node_name, properties_layout, properties_view,
    NodeArgs, NodeData, NodeV1,
};
use crate::record::{authority_bytes, commitment, key_byte, AccountKey, UpdateAuthority};
use crate::seed::{account_seed, get_account_seed, ID};

verus! {

/// A validity proof: three curve points.
#[derive(Clone, Copy, Debug, PartialEq, Eq)]
pub struct AnchorCompressedProof {
    pub a: [u8; 32],
    pub b: [u8; 64],
    pub c: [u8; 32],
}

/// The signed context of a create-node call: the owner's key and the update
/// authority's key, if an update authority signed.
#[derive(Clone, Copy, Debug, PartialEq, Eq)]
pub struct CreateNode {
    pub owner: [u8; 32],
    pub update_authority: Option<[u8; 32]>,
}

/// The signed context of a create-edge call.
#[derive(Clone, Copy, Debug, PartialEq, Eq)]
pub struct CreateEdge {
    pub owner: [u8; 32],
    pub update_authority: Option<[u8; 32]>,
}

/// What the compression system program is invoked with to create one account
/// at one new address.
#[derive(Clone, Debug)]
pub struct NewAccountCpiInputs {
    pub proof: AnchorCompressedProof,
    pub new_address_params: NewAddressParamsPacked,
    pub output_compressed_account: OutputCompressedAccountWithPackedContext,
}

/// The outcome of checking the tree accounts at positions 0, 1 and 2.
pub open spec fn tree_check(accounts: Seq<TreeAccount>) -> Result<(), ZkNftError> {
    if accounts.len() < 1 || accounts[0].kind != TreeAccountKind::StateTree {
        Err(ZkNftError::InvalidOutputTree)
    } else if accounts.len() < 2 || accounts[1].kind != TreeAccountKind::AddressTree {
        Err(ZkNftError::InvalidAddressTree)
    } else if accounts.len() < 3 || accounts[2].kind != TreeAccountKind::AddressQueue {
        Err(ZkNftError::InvalidAddressQueue)
    } else {
        Ok(())
    }
}

/// Checks that positions 0, 1 and 2 hold a state tree, an address tree and an
/// address queue.
pub fn validate_merkle_trees(remaining_accounts: &[TreeAccount]) -> (r: Result<(), ZkNftError>)
    ensures
        r == tree_check(remaining_accounts@),
{
    let n = remaining_accounts.len();
    if n < 1 || remaining_accounts[0].kind != TreeAccountKind::StateTree {
        Err(ZkNftError::InvalidOutputTree)
    } else if n < 2 || remaining_accounts[1].kind != TreeAccountKind::AddressTree {
        Err(ZkNftError::InvalidAddressTree)
    } else if n < 3 || remaining_accounts[2].kind != TreeAccountKind::AddressQueue {
        Err(ZkNftError::InvalidAddressQueue)
    } else {
        Ok(())
    }
}

/// The update authority a context grants.
pub open spec fn authority_of(update_authority: Option<[u8; 32]>) -> UpdateAuthority {
    match update_authority {
        Some(k) => UpdateAuthority::Address(k),
        None => UpdateAuthority::Unset,
    }
}

pub fn authority_from(update_authority: Option<[u8; 32]>) -> (r: UpdateAuthority)
    ensures
        r == authority_of(update_authority),
{
    match update_authority {
        Some(k) => UpdateAuthority::Address(k),
        None => UpdateAuthority::Unset,
    }
}

/// The stored property blob of a new node or edge.
pub open spec fn properties_blob(properties: Seq<crate::node::Properties>) -> Seq<u8> {
    properties_layout(properties_view(properties))
}

/// The stored form of the node that `create_node` makes.
pub open spec fn new_node_bytes(ctx: CreateNode, args: NodeArgs) -> Seq<u8> {
    seq![key_byte(AccountKey::NodeV1)] + ctx.owner@ + authority_bytes(
        authority_of(ctx.update_authority),
    ) + str_field(args.label@) + bytes_field(properties_blob(args.properties@)) + bytes_field(
        creators_layout(creators_view(args.creators@)),
    ) + seq![bool_byte(args.is_mutable)] + u16_le(0)
}

/// The hash inputs of the node that `create_node` makes.
pub open spec fn new_node_hash_inputs(ctx: CreateNode, args: NodeArgs) -> Seq<Seq<u8>> {
    commitment(seq![key_byte(AccountKey::NodeV1)]) + commitment(ctx.owner@) + commitment(
        authority_bytes(authority_of(ctx.update_authority)),
    ) + seq![encode_utf8(args.label@)] + commitment(
        bytes_field(properties_blob(args.properties@)) + bytes_field(
            creators_layout(creators_view(args.creators@)),
        ),
    ) + seq![seq![bool_byte(args.is_mutable)]] + seq![u16_le(0)]
}

/// The stored form of the edge that `create_edge` makes.
pub open spec fn new_edge_bytes(ctx: CreateEdge, args: EdgeArgs) -> Seq<u8> {
    seq![key_byte(AccountKey::EdgeV1)] + str_field(args.source_node@) + str_field(
        args.target_node@,
    ) + bytes_field(properties_blob(args.properties@)) + seq![bool_byte(args.is_mutable)]
        + ctx.owner@ + authority_bytes(authority_of(ctx.update_authority)) + u16_le(0)
}

/// The hash inputs of the edge that `create_edge` makes.
pub open spec fn new_edge_hash_inputs(ctx: CreateEdge, args: EdgeArgs) -> Seq<Seq<u8>> {
    commitment(seq![key_byte(AccountKey::EdgeV1)]) + commitment(encode_utf8(args.source_node@))
        + commitment(encode_utf8(args.target_node@)) + commitment(
        bytes_field(properties_blob(args.properties@)),
    ) + seq![seq![bool_byte(args.is_mutable)]] + seq![ctx.owner@] + commitment(
        authority_bytes(authority_of(ctx.update_authority)),
    ) + seq![u16_le(0)]
}

/// Some hash input is longer than the 32 bytes the hash takes.
pub open spec fn has_oversized(inputs: Seq<Seq<u8>>) -> bool {
    exists|i: int| 0 <= i < inputs.len() && inputs[i].len() > 32
}

/// `cpi` creates the record stored as `layout`, hashed from `inputs`, under
/// the seed of `kind` made from `random_bytes`, in the trees at positions 0, 1
/// and 2.
pub open spec fn prepares(
    cpi: NewAccountCpiInputs,
    proof: AnchorCompressedProof,
    name: Seq<u8>,
    layout: Seq<u8>,
    inputs: Seq<Seq<u8>>,
    kind: AccountKey,
    random_bytes: Seq<u8>,
    address_merkle_tree_root_index: u16,
    remaining_accounts: Seq<TreeAccount>,
) -> bool {
    &&& cpi.proof == proof
    &&& builds(
        cpi.output_compressed_account,
        cpi.new_address_params,
        sha256_of(name).take(8),
        layout,
        poseidon_of(inputs),
        account_seed(kind, random_bytes),
        ID@,
        PackedMerkleOutputContext { merkle_tree_pubkey_index: 0 },
        PackedAddressMerkleContext { address_merkle_tree_pubkey_index: 1, address_queue_pubkey_index: 2 },
        address_merkle_tree_root_index,
        remaining_accounts,
    )
}

/// Creates a node: checks the tree accounts, builds the node from the
/// arguments and the signed context, and prepares the call that stores it.
/// It succeeds exactly when the trees check out and the Poseidon hasher takes
/// the node's hash inputs; the label is the one input that can be refused.
pub fn create_node(
    ctx: &CreateNode,
    remaining_accounts: &[TreeAccount],
    proof: AnchorCompressedProof,
    address_merkle_tree_root_index: u16,
    random_bytes: [u8; 32],
    node_args: NodeArgs,
) -> (r: Result<NewAccountCpiInputs, ZkNftError>)
    requires
        node_args_fit(node_args),
    ensures
        tree_check(remaining_accounts@) matches Err(e) ==> r == Err::<
            NewAccountCpiInputs,
            ZkNftError,
        >(e),
        tree_check(remaining_accounts@) is Ok ==> match r {
            Ok(cpi) => prepares(
                cpi,
                proof,
                node_name(),
                new_node_bytes(*ctx, node_args),
                new_node_hash_inputs(*ctx, node_args),
                AccountKey::NodeV1,
                random_bytes@,
                address_merkle_tree_root_index,
                remaining_accounts@,
            ),
            Err(e) => e == ZkNftError::HashingFailed,
        },
        tree_check(remaining_accounts@) is Ok ==> (r is Ok <==> poseidon_accepts(
            new_node_hash_inputs(*ctx, node_args),
        )),
        tree_check(remaining_accounts@) is Ok && has_oversized(
            new_node_hash_inputs(*ctx, node_args),
        ) ==> r == Err::<NewAccountCpiInputs, ZkNftError>(ZkNftError::HashingFailed),
        r matches Ok(cpi) ==> field_safe(cpi.output_compressed_account),
{
    let merkle_output_context = PackedMerkleOutputContext { merkle_tree_pubkey_index: 0 };
    let address_merkle_context = PackedAddressMerkleContext {
        address_merkle_tree_pubkey_index: 1,
        address_queue_pubkey_index: 2,
    };
    match validate_merkle_trees(remaining_accounts) {
        Ok(()) => {},
        Err(e) => {
            return Err(e);
        },
    }
    let node_data = NodeData::new(&node_args.properties, &node_args.creators);
    let node = NodeV1 {
        key: AccountKey::NodeV1,
        owner: ctx.owner,
        update_authority: authority_from(ctx.update_authority),
        label: node_args.label,
        node_data,
        is_mutable: node_args.is_mutable,
        initialized_plugins: 0,
    };
    assert(node.spec_layout() =~= new_node_bytes(*ctx, node_args));
    assert(node.spec_hash_inputs() =~= new_node_hash_inputs(*ctx, node_args));
    let node_seed = get_account_seed(AccountKey::NodeV1, &random_bytes);
    match new_compressed_account(
        &node,
        &node_seed,
        &ID,
        &merkle_output_context,
        &address_merkle_context,
        address_merkle_tree_root_index,
        remaining_accounts,
    ) {
        Ok((output_compressed_account, new_address_params)) => Ok(
            NewAccountCpiInputs { proof, new_address_params, output_compressed_account },
        ),
        Err(e) => Err(e),
    }
}

/// Creates an edge: checks the tree accounts, refuses an edge from a node to
/// itself, builds the edge, and prepares the call that stores it. Past those
/// checks it succeeds exactly when the Poseidon hasher takes the edge's hash
/// inputs; the owner key is the one input that can be refused.
pub fn create_edge(
    ctx: &CreateEdge,
    remaining_accounts: &[TreeAccount],
    proof: AnchorCompressedProof,
    address_merkle_tree_root_index: u16,
    random_bytes: [u8; 32],
    edge_args: EdgeArgs,
) -> (r: Result<NewAccountCpiInputs, ZkNftError>)
    requires
        edge_args_fit(edge_args),
    ensures
        tree_check(remaining_accounts@) matches Err(e) ==> r == Err::<
            NewAccountCpiInputs,
            ZkNftError,
        >(e),
        tree_check(remaining_accounts@) is Ok && edge_args.source_node@ == edge_args.target_node@
            ==> r == Err::<NewAccountCpiInputs, ZkNftError>(ZkNftError::SelfReferenceNotAllowed),
        tree_check(remaining_accounts@) is Ok && edge_args.source_node@ != edge_args.target_node@
            ==> match r {
            Ok(cpi) => prepares(
                cpi,
                proof,
                edge_name(),
                new_edge_bytes(*ctx, edge_args),
                new_edge_hash_inputs(*ctx, edge_args),
                AccountKey::EdgeV1,
                random_bytes@,
                address_merkle_tree_root_index,
                remaining_accounts@,
            ),
            Err(e) => e == ZkNftError::HashingFailed,
        },
        tree_check(remaining_accounts@) is Ok && edge_args.source_node@ != edge_args.target_node@
            && has_oversized(new_edge_hash_inputs(*ctx, edge_args)) ==> r == Err::<
            NewAccountCpiInputs,
            ZkNftError,
        >(ZkNftError::HashingFailed),
        tree_check(remaining_accounts@) is Ok && edge_args.source_node@ != edge_args.target_node@
            ==> (r is Ok <==> poseidon_accepts(new_edge_hash_inputs(*ctx, edge_args))),
        r matches Ok(cpi) ==> field_safe(cpi.output_compressed_account),
{
    let merkle_output_context = PackedMerkleOutputContext { merkle_tree_pubkey_index: 0 };
    let address_merkle_context = PackedAddressMerkleContext {
        address_merkle_tree_pubkey_index: 1,
        address_queue_pubkey_index: 2,
    };
    match validate_merkle_trees(remaining_accounts) {
        Ok(()) => {},
        Err(e) => {
            return Err(e);
        },
    }
    if edge_args.source_node == edge_args.target_node {
        return Err(ZkNftError::SelfReferenceNotAllowed);
    }
    let edge_data = EdgeData::new(&edge_args.properties);
    let edge = EdgeV1 {
        key: AccountKey::EdgeV1,
        source_node: edge_args.source_node,
        target_node: edge_args.target_node,
        edge_data,
        is_mutable: edge_args.is_mutable,
        owner: ctx.owner,
        update_authority: authority_from(ctx.update_authority),
        initialized_plugins: 0,
    };
    assert(edge.spec_layout() =~= new_edge_bytes(*ctx, edge_args));
    assert(edge.spec_hash_inputs() =~= new_edge_hash_inputs(*ctx, edge_args));
    let edge_seed = get_account_seed(AccountKey::EdgeV1, &random_bytes);
    match new_compressed_account(
        &edge,
        &edge_seed,
        &ID,
        &merkle_output_context,
        &address_merkle_context,
        address_merkle_tree_root_index,
        remaining_accounts,
    ) {
        Ok((output_compressed_account, new_address_params)) => Ok(
            NewAccountCpiInputs { proof, new_address_params, output_compressed_account },
        ),
        Err(e) => Err(e),
    }
}


/// The blobs that `create_node` stores read back as the node's properties and
/// creators, in their order.
pub proof fn lemma_create_node_round_trip(node_args: NodeArgs)
    requires
        node_args_fit(node_args),
    ensures
        properties_of_bytes(properties_blob(node_args.properties@)) == properties_view(
            node_args.properties@,
        ),
        creators_of_bytes(creators_layout(creators_view(node_args.creators@))) == creators_view(
            node_args.creators@,
        ),
{
    let pb = properties_blob(node_args.properties@);
    let cb = creators_layout(creators_view(node_args.creators@));
    lemma_properties_round_trip(node_args.properties@, Seq::empty());
    lemma_creators_round_trip(node_args.creators@, Seq::empty());
    assert(pb + Seq::<u8>::empty() =~= pb);
    assert(cb + Seq::<u8>::empty() =~= cb);
}

/// Hashing is a function of the record: two nodes made from the same context
/// and arguments are stored as the same bytes and committed to by the same
/// hash.
pub proof fn lemma_node_commitment_deterministic(
    ctx1: CreateNode,
    args1: NodeArgs,
    ctx2: CreateNode,
    args2: NodeArgs,
)
    requires
        ctx1 == ctx2,
        args1.label@ == args2.label@,
        properties_view(args1.properties@) == properties_view(args2.properties@),
        creators_view(args1.creators@) == creators_view(args2.creators@),
        args1.is_mutable == args2.is_mutable,
    ensures
        new_node_bytes(ctx1, args1) == new_node_bytes(ctx2, args2),
        poseidon_of(new_node_hash_inputs(ctx1, args1)) == poseidon_of(
            new_node_hash_inputs(ctx2, args2),
        ),
{
}


/// The bytes whose field-sized hash is a node's data-blob hash input.
pub open spec fn node_data_input(args: NodeArgs) -> Seq<u8> {
    bytes_field(properties_blob(args.properties@)) + bytes_field(
        creators_layout(creators_view(args.creators@)),
    )
}

/// Two nodes whose properties differ have their data-blob hash inputs made
/// from distinct bytes: the change reaches the input of the commitment.
pub proof fn lemma_node_commitment_tracks_properties(
    ctx: CreateNode,
    args1: NodeArgs,
    args2: NodeArgs,
)
    requires
        node_args_fit(args1),
        node_args_fit(args2),
        properties_view(args1.properties@) != properties_view(args2.properties@),
    ensures
        new_node_hash_inputs(ctx, args1)[4] == field_hash_of(node_data_input(args1)),
        new_node_hash_inputs(ctx, args2)[4] == field_hash_of(node_data_input(args2)),
        node_data_input(args1) != node_data_input(args2),
{
    lemma_properties_layout_injective(args1.properties@, args2.properties@);
    let pb1 = properties_blob(args1.properties@);
    let pb2 = properties_blob(args2.properties@);
    let cb1 = bytes_field(creators_layout(creators_view(args1.creators@)));
    let cb2 = bytes_field(creators_layout(creators_view(args2.creators@)));
    if bytes_field(pb1) + cb1 == bytes_field(pb2) + cb2 {
        lemma_bytes_field_prefix_free(pb1, cb1, pb2, cb2);
    }
}

} // verus!

//! Building the new compressed account and the parameters of its new address.
use vstd::prelude::*;
use crate::errors::ZkNftError;
use crate::hashing::{
    be_value, bn254_modulus, derive_address, field_hash_of, poseidon_accepts, poseidon_hashv,
    poseidon_of, sha256_of,
};
use crate::record::rows_view;

verus! {

/// A record that can be stored as a compressed account.
pub trait CompressedRecord: Sized {
    /// The record's stored bytes.
    spec fn spec_layout(&self) -> Seq<u8>;

    /// The inputs of the record's hash, one per field.
    spec fn spec_hash_inputs(&self) -> Seq<Seq<u8>>;

    /// The name the record type's discriminator is hashed from.
    spec fn spec_name() -> Seq<u8>;

    /// Every length in the record can be stored in four bytes.
    spec fn spec_fits(&self) -> bool;

    fn try_to_vec(&self) -> (r: Vec<u8>)
        requires
            self.spec_fits(),
        ensures
            r@ == self.spec_layout(),
    ;

    fn hash_inputs(&self) -> (r: Vec<Vec<u8>>)
        requires
            self.spec_fits(),
        ensures
            rows_view(r@) == self.spec_hash_inputs(),
    ;

    fn discriminator() -> (r: [u8; 8])
        ensures
            r@ == sha256_of(Self::spec_name()).take(8),
    ;
}

/// The first eight bytes of a digest.
pub fn first_eight(d: &[u8; 32]) -> (r: [u8; 8])
    ensures
        r@ == d@.take(8),
{
    let r = [d[0], d[1], d[2], d[3], d[4], d[5], d[6], d[7]];
    assert(r@ =~= d@.take(8));
    r
}

/// The record's commitment: the Poseidon hash of its hash inputs.
pub fn data_hash<T: CompressedRecord>(account: &T) -> (r: Result<[u8; 32], ZkNftError>)
    requires
        account.spec_fits(),
    ensures
        r is Ok <==> poseidon_accepts(account.spec_hash_inputs()),
        r is Ok ==> r->Ok_0@ == poseidon_of(account.spec_hash_inputs()),
        r is Ok ==> be_value(r->Ok_0@) < bn254_modulus(),
        r is Err ==> r->Err_0 == ZkNftError::HashingFailed,
        (exists|i: int|
            0 <= i < account.spec_hash_inputs().len() && account.spec_hash_inputs()[i].len() > 32)
            ==> r is Err,
{
    let inputs = account.hash_inputs();
    assert(inputs@.map_values(|v: Vec<u8>| v@) == rows_view(inputs@));
    match poseidon_hashv(&inputs) {
        Ok(h) => {
            proof {
                if !poseidon_accepts(account.spec_hash_inputs()) {
                    assert(inputs@.map_values(|v: Vec<u8>| v@) == account.spec_hash_inputs());
                }
            }
            Ok(h)
        },
        Err(_) => {
            proof {
                if exists|i: int|
                    0 <= i < account.spec_hash_inputs().len() && account.spec_hash_inputs()[i].len()
                        > 32 {
                    let i = choose|i: int|
                        0 <= i < account.spec_hash_inputs().len()
                            && account.spec_hash_inputs()[i].len() > 32;
                    assert(rows_view(inputs@)[i] == inputs@[i]@);
                }
            }
            assert(!poseidon_accepts(account.spec_hash_inputs()));
            Err(ZkNftError::HashingFailed)
        },
    }
}

#[derive(Clone, Copy, Debug, PartialEq, Eq, Structural)]
pub struct PackedMerkleOutputContext {
    pub merkle_tree_pubkey_index: u8,
}

#[derive(Clone, Copy, Debug, PartialEq, Eq, Structural)]
pub struct PackedAddressMerkleContext {
    pub address_merkle_tree_pubkey_index: u8,
    pub address_queue_pubkey_index: u8,
}

/// The payload of a compressed account.
#[derive(Clone, Debug)]
pub struct CompressedAccountData {
    pub discriminator: [u8; 8],
    pub data: Vec<u8>,
    pub data_hash: [u8; 32],
}

#[derive(Clone, Debug)]
pub struct CompressedAccount {
    pub owner: [u8; 32],
    pub lamports: u64,
    pub address: Option<[u8; 32]>,
    pub data: Option<CompressedAccountData>,
}

/// A new compressed account and the output tree, by position, it goes to.
#[derive(Clone, Debug)]
pub struct OutputCompressedAccountWithPackedContext {
    pub compressed_account: CompressedAccount,
    pub merkle_tree_index: u8,
}

/// What the verifier needs to insert a new address: its seed, the positions of
/// the address tree and queue, and the root the proof is made against.
#[derive(Clone, Copy, Debug, PartialEq, Eq)]
pub struct NewAddressParamsPacked {
    pub seed: [u8; 32],
    pub address_queue_account_index: u8,
    pub address_merkle_tree_account_index: u8,
    pub address_merkle_tree_root_index: u16,
}

/// The role an account in the instruction's variable account list plays
/// towards the compression system program.
#[derive(Clone, Copy, Debug, PartialEq, Eq, Structural)]
pub enum TreeAccountKind {
    StateTree,
    AddressTree,
    AddressQueue,
    Other,
}

/// An account of the variable account list: its key and its role.
#[derive(Clone, Copy, Debug, PartialEq, Eq)]
pub struct TreeAccount {
    pub key: [u8; 32],
    pub kind: TreeAccountKind,
}

/// The contexts name positions within the account list.
pub open spec fn contexts_in_bounds(
    address_merkle_context: PackedAddressMerkleContext,
    remaining_accounts: Seq<TreeAccount>,
) -> bool {
    &&& (address_merkle_context.address_merkle_tree_pubkey_index as int) < remaining_accounts.len()
    &&& (address_merkle_context.address_queue_pubkey_index as int) < remaining_accounts.len()
}

/// The address a seed gets in the address tree that the context names.
pub open spec fn address_for(
    seed: Seq<u8>,
    address_merkle_context: PackedAddressMerkleContext,
    remaining_accounts: Seq<TreeAccount>,
) -> Seq<u8> {
    field_hash_of(
        remaining_accounts[address_merkle_context.address_merkle_tree_pubkey_index as int].key@
            + seed,
    )
}

/// `out` and `params` are the new account and address parameters for a
/// record stored as `layout`, with `data_hash` as its commitment.
pub open spec fn builds(
    out: OutputCompressedAccountWithPackedContext,
    params: NewAddressParamsPacked,
    discriminator: Seq<u8>,
    layout: Seq<u8>,
    data_hash: Seq<u8>,
    address_seed: Seq<u8>,
    program_id: Seq<u8>,
    merkle_output_context: PackedMerkleOutputContext,
    address_merkle_context: PackedAddressMerkleContext,
    address_merkle_tree_root_index: u16,
    remaining_accounts: Seq<TreeAccount>,
) -> bool {
    &&& out.compressed_account.owner@ == program_id
    &&& out.compressed_account.lamports == 0
    &&& out.compressed_account.address matches Some(a) && a@ == address_for(
        address_seed,
        address_merkle_context,
        remaining_accounts,
    )
    &&& out.compressed_account.data matches Some(d) && d.discriminator@ == discriminator
        && d.data@ == layout && d.data_hash@ == data_hash
    &&& out.merkle_tree_index == merkle_output_context.merkle_tree_pubkey_index
    &&& params.seed@ == address_seed
    &&& params.address_merkle_tree_account_index
        == address_merkle_context.address_merkle_tree_pubkey_index
    &&& params.address_queue_account_index == address_merkle_context.address_queue_pubkey_index
    &&& params.address_merkle_tree_root_index == address_merkle_tree_root_index
}

/// Puts together the new account, owned by the program and holding no
/// lamports, and the parameters of its new address.
pub fn pack_new_account(
    discriminator: &[u8; 8],
    data: Vec<u8>,
    data_hash: &[u8; 32],
    address: &[u8; 32],
    address_seed: &[u8; 32],
    program_id: &[u8; 32],
    merkle_output_context: &PackedMerkleOutputContext,
    address_merkle_context: &PackedAddressMerkleContext,
    address_merkle_tree_root_index: u16,
) -> (r: (OutputCompressedAccountWithPackedContext, NewAddressParamsPacked))
    ensures
        r.0.compressed_account.owner == *program_id,
        r.0.compressed_account.lamports == 0,
        r.0.compressed_account.address == Some(*address),
        r.0.compressed_account.data matches Some(d) && d.discriminator == *discriminator
            && d.data@ == data@ && d.data_hash == *data_hash,
        r.0.merkle_tree_index == merkle_output_context.merkle_tree_pubkey_index,
        r.1 == (NewAddressParamsPacked {
            seed: *address_seed,
            address_queue_account_index: address_merkle_context.address_queue_pubkey_index,
            address_merkle_tree_account_index: address_merkle_context.address_merkle_tree_pubkey_index,
            address_merkle_tree_root_index,
        }),
{
    let compressed_account = CompressedAccount {
        owner: *program_id,
        lamports: 0,
        address: Some(*address),
        data: Some(
            CompressedAccountData { discriminator: *discriminator, data, data_hash: *data_hash },
        ),
    };
    let out = OutputCompressedAccountWithPackedContext {
        compressed_account,
        merkle_tree_index: merkle_output_context.merkle_tree_pubkey_index,
    };
    let params = NewAddressParamsPacked {
        seed: *address_seed,
        address_merkle_tree_account_index: address_merkle_context.address_merkle_tree_pubkey_index,
        address_queue_account_index: address_merkle_context.address_queue_pubkey_index,
        address_merkle_tree_root_index,
    };
    (out, params)
}

/// The new account's address and commitment lie in the field: the address's
/// leading byte is zero and the commitment is below the field's order.
pub open spec fn field_safe(out: OutputCompressedAccountWithPackedContext) -> bool {
    &&& out.compressed_account.address matches Some(a) && a[0] == 0
    &&& out.compressed_account.data matches Some(d) && be_value(d.data_hash@) < bn254_modulus()
}

/// Builds the new account and address parameters under a given discriminator.
pub fn new_compressed_account_with_discriminator<T: CompressedRecord>(
    discriminator: &[u8; 8],
    account: &T,
    address_seed: &[u8; 32],
    program_id: &[u8; 32],
    merkle_output_context: &PackedMerkleOutputContext,
    address_merkle_context: &PackedAddressMerkleContext,
    address_merkle_tree_root_index: u16,
    remaining_accounts: &[TreeAccount],
) -> (r: Result<
    (OutputCompressedAccountWithPackedContext, NewAddressParamsPacked),
    ZkNftError,
>)
    requires
        account.spec_fits(),
    ensures
        !contexts_in_bounds(*address_merkle_context, remaining_accounts@) ==> r == Err::<
            (OutputCompressedAccountWithPackedContext, NewAddressParamsPacked),
            ZkNftError,
        >(ZkNftError::AccountIndexOutOfBounds),
        contexts_in_bounds(*address_merkle_context, remaining_accounts@) ==> match r {
            Ok((out, params)) => builds(
                out,
                params,
                discriminator@,
                account.spec_layout(),
                poseidon_of(account.spec_hash_inputs()),
                address_seed@,
                program_id@,
                *merkle_output_context,
                *address_merkle_context,
                address_merkle_tree_root_index,
                remaining_accounts@,
            ),
            Err(e) => e == ZkNftError::HashingFailed,
        },
        contexts_in_bounds(*address_merkle_context, remaining_accounts@) ==> (r is Ok
            <==> poseidon_accepts(account.spec_hash_inputs())),
        r matches Ok((out, _)) ==> field_safe(out),
        (exists|i: int|
            0 <= i < account.spec_hash_inputs().len() && account.spec_hash_inputs()[i].len() > 32)
            ==> r is Err,
{
    let tree_index = address_merkle_context.address_merkle_tree_pubkey_index as usize;
    let queue_index = address_merkle_context.address_queue_pubkey_index as usize;
    if tree_index >= remaining_accounts.len() || queue_index >= remaining_accounts.len() {
        return Err(ZkNftError::AccountIndexOutOfBounds);
    }
    let data = account.try_to_vec();
    let data_hash = match data_hash(account) {
        Ok(h) => h,
        Err(e) => {
            return Err(e);
        },
    };
    let address = derive_address(
        address_seed,
        &remaining_accounts[tree_index].key,
        &remaining_accounts[queue_index].key,
    );
    Ok(
        pack_new_account(
            discriminator,
            data,
            &data_hash,
            &address,
            address_seed,
            program_id,
            merkle_output_context,
            address_merkle_context,
            address_merkle_tree_root_index,
        ),
    )
}

/// Builds the new account and address parameters under the record type's own
/// discriminator.
pub fn new_compressed_account<T: CompressedRecord>(
    account: &T,
    address_seed: &[u8; 32],
    program_id: &[u8; 32],
    merkle_output_context: &PackedMerkleOutputContext,
    address_merkle_context: &PackedAddressMerkleContext,
    address_merkle_tree_root_index: u16,
    remaining_accounts: &[TreeAccount],
) -> (r: Result<
    (OutputCompressedAccountWithPackedContext, NewAddressParamsPacked),
    ZkNftError,
>)
    requires
        account.spec_fits(),
    ensures
        !contexts_in_bounds(*address_merkle_context, remaining_accounts@) ==> r == Err::<
            (OutputCompressedAccountWithPackedContext, NewAddressParamsPacked),
            ZkNftError,
        >(ZkNftError::AccountIndexOutOfBounds),
        contexts_in_bounds(*address_merkle_context, remaining_accounts@) ==> match r {
            Ok((out, params)) => builds(
                out,
                params,
                sha256_of(T::spec_name()).take(8),
                account.spec_layout(),
                poseidon_of(account.spec_hash_inputs()),
                address_seed@,
                program_id@,
                *merkle_output_context,
                *address_merkle_context,
                address_merkle_tree_root_index,
                remaining_accounts@,
            ),
            Err(e) => e == ZkNftError::HashingFailed,
        },
        contexts_in_bounds(*address_merkle_context, remaining_accounts@) ==> (r is Ok
            <==> poseidon_accepts(account.spec_hash_inputs())),
        r matches Ok((out, _)) ==> field_safe(out),
        (exists|i: int|
            0 <= i < account.spec_hash_inputs().len() && account.spec_hash_inputs()[i].len() > 32)
            ==> r is Err,
{
    let discriminator = T::discriminator();
    new_compressed_account_with_discriminator(
        &discriminator,
        account,
        address_seed,
        program_id,
        merkle_output_context,
        address_merkle_context,
        address_merkle_tree_root_index,
        remaining_accounts,
    )
}

} // verus!

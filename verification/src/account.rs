//! Transactions that manage an account: its keys and its contracts.
//!
//! Each of them is paid, proposed and authorized by one account, and signed
//! once, on the envelope, with one key of that account.

use vstd::prelude::*;
use vstd::string::*;
use vstd::utf8::encode_utf8;
use crate::argument::{json_text, Argument, ArgumentView};
use crate::canonical::views;
use crate::error::Error;
use crate::hexstr::{decode_hex, hex_bytes, is_hex};
use crate::signing::{
    fully_signed, ready, sign_transaction, signed_outcome, signer_views, Sign, SignView,
};
use crate::transaction::{
    build_outcome, build_transaction, texts, Transaction, TransactionProposalKey,
    TransactionProposalKeyView, TransactionView,
};

verus! {

/// The gas limit of every account transaction.
pub const ACCOUNT_GAS_LIMIT: u64 = 1000;

/// Creates an account with the given public keys and contracts.
pub const CREATE_ACCOUNT_SCRIPT: &'static str =
    "
        transaction(publicKeys: [String], contracts: {String: String}) {
            prepare(signer: AuthAccount) {
                let acct = AuthAccount(payer: signer)
        
                for key in publicKeys {
                    acct.addPublicKey(key.decodeHex())
                }
        
                for contract in contracts.keys {
                    acct.contracts.add(name: contract, code: contracts[contract]!.decodeHex())
                }
            }
        }";

/// Adds a public key to the signer's account.
pub const ADD_KEY_SCRIPT: &'static str =
    "
        transaction(publicKey: String) {
            prepare(signer: AuthAccount) {
                signer.addPublicKey(publicKey.decodeHex())
            }
        }
        ";

/// Removes the key with the given index from the signer's account.
pub const REMOVE_KEY_SCRIPT: &'static str =
    "
        transaction(keyIndex: Int) {
            prepare(signer: AuthAccount) {
                signer.removePublicKey(keyIndex)
            }
        }
        ";

/// Adds a contract to the signer's account.
pub const ADD_CONTRACT_SCRIPT: &'static str =
    "
        transaction(name: String, code: String) {
            prepare(signer: AuthAccount) {
                signer.contracts.add(name: name, code: code.decodeHex())
            }
        }
        ";

/// Replaces the code of a contract of the signer's account.
pub const UPDATE_CONTRACT_SCRIPT: &'static str =
    "
        transaction(name: String, code: String) {
            prepare(signer: AuthAccount) {
                signer.contracts.update__experimental(name: name, code: code.decodeHex())
            }
        }
        ";

/// Removes a contract from the signer's account.
pub const REMOVE_CONTRACT_SCRIPT: &'static str =
    "
        transaction(name: String) {
            prepare(signer: AuthAccount) {
                signer.contracts.remove(name: name)
            }
        }
        ";

/// What an account transaction comes to: the script with its arguments,
/// proposed, authorized and paid by `payer`, with the fixed gas limit, signed
/// on the envelope with the payer's key.
pub open spec fn account_transaction_outcome(
    script: Seq<char>,
    arguments: Seq<Seq<u8>>,
    reference_block_id: Seq<u8>,
    payer: Seq<char>,
    payer_private_key: Seq<char>,
    key_id: nat,
    sequence_number: nat,
) -> Result<TransactionView, Error> {
    if !is_hex(payer) {
        Err(Error::DecodeError)
    } else {
        match build_outcome(
            encode_utf8(script),
            arguments,
            reference_block_id,
            ACCOUNT_GAS_LIMIT as nat,
            TransactionProposalKeyView { address: hex_bytes(payer), key_id, sequence_number },
            seq![payer],
            payer,
        ) {
            Err(e) => Err(e),
            Ok(tx) => fully_signed(
                tx,
                Seq::empty(),
                seq![SignView { address: payer, key_id, private_key: payer_private_key }],
            ),
        }
    }
}

/// Builds an account transaction and signs its envelope with the payer's
/// key.
///
/// The sequence number is that of the payer's key `key_id`, and the reference
/// block is a recent block: both are asked of the network by the caller.
pub fn account_transaction(
    script: &str,
    arguments: Vec<Vec<u8>>,
    reference_block_id: Vec<u8>,
    payer: &str,
    payer_private_key: &str,
    key_id: u32,
    sequence_number: u64,
) -> (out: Result<Option<Transaction>, Error>)
    ensures
        signed_outcome(out) == ready(
            account_transaction_outcome(
                script@,
                views(arguments@),
                reference_block_id@,
                payer@,
                payer_private_key@,
                key_id as nat,
                sequence_number as nat,
            ),
        ),
{
    let address = decode_hex(payer)?;
    let proposer = TransactionProposalKey { address, key_id, sequence_number };
    let mut authorizers: Vec<String> = Vec::new();
    authorizers.push(String::from_str(payer));
    assert(texts(authorizers@) =~= seq![payer@]);
    let transaction = build_transaction(
        script.as_bytes_vec(),
        arguments,
        reference_block_id,
        ACCOUNT_GAS_LIMIT,
        proposer,
        authorizers,
        String::from_str(payer),
    )?;
    let signer = Sign {
        address: String::from_str(payer),
        key_id,
        private_key: String::from_str(payer_private_key),
    };
    let payload_signers: Vec<&Sign> = Vec::new();
    let mut envelope_signers: Vec<&Sign> = Vec::new();
    envelope_signers.push(&signer);
    assert(signer_views(payload_signers@) =~= Seq::empty());
    assert(signer_views(envelope_signers@) =~= seq![signer@]);
    sign_transaction(transaction, payload_signers, envelope_signers)
}

/// The record of a string argument, as bytes.
pub open spec fn string_record(value: Seq<char>) -> Seq<u8> {
    encode_utf8(json_text(ArgumentView::String(value)))
}

/// A public key with what makes it an account key: the text `f847b840` in
/// front of it and `02038203e8` behind it. For a key of 64 bytes in
/// hexadecimal this spells the list of the key, the signature algorithm
/// ECDSA P-256, the hash algorithm SHA3-256 and the weight 1000.
pub open spec fn account_key(public_key: Seq<char>) -> Seq<char> {
    "f847b840"@ + public_key + "02038203e8"@
}

/// The keys of a new account as one argument: the array of the account keys,
/// each as a string.
pub open spec fn keys_argument(account_keys: Seq<Seq<char>>) -> ArgumentView {
    ArgumentView::Array(
        Seq::new(account_keys.len(), |i: int| ArgumentView::String(account_key(account_keys[i]))),
    )
}

/// Makes the argument that carries the keys of a new account.
pub fn process_keys_args(account_keys: Vec<String>) -> (out: Argument)
    ensures
        out@ == keys_argument(texts(account_keys@)),
{
    let mut values: Vec<Argument> = Vec::new();
    let mut i: usize = 0;
    while i < account_keys.len()
        invariant
            i <= account_keys.len(),
            values@.len() == i,
            forall|k: int|
                0 <= k < i ==> (#[trigger] values[k])@ == ArgumentView::String(
                    account_key(account_keys[k]@),
                ),
        decreases account_keys.len() - i,
    {
        let mut text = String::from_str("f847b840");
        text.append(account_keys[i].as_str());
        text.append("02038203e8");
        values.push(Argument::String(text));
        i = i + 1;
    }
    assert(crate::argument::argument_views(values) =~= keys_argument(
        texts(account_keys@),
    )->Array_0);
    Argument::Array(values)
}

/// The transaction that creates an account with the given public keys and
/// no contracts.
pub fn create_account_transaction(
    account_keys: Vec<String>,
    reference_block_id: Vec<u8>,
    payer: &str,
    payer_private_key: &str,
    key_id: u32,
    sequence_number: u64,
) -> (out: Result<Option<Transaction>, Error>)
    ensures
        signed_outcome(out) == ready(
            account_transaction_outcome(
                CREATE_ACCOUNT_SCRIPT@,
                seq![
                    encode_utf8(json_text(keys_argument(texts(account_keys@)))),
                    encode_utf8(json_text(ArgumentView::Dictionary(Seq::empty()))),
                ],
                reference_block_id@,
                payer@,
                payer_private_key@,
                key_id as nat,
                sequence_number as nat,
            ),
        ),
{
    let keys = process_keys_args(account_keys);
    let contracts = Argument::dictionary(Vec::new());
    assert(contracts@ == ArgumentView::Dictionary(Seq::empty())) by {
        assert(crate::argument::pair_views(contracts->Dictionary_0@) =~= Seq::empty());
    }
    let mut arguments: Vec<Vec<u8>> = Vec::new();
    arguments.push(keys.encode_arr());
    arguments.push(contracts.encode_arr());
    assert(views(arguments@) =~= seq![
        encode_utf8(json_text(keys_argument(texts(account_keys@)))),
        encode_utf8(json_text(ArgumentView::Dictionary(Seq::empty()))),
    ]);
    account_transaction(
        CREATE_ACCOUNT_SCRIPT,
        arguments,
        reference_block_id,
        payer,
        payer_private_key,
        key_id,
        sequence_number,
    )
}

/// The transaction that adds a public key to the payer's account.
pub fn add_key_transaction(
    public_key_to_add: &str,
    reference_block_id: Vec<u8>,
    payer: &str,
    payer_private_key: &str,
    key_id: u32,
    sequence_number: u64,
) -> (out: Result<Option<Transaction>, Error>)
    ensures
        signed_outcome(out) == ready(
            account_transaction_outcome(
                ADD_KEY_SCRIPT@,
                seq![string_record(public_key_to_add@)],
                reference_block_id@,
                payer@,
                payer_private_key@,
                key_id as nat,
                sequence_number as nat,
            ),
        ),
{
    let mut arguments: Vec<Vec<u8>> = Vec::new();
    arguments.push(Argument::str(public_key_to_add).encode_str());
    assert(views(arguments@) =~= seq![string_record(public_key_to_add@)]);
    account_transaction(
        ADD_KEY_SCRIPT,
        arguments,
        reference_block_id,
        payer,
        payer_private_key,
        key_id,
        sequence_number,
    )
}

/// The transaction that removes the key with index `key_to_remove` from the
/// payer's account.
pub fn remove_key_transaction(
    key_to_remove: u64,
    reference_block_id: Vec<u8>,
    payer: &str,
    payer_private_key: &str,
    key_id: u32,
    sequence_number: u64,
) -> (out: Result<Option<Transaction>, Error>)
    ensures
        signed_outcome(out) == ready(
            account_transaction_outcome(
                REMOVE_KEY_SCRIPT@,
                seq![encode_utf8(json_text(ArgumentView::UInt64(key_to_remove as nat)))],
                reference_block_id@,
                payer@,
                payer_private_key@,
                key_id as nat,
                sequence_number as nat,
            ),
        ),
{
    let mut arguments: Vec<Vec<u8>> = Vec::new();
    arguments.push(Argument::uint64(key_to_remove).encode());
    assert(views(arguments@) =~= seq![
        encode_utf8(json_text(ArgumentView::UInt64(key_to_remove as nat))),
    ]);
    account_transaction(
        REMOVE_KEY_SCRIPT,
        arguments,
        reference_block_id,
        payer,
        payer_private_key,
        key_id,
        sequence_number,
    )
}

/// The two arguments of a transaction that adds or updates a contract.
fn contract_arguments(contract_name: &str, contract_code: &str) -> (out: Vec<Vec<u8>>)
    ensures
        views(out@) == seq![string_record(contract_name@), string_record(contract_code@)],
{
    let mut arguments: Vec<Vec<u8>> = Vec::new();
    arguments.push(Argument::str(contract_name).encode_str());
    arguments.push(Argument::str(contract_code).encode_str());
    assert(views(arguments@) =~= seq![
        string_record(contract_name@),
        string_record(contract_code@),
    ]);
    arguments
}

/// The transaction that adds a contract, its code in hexadecimal, to the
/// payer's account.
pub fn add_contract_transaction(
    contract_name: &str,
    contract_code: &str,
    reference_block_id: Vec<u8>,
    payer: &str,
    payer_private_key: &str,
    key_id: u32,
    sequence_number: u64,
) -> (out: Result<Option<Transaction>, Error>)
    ensures
        signed_outcome(out) == ready(
            account_transaction_outcome(
                ADD_CONTRACT_SCRIPT@,
                seq![string_record(contract_name@), string_record(contract_code@)],
                reference_block_id@,
                payer@,
                payer_private_key@,
                key_id as nat,
                sequence_number as nat,
            ),
        ),
{
    account_transaction(
        ADD_CONTRACT_SCRIPT,
        contract_arguments(contract_name, contract_code),
        reference_block_id,
        payer,
        payer_private_key,
        key_id,
        sequence_number,
    )
}

/// The transaction that replaces the code of a contract of the payer's
/// account.
pub fn update_contract_transaction(
    contract_name: &str,
    contract_code: &str,
    reference_block_id: Vec<u8>,
    payer: &str,
    payer_private_key: &str,
    key_id: u32,
    sequence_number: u64,
) -> (out: Result<Option<Transaction>, Error>)
    ensures
        signed_outcome(out) == ready(
            account_transaction_outcome(
                UPDATE_CONTRACT_SCRIPT@,
                seq![string_record(contract_name@), string_record(contract_code@)],
                reference_block_id@,
                payer@,
                payer_private_key@,
                key_id as nat,
                sequence_number as nat,
            ),
        ),
{
    account_transaction(
        UPDATE_CONTRACT_SCRIPT,
        contract_arguments(contract_name, contract_code),
        reference_block_id,
        payer,
        payer_private_key,
        key_id,
        sequence_number,
    )
}

/// The transaction that removes a contract from the payer's account.
pub fn remove_contract_transaction(
    contract_name: &str,
    reference_block_id: Vec<u8>,
    payer: &str,
    payer_private_key: &str,
    key_id: u32,
    sequence_number: u64,
) -> (out: Result<Option<Transaction>, Error>)
    ensures
        signed_outcome(out) == ready(
            account_transaction_outcome(
                REMOVE_CONTRACT_SCRIPT@,
                seq![string_record(contract_name@)],
                reference_block_id@,
                payer@,
                payer_private_key@,
                key_id as nat,
                sequence_number as nat,
            ),
        ),
{
    let mut arguments: Vec<Vec<u8>> = Vec::new();
    arguments.push(Argument::str(contract_name).encode_str());
    assert(views(arguments@) =~= seq![string_record(contract_name@)]);
    account_transaction(
        REMOVE_CONTRACT_SCRIPT,
        arguments,
        reference_block_id,
        payer,
        payer_private_key,
        key_id,
        sequence_number,
    )
}

} // verus!

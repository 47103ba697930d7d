//! The transaction, and the two views of it that are signed.

use vstd::prelude::*;
use crate::canonical::{encodable, encode, encoding, views, Item, ItemView, item_views};
use crate::error::Error;
use crate::hexstr::{decode_hex, hex_bytes, is_hex};
use crate::padding::{pad, padded};

verus! {

/// The width, in bytes, to which every account address is padded.
pub const ADDRESS_WIDTH: usize = 8;

/// The width, in bytes, to which the reference block id is padded.
pub const BLOCK_ID_WIDTH: usize = 32;

/// The key that proposes a transaction; its sequence number orders the
/// proposer's transactions and protects against replay.
#[derive(Clone, Debug, PartialEq, Eq)]
pub struct TransactionProposalKey {
    pub address: Vec<u8>,
    pub key_id: u32,
    pub sequence_number: u64,
}

pub struct TransactionProposalKeyView {
    pub address: Seq<u8>,
    pub key_id: nat,
    pub sequence_number: nat,
}

impl View for TransactionProposalKey {
    type V = TransactionProposalKeyView;

    open spec fn view(&self) -> TransactionProposalKeyView {
        TransactionProposalKeyView {
            address: self.address@,
            key_id: self.key_id as nat,
            sequence_number: self.sequence_number as nat,
        }
    }
}

/// One signature on a transaction: who signed, with which key, and the raw
/// signature bytes.
#[derive(Clone, Debug, PartialEq, Eq)]
pub struct TransactionSignature {
    pub address: Vec<u8>,
    pub key_id: u32,
    pub signature: Vec<u8>,
}

pub struct TransactionSignatureView {
    pub address: Seq<u8>,
    pub key_id: nat,
    pub signature: Seq<u8>,
}

impl View for TransactionSignature {
    type V = TransactionSignatureView;

    open spec fn view(&self) -> TransactionSignatureView {
        TransactionSignatureView {
            address: self.address@,
            key_id: self.key_id as nat,
            signature: self.signature@,
        }
    }
}

/// The views of `signatures`, in order.
pub open spec fn signature_views(signatures: Seq<TransactionSignature>) -> Seq<
    TransactionSignatureView,
> {
    Seq::new(signatures.len(), |i: int| signatures[i]@)
}

/// A transaction: unsigned when both signature lists are empty.
#[derive(Clone, Debug, PartialEq, Eq)]
pub struct Transaction {
    pub script: Vec<u8>,
    pub arguments: Vec<Vec<u8>>,
    pub reference_block_id: Vec<u8>,
    pub gas_limit: u64,
    pub proposal_key: TransactionProposalKey,
    pub payer: Vec<u8>,
    pub authorizers: Vec<Vec<u8>>,
    pub payload_signatures: Vec<TransactionSignature>,
    pub envelope_signatures: Vec<TransactionSignature>,
}

pub struct TransactionView {
    pub script: Seq<u8>,
    pub arguments: Seq<Seq<u8>>,
    pub reference_block_id: Seq<u8>,
    pub gas_limit: nat,
    pub proposal_key: TransactionProposalKeyView,
    pub payer: Seq<u8>,
    pub authorizers: Seq<Seq<u8>>,
    pub payload_signatures: Seq<TransactionSignatureView>,
    pub envelope_signatures: Seq<TransactionSignatureView>,
}

impl View for Transaction {
    type V = TransactionView;

    open spec fn view(&self) -> TransactionView {
        TransactionView {
            script: self.script@,
            arguments: views(self.arguments@),
            reference_block_id: self.reference_block_id@,
            gas_limit: self.gas_limit as nat,
            proposal_key: self.proposal_key@,
            payer: self.payer@,
            authorizers: views(self.authorizers@),
            payload_signatures: signature_views(self.payload_signatures@),
            envelope_signatures: signature_views(self.envelope_signatures@),
        }
    }
}

/// How far the signing of a transaction has come.
#[derive(Clone, Copy, Debug, PartialEq, Eq, Structural)]
pub enum Stage {
    /// No signature yet.
    Unsigned,
    /// Payload signatures, and no envelope signature yet.
    PayloadSigned,
    /// At least one envelope signature.
    FullySigned,
}

impl TransactionView {
    /// The stage that the signatures of the transaction show.
    pub open spec fn stage(self) -> Stage {
        if self.envelope_signatures.len() > 0 {
            Stage::FullySigned
        } else if self.payload_signatures.len() > 0 {
            Stage::PayloadSigned
        } else {
            Stage::Unsigned
        }
    }

    /// Every fixed-width field fits its width: the block id 32 bytes, each
    /// address 8 bytes.
    pub open spec fn well_formed(self) -> bool {
        &&& self.reference_block_id.len() <= BLOCK_ID_WIDTH
        &&& self.proposal_key.address.len() <= ADDRESS_WIDTH
        &&& self.payer.len() <= ADDRESS_WIDTH
        &&& forall|i: int|
            0 <= i < self.authorizers.len() ==> (#[trigger] self.authorizers[i]).len()
                <= ADDRESS_WIDTH
    }
}

/// Each byte string of `parts` as an item.
pub open spec fn byte_items(parts: Seq<Seq<u8>>) -> Seq<ItemView> {
    Seq::new(parts.len(), |i: int| ItemView::Bytes(parts[i]))
}

/// Each address of `addresses` as an item, padded to eight bytes.
pub open spec fn address_items(addresses: Seq<Seq<u8>>) -> Seq<ItemView> {
    Seq::new(addresses.len(), |i: int| ItemView::Bytes(padded(addresses[i], ADDRESS_WIDTH as nat)))
}

/// The payload of a transaction: the list of its nine fields, in the order
/// that every verifier expects. No signature is part of it.
pub open spec fn payload_item(tx: TransactionView) -> ItemView {
    ItemView::List(
        seq![
            ItemView::Bytes(tx.script),
            ItemView::List(byte_items(tx.arguments)),
            ItemView::Bytes(padded(tx.reference_block_id, BLOCK_ID_WIDTH as nat)),
            ItemView::Uint(tx.gas_limit),
            ItemView::Bytes(padded(tx.proposal_key.address, ADDRESS_WIDTH as nat)),
            ItemView::Uint(tx.proposal_key.key_id),
            ItemView::Uint(tx.proposal_key.sequence_number),
            ItemView::Bytes(padded(tx.payer, ADDRESS_WIDTH as nat)),
            ItemView::List(address_items(tx.authorizers)),
        ],
    )
}

/// The bytes that payload signers sign, before the domain tag is put in
/// front.
pub open spec fn payload_encoding(tx: TransactionView) -> Seq<u8> {
    encoding(payload_item(tx))
}

/// Each signature as the triple of its position in the sequence, its key
/// index and its raw bytes.
pub open spec fn signature_items(signatures: Seq<TransactionSignatureView>) -> Seq<ItemView> {
    Seq::new(
        signatures.len(),
        |i: int|
            ItemView::List(
                seq![
                    ItemView::Uint(i as nat),
                    ItemView::Uint(signatures[i].key_id),
                    ItemView::Bytes(signatures[i].signature),
                ],
            ),
    )
}

/// The envelope of a transaction: its payload, then the payload signatures.
pub open spec fn envelope_item(
    tx: TransactionView,
    payload_signatures: Seq<TransactionSignatureView>,
) -> ItemView {
    ItemView::List(seq![payload_item(tx), ItemView::List(signature_items(payload_signatures))])
}

/// The bytes that envelope signers sign, before the domain tag is put in
/// front.
pub open spec fn envelope_encoding(
    tx: TransactionView,
    payload_signatures: Seq<TransactionSignatureView>,
) -> Seq<u8> {
    encoding(envelope_item(tx, payload_signatures))
}

impl Transaction {
    /// The stage that the signatures of the transaction show.
    pub fn stage(&self) -> (out: Stage)
        ensures
            out == self@.stage(),
    {
        if self.envelope_signatures.len() > 0 {
            Stage::FullySigned
        } else if self.payload_signatures.len() > 0 {
            Stage::PayloadSigned
        } else {
            Stage::Unsigned
        }
    }

    /// Tests whether every fixed-width field fits its width.
    pub fn is_well_formed(&self) -> (ok: bool)
        ensures
            ok == self@.well_formed(),
    {
        if self.reference_block_id.len() > BLOCK_ID_WIDTH {
            return false;
        }
        if self.proposal_key.address.len() > ADDRESS_WIDTH {
            return false;
        }
        if self.payer.len() > ADDRESS_WIDTH {
            return false;
        }
        let mut i: usize = 0;
        while i < self.authorizers.len()
            invariant
                i <= self.authorizers.len(),
                forall|k: int| 0 <= k < i ==> (#[trigger] self@.authorizers[k]).len() <= ADDRESS_WIDTH,
            decreases self.authorizers.len() - i,
        {
            if self.authorizers[i].len() > ADDRESS_WIDTH {
                assert(self@.authorizers[i as int].len() > ADDRESS_WIDTH);
                return false;
            }
            i = i + 1;
        }
        true
    }
}

/// A byte string as an item.
fn bytes_item(data: &Vec<u8>) -> (out: Item)
    ensures
        out@ == ItemView::Bytes(data@),
{
    let copy = data.clone();
    assert(copy@ =~= data@);
    Item::Bytes(copy)
}

/// Each byte string of `parts` as an item, in a list.
fn byte_list_item(parts: &Vec<Vec<u8>>) -> (out: Item)
    ensures
        out@ == ItemView::List(byte_items(views(parts@))),
{
    let mut items: Vec<Item> = Vec::new();
    let mut i: usize = 0;
    while i < parts.len()
        invariant
            i <= parts.len(),
            items@.len() == i,
            forall|k: int| 0 <= k < i ==> (#[trigger] items[k])@ == ItemView::Bytes(parts[k]@),
        decreases parts.len() - i,
    {
        items.push(bytes_item(&parts[i]));
        i = i + 1;
    }
    assert(item_views(items) =~= byte_items(views(parts@)));
    Item::List(items)
}

/// Each address as an item padded to eight bytes, in a list.
fn address_list_item(addresses: &Vec<Vec<u8>>) -> (out: Item)
    requires
        forall|i: int| 0 <= i < addresses.len() ==> (#[trigger] addresses[i]).len() <= ADDRESS_WIDTH,
    ensures
        out@ == ItemView::List(address_items(views(addresses@))),
{
    let mut items: Vec<Item> = Vec::new();
    let mut i: usize = 0;
    while i < addresses.len()
        invariant
            i <= addresses.len(),
            items@.len() == i,
            forall|k: int|
                0 <= k < addresses.len() ==> (#[trigger] addresses[k]).len() <= ADDRESS_WIDTH,
            forall|k: int|
                0 <= k < i ==> (#[trigger] items[k])@ == ItemView::Bytes(
                    padded(addresses[k]@, ADDRESS_WIDTH as nat),
                ),
        decreases addresses.len() - i,
    {
        items.push(Item::Bytes(pad(addresses[i].as_slice(), ADDRESS_WIDTH)));
        i = i + 1;
    }
    assert(item_views(items) =~= address_items(views(addresses@)));
    Item::List(items)
}

/// The payload of a well-formed transaction, as an item.
fn payload_item_of(tx: &Transaction) -> (out: Item)
    requires
        tx@.well_formed(),
    ensures
        out@ == payload_item(tx@),
{
    assert forall|i: int| 0 <= i < tx.authorizers.len() implies (#[trigger] tx.authorizers[i]).len()
        <= ADDRESS_WIDTH by {
        assert(tx@.authorizers[i].len() <= ADDRESS_WIDTH);
    }
    let mut fields: Vec<Item> = Vec::new();
    fields.push(bytes_item(&tx.script));
    fields.push(byte_list_item(&tx.arguments));
    fields.push(Item::Bytes(pad(tx.reference_block_id.as_slice(), BLOCK_ID_WIDTH)));
    fields.push(Item::Uint(tx.gas_limit));
    fields.push(Item::Bytes(pad(tx.proposal_key.address.as_slice(), ADDRESS_WIDTH)));
    fields.push(Item::Uint(tx.proposal_key.key_id as u64));
    fields.push(Item::Uint(tx.proposal_key.sequence_number));
    fields.push(Item::Bytes(pad(tx.payer.as_slice(), ADDRESS_WIDTH)));
    fields.push(address_list_item(&tx.authorizers));
    assert(item_views(fields) =~= payload_item(tx@)->List_0);
    Item::List(fields)
}

/// The payload signatures as a list of triples.
fn signature_list_item(signatures: &Vec<TransactionSignature>) -> (out: Item)
    ensures
        out@ == ItemView::List(signature_items(signature_views(signatures@))),
{
    let mut items: Vec<Item> = Vec::new();
    let mut i: usize = 0;
    while i < signatures.len()
        invariant
            i <= signatures.len(),
            items@.len() == i,
            forall|k: int|
                0 <= k < i ==> (#[trigger] items[k])@ == signature_items(
                    signature_views(signatures@),
                )[k],
        decreases signatures.len() - i,
    {
        let mut triple: Vec<Item> = Vec::new();
        triple.push(Item::Uint(i as u64));
        triple.push(Item::Uint(signatures[i].key_id as u64));
        triple.push(bytes_item(&signatures[i].signature));
        assert(item_views(triple) =~= signature_items(signature_views(signatures@))[i as int]->List_0);
        items.push(Item::List(triple));
        i = i + 1;
    }
    assert(item_views(items) =~= signature_items(signature_views(signatures@)));
    Item::List(items)
}

/// What encoding the payload comes to: an `EncodingOverflow` where a field
/// exceeds its fixed width or a length is too long for its prefix, else the
/// payload's encoding.
pub open spec fn payload_outcome(tx: TransactionView) -> Result<Seq<u8>, Error> {
    if tx.well_formed() && encodable(payload_item(tx)) {
        Ok(payload_encoding(tx))
    } else {
        Err(Error::EncodingOverflow)
    }
}

/// What encoding the envelope comes to: an `EncodingOverflow` where a field
/// exceeds its fixed width or a length is too long for its prefix, else the
/// envelope's encoding.
pub open spec fn envelope_outcome(
    tx: TransactionView,
    payload_signatures: Seq<TransactionSignatureView>,
) -> Result<Seq<u8>, Error> {
    if tx.well_formed() && encodable(envelope_item(tx, payload_signatures)) {
        Ok(envelope_encoding(tx, payload_signatures))
    } else {
        Err(Error::EncodingOverflow)
    }
}

/// The view of a result that holds a byte string.
pub open spec fn bytes_outcome(out: Result<Vec<u8>, Error>) -> Result<Seq<u8>, Error> {
    match out {
        Ok(bytes) => Ok(bytes@),
        Err(e) => Err(e),
    }
}

/// Encodes the payload of a transaction: what payload signers sign.
pub fn payload_from_transaction(transaction: &Transaction) -> (out: Result<Vec<u8>, Error>)
    ensures
        bytes_outcome(out) == payload_outcome(transaction@),
{
    if !transaction.is_well_formed() {
        return Err(Error::EncodingOverflow);
    }
    encode(&payload_item_of(transaction))
}

/// Encodes the envelope of a transaction: its payload and the given payload
/// signatures, each with its position in that sequence. This is what
/// envelope signers sign.
pub fn envelope_from_transaction(
    transaction: &Transaction,
    payload_signatures: &Vec<TransactionSignature>,
) -> (out: Result<Vec<u8>, Error>)
    ensures
        bytes_outcome(out) == envelope_outcome(transaction@, signature_views(payload_signatures@)),
{
    if !transaction.is_well_formed() {
        return Err(Error::EncodingOverflow);
    }
    let mut parts: Vec<Item> = Vec::new();
    parts.push(payload_item_of(transaction));
    parts.push(signature_list_item(payload_signatures));
    assert(item_views(parts) =~= envelope_item(
        transaction@,
        signature_views(payload_signatures@),
    )->List_0);
    encode(&Item::List(parts))
}

/// The texts of `strings`, in order.
pub open spec fn texts(strings: Seq<String>) -> Seq<Seq<char>> {
    Seq::new(strings.len(), |i: int| strings[i]@)
}

/// Whether every text is an even number of hexadecimal digits.
pub open spec fn all_hex(texts: Seq<Seq<char>>) -> bool {
    forall|i: int| 0 <= i < texts.len() ==> is_hex(#[trigger] texts[i])
}

/// The bytes that each text spells.
pub open spec fn all_hex_bytes(texts: Seq<Seq<char>>) -> Seq<Seq<u8>> {
    Seq::new(texts.len(), |i: int| hex_bytes(texts[i]))
}

/// The unsigned transaction that the given parts make up: every field as
/// given, the addresses decoded from their hexadecimal text, no signature.
pub open spec fn built(
    script: Seq<u8>,
    arguments: Seq<Seq<u8>>,
    reference_block_id: Seq<u8>,
    gas_limit: nat,
    proposer: TransactionProposalKeyView,
    authorizers: Seq<Seq<char>>,
    payer: Seq<char>,
) -> TransactionView {
    TransactionView {
        script,
        arguments,
        reference_block_id,
        gas_limit,
        proposal_key: proposer,
        payer: hex_bytes(payer),
        authorizers: all_hex_bytes(authorizers),
        payload_signatures: Seq::empty(),
        envelope_signatures: Seq::empty(),
    }
}

/// What building a transaction from the given parts comes to: a malformed
/// address is a `DecodeError`; otherwise a field beyond its fixed width is an
/// `EncodingOverflow`; otherwise the transaction.
pub open spec fn build_outcome(
    script: Seq<u8>,
    arguments: Seq<Seq<u8>>,
    reference_block_id: Seq<u8>,
    gas_limit: nat,
    proposer: TransactionProposalKeyView,
    authorizers: Seq<Seq<char>>,
    payer: Seq<char>,
) -> Result<TransactionView, Error> {
    let tx = built(script, arguments, reference_block_id, gas_limit, proposer, authorizers, payer);
    if !(all_hex(authorizers) && is_hex(payer)) {
        Err(Error::DecodeError)
    } else if !tx.well_formed() {
        Err(Error::EncodingOverflow)
    } else {
        Ok(tx)
    }
}

/// The view of a result that holds a transaction.
pub open spec fn transaction_outcome(out: Result<Transaction, Error>) -> Result<
    TransactionView,
    Error,
> {
    match out {
        Ok(tx) => Ok(tx@),
        Err(e) => Err(e),
    }
}

/// Builds an unsigned transaction.
///
/// The authorizers and the payer are given as hexadecimal text and decoded
/// here. The widths of the fixed-width fields are tested here too, so that a
/// transaction that was built can always be padded.
pub fn build_transaction(
    script: Vec<u8>,
    arguments: Vec<Vec<u8>>,
    reference_block_id: Vec<u8>,
    gas_limit: u64,
    proposer: TransactionProposalKey,
    authorizers: Vec<String>,
    payer: String,
) -> (out: Result<Transaction, Error>)
    ensures
        transaction_outcome(out) == build_outcome(
            script@,
            views(arguments@),
            reference_block_id@,
            gas_limit as nat,
            proposer@,
            texts(authorizers@),
            payer@,
        ),
{
    let ghost wanted = all_hex_bytes(texts(authorizers@));
    let mut decoded: Vec<Vec<u8>> = Vec::new();
    let mut i: usize = 0;
    while i < authorizers.len()
        invariant
            i <= authorizers.len(),
            wanted == all_hex_bytes(texts(authorizers@)),
            decoded@.len() == i,
            forall|k: int| 0 <= k < i ==> is_hex(#[trigger] texts(authorizers@)[k]),
            forall|k: int| 0 <= k < i ==> (#[trigger] decoded[k])@ == wanted[k],
        decreases authorizers.len() - i,
    {
        match decode_hex(authorizers[i].as_str()) {
            Ok(bytes) => {
                decoded.push(bytes);
            },
            Err(e) => {
                assert(!is_hex(texts(authorizers@)[i as int]));
                return Err(e);
            },
        }
        i = i + 1;
    }
    let payer_bytes = match decode_hex(payer.as_str()) {
        Ok(bytes) => bytes,
        Err(e) => {
            return Err(e);
        },
    };
    let transaction = Transaction {
        script,
        arguments,
        reference_block_id,
        gas_limit,
        proposal_key: proposer,
        payer: payer_bytes,
        authorizers: decoded,
        payload_signatures: Vec::new(),
        envelope_signatures: Vec::new(),
    };
    assert(views(transaction.authorizers@) =~= wanted);
    assert(transaction@.payload_signatures =~= Seq::empty());
    assert(transaction@.envelope_signatures =~= Seq::empty());
    if transaction.is_well_formed() {
        Ok(transaction)
    } else {
        Err(Error::EncodingOverflow)
    }
}

} // verus!

//! Signing: the tagged message, one signature per signer, and the two tiers.

use vstd::prelude::*;
use p256_flow::ecdsa::signature_flow::{Signature, Signer};
use crate::error::Error;
use crate::hexstr::{decode_hex, hex_bytes, is_hex};
use crate::padding::{pad_right, padded, padded_right, try_pad};
use crate::transaction::{
    bytes_outcome, envelope_from_transaction, envelope_outcome, payload_from_transaction,
    payload_outcome, signature_views, transaction_outcome, Transaction, TransactionSignature,
    TransactionSignatureView, TransactionView, ADDRESS_WIDTH,
};

verus! {

/// The width, in bytes, of the tag that starts every signed message.
pub const DOMAIN_TAG_WIDTH: usize = 32;

/// The ASCII text `FLOW-V0.0-transaction`, which marks a signed message as a
/// transaction.
pub open spec fn transaction_tag() -> Seq<u8> {
    seq![
        0x46u8, 0x4c, 0x4f, 0x57, 0x2d, 0x56, 0x30, 0x2e, 0x30, 0x2d, 0x74, 0x72, 0x61, 0x6e, 0x73,
        0x61, 0x63, 0x74, 0x69, 0x6f, 0x6e,
    ]
}

/// The domain separation tag: the tag text, then zero bytes up to 32 bytes.
pub open spec fn domain_tag() -> Seq<u8> {
    padded_right(transaction_tag(), DOMAIN_TAG_WIDTH as nat)
}

/// The message that is signed for `encoded`: the domain tag in front of it.
pub open spec fn signing_message(encoded: Seq<u8>) -> Seq<u8> {
    domain_tag() + encoded
}

/// Puts the domain tag in front of an encoded payload or envelope.
pub fn message_to_sign(encoded: &[u8]) -> (out: Vec<u8>)
    ensures
        out@ == signing_message(encoded@),
{
    let tag: Vec<u8> = vec![
        0x46u8, 0x4c, 0x4f, 0x57, 0x2d, 0x56, 0x30, 0x2e, 0x30, 0x2d, 0x74, 0x72, 0x61, 0x6e, 0x73,
        0x61, 0x63, 0x74, 0x69, 0x6f, 0x6e,
    ];
    assert(tag@ =~= transaction_tag());
    let mut out = pad_right(tag.as_slice(), DOMAIN_TAG_WIDTH);
    let mut i: usize = 0;
    while i < encoded.len()
        invariant
            i <= encoded@.len(),
            out@ == domain_tag() + encoded@.subrange(0, i as int),
        decreases encoded@.len() - i,
    {
        out.push(encoded[i]);
        i = i + 1;
        assert(out@ =~= domain_tag() + encoded@.subrange(0, i as int));
    }
    assert(encoded@.subrange(0, encoded@.len() as int) =~= encoded@);
    out
}

/// The signature that the P-256 signer gives for `message` under the raw
/// private key `key`, or `None` where it gives none.
pub uninterp spec fn p256_signature(key: Seq<u8>, message: Seq<u8>) -> Option<Seq<u8>>;

/// The view of an optional byte string.
pub open spec fn optional_bytes(out: Option<Vec<u8>>) -> Option<Seq<u8>> {
    match out {
        Some(bytes) => Some(bytes@),
        None => None,
    }
}

/// Reads `key` with `p256_flow::SecretKey::from_be_bytes`, signs `message`
/// with `try_sign` of the signing key made from it, and hands out the
/// signature's bytes. The signer derives its nonce from the key and the
/// message alone, so the contract gives the result a name that depends on
/// nothing else; it is `None` where the key is refused or signing fails.
#[verifier::external_body]
fn p256_sign(key: &[u8], message: &[u8]) -> (out: Option<Vec<u8>>)
    ensures
        optional_bytes(out) == p256_signature(key@, message@),
{
    let secret = p256_flow::SecretKey::from_be_bytes(key).ok()?;
    let signed = p256_flow::ecdsa::SigningKey::from(secret).try_sign(message).ok()?;
    Some(signed.as_bytes().to_vec())
}

/// What signing `message` with the hexadecimal key text comes to: a malformed
/// text is a `DecodeError`, key bytes that give no signature are a
/// `CryptoError`.
pub open spec fn signature_outcome(message: Seq<u8>, private_key: Seq<char>) -> Result<
    Seq<u8>,
    Error,
> {
    if !is_hex(private_key) {
        Err(Error::DecodeError)
    } else {
        match p256_signature(hex_bytes(private_key), message) {
            Some(signature) => Ok(signature),
            None => Err(Error::CryptoError),
        }
    }
}

/// Takes what the signer gave: the signature, or a `CryptoError` where it
/// gave none.
pub fn signature_from(signed: Option<Vec<u8>>) -> (out: Result<Vec<u8>, Error>)
    ensures
        out == match signed {
            Some(signature) => Ok::<Vec<u8>, Error>(signature),
            None => Err::<Vec<u8>, Error>(Error::CryptoError),
        },
{
    match signed {
        Some(signature) => Ok(signature),
        None => Err(Error::CryptoError),
    }
}

/// Signs `message` with the private key given as hexadecimal text.
pub fn sign(message: &[u8], private_key: &str) -> (out: Result<Vec<u8>, Error>)
    ensures
        bytes_outcome(out) == signature_outcome(message@, private_key@),
{
    let key = decode_hex(private_key)?;
    signature_from(p256_sign(key.as_slice(), message))
}

/// A signer's credential: the account address and the private key, both as
/// hexadecimal text, and the index of the key on the account. It is used for
/// the length of one signing call and never kept.
#[derive(Clone, Debug, PartialEq, Eq)]
pub struct Sign {
    pub address: String,
    pub key_id: u32,
    pub private_key: String,
}

pub struct SignView {
    pub address: Seq<char>,
    pub key_id: nat,
    pub private_key: Seq<char>,
}

impl View for Sign {
    type V = SignView;

    open spec fn view(&self) -> SignView {
        SignView {
            address: self.address@,
            key_id: self.key_id as nat,
            private_key: self.private_key@,
        }
    }
}

/// The views of `signers`, in order.
pub open spec fn signer_views(signers: Seq<&Sign>) -> Seq<SignView> {
    Seq::new(signers.len(), |i: int| signers[i]@)
}

/// What one signer's signature on `message` comes to. The address is decoded
/// and tested against its width before the key is looked at.
pub open spec fn signer_outcome(signer: SignView, message: Seq<u8>) -> Result<
    TransactionSignatureView,
    Error,
> {
    if !is_hex(signer.address) {
        Err(Error::DecodeError)
    } else if hex_bytes(signer.address).len() > ADDRESS_WIDTH {
        Err(Error::EncodingOverflow)
    } else {
        match signature_outcome(message, signer.private_key) {
            Err(e) => Err(e),
            Ok(signature) => Ok(
                TransactionSignatureView {
                    address: padded(hex_bytes(signer.address), ADDRESS_WIDTH as nat),
                    key_id: signer.key_id,
                    signature,
                },
            ),
        }
    }
}

/// What the signatures of `signers` on `message` come to: the first signer
/// that fails decides the error, and then there is no list at all.
pub open spec fn signers_outcome(signers: Seq<SignView>, message: Seq<u8>) -> Result<
    Seq<TransactionSignatureView>,
    Error,
>
    decreases signers.len(),
{
    if signers.len() == 0 {
        Ok(Seq::empty())
    } else {
        match signers_outcome(signers.drop_last(), message) {
            Err(e) => Err(e),
            Ok(signatures) => match signer_outcome(signers.last(), message) {
                Err(e) => Err(e),
                Ok(signature) => Ok(signatures.push(signature)),
            },
        }
    }
}

/// The view of a result that holds one signature.
pub open spec fn signature_outcome_view(out: Result<TransactionSignature, Error>) -> Result<
    TransactionSignatureView,
    Error,
> {
    match out {
        Ok(signature) => Ok(signature@),
        Err(e) => Err(e),
    }
}

/// The view of a result that holds a list of signatures.
pub open spec fn signatures_outcome_view(out: Result<Vec<TransactionSignature>, Error>) -> Result<
    Seq<TransactionSignatureView>,
    Error,
> {
    match out {
        Ok(signatures) => Ok(signature_views(signatures@)),
        Err(e) => Err(e),
    }
}

/// Signs `message` for one signer and records who signed.
pub fn sign_with(signer: &Sign, message: &[u8]) -> (out: Result<TransactionSignature, Error>)
    ensures
        signature_outcome_view(out) == signer_outcome(signer@, message@),
{
    let address = decode_hex(signer.address.as_str())?;
    let address = try_pad(address.as_slice(), ADDRESS_WIDTH)?;
    let signature = sign(message, signer.private_key.as_str())?;
    Ok(TransactionSignature { address, key_id: signer.key_id, signature })
}

/// Signs `message` for each signer, in the order given.
pub fn sign_each(signers: &Vec<&Sign>, message: &[u8]) -> (out: Result<
    Vec<TransactionSignature>,
    Error,
>)
    ensures
        signatures_outcome_view(out) == signers_outcome(signer_views(signers@), message@),
{
    let ghost all = signer_views(signers@);
    let mut signatures: Vec<TransactionSignature> = Vec::new();
    let mut i: usize = 0;
    assert(all.take(0) =~= Seq::empty());
    assert(signature_views(signatures@) =~= Seq::empty());
    while i < signers.len()
        invariant
            i <= signers.len(),
            all == signer_views(signers@),
            signers_outcome(all.take(i as int), message@) == Ok::<
                Seq<TransactionSignatureView>,
                Error,
            >(signature_views(signatures@)),
        decreases signers.len() - i,
    {
        proof {
            assert(all.take(i + 1).drop_last() =~= all.take(i as int));
            assert(all.take(i + 1).last() == signers[i as int]@);
        }
        match sign_with(signers[i], message) {
            Ok(signature) => {
                let ghost before = signature_views(signatures@);
                signatures.push(signature);
                assert(signature_views(signatures@) =~= before.push(signature@));
            },
            Err(e) => {
                proof {
                    lemma_failure_stays(all, i + 1, message@);
                }
                return Err(e);
            },
        }
        i = i + 1;
    }
    assert(all.take(signers.len() as int) =~= all);
    Ok(signatures)
}

/// Once the first `n` signers fail, all of them fail, with the same error.
pub proof fn lemma_failure_stays(signers: Seq<SignView>, n: int, message: Seq<u8>)
    requires
        0 <= n <= signers.len(),
        signers_outcome(signers.take(n), message) is Err,
    ensures
        signers_outcome(signers, message) == signers_outcome(signers.take(n), message),
    decreases signers.len() - n,
{
    if n == signers.len() {
        assert(signers.take(n) =~= signers);
    } else {
        assert(signers.take(n + 1).drop_last() =~= signers.take(n));
        lemma_failure_stays(signers, n + 1, message);
    }
}

/// What signing the payload comes to. Without signers the transaction stays
/// as it is. Otherwise every signer signs the tagged payload, and the
/// signatures are appended in the order of the signers.
pub open spec fn payload_signed(tx: TransactionView, signers: Seq<SignView>) -> Result<
    TransactionView,
    Error,
> {
    if signers.len() == 0 {
        Ok(tx)
    } else {
        match payload_outcome(tx) {
            Err(e) => Err(e),
            Ok(encoded) => match signers_outcome(signers, signing_message(encoded)) {
                Err(e) => Err(e),
                Ok(signatures) => Ok(
                    TransactionView {
                        payload_signatures: tx.payload_signatures + signatures,
                        ..tx
                    },
                ),
            },
        }
    }
}

/// What signing the envelope comes to. Without signers the transaction stays
/// as it is. Otherwise every signer signs the tagged envelope, which holds
/// the payload and all payload signatures of the transaction, and the
/// signatures are appended in the order of the signers.
pub open spec fn envelope_signed(tx: TransactionView, signers: Seq<SignView>) -> Result<
    TransactionView,
    Error,
> {
    if signers.len() == 0 {
        Ok(tx)
    } else {
        match envelope_outcome(tx, tx.payload_signatures) {
            Err(e) => Err(e),
            Ok(encoded) => match signers_outcome(signers, signing_message(encoded)) {
                Err(e) => Err(e),
                Ok(signatures) => Ok(
                    TransactionView {
                        envelope_signatures: tx.envelope_signatures + signatures,
                        ..tx
                    },
                ),
            },
        }
    }
}

/// What signing both tiers comes to: the payload first, then the envelope
/// over the payload signatures that this gave.
pub open spec fn fully_signed(
    tx: TransactionView,
    payload_signers: Seq<SignView>,
    envelope_signers: Seq<SignView>,
) -> Result<TransactionView, Error> {
    match payload_signed(tx, payload_signers) {
        Err(e) => Err(e),
        Ok(signed) => envelope_signed(signed, envelope_signers),
    }
}

/// Signs the payload of a transaction for each signer and appends the
/// signatures to its payload signatures. On failure nothing is returned but
/// the error.
pub fn sign_payload(transaction: Transaction, signers: &Vec<&Sign>) -> (out: Result<
    Transaction,
    Error,
>)
    ensures
        transaction_outcome(out) == payload_signed(transaction@, signer_views(signers@)),
{
    if signers.len() == 0 {
        return Ok(transaction);
    }
    let encoded = payload_from_transaction(&transaction)?;
    let message = message_to_sign(encoded.as_slice());
    let mut signatures = sign_each(signers, message.as_slice())?;
    let ghost before = transaction@;
    let ghost added = signature_views(signatures@);
    let mut transaction = transaction;
    transaction.payload_signatures.append(&mut signatures);
    assert(transaction@.payload_signatures =~= before.payload_signatures + added);
    Ok(transaction)
}

/// Signs the envelope of a transaction for each signer and appends the
/// signatures to its envelope signatures. The envelope covers the payload
/// signatures that the transaction holds at this moment. On failure nothing
/// is returned but the error.
pub fn sign_envelope(transaction: Transaction, signers: &Vec<&Sign>) -> (out: Result<
    Transaction,
    Error,
>)
    ensures
        transaction_outcome(out) == envelope_signed(transaction@, signer_views(signers@)),
{
    if signers.len() == 0 {
        return Ok(transaction);
    }
    let encoded = envelope_from_transaction(&transaction, &transaction.payload_signatures)?;
    let message = message_to_sign(encoded.as_slice());
    let mut signatures = sign_each(signers, message.as_slice())?;
    let ghost before = transaction@;
    let ghost added = signature_views(signatures@);
    let mut transaction = transaction;
    transaction.envelope_signatures.append(&mut signatures);
    assert(transaction@.envelope_signatures =~= before.envelope_signatures + added);
    Ok(transaction)
}

/// The view of the result of signing both tiers.
pub open spec fn signed_outcome(out: Result<Option<Transaction>, Error>) -> Result<
    Option<TransactionView>,
    Error,
> {
    match out {
        Ok(Some(tx)) => Ok(Some(tx@)),
        Ok(None) => Ok(None),
        Err(e) => Err(e),
    }
}

/// A transaction that was signed, as it is handed out: in `Some`.
pub open spec fn ready(outcome: Result<TransactionView, Error>) -> Result<
    Option<TransactionView>,
    Error,
> {
    match outcome {
        Ok(tx) => Ok(Some(tx)),
        Err(e) => Err(e),
    }
}

/// Signs a built transaction: first the payload signers, then the envelope
/// signers, whose message covers the payload signatures just made.
///
/// On success the transaction is handed out as `Some`, ready for a request
/// whose transaction field is optional. On failure nothing is returned but
/// the error of the first signer that failed.
pub fn sign_transaction(
    built_transaction: Transaction,
    payload_signatures: Vec<&Sign>,
    envelope_signatures: Vec<&Sign>,
) -> (out: Result<Option<Transaction>, Error>)
    ensures
        signed_outcome(out) == ready(
            fully_signed(
                built_transaction@,
                signer_views(payload_signatures@),
                signer_views(envelope_signatures@),
            ),
        ),
{
    let payload_signed = sign_payload(built_transaction, &payload_signatures)?;
    let signed = sign_envelope(payload_signed, &envelope_signatures)?;
    Ok(Some(signed))
}

} // verus!

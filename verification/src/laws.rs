//! What holds of the library as a whole, proved from its specifications.

use vstd::prelude::*;
use crate::canonical::{
    be_bytes, bytes_encoding, concat, encodable, encoding, encodings, lemma_concat_take,
    length_prefix, Item, ItemView, MAX_LENGTH,
};
use crate::decoding::{
    decoded, lemma_be_bytes_len, lemma_be_value, lemma_decoding_inverts_encoding,
    lemma_encoding_is_injective, normal, normals,
};
use crate::error::Error;
use crate::padding::padded;
use crate::signing::{
    domain_tag, envelope_signed, payload_signed, signature_outcome, signer_outcome,
    signers_outcome, signing_message, transaction_tag, SignView, DOMAIN_TAG_WIDTH,
};
use crate::transaction::{
    address_items, byte_items, bytes_outcome, envelope_encoding, envelope_item,
    envelope_outcome, payload_encoding, payload_item, payload_outcome, signature_items,
    signature_views, Stage, Transaction,
    TransactionSignature, TransactionSignatureView, TransactionView, ADDRESS_WIDTH,
    BLOCK_ID_WIDTH,
};

verus! {

/// Encoding the payload is deterministic: whatever two runs of
/// `payload_from_transaction` return for transactions with the same fields,
/// it is the same bytes or the same error.
pub proof fn lemma_payload_is_deterministic(
    first: Transaction,
    second: Transaction,
    first_out: Result<Vec<u8>, Error>,
    second_out: Result<Vec<u8>, Error>,
)
    requires
        first@ == second@,
        bytes_outcome(first_out) == payload_outcome(first@),
        bytes_outcome(second_out) == payload_outcome(second@),
    ensures
        bytes_outcome(first_out) == bytes_outcome(second_out),
{
}

/// Encoding the envelope is deterministic: whatever two runs of
/// `envelope_from_transaction` return for transactions with the same fields
/// and for the same payload signatures, it is the same bytes or the same
/// error.
pub proof fn lemma_envelope_is_deterministic(
    first: Transaction,
    second: Transaction,
    first_signatures: Vec<TransactionSignature>,
    second_signatures: Vec<TransactionSignature>,
    first_out: Result<Vec<u8>, Error>,
    second_out: Result<Vec<u8>, Error>,
)
    requires
        first@ == second@,
        signature_views(first_signatures@) == signature_views(second_signatures@),
        bytes_outcome(first_out) == envelope_outcome(first@, signature_views(first_signatures@)),
        bytes_outcome(second_out) == envelope_outcome(
            second@,
            signature_views(second_signatures@),
        ),
    ensures
        bytes_outcome(first_out) == bytes_outcome(second_out),
{
}

/// The payload does not depend on the signatures that a transaction carries.
pub proof fn lemma_payload_ignores_signatures(
    tx: TransactionView,
    payload_signatures: Seq<TransactionSignatureView>,
    envelope_signatures: Seq<TransactionSignatureView>,
)
    ensures
        payload_item(TransactionView { payload_signatures, envelope_signatures, ..tx })
            == payload_item(tx),
        payload_outcome(TransactionView { payload_signatures, envelope_signatures, ..tx })
            == payload_outcome(tx),
{
}

/// Signing is deterministic: whatever two runs of `sign` return for the same
/// message and the same key text, it is the same signature or the same
/// error.
pub proof fn lemma_signing_is_deterministic(
    message: Seq<u8>,
    private_key: Seq<char>,
    first_out: Result<Vec<u8>, Error>,
    second_out: Result<Vec<u8>, Error>,
)
    requires
        bytes_outcome(first_out) == signature_outcome(message, private_key),
        bytes_outcome(second_out) == signature_outcome(message, private_key),
    ensures
        bytes_outcome(first_out) == bytes_outcome(second_out),
{
}

/// Where all signers succeed there is one signature for each signer, in the
/// signers' order.
pub proof fn lemma_signatures_follow_signers(
    signers: Seq<SignView>,
    message: Seq<u8>,
    signatures: Seq<TransactionSignatureView>,
)
    requires
        signers_outcome(signers, message) == Ok::<Seq<TransactionSignatureView>, Error>(signatures),
    ensures
        signatures.len() == signers.len(),
        forall|i: int|
            0 <= i < signers.len() ==> signer_outcome(#[trigger] signers[i], message) == Ok::<
                TransactionSignatureView,
                Error,
            >(signatures[i]),
    decreases signers.len(),
{
    if signers.len() > 0 {
        let earlier = signers_outcome(signers.drop_last(), message);
        lemma_signatures_follow_signers(signers.drop_last(), message, earlier.unwrap());
        assert forall|i: int| 0 <= i < signers.len() implies signer_outcome(
            #[trigger] signers[i],
            message,
        ) == Ok::<TransactionSignatureView, Error>(signatures[i]) by {
            if i < signers.len() - 1 {
                assert(signers.drop_last()[i] == signers[i]);
            }
        }
    }
}

/// After the payload of an unsigned transaction was signed, the envelope
/// lists one triple for each payload signer, in the order in which the
/// signers were given: the triple at position `i` holds the number `i`, the
/// key index of signer `i` and the signature of signer `i`, whatever the key
/// indices are.
pub proof fn lemma_envelope_positions(
    tx: TransactionView,
    signers: Seq<SignView>,
    signed: TransactionView,
    i: int,
)
    requires
        tx.payload_signatures.len() == 0,
        payload_signed(tx, signers) == Ok::<TransactionView, Error>(signed),
        0 <= i < signers.len(),
    ensures
        envelope_item(signed, signed.payload_signatures) == ItemView::List(
            seq![payload_item(tx), ItemView::List(signature_items(signed.payload_signatures))],
        ),
        signature_items(signed.payload_signatures).len() == signers.len(),
        signature_items(signed.payload_signatures)[i] == ItemView::List(
            seq![
                ItemView::Uint(i as nat),
                ItemView::Uint(signers[i].key_id),
                ItemView::Bytes(signed.payload_signatures[i].signature),
            ],
        ),
        signer_outcome(signers[i], signing_message(payload_encoding(tx))) == Ok::<
            TransactionSignatureView,
            Error,
        >(signed.payload_signatures[i]),
{
    let message = signing_message(payload_encoding(tx));
    let signatures = signers_outcome(signers, message).unwrap();
    lemma_signatures_follow_signers(signers, message, signatures);
    assert(signed.payload_signatures =~= signatures);
    assert(signer_outcome(signers[i], message) == Ok::<TransactionSignatureView, Error>(
        signatures[i],
    ));
}

/// What the encoder hands out can be decoded: reading the bytes that
/// `encode` returned for an item gives the item back as a reader sees it,
/// and takes all the bytes.
pub proof fn lemma_encoder_output_decodes(item: Item, out: Result<Vec<u8>, Error>)
    requires
        encodable(item@) ==> out is Ok && out.unwrap()@ == encoding(item@),
        !encodable(item@) ==> out == Err::<Vec<u8>, Error>(Error::EncodingOverflow),
        out is Ok,
    ensures
        decoded(out.unwrap()@) == Some((normal(item@), out.unwrap()@.len() as int)),
{
    lemma_decoding_inverts_encoding(item@);
}

/// Two numbers with the same big-endian bytes are the same number.
proof fn lemma_be_bytes_is_injective(first: nat, second: nat)
    requires
        be_bytes(first) == be_bytes(second),
    ensures
        first == second,
{
    lemma_be_value(first);
    lemma_be_value(second);
}

/// The envelope is sensitive to the payload signatures and to their order:
/// two sequences of payload signatures that give the same envelope for a
/// transaction have the same length and, position by position, the same key
/// index and the same signature bytes.
pub proof fn lemma_envelope_fixes_signatures(
    tx: TransactionView,
    first: Seq<TransactionSignatureView>,
    second: Seq<TransactionSignatureView>,
)
    requires
        encodable(envelope_item(tx, first)),
        encodable(envelope_item(tx, second)),
        envelope_encoding(tx, first) == envelope_encoding(tx, second),
    ensures
        first.len() == second.len(),
        forall|i: int|
            0 <= i < first.len() ==> (#[trigger] first[i]).key_id == second[i].key_id
                && first[i].signature == second[i].signature,
{
    let a = envelope_item(tx, first);
    let b = envelope_item(tx, second);
    lemma_encoding_is_injective(a, b);
    let a_list = ItemView::List(signature_items(first));
    let b_list = ItemView::List(signature_items(second));
    assert(normal(a_list) == normal(b_list)) by {
        assert(normals(a->List_0)[1] == normal(a_list));
        assert(normals(b->List_0)[1] == normal(b_list));
    }
    let a_items = normals(signature_items(first));
    let b_items = normals(signature_items(second));
    assert(a_items == b_items);
    assert(a_items.len() == first.len());
    assert(b_items.len() == second.len());
    assert forall|i: int| 0 <= i < first.len() implies (#[trigger] first[i]).key_id
        == second[i].key_id && first[i].signature == second[i].signature by {
        let a_triple = signature_items(first)[i];
        let b_triple = signature_items(second)[i];
        assert(a_items[i] == normal(a_triple));
        assert(b_items[i] == normal(b_triple));
        let a_fields = normals(a_triple->List_0);
        let b_fields = normals(b_triple->List_0);
        assert(a_fields == b_fields);
        assert(a_fields[1] == normal(ItemView::Uint(first[i].key_id)));
        assert(b_fields[1] == normal(ItemView::Uint(second[i].key_id)));
        assert(a_fields[2] == normal(ItemView::Bytes(first[i].signature)));
        assert(b_fields[2] == normal(ItemView::Bytes(second[i].signature)));
        lemma_be_bytes_is_injective(first[i].key_id, second[i].key_id);
    }
}

/// The payload is canonical: two transactions with the same payload agree
/// in every field that the payload holds, the fixed-width fields after
/// padding.
pub proof fn lemma_payload_fixes_fields(first: TransactionView, second: TransactionView)
    requires
        encodable(payload_item(first)),
        encodable(payload_item(second)),
        payload_encoding(first) == payload_encoding(second),
    ensures
        first.script == second.script,
        first.arguments == second.arguments,
        padded(first.reference_block_id, BLOCK_ID_WIDTH as nat) == padded(
            second.reference_block_id,
            BLOCK_ID_WIDTH as nat,
        ),
        first.gas_limit == second.gas_limit,
        padded(first.proposal_key.address, ADDRESS_WIDTH as nat) == padded(
            second.proposal_key.address,
            ADDRESS_WIDTH as nat,
        ),
        first.proposal_key.key_id == second.proposal_key.key_id,
        first.proposal_key.sequence_number == second.proposal_key.sequence_number,
        padded(first.payer, ADDRESS_WIDTH as nat) == padded(second.payer, ADDRESS_WIDTH as nat),
        first.authorizers.len() == second.authorizers.len(),
        forall|i: int|
            0 <= i < first.authorizers.len() ==> padded(
                #[trigger] first.authorizers[i],
                ADDRESS_WIDTH as nat,
            ) == padded(second.authorizers[i], ADDRESS_WIDTH as nat),
{
    let a = payload_item(first);
    let b = payload_item(second);
    lemma_encoding_is_injective(a, b);
    let a_fields = normals(a->List_0);
    let b_fields = normals(b->List_0);
    assert(a_fields == b_fields);
    assert(a_fields[0] == normal(a->List_0[0]) && b_fields[0] == normal(b->List_0[0]));
    assert(a_fields[1] == normal(a->List_0[1]) && b_fields[1] == normal(b->List_0[1]));
    assert(a_fields[2] == normal(a->List_0[2]) && b_fields[2] == normal(b->List_0[2]));
    assert(a_fields[3] == normal(a->List_0[3]) && b_fields[3] == normal(b->List_0[3]));
    assert(a_fields[4] == normal(a->List_0[4]) && b_fields[4] == normal(b->List_0[4]));
    assert(a_fields[5] == normal(a->List_0[5]) && b_fields[5] == normal(b->List_0[5]));
    assert(a_fields[6] == normal(a->List_0[6]) && b_fields[6] == normal(b->List_0[6]));
    assert(a_fields[7] == normal(a->List_0[7]) && b_fields[7] == normal(b->List_0[7]));
    assert(a_fields[8] == normal(a->List_0[8]) && b_fields[8] == normal(b->List_0[8]));
    lemma_be_bytes_is_injective(first.gas_limit, second.gas_limit);
    lemma_be_bytes_is_injective(first.proposal_key.key_id, second.proposal_key.key_id);
    lemma_be_bytes_is_injective(
        first.proposal_key.sequence_number,
        second.proposal_key.sequence_number,
    );
    let a_arguments = normals(byte_items(first.arguments));
    let b_arguments = normals(byte_items(second.arguments));
    assert(a_arguments == b_arguments);
    assert(a_arguments.len() == first.arguments.len());
    assert(b_arguments.len() == second.arguments.len());
    assert forall|i: int| 0 <= i < first.arguments.len() implies first.arguments[i]
        == second.arguments[i] by {
        assert(a_arguments[i] == ItemView::Bytes(first.arguments[i]));
        assert(b_arguments[i] == ItemView::Bytes(second.arguments[i]));
    }
    assert(first.arguments =~= second.arguments);
    let a_authorizers = normals(address_items(first.authorizers));
    let b_authorizers = normals(address_items(second.authorizers));
    assert(a_authorizers == b_authorizers);
    assert(a_authorizers.len() == first.authorizers.len());
    assert(b_authorizers.len() == second.authorizers.len());
    assert forall|i: int| 0 <= i < first.authorizers.len() implies padded(
        #[trigger] first.authorizers[i],
        ADDRESS_WIDTH as nat,
    ) == padded(second.authorizers[i], ADDRESS_WIDTH as nat) by {
        assert(a_authorizers[i] == ItemView::Bytes(
            padded(first.authorizers[i], ADDRESS_WIDTH as nat),
        ));
        assert(b_authorizers[i] == ItemView::Bytes(
            padded(second.authorizers[i], ADDRESS_WIDTH as nat),
        ));
    }
}

/// Every signed message starts with the same 32 bytes: the tag text, then
/// zero bytes. What was encoded follows unchanged.
pub proof fn lemma_message_starts_with_tag(encoded: Seq<u8>)
    ensures
        domain_tag().len() == DOMAIN_TAG_WIDTH,
        domain_tag().subrange(0, transaction_tag().len() as int) == transaction_tag(),
        forall|i: int| transaction_tag().len() <= i < DOMAIN_TAG_WIDTH ==> domain_tag()[i] == 0u8,
        signing_message(encoded).len() == DOMAIN_TAG_WIDTH + encoded.len(),
        signing_message(encoded).subrange(0, DOMAIN_TAG_WIDTH as int) == domain_tag(),
        signing_message(encoded).subrange(
            DOMAIN_TAG_WIDTH as int,
            signing_message(encoded).len() as int,
        ) == encoded,
{
    assert(transaction_tag().len() == 21);
    assert(domain_tag().subrange(0, transaction_tag().len() as int) =~= transaction_tag());
    assert(signing_message(encoded).subrange(0, DOMAIN_TAG_WIDTH as int) =~= domain_tag());
    assert(signing_message(encoded).subrange(
        DOMAIN_TAG_WIDTH as int,
        signing_message(encoded).len() as int,
    ) =~= encoded);
}

/// Signing the payload changes nothing but the payload signatures: the
/// payload stays what it was, the signatures that were there stay in front,
/// and with at least one signer an unsigned transaction becomes payload
/// signed.
pub proof fn lemma_payload_signing_keeps_the_body(
    tx: TransactionView,
    signers: Seq<SignView>,
    signed: TransactionView,
)
    requires
        payload_signed(tx, signers) == Ok::<TransactionView, Error>(signed),
    ensures
        payload_item(signed) == payload_item(tx),
        signed.envelope_signatures == tx.envelope_signatures,
        signed.payload_signatures.len() == tx.payload_signatures.len() + signers.len(),
        signed.payload_signatures.subrange(0, tx.payload_signatures.len() as int)
            == tx.payload_signatures,
        tx.stage() == Stage::Unsigned && signers.len() > 0 ==> signed.stage()
            == Stage::PayloadSigned,
        signers.len() == 0 ==> signed == tx,
{
    if signers.len() > 0 {
        let message = signing_message(payload_encoding(tx));
        let signatures = signers_outcome(signers, message).unwrap();
        lemma_signatures_follow_signers(signers, message, signatures);
        assert(signed.payload_signatures.subrange(0, tx.payload_signatures.len() as int)
            =~= tx.payload_signatures);
    } else {
        assert(signed.payload_signatures.subrange(0, tx.payload_signatures.len() as int)
            =~= tx.payload_signatures);
    }
}

/// Signing the envelope changes nothing but the envelope signatures: the
/// payload and the payload signatures stay what they were, the envelope
/// signatures that were there stay in front, and with at least one signer
/// the transaction becomes fully signed.
pub proof fn lemma_envelope_signing_keeps_the_body(
    tx: TransactionView,
    signers: Seq<SignView>,
    signed: TransactionView,
)
    requires
        envelope_signed(tx, signers) == Ok::<TransactionView, Error>(signed),
    ensures
        payload_item(signed) == payload_item(tx),
        signed.payload_signatures == tx.payload_signatures,
        signed.envelope_signatures.len() == tx.envelope_signatures.len() + signers.len(),
        signed.envelope_signatures.subrange(0, tx.envelope_signatures.len() as int)
            == tx.envelope_signatures,
        signers.len() > 0 ==> signed.stage() == Stage::FullySigned,
        signers.len() == 0 ==> signed == tx,
{
    if signers.len() > 0 {
        let message = signing_message(envelope_outcome(tx, tx.payload_signatures).unwrap());
        let signatures = signers_outcome(signers, message).unwrap();
        lemma_signatures_follow_signers(signers, message, signatures);
        assert(signed.envelope_signatures.subrange(0, tx.envelope_signatures.len() as int)
            =~= tx.envelope_signatures);
    } else {
        assert(signed.envelope_signatures.subrange(0, tx.envelope_signatures.len() as int)
            =~= tx.envelope_signatures);
    }
}

/// The encoding of a byte string is at most five bytes longer than the
/// byte string.
pub proof fn lemma_bytes_encoding_len(data: Seq<u8>)
    requires
        data.len() <= MAX_LENGTH,
    ensures
        1 <= bytes_encoding(data).len() <= data.len() + 5,
        data.len() == 8 ==> bytes_encoding(data).len() == 9,
        data.len() == 32 ==> bytes_encoding(data).len() == 33,
{
    if data.len() > 55 {
        lemma_be_bytes_len(data.len());
    }
}

/// The encoding of a 64-bit integer takes at most nine bytes.
pub proof fn lemma_uint_encoding_len(n: nat)
    requires
        n <= u64::MAX,
    ensures
        1 <= bytes_encoding(be_bytes(n)).len() <= 9,
{
    assert(be_bytes(n).len() <= 8) by {
        reveal_with_fuel(be_bytes, 10);
    }
}

/// No part is longer than all parts together.
pub proof fn lemma_part_within_concat(parts: Seq<Seq<u8>>, i: int)
    requires
        0 <= i < parts.len(),
    ensures
        parts[i].len() <= concat(parts).len(),
    decreases parts.len(),
{
    if i < parts.len() - 1 {
        lemma_part_within_concat(parts.drop_last(), i);
    }
}

/// Byte strings as the items of a list take at most five bytes each more
/// than they hold, and can be encoded where they fit a prefix together.
pub proof fn lemma_byte_items_len(parts: Seq<Seq<u8>>, n: int)
    requires
        0 <= n <= parts.len(),
        concat(parts).len() <= MAX_LENGTH,
    ensures
        concat(encodings(byte_items(parts)).take(n)).len() <= concat(parts.take(n)).len() + 5 * n,
        forall|i: int| 0 <= i < parts.len() ==> encodable(#[trigger] byte_items(parts)[i]),
    decreases n,
{
    assert forall|i: int| 0 <= i < parts.len() implies encodable(
        #[trigger] byte_items(parts)[i],
    ) by {
        lemma_part_within_concat(parts, i);
    }
    if n == 0 {
        assert(encodings(byte_items(parts)).take(0) =~= Seq::<Seq<u8>>::empty());
    } else {
        lemma_byte_items_len(parts, n - 1);
        lemma_concat_take(encodings(byte_items(parts)), n - 1);
        lemma_concat_take(parts, n - 1);
        lemma_part_within_concat(parts, n - 1);
        lemma_bytes_encoding_len(parts[n - 1]);
    }
}

/// Addresses as the items of a list take nine bytes each.
pub proof fn lemma_address_items_len(addresses: Seq<Seq<u8>>, n: int)
    requires
        0 <= n <= addresses.len(),
        forall|i: int|
            0 <= i < addresses.len() ==> (#[trigger] addresses[i]).len() <= ADDRESS_WIDTH,
    ensures
        concat(encodings(address_items(addresses)).take(n)).len() == 9 * n,
        forall|i: int| 0 <= i < addresses.len() ==> encodable(#[trigger] address_items(addresses)[i]),
    decreases n,
{
    if n == 0 {
        assert(encodings(address_items(addresses)).take(0) =~= Seq::<Seq<u8>>::empty());
    } else {
        lemma_address_items_len(addresses, n - 1);
        lemma_concat_take(encodings(address_items(addresses)), n - 1);
        lemma_bytes_encoding_len(padded(addresses[n - 1], ADDRESS_WIDTH as nat));
    }
}

/// A bound on the size of a payload, from the sizes of its parts: the
/// script, the arguments with five bytes for each, nine bytes for each
/// authorizer, and 93 bytes for the rest.
pub open spec fn payload_bound(tx: TransactionView) -> nat {
    tx.script.len() + concat(tx.arguments).len() + 5 * tx.arguments.len() + 9
        * tx.authorizers.len() + 93
}

/// Every transaction of ordinary size can be encoded: where the fixed-width
/// fields fit their widths and the bound on the payload's size is within
/// what a length prefix carries, encoding the payload succeeds, and the
/// payload is no longer than the bound.
pub proof fn lemma_ordinary_payload_is_encodable(tx: TransactionView)
    requires
        tx.well_formed(),
        tx.gas_limit <= u64::MAX,
        tx.proposal_key.key_id <= u64::MAX,
        tx.proposal_key.sequence_number <= u64::MAX,
        payload_bound(tx) <= MAX_LENGTH,
    ensures
        encodable(payload_item(tx)),
        payload_outcome(tx) == Ok::<Seq<u8>, Error>(payload_encoding(tx)),
        payload_encoding(tx).len() <= payload_bound(tx) + 5,
{
    let fields = payload_item(tx)->List_0;
    let parts = encodings(fields);
    lemma_bytes_encoding_len(tx.script);
    lemma_byte_items_len(tx.arguments, tx.arguments.len() as int);
    assert(tx.arguments.take(tx.arguments.len() as int) =~= tx.arguments);
    assert(encodings(byte_items(tx.arguments)).take(tx.arguments.len() as int) =~= encodings(
        byte_items(tx.arguments),
    ));
    lemma_bytes_encoding_len(padded(tx.reference_block_id, BLOCK_ID_WIDTH as nat));
    lemma_uint_encoding_len(tx.gas_limit);
    lemma_bytes_encoding_len(padded(tx.proposal_key.address, ADDRESS_WIDTH as nat));
    lemma_uint_encoding_len(tx.proposal_key.key_id);
    lemma_uint_encoding_len(tx.proposal_key.sequence_number);
    lemma_bytes_encoding_len(padded(tx.payer, ADDRESS_WIDTH as nat));
    lemma_address_items_len(tx.authorizers, tx.authorizers.len() as int);
    assert(encodings(address_items(tx.authorizers)).take(tx.authorizers.len() as int)
        =~= encodings(address_items(tx.authorizers)));
    let arguments_payload = concat(encodings(byte_items(tx.arguments)));
    let authorizers_payload = concat(encodings(address_items(tx.authorizers)));
    if arguments_payload.len() > 55 {
        lemma_be_bytes_len(arguments_payload.len());
    }
    if authorizers_payload.len() > 55 {
        lemma_be_bytes_len(authorizers_payload.len());
    }
    assert(encodable(fields[1]));
    assert(encodable(fields[8]));
    assert(parts[0].len() <= tx.script.len() + 5);
    assert(parts[1].len() <= concat(tx.arguments).len() + 5 * tx.arguments.len() + 5);
    assert(parts[2].len() == 33);
    assert(parts[3].len() <= 9);
    assert(parts[4].len() == 9);
    assert(parts[5].len() <= 9);
    assert(parts[6].len() <= 9);
    assert(parts[7].len() == 9);
    assert(parts[8].len() <= 9 * tx.authorizers.len() + 5);
    assert(concat(parts).len() == parts[0].len() + parts[1].len() + parts[2].len()
        + parts[3].len() + parts[4].len() + parts[5].len() + parts[6].len() + parts[7].len()
        + parts[8].len()) by {
        lemma_concat_take(parts, 0);
        lemma_concat_take(parts, 1);
        lemma_concat_take(parts, 2);
        lemma_concat_take(parts, 3);
        lemma_concat_take(parts, 4);
        lemma_concat_take(parts, 5);
        lemma_concat_take(parts, 6);
        lemma_concat_take(parts, 7);
        lemma_concat_take(parts, 8);
        assert(parts.take(0) =~= Seq::<Seq<u8>>::empty());
        assert(parts.take(9) =~= parts);
    }
    if concat(parts).len() > 55 {
        lemma_be_bytes_len(concat(parts).len());
    }
    assert forall|i: int| 0 <= i < fields.len() implies encodable(#[trigger] fields[i]) by {
        assert(i == 0 || i == 1 || i == 2 || i == 3 || i == 4 || i == 5 || i == 6 || i == 7 || i
            == 8);
    }
}

} // verus!

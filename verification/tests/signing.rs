use flow_rust_sdk::hexstr::decode_hex;
use flow_rust_sdk::signing::{
    message_to_sign, sign, sign_each, sign_envelope, sign_payload, sign_transaction, sign_with,
    signature_from, Sign,
};
use flow_rust_sdk::transaction::{
    build_transaction, envelope_from_transaction, payload_from_transaction, Stage, Transaction,
    TransactionProposalKey, TransactionSignature,
};
use flow_rust_sdk::Error;
use p256_flow::ecdsa::signature_flow::{Signature, Verifier};
use p256_flow::ecdsa::{SigningKey, VerifyingKey};

const KEY_A: &str = "4b2a1d8b1dd1e5c0a4c9a6b3e1f0d2c3b4a5968778695a4b3c2d1e0f01020304";
const KEY_B: &str = "0000000000000000000000000000000000000000000000000000000000000002";

fn signer(address: &str, key_id: u32, private_key: &str) -> Sign {
    Sign { address: address.to_string(), key_id, private_key: private_key.to_string() }
}

fn verifies(private_key: &str, message: &[u8], signature: &[u8]) -> bool {
    let key = SigningKey::from_bytes(&hex::decode(private_key).unwrap()).unwrap();
    let public = VerifyingKey::from(&key);
    match p256_flow::ecdsa::Signature::from_bytes(signature) {
        Ok(signature) => public.verify(message, &signature).is_ok(),
        Err(_) => false,
    }
}

fn sample() -> Transaction {
    build_transaction(
        b"transaction(greeting: String) { execute { log(greeting) } }".to_vec(),
        vec![b"{\"type\":\"String\",\"value\":\"hello\"}".to_vec()],
        decode_hex("f0e4c2f76c58916ec258f246851bea091d14d4247a2fc3e18694461b1816e13b").unwrap(),
        1000,
        TransactionProposalKey {
            address: decode_hex("f8d6e0586b0a20c7").unwrap(),
            key_id: 0,
            sequence_number: 3,
        },
        vec!["f8d6e0586b0a20c7".to_string()],
        "f8d6e0586b0a20c7".to_string(),
    )
    .unwrap()
}

fn views(signatures: &Vec<TransactionSignature>) -> Vec<(Vec<u8>, u32, Vec<u8>)> {
    signatures.iter().map(|s| (s.address.clone(), s.key_id, s.signature.clone())).collect()
}

#[test]
fn message_starts_with_the_padded_tag() {
    let message = message_to_sign(&[1, 2, 3]);
    let mut wanted = b"FLOW-V0.0-transaction".to_vec();
    wanted.extend_from_slice(&[0u8; 11]);
    assert_eq!(wanted.len(), 32);
    wanted.extend_from_slice(&[1, 2, 3]);
    assert_eq!(message, wanted);
    assert_eq!(message_to_sign(&[]).len(), 32);
}

#[test]
fn signing_twice_gives_the_same_signature() {
    let message = b"a fixed message";
    let first = sign(message, KEY_A).unwrap();
    let second = sign(message, KEY_A).unwrap();
    assert_eq!(first, second);
    assert_eq!(first.len(), 64);
}

#[test]
fn signature_verifies_under_the_public_key() {
    let message = b"a fixed message";
    let signature = sign(message, KEY_A).unwrap();
    assert!(verifies(KEY_A, message, &signature));
    assert!(!verifies(KEY_A, b"another message", &signature));
    assert!(!verifies(KEY_B, message, &signature));
}

#[test]
fn signature_depends_on_key_and_message() {
    let first = sign(b"one", KEY_A).unwrap();
    assert_ne!(first, sign(b"two", KEY_A).unwrap());
    assert_ne!(first, sign(b"one", KEY_B).unwrap());
    assert_ne!(first[..3].to_vec(), b"one".to_vec());
}

#[test]
fn malformed_key_text_is_a_decode_error() {
    assert_eq!(sign(b"m", "xyz"), Err(Error::DecodeError));
    assert_eq!(sign(b"m", "abc"), Err(Error::DecodeError));
}

#[test]
fn unusable_key_is_a_crypto_error() {
    assert_eq!(sign(b"m", ""), Err(Error::CryptoError));
    assert_eq!(sign(b"m", "01"), Err(Error::CryptoError));
    assert_eq!(
        sign(b"m", "0000000000000000000000000000000000000000000000000000000000000000"),
        Err(Error::CryptoError)
    );
    assert_eq!(
        sign(b"m", "ffffffffffffffffffffffffffffffffffffffffffffffffffffffffffffffff"),
        Err(Error::CryptoError)
    );
    assert_eq!(
        sign(b"m", "000000000000000000000000000000000000000000000000000000000000000001"),
        Err(Error::CryptoError)
    );
}

#[test]
fn signer_address_is_padded_in_the_record() {
    let record = sign_with(&signer("f8d6", 5, KEY_A), b"message").unwrap();
    assert_eq!(record.address, vec![0, 0, 0, 0, 0, 0, 0xf8, 0xd6]);
    assert_eq!(record.key_id, 5);
    assert_eq!(record.signature, sign(b"message", KEY_A).unwrap());
}

#[test]
fn signer_errors_come_in_order() {
    assert!(matches!(sign_with(&signer("0x", 0, "zz"), b"m"), Err(Error::DecodeError)));
    assert!(matches!(
        sign_with(&signer("010203040506070809", 0, "zz"), b"m"),
        Err(Error::EncodingOverflow)
    ));
    assert!(matches!(sign_with(&signer("01", 0, "zz"), b"m"), Err(Error::DecodeError)));
    assert!(matches!(sign_with(&signer("01", 0, "00"), b"m"), Err(Error::CryptoError)));
}

#[test]
fn signers_sign_in_the_order_given() {
    let a = signer("01", 7, KEY_A);
    let b = signer("02", 1, KEY_B);
    let out = sign_each(&vec![&a, &b, &a], b"message").unwrap();
    assert_eq!(out.len(), 3);
    assert_eq!(out[0].key_id, 7);
    assert_eq!(out[1].key_id, 1);
    assert_eq!(out[2].key_id, 7);
    assert_eq!(out[1].address, vec![0, 0, 0, 0, 0, 0, 0, 2]);
    assert!(verifies(KEY_A, b"message", &out[0].signature));
    assert!(verifies(KEY_B, b"message", &out[1].signature));
    assert_eq!(out[0].signature, out[2].signature);
    assert!(sign_each(&vec![], b"message").unwrap().is_empty());
}

#[test]
fn one_failing_signer_fails_the_whole_call() {
    let good = signer("01", 0, KEY_A);
    let bad_key = signer("01", 0, "00");
    let bad_address = signer("q", 0, KEY_A);
    assert!(matches!(sign_each(&vec![&good, &bad_key], b"m"), Err(Error::CryptoError)));
    assert!(matches!(
        sign_each(&vec![&good, &bad_address, &bad_key], b"m"),
        Err(Error::DecodeError)
    ));
    assert!(matches!(
        sign_each(&vec![&bad_key, &bad_address, &good], b"m"),
        Err(Error::CryptoError)
    ));
}

#[test]
fn payload_signature_covers_the_tagged_payload() {
    let a = signer("f8d6e0586b0a20c7", 0, KEY_A);
    let signed = sign_payload(sample(), &vec![&a]).unwrap();
    assert_eq!(signed.payload_signatures.len(), 1);
    assert!(signed.envelope_signatures.is_empty());
    let message = message_to_sign(&payload_from_transaction(&sample()).unwrap());
    assert!(verifies(KEY_A, &message, &signed.payload_signatures[0].signature));
    assert_eq!(
        signed.payload_signatures[0].address,
        decode_hex("f8d6e0586b0a20c7").unwrap()
    );
}

#[test]
fn envelope_signature_covers_the_payload_signatures() {
    let a = signer("01", 0, KEY_A);
    let b = signer("02", 3, KEY_B);
    let signed = sign_transaction(sample(), vec![&a], vec![&b]).unwrap().unwrap();
    let envelope = envelope_from_transaction(&sample(), &signed.payload_signatures).unwrap();
    let message = message_to_sign(&envelope);
    assert!(verifies(KEY_B, &message, &signed.envelope_signatures[0].signature));
    let bare = message_to_sign(&envelope_from_transaction(&sample(), &vec![]).unwrap());
    assert!(!verifies(KEY_B, &bare, &signed.envelope_signatures[0].signature));
}

#[test]
fn one_credential_signs_both_tiers() {
    let a = signer("f8d6e0586b0a20c7", 0, KEY_A);
    let signed = sign_transaction(sample(), vec![&a], vec![&a]).unwrap().unwrap();
    assert_eq!(signed.payload_signatures.len(), 1);
    assert_eq!(signed.envelope_signatures.len(), 1);
    assert_ne!(signed.payload_signatures[0].signature, signed.envelope_signatures[0].signature);
    assert_eq!(signed.script, sample().script);
    assert_eq!(signed.arguments, sample().arguments);
    assert_eq!(signed.reference_block_id, sample().reference_block_id);
    assert_eq!(signed.gas_limit, 1000);
    assert_eq!(signed.proposal_key.sequence_number, 3);
    assert_eq!(signed.payer, sample().payer);
    assert_eq!(signed.authorizers, sample().authorizers);
}

#[test]
fn swapping_the_payload_signers_changes_the_envelope() {
    let a = signer("01", 0, KEY_A);
    let b = signer("02", 0, KEY_B);
    let first = sign_payload(sample(), &vec![&a, &b]).unwrap();
    let second = sign_payload(sample(), &vec![&b, &a]).unwrap();
    assert_eq!(first.payload_signatures[0].signature, second.payload_signatures[1].signature);
    assert_eq!(first.payload_signatures[1].signature, second.payload_signatures[0].signature);
    let one = envelope_from_transaction(&first, &first.payload_signatures).unwrap();
    let two = envelope_from_transaction(&second, &second.payload_signatures).unwrap();
    assert_ne!(one, two);

    let c = signer("03", 0, KEY_A);
    let signed_one = sign_envelope(first, &vec![&c]).unwrap();
    let signed_two = sign_envelope(second, &vec![&c]).unwrap();
    assert_ne!(
        signed_one.envelope_signatures[0].signature,
        signed_two.envelope_signatures[0].signature
    );
}

#[test]
fn envelope_positions_follow_the_signers_not_the_key_indices() {
    let a = signer("01", 9, KEY_A);
    let b = signer("02", 4, KEY_B);
    let c = signer("03", 4, KEY_A);
    let signed = sign_payload(sample(), &vec![&a, &b, &c]).unwrap();
    let envelope = envelope_from_transaction(&signed, &signed.payload_signatures).unwrap();
    let list = rlp::Rlp::new(&envelope).at(1).unwrap();
    assert_eq!(list.item_count().unwrap(), 3);
    let key_ids = [9u32, 4, 4];
    for i in 0..3usize {
        let triple = list.at(i).unwrap();
        assert_eq!(triple.val_at::<u64>(0).unwrap(), i as u64);
        assert_eq!(triple.val_at::<u32>(1).unwrap(), key_ids[i]);
        assert_eq!(
            triple.val_at::<Vec<u8>>(2).unwrap(),
            signed.payload_signatures[i].signature
        );
    }
}

#[test]
fn no_signers_leave_the_transaction_as_it_is() {
    let signed = sign_transaction(sample(), vec![], vec![]).unwrap().unwrap();
    assert!(signed.payload_signatures.is_empty());
    assert!(signed.envelope_signatures.is_empty());
    assert_eq!(
        payload_from_transaction(&signed).unwrap(),
        payload_from_transaction(&sample()).unwrap()
    );
}

#[test]
fn envelope_signers_alone_sign_an_empty_signature_list() {
    let a = signer("01", 0, KEY_A);
    let signed = sign_transaction(sample(), vec![], vec![&a]).unwrap().unwrap();
    assert!(signed.payload_signatures.is_empty());
    assert_eq!(signed.envelope_signatures.len(), 1);
    let message = message_to_sign(&envelope_from_transaction(&sample(), &vec![]).unwrap());
    assert!(verifies(KEY_A, &message, &signed.envelope_signatures[0].signature));
}

#[test]
fn signatures_are_appended_to_those_already_there() {
    let a = signer("01", 0, KEY_A);
    let b = signer("02", 1, KEY_B);
    let once = sign_payload(sample(), &vec![&a]).unwrap();
    let before = views(&once.payload_signatures);
    let twice = sign_payload(once, &vec![&b]).unwrap();
    assert_eq!(twice.payload_signatures.len(), 2);
    assert_eq!(views(&twice.payload_signatures)[..1].to_vec(), before);
    assert_eq!(twice.payload_signatures[1].key_id, 1);

    let all = views(&twice.payload_signatures);
    let enveloped = sign_envelope(twice, &vec![&a]).unwrap();
    assert_eq!(views(&enveloped.payload_signatures), all);
    let message = message_to_sign(
        &envelope_from_transaction(&sample(), &enveloped.payload_signatures).unwrap(),
    );
    assert!(verifies(KEY_A, &message, &enveloped.envelope_signatures[0].signature));
}

#[test]
fn failing_signer_fails_the_transaction() {
    let good = signer("01", 0, KEY_A);
    let bad_key = signer("01", 0, "00");
    let bad_address = signer("zz", 0, KEY_A);
    let long_address = signer("010203040506070809", 0, KEY_A);
    assert!(matches!(
        sign_transaction(sample(), vec![&good, &bad_key], vec![&good]),
        Err(Error::CryptoError)
    ));
    assert!(matches!(
        sign_transaction(sample(), vec![&good], vec![&bad_address]),
        Err(Error::DecodeError)
    ));
    assert!(matches!(
        sign_transaction(sample(), vec![&long_address], vec![]),
        Err(Error::EncodingOverflow)
    ));
}

#[test]
fn transaction_beyond_its_widths_is_not_signed() {
    let a = signer("01", 0, KEY_A);
    let mut tx = sample();
    tx.reference_block_id = vec![0; 33];
    assert!(matches!(sign_payload(tx, &vec![&a]), Err(Error::EncodingOverflow)));
    let mut tx = sample();
    tx.proposal_key.address = vec![0; 9];
    assert!(matches!(sign_envelope(tx, &vec![&a]), Err(Error::EncodingOverflow)));
}

#[test]
fn signing_moves_through_the_stages() {
    let a = signer("01", 0, KEY_A);
    let tx = sample();
    assert_eq!(tx.stage(), Stage::Unsigned);
    let tx = sign_payload(tx, &vec![]).unwrap();
    assert_eq!(tx.stage(), Stage::Unsigned);
    let tx = sign_payload(tx, &vec![&a]).unwrap();
    assert_eq!(tx.stage(), Stage::PayloadSigned);
    let tx = sign_envelope(tx, &vec![]).unwrap();
    assert_eq!(tx.stage(), Stage::PayloadSigned);
    let tx = sign_envelope(tx, &vec![&a]).unwrap();
    assert_eq!(tx.stage(), Stage::FullySigned);
    let only_envelope = sign_envelope(sample(), &vec![&a]).unwrap();
    assert_eq!(only_envelope.stage(), Stage::FullySigned);
}

#[test]
fn signing_leaves_the_body_alone() {
    let a = signer("01", 0, KEY_A);
    let signed = sign_transaction(sample(), vec![&a], vec![&a]).unwrap().unwrap();
    let mut bare = signed.clone();
    bare.payload_signatures.clear();
    bare.envelope_signatures.clear();
    assert_eq!(bare, sample());
}

#[test]
fn missing_signature_is_a_crypto_error() {
    assert_eq!(signature_from(None), Err(Error::CryptoError));
    assert_eq!(signature_from(Some(vec![1, 2, 3])), Ok(vec![1, 2, 3]));
    assert_eq!(signature_from(Some(vec![])), Ok(vec![]));
}

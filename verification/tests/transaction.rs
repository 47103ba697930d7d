use flow_rust_sdk::hexstr::decode_hex;
use flow_rust_sdk::transaction::{
    build_transaction, envelope_from_transaction, payload_from_transaction, Transaction,
    TransactionProposalKey, TransactionSignature,
};
use flow_rust_sdk::Error;

const SCRIPT: &[u8] = b"transaction { execute { log(\"Hello, World!\") } }";
const BLOCK: &str = "f0e4c2f76c58916ec258f246851bea091d14d4247a2fc3e18694461b1816e13b";

fn proposer() -> TransactionProposalKey {
    TransactionProposalKey { address: vec![0x01], key_id: 4, sequence_number: 10 }
}

fn hello(authorizers: Vec<String>) -> Transaction {
    build_transaction(
        SCRIPT.to_vec(),
        vec![],
        decode_hex(BLOCK).unwrap(),
        42,
        proposer(),
        authorizers,
        "01".to_string(),
    )
    .unwrap()
}

fn hex_of(bytes: &[u8]) -> String {
    hex::encode(bytes)
}

#[test]
fn build_fills_every_field() {
    let tx = build_transaction(
        b"script".to_vec(),
        vec![vec![1, 2], vec![3]],
        vec![9; 32],
        1000,
        TransactionProposalKey { address: vec![0xaa; 8], key_id: 2, sequence_number: 7 },
        vec!["f8d6e0586b0a20c7".to_string(), "01".to_string()],
        "0102".to_string(),
    )
    .unwrap();
    assert_eq!(tx.script, b"script".to_vec());
    assert_eq!(tx.arguments, vec![vec![1, 2], vec![3]]);
    assert_eq!(tx.reference_block_id, vec![9; 32]);
    assert_eq!(tx.gas_limit, 1000);
    assert_eq!(tx.proposal_key.address, vec![0xaa; 8]);
    assert_eq!(tx.proposal_key.key_id, 2);
    assert_eq!(tx.proposal_key.sequence_number, 7);
    assert_eq!(
        tx.authorizers,
        vec![vec![0xf8, 0xd6, 0xe0, 0x58, 0x6b, 0x0a, 0x20, 0xc7], vec![0x01]]
    );
    assert_eq!(tx.payer, vec![1, 2]);
    assert!(tx.payload_signatures.is_empty());
    assert!(tx.envelope_signatures.is_empty());
    assert!(tx.is_well_formed());
}

#[test]
fn build_refuses_a_malformed_payer() {
    let out = build_transaction(vec![], vec![], vec![], 0, proposer(), vec![], "0g".to_string());
    assert!(matches!(out, Err(Error::DecodeError)));
}

#[test]
fn build_refuses_a_malformed_authorizer() {
    let out = build_transaction(
        vec![],
        vec![],
        vec![],
        0,
        proposer(),
        vec!["01".to_string(), "123".to_string()],
        "01".to_string(),
    );
    assert!(matches!(out, Err(Error::DecodeError)));
}

#[test]
fn build_refuses_fields_beyond_their_width() {
    let long_block =
        build_transaction(vec![], vec![], vec![0; 33], 0, proposer(), vec![], "01".to_string());
    assert!(matches!(long_block, Err(Error::EncodingOverflow)));

    let long_proposer = build_transaction(
        vec![],
        vec![],
        vec![],
        0,
        TransactionProposalKey { address: vec![1; 9], key_id: 0, sequence_number: 0 },
        vec![],
        "01".to_string(),
    );
    assert!(matches!(long_proposer, Err(Error::EncodingOverflow)));

    let long_payer = build_transaction(
        vec![],
        vec![],
        vec![],
        0,
        proposer(),
        vec![],
        "010203040506070809".to_string(),
    );
    assert!(matches!(long_payer, Err(Error::EncodingOverflow)));

    let long_authorizer = build_transaction(
        vec![],
        vec![],
        vec![],
        0,
        proposer(),
        vec!["010203040506070809".to_string()],
        "01".to_string(),
    );
    assert!(matches!(long_authorizer, Err(Error::EncodingOverflow)));
}

#[test]
fn a_malformed_address_counts_before_a_width() {
    let out =
        build_transaction(vec![], vec![], vec![0; 40], 0, proposer(), vec![], "xy".to_string());
    assert!(matches!(out, Err(Error::DecodeError)));
}

#[test]
fn payload_without_arguments_and_authorizers_matches_the_reference() {
    let tx = hello(vec![]);
    let wanted = "f869\
        b07472616e73616374696f6e207b2065786563757465207b206c6f67282248656c6c6f2c20576f726c64212229207d207d\
        c0\
        a0f0e4c2f76c58916ec258f246851bea091d14d4247a2fc3e18694461b1816e13b\
        2a\
        880000000000000001\
        04\
        0a\
        880000000000000001\
        c0";
    assert_eq!(hex_of(&payload_from_transaction(&tx).unwrap()), wanted);
}

#[test]
fn payload_with_one_authorizer_matches_the_reference() {
    let tx = hello(vec!["01".to_string()]);
    let wanted = "f872b07472616e73616374696f6e207b2065786563757465207b206c6f67282248656c6c6f2c20576f726c64212229207d207dc0a0f0e4c2f76c58916ec258f246851bea091d14d4247a2fc3e18694461b1816e13b2a880000000000000001040a880000000000000001c9880000000000000001";
    assert_eq!(hex_of(&payload_from_transaction(&tx).unwrap()), wanted);
}

#[test]
fn payload_holds_each_argument_as_a_byte_string() {
    let tx = build_transaction(
        vec![],
        vec![b"ab".to_vec(), vec![], vec![0x05]],
        vec![],
        0,
        TransactionProposalKey { address: vec![], key_id: 0, sequence_number: 0 },
        vec![],
        "".to_string(),
    )
    .unwrap();
    let wanted = "f83e\
        80\
        c5826162 80 05\
        a00000000000000000000000000000000000000000000000000000000000000000\
        80\
        880000000000000000\
        80\
        80\
        880000000000000000\
        c0"
    .replace(' ', "");
    assert_eq!(hex_of(&payload_from_transaction(&tx).unwrap()), wanted);
}

#[test]
fn short_fields_are_padded_in_front() {
    let tx = build_transaction(
        vec![],
        vec![],
        vec![0xab, 0xcd],
        0,
        TransactionProposalKey { address: vec![0x12, 0x34], key_id: 0, sequence_number: 0 },
        vec!["5678".to_string()],
        "9abc".to_string(),
    )
    .unwrap();
    let out = hex_of(&payload_from_transaction(&tx).unwrap());
    assert!(out.contains("a0000000000000000000000000000000000000000000000000000000000000abcd"));
    assert!(out.contains("880000000000001234"));
    assert!(out.contains("880000000000009abc"));
    assert!(out.ends_with("c9880000000000005678"));
}

#[test]
fn payload_ignores_the_signatures() {
    let mut tx = hello(vec![]);
    let bare = payload_from_transaction(&tx).unwrap();
    tx.payload_signatures.push(TransactionSignature {
        address: vec![0; 8],
        key_id: 1,
        signature: vec![7; 64],
    });
    tx.envelope_signatures.push(TransactionSignature {
        address: vec![0; 8],
        key_id: 1,
        signature: vec![8; 64],
    });
    assert_eq!(payload_from_transaction(&tx).unwrap(), bare);
}

#[test]
fn payload_of_a_field_beyond_its_width_is_refused() {
    let mut tx = hello(vec![]);
    tx.payer = vec![1; 9];
    assert!(!tx.is_well_formed());
    assert_eq!(payload_from_transaction(&tx), Err(Error::EncodingOverflow));
    assert_eq!(envelope_from_transaction(&tx, &vec![]), Err(Error::EncodingOverflow));
}

#[test]
fn envelope_matches_the_reference() {
    let tx = hello(vec!["01".to_string()]);
    let signatures = vec![TransactionSignature {
        address: vec![0, 0, 0, 0, 0, 0, 0, 1],
        key_id: 4,
        signature: decode_hex("f7225388c1d69d57e6251c9fda50cbbf9e05131e5adb81e5aa0422402f048162")
            .unwrap(),
    }];
    let wanted = "f899f872b07472616e73616374696f6e207b2065786563757465207b206c6f67282248656c6c6f2c20576f726c64212229207d207dc0a0f0e4c2f76c58916ec258f246851bea091d14d4247a2fc3e18694461b1816e13b2a880000000000000001040a880000000000000001c9880000000000000001e4e38004a0f7225388c1d69d57e6251c9fda50cbbf9e05131e5adb81e5aa0422402f048162";
    assert_eq!(hex_of(&envelope_from_transaction(&tx, &signatures).unwrap()), wanted);
}

#[test]
fn envelope_without_signatures_ends_in_an_empty_list() {
    let tx = hello(vec![]);
    let payload = payload_from_transaction(&tx).unwrap();
    let envelope = envelope_from_transaction(&tx, &vec![]).unwrap();
    let mut wanted = vec![0xf8, (payload.len() + 1) as u8];
    wanted.extend_from_slice(&payload);
    wanted.push(0xc0);
    assert_eq!(envelope, wanted);
}

#[test]
fn envelope_numbers_the_signatures_by_position() {
    let tx = hello(vec![]);
    let signatures = vec![
        TransactionSignature { address: vec![0; 8], key_id: 9, signature: vec![0xaa] },
        TransactionSignature { address: vec![0; 8], key_id: 9, signature: vec![0xbb] },
        TransactionSignature { address: vec![0; 8], key_id: 3, signature: vec![0xcc] },
    ];
    let envelope = envelope_from_transaction(&tx, &signatures).unwrap();
    let list = rlp::Rlp::new(&envelope).at(1).unwrap();
    assert_eq!(list.item_count().unwrap(), 3);
    for i in 0..3usize {
        let triple = list.at(i).unwrap();
        assert_eq!(triple.item_count().unwrap(), 3);
        assert_eq!(triple.val_at::<u64>(0).unwrap(), i as u64);
        assert_eq!(triple.val_at::<u32>(1).unwrap(), signatures[i].key_id);
        assert_eq!(triple.val_at::<Vec<u8>>(2).unwrap(), signatures[i].signature);
    }
}

#[test]
fn envelope_depends_on_the_order_of_the_signatures() {
    let tx = hello(vec![]);
    let a = TransactionSignature { address: vec![0; 8], key_id: 1, signature: vec![0xaa; 64] };
    let b = TransactionSignature { address: vec![0; 8], key_id: 2, signature: vec![0xbb; 64] };
    let a2 = TransactionSignature { address: vec![0; 8], key_id: 1, signature: vec![0xaa; 64] };
    let b2 = TransactionSignature { address: vec![0; 8], key_id: 2, signature: vec![0xbb; 64] };
    let first = envelope_from_transaction(&tx, &vec![a, b]).unwrap();
    let second = envelope_from_transaction(&tx, &vec![b2, a2]).unwrap();
    assert_ne!(first, second);
    assert_eq!(first.len(), second.len());
}

#[test]
fn encoding_a_transaction_twice_gives_the_same_bytes() {
    let one = hello(vec!["01".to_string()]);
    let two = hello(vec!["01".to_string()]);
    assert_eq!(payload_from_transaction(&one), payload_from_transaction(&one));
    assert_eq!(payload_from_transaction(&one), payload_from_transaction(&two));
    assert_eq!(
        envelope_from_transaction(&one, &vec![]),
        envelope_from_transaction(&two, &vec![])
    );
}

#[test]
fn decoding_the_payload_gives_the_fields_back() {
    let tx = build_transaction(
        SCRIPT.to_vec(),
        vec![b"{\"type\":\"Bool\",\"value\":true}".to_vec()],
        decode_hex(BLOCK).unwrap(),
        9999,
        TransactionProposalKey { address: vec![0xf8, 0xd6], key_id: 300, sequence_number: 70000 },
        vec!["0a".to_string(), "0b0c".to_string()],
        "0d".to_string(),
    )
    .unwrap();
    let bytes = payload_from_transaction(&tx).unwrap();
    let rlp = rlp::Rlp::new(&bytes);
    assert_eq!(rlp.item_count().unwrap(), 9);
    assert_eq!(rlp.val_at::<Vec<u8>>(0).unwrap(), SCRIPT.to_vec());
    assert_eq!(rlp.list_at::<Vec<u8>>(1).unwrap(), tx.arguments);
    assert_eq!(rlp.val_at::<Vec<u8>>(2).unwrap(), decode_hex(BLOCK).unwrap());
    assert_eq!(rlp.val_at::<u64>(3).unwrap(), 9999);
    assert_eq!(rlp.val_at::<Vec<u8>>(4).unwrap(), vec![0, 0, 0, 0, 0, 0, 0xf8, 0xd6]);
    assert_eq!(rlp.val_at::<u32>(5).unwrap(), 300);
    assert_eq!(rlp.val_at::<u64>(6).unwrap(), 70000);
    assert_eq!(rlp.val_at::<Vec<u8>>(7).unwrap(), vec![0, 0, 0, 0, 0, 0, 0, 0x0d]);
    assert_eq!(
        rlp.list_at::<Vec<u8>>(8).unwrap(),
        vec![vec![0, 0, 0, 0, 0, 0, 0, 0x0a], vec![0, 0, 0, 0, 0, 0, 0x0b, 0x0c]]
    );
}

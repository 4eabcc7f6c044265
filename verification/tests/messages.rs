use btc_transaction_utils::test_data::keypair_from_wif;
use exonum_btc_anchoring::btc::PublicKey;
use exonum_btc_anchoring::crypto::hash;
use exonum_btc_anchoring::dto::{
    AnchoringMessage, MessageError, MsgAnchoringSignature, MsgAnchoringUpdateLatest,
    RawTransaction,
};
use exonum_btc_anchoring::handlers::{AddFunds, SignInput};
use exonum_btc_anchoring::keypairs::{deserialize, serialize, Keys};
use exonum_btc_anchoring::wire::DecodeError;
use exonum_btc_anchoring::sync::BitcoinKeypair;
use exonum_btc_anchoring::transaction::{Transaction, TxIn, TxOut};

const WIFS: [&str; 3] = [
    "cPHmynxvqfr7sXsJcohiGzoPGBShggxL6VWUdW14skohFZ1LQoeV",
    "cTtSTL1stvg2tmK349WTmQDfHLMLqkkxwuo8ZJeQov9zEhtYtb4u",
    "cQZZ7WvJUb6hXxCq9SF6516vb9bavQRPn2t3g9LFUtAoZuY7vNFk",
];

fn transaction() -> Transaction {
    Transaction {
        version: 2,
        lock_time: 0,
        input: vec![TxIn {
            prev_txid: [3; 32],
            vout: 1,
            script_sig: vec![],
            sequence: 0xFFFF_FFFF,
            witness: vec![],
        }],
        output: vec![TxOut {
            value: 77,
            script_pubkey: vec![0x51],
        }],
    }
}

fn segment(position: usize, count: usize) -> Vec<u8> {
    let mut bytes = (position as u32).to_le_bytes().to_vec();
    bytes.extend_from_slice(&(count as u32).to_le_bytes());
    bytes
}

fn header(message_type: u16) -> Vec<u8> {
    let mut bytes = vec![0, 0];
    bytes.extend_from_slice(&message_type.to_le_bytes());
    bytes.extend_from_slice(&3u16.to_le_bytes());
    bytes.extend_from_slice(&0u32.to_le_bytes());
    bytes
}

fn signature_message(tx: &[u8], signature: &[u8]) -> Vec<u8> {
    let mut bytes = header(0);
    bytes.extend_from_slice(&[0xaa; 32]);
    bytes.extend_from_slice(&5u16.to_le_bytes());
    bytes.extend_from_slice(&segment(64, tx.len()));
    bytes.extend_from_slice(&2u32.to_le_bytes());
    bytes.extend_from_slice(&segment(64 + tx.len(), signature.len()));
    assert_eq!(bytes.len(), 64);
    bytes.extend_from_slice(tx);
    bytes.extend_from_slice(signature);
    bytes.extend_from_slice(&[0xee; 64]);
    bytes
}

fn latest_message(tx: &[u8], count: u64) -> Vec<u8> {
    let mut bytes = header(1);
    bytes.extend_from_slice(&[0xbb; 32]);
    bytes.extend_from_slice(&6u16.to_le_bytes());
    bytes.extend_from_slice(&segment(60, tx.len()));
    bytes.extend_from_slice(&count.to_le_bytes());
    assert_eq!(bytes.len(), 60);
    bytes.extend_from_slice(tx);
    bytes.extend_from_slice(&[0xee; 64]);
    bytes
}

#[test]
fn signature_message_is_read() {
    let tx = transaction();
    let bytes = signature_message(&tx.to_bytes(), &[1, 2, 3]);
    let message = AnchoringMessage::from_raw(RawTransaction {
        bytes: bytes.clone(),
    })
    .unwrap();
    assert_eq!(message.from().0, [0xaa; 32]);
    assert_eq!(message.raw().bytes, bytes);
    assert_eq!(message.hash().0, hash(&bytes).0);
    assert_eq!(message.signature_bytes(), vec![0xee; 64]);
    assert_eq!(message.signed_bytes(), bytes[..bytes.len() - 64].to_vec());
    match message {
        AnchoringMessage::Signature(message) => {
            assert_eq!(message.validator(), 5);
            assert_eq!(message.input(), 2);
            assert_eq!(message.signature(), &vec![1, 2, 3]);
            assert!(message.tx().same(&tx));
            assert_eq!(message.from().0, [0xaa; 32]);
            assert_eq!(message.raw().bytes, bytes);
        }
        other => panic!("unexpected message {:?}", other),
    }
}

#[test]
fn latest_message_is_read() {
    let tx = transaction();
    let bytes = latest_message(&tx.to_bytes(), 0x0102_0304_0506_0708);
    let message = AnchoringMessage::from_raw(RawTransaction {
        bytes: bytes.clone(),
    })
    .unwrap();
    assert_eq!(message.from().0, [0xbb; 32]);
    assert_eq!(message.hash().0, hash(&bytes).0);
    match message {
        AnchoringMessage::UpdateLatest(message) => {
            assert_eq!(message.validator(), 6);
            assert_eq!(message.lect_count(), 0x0102_0304_0506_0708);
            assert!(message.tx().same(&tx));
            assert_eq!(message.from().0, [0xbb; 32]);
            assert_eq!(message.raw().bytes, bytes);
        }
        other => panic!("unexpected message {:?}", other),
    }
}

#[test]
fn messages_of_other_types_are_refused() {
    let tx = transaction().to_bytes();
    let mut bytes = signature_message(&tx, &[1]);
    bytes[2] = 2;
    assert_eq!(
        AnchoringMessage::from_raw(RawTransaction { bytes }).unwrap_err(),
        MessageError::UnexpectedMessageType
    );
    let mut bytes = signature_message(&tx, &[1]);
    bytes[3] = 1;
    assert_eq!(
        AnchoringMessage::from_raw(RawTransaction { bytes }).unwrap_err(),
        MessageError::UnexpectedMessageType
    );
    // The type decides how the body is read.
    let mut bytes = latest_message(&tx, 1);
    bytes[2] = 0;
    assert_eq!(
        AnchoringMessage::from_raw(RawTransaction { bytes }).unwrap_err(),
        MessageError::IncorrectSegment
    );
}

#[test]
fn message_errors() {
    let tx = transaction().to_bytes();
    assert_eq!(
        AnchoringMessage::from_raw(RawTransaction { bytes: vec![] }).unwrap_err(),
        MessageError::TooShort
    );
    assert_eq!(
        AnchoringMessage::from_raw(RawTransaction {
            bytes: vec![0; 73]
        })
        .unwrap_err(),
        MessageError::TooShort
    );
    assert_eq!(
        AnchoringMessage::from_raw(RawTransaction {
            bytes: vec![0; 127]
        })
        .unwrap_err(),
        MessageError::TooShort
    );
    assert_eq!(
        MsgAnchoringSignature::from_raw(RawTransaction {
            bytes: vec![0; 127]
        })
        .unwrap_err(),
        MessageError::TooShort
    );
    assert_eq!(
        MsgAnchoringUpdateLatest::from_raw(RawTransaction {
            bytes: vec![0; 123]
        })
        .unwrap_err(),
        MessageError::TooShort
    );
    // Segments at position zero lie in the header.
    assert_eq!(
        AnchoringMessage::from_raw(RawTransaction {
            bytes: vec![0; 128]
        })
        .unwrap_err(),
        MessageError::IncorrectSegment
    );
    // A segment that reaches into the signature.
    let mut bytes = signature_message(&tx, &[1, 2]);
    bytes[10 + 50] += 1;
    assert_eq!(
        AnchoringMessage::from_raw(RawTransaction { bytes }).unwrap_err(),
        MessageError::IncorrectSegment
    );
    // Bytes that are no transaction.
    assert_eq!(
        AnchoringMessage::from_raw(RawTransaction {
            bytes: signature_message(&[1, 2, 3], &[1, 2])
        })
        .unwrap_err(),
        MessageError::IncorrectTransaction
    );
    assert_eq!(
        AnchoringMessage::from_raw(RawTransaction {
            bytes: latest_message(&[], 0)
        })
        .unwrap_err(),
        MessageError::IncorrectTransaction
    );
}

fn keypair(n: usize, secret: u8) -> BitcoinKeypair {
    BitcoinKeypair {
        public_key: PublicKey::from_slice(keypair_from_wif(WIFS[n]).0.to_bytes()).unwrap(),
        private_key: [secret; 32],
    }
}

#[test]
fn keys_are_written_as_a_list_and_read_back() {
    let mut keys = Keys::new();
    assert!(serialize(&keys).is_empty());
    for n in 0..3 {
        keys.insert(keypair(n, n as u8 + 1));
    }
    let list = serialize(&keys);
    assert_eq!(list.len(), 3);
    // The list stands in the order of the public keys.
    for pair in list.windows(2) {
        assert!(pair[0].public_key.to_bytes() < pair[1].public_key.to_bytes());
    }
    let read = deserialize(list);
    for n in 0..3 {
        let public_key = keypair(n, 0).public_key;
        assert_eq!(read.get(&public_key), Some([n as u8 + 1; 32]));
        assert_eq!(keys.get(&public_key), Some([n as u8 + 1; 32]));
    }
    assert_eq!(serialize(&read).len(), 3);
}

#[test]
fn deserialize_keeps_the_later_of_two_pairs() {
    let keys = deserialize(vec![keypair(0, 1), keypair(1, 2), keypair(0, 3)]);
    assert_eq!(keys.get(&keypair(0, 0).public_key), Some([3; 32]));
    assert_eq!(keys.get(&keypair(1, 0).public_key), Some([2; 32]));
    assert_eq!(keys.get(&keypair(2, 0).public_key), None);
    assert_eq!(serialize(&keys).len(), 2);
    assert!(serialize(&deserialize(vec![])).is_empty());
}

#[test]
fn sign_input_encoding_is_exact_and_read_back() {
    let tx = transaction();
    let tx_bytes = tx.to_bytes();
    let message = SignInput {
        transaction: tx.clone(),
        input: 300,
        input_signature: vec![9, 8, 7],
    };
    let bytes = message.to_bytes();
    let mut expected = vec![0x0a, tx_bytes.len() as u8];
    expected.extend_from_slice(&tx_bytes);
    expected.extend_from_slice(&[0x10, 0xac, 0x02]);
    expected.extend_from_slice(&[0x1a, 3, 9, 8, 7]);
    assert_eq!(bytes, expected);

    let read = SignInput::from_bytes(&bytes).unwrap();
    assert!(read.transaction.same(&tx));
    assert_eq!(read.input, 300);
    assert_eq!(read.input_signature, vec![9, 8, 7]);

    // An empty signature and the input zero are left out.
    let message = SignInput {
        transaction: tx.clone(),
        input: 0,
        input_signature: vec![],
    };
    assert_eq!(message.to_bytes().len(), 2 + tx_bytes.len());
    assert_eq!(message.to_bytes(), expected[..2 + tx_bytes.len()].to_vec());
    let read = SignInput::from_bytes(&message.to_bytes()).unwrap();
    assert_eq!(read.input, 0);
    assert!(read.input_signature.is_empty());
}

#[test]
fn sign_input_decode_errors() {
    let tx_bytes = transaction().to_bytes();
    // No transaction.
    assert_eq!(
        SignInput::from_bytes(&vec![]).unwrap_err(),
        DecodeError::InvalidValue
    );
    assert_eq!(
        SignInput::from_bytes(&vec![0x10, 1]).unwrap_err(),
        DecodeError::InvalidValue
    );
    // Bytes that are no transaction.
    assert_eq!(
        SignInput::from_bytes(&vec![0x0a, 2, 1, 2]).unwrap_err(),
        DecodeError::InvalidValue
    );
    // An input beyond 32 bits.
    let mut bytes = vec![0x0a, tx_bytes.len() as u8];
    bytes.extend_from_slice(&tx_bytes);
    let mut overflow = bytes.clone();
    overflow.extend_from_slice(&[0x10, 0x80, 0x80, 0x80, 0x80, 0x10]);
    assert_eq!(
        SignInput::from_bytes(&overflow).unwrap_err(),
        DecodeError::Overflow
    );
    // The input as a field of bytes.
    let mut wrong = bytes.clone();
    wrong.extend_from_slice(&[0x12, 1, 0]);
    assert_eq!(
        SignInput::from_bytes(&wrong).unwrap_err(),
        DecodeError::UnexpectedWireType
    );
    // The signature as a number.
    let mut wrong = bytes.clone();
    wrong.extend_from_slice(&[0x18, 1]);
    assert_eq!(
        SignInput::from_bytes(&wrong).unwrap_err(),
        DecodeError::UnexpectedWireType
    );
    // Fields that the format does not know are passed over.
    let mut more = bytes.clone();
    more.extend_from_slice(&[0x20, 5, 0x2a, 2, 1, 1]);
    let read = SignInput::from_bytes(&more).unwrap();
    assert_eq!(read.input, 0);
    assert!(read.transaction.same(&transaction()));
}

#[test]
fn add_funds_encoding_is_exact_and_read_back() {
    let tx = transaction();
    let tx_bytes = tx.to_bytes();
    let bytes = AddFunds {
        transaction: tx.clone(),
    }
    .to_bytes();
    let mut expected = vec![0x0a, tx_bytes.len() as u8];
    expected.extend_from_slice(&tx_bytes);
    assert_eq!(bytes, expected);
    assert!(AddFunds::from_bytes(&bytes).unwrap().transaction.same(&tx));

    assert_eq!(
        AddFunds::from_bytes(&vec![]).unwrap_err(),
        DecodeError::InvalidValue
    );
    assert_eq!(
        AddFunds::from_bytes(&vec![0x08, 1]).unwrap_err(),
        DecodeError::UnexpectedWireType
    );
    assert_eq!(
        AddFunds::from_bytes(&vec![0x0a, 1, 0]).unwrap_err(),
        DecodeError::InvalidValue
    );
    assert_eq!(
        AddFunds::from_bytes(&vec![0x0a, 9, 0]).unwrap_err(),
        DecodeError::UnexpectedEof
    );
}

#[test]
fn a_message_is_read_back_from_its_own_bytes() {
    let tx = transaction().to_bytes();
    for bytes in [signature_message(&tx, &[4, 5, 6]), latest_message(&tx, 9)] {
        let message = AnchoringMessage::from_raw(RawTransaction {
            bytes: bytes.clone(),
        })
        .unwrap();
        let again = AnchoringMessage::from_raw(RawTransaction {
            bytes: message.raw().bytes.clone(),
        })
        .unwrap();
        assert_eq!(
            matches!(message, AnchoringMessage::Signature(_)),
            matches!(again, AnchoringMessage::Signature(_))
        );
        assert_eq!(again.raw().bytes, message.raw().bytes);
        assert_eq!(again.from().0, message.from().0);
        assert_eq!(again.hash().0, message.hash().0);
    }
}

#[test]
fn messages_are_wrapped_by_their_kind() {
    let tx = transaction().to_bytes();
    let signature = MsgAnchoringSignature::from_raw(RawTransaction {
        bytes: signature_message(&tx, &[1]),
    })
    .unwrap();
    let wrapped: AnchoringMessage = signature.into();
    assert!(matches!(wrapped, AnchoringMessage::Signature(ref m) if m.validator() == 5));
    let latest = MsgAnchoringUpdateLatest::from_raw(RawTransaction {
        bytes: latest_message(&tx, 3),
    })
    .unwrap();
    let wrapped: AnchoringMessage = latest.into();
    assert!(matches!(wrapped, AnchoringMessage::UpdateLatest(ref m) if m.lect_count() == 3));

    // Each kind reads its own type only.
    assert_eq!(
        MsgAnchoringSignature::from_raw(RawTransaction {
            bytes: latest_message(&tx, 3)
        })
        .unwrap_err(),
        MessageError::UnexpectedMessageType
    );
    assert_eq!(
        MsgAnchoringUpdateLatest::from_raw(RawTransaction {
            bytes: signature_message(&tx, &[1])
        })
        .unwrap_err(),
        MessageError::UnexpectedMessageType
    );
}

use btc_transaction_utils::test_data::keypair_from_wif;
use exonum_btc_anchoring::btc::{Network, PublicKey, RedeemScript, RedeemScriptError};
use exonum_btc_anchoring::config::{
    byzantine_quorum, AnchoringKeys, Config, ConfigError, Height,
};
use exonum_btc_anchoring::transaction::{Transaction, TxIn, TxOut};
use exonum_btc_anchoring::wire::DecodeError;

const WIFS: [&str; 4] = [
    "cPHmynxvqfr7sXsJcohiGzoPGBShggxL6VWUdW14skohFZ1LQoeV",
    "cTtSTL1stvg2tmK349WTmQDfHLMLqkkxwuo8ZJeQov9zEhtYtb4u",
    "cQZZ7WvJUb6hXxCq9SF6516vb9bavQRPn2t3g9LFUtAoZuY7vNFk",
    "cQoWXdtbsRP9nu6i8qX8h3qQmM25XDF7XJMBjgnqqr5MqDxmmkjN",
];

fn bitcoin_key(n: usize) -> PublicKey {
    PublicKey::from_slice(keypair_from_wif(WIFS[n]).0.to_bytes()).unwrap()
}

fn service_key(n: usize) -> exonum_btc_anchoring::crypto::PublicKey {
    exonum_btc_anchoring::crypto::PublicKey([n as u8 + 1; 32])
}

fn committee(count: usize) -> Vec<AnchoringKeys> {
    (0..count)
        .map(|n| AnchoringKeys {
            bitcoin_key: bitcoin_key(n),
            service_key: service_key(n),
        })
        .collect()
}

fn funding_to(script: Vec<u8>, value: u64) -> Transaction {
    Transaction {
        version: 2,
        lock_time: 0,
        input: vec![TxIn {
            prev_txid: [7; 32],
            vout: 0,
            script_sig: vec![],
            sequence: 0xFFFF_FFFF,
            witness: vec![],
        }],
        output: vec![
            TxOut {
                value: 1,
                script_pubkey: vec![0x6a],
            },
            TxOut {
                value,
                script_pubkey: script,
            },
        ],
    }
}

#[test]
fn test_config_serde() {
    let config = Config::with_public_keys(Network::Mainnet, committee(4)).unwrap();
    assert_eq!(config.redeem_script().content().quorum, 3);

    let bytes = config.to_bytes();
    let config2 = Config::from_bytes(&bytes).unwrap();
    assert_eq!(config2.network, config.network);
    assert_eq!(config2.anchoring_interval, config.anchoring_interval);
    assert_eq!(config2.transaction_fee, config.transaction_fee);
    assert!(config2.funding_transaction.is_none());
    assert_eq!(config2.anchoring_keys.len(), 4);
    for n in 0..4 {
        assert!(config2.anchoring_keys[n].bitcoin_key.same(&config.anchoring_keys[n].bitcoin_key));
        assert!(config2.anchoring_keys[n].service_key.same(&config.anchoring_keys[n].service_key));
    }
    assert_eq!(config2.to_bytes(), bytes);
}

#[test]
fn test_config_anchoring_height() {
    let mut config = Config::with_public_keys(Network::Mainnet, committee(4)).unwrap();
    config.anchoring_interval = 1000;

    assert_eq!(config.previous_anchoring_height(Height(0)), Height(0));
    assert_eq!(config.previous_anchoring_height(Height(999)), Height(0));
    assert_eq!(config.previous_anchoring_height(Height(1000)), Height(1000));
    assert_eq!(config.previous_anchoring_height(Height(1001)), Height(1000));

    assert_eq!(config.following_anchoring_height(Height(0)), Height(1000));
    assert_eq!(config.following_anchoring_height(Height(999)), Height(1000));
    assert_eq!(
        config.following_anchoring_height(Height(1000)),
        Height(2000)
    );
    assert_eq!(
        config.following_anchoring_height(Height(1001)),
        Height(2000)
    );
}

#[test]
fn byzantine_quorum_is_more_than_two_thirds() {
    assert_eq!(byzantine_quorum(0), 1);
    assert_eq!(byzantine_quorum(1), 1);
    assert_eq!(byzantine_quorum(2), 2);
    assert_eq!(byzantine_quorum(3), 3);
    assert_eq!(byzantine_quorum(4), 3);
    assert_eq!(byzantine_quorum(7), 5);
    assert_eq!(byzantine_quorum(100), 67);
    assert_eq!(byzantine_quorum(usize::MAX), usize::MAX / 3 * 2 + 1);
}

#[test]
fn quorum_of_the_redeem_script_for_each_committee() {
    for count in 1..=4 {
        let config = Config::with_public_keys(Network::Testnet, committee(count)).unwrap();
        let script = config.redeem_script();
        assert_eq!(script.quorum(), count * 2 / 3 + 1);
        assert_eq!(script.total(), count);
    }
}

#[test]
fn default_config() {
    let config = Config::default();
    assert_eq!(config.network, Network::Testnet);
    assert!(config.anchoring_keys.is_empty());
    assert_eq!(config.anchoring_interval, 5000);
    assert_eq!(config.transaction_fee, 10);
    assert!(config.funding_transaction.is_none());
}

#[test]
fn with_public_keys_refuses_an_empty_committee() {
    assert_eq!(
        Config::with_public_keys(Network::Testnet, vec![]).unwrap_err(),
        RedeemScriptError::NotEnoughPublicKeys
    );
}

#[test]
fn with_public_keys_takes_the_defaults() {
    let config = Config::with_public_keys(Network::Regtest, committee(2)).unwrap();
    assert_eq!(config.network, Network::Regtest);
    assert_eq!(config.anchoring_keys.len(), 2);
    assert_eq!(config.anchoring_interval, 5000);
    assert_eq!(config.transaction_fee, 10);
    assert!(config.funding_transaction.is_none());
}

#[test]
fn find_bitcoin_key_gives_the_first_member_with_the_service_key() {
    let mut keys = committee(3);
    keys.push(AnchoringKeys {
        bitcoin_key: bitcoin_key(3),
        service_key: service_key(1),
    });
    let config = Config::with_public_keys(Network::Testnet, keys).unwrap();
    let (index, key) = config.find_bitcoin_key(&service_key(1)).unwrap();
    assert_eq!(index, 1);
    assert!(key.same(&bitcoin_key(1)));
    let (index, key) = config.find_bitcoin_key(&service_key(2)).unwrap();
    assert_eq!(index, 2);
    assert!(key.same(&bitcoin_key(2)));
    assert!(config.find_bitcoin_key(&service_key(9)).is_none());
}

#[test]
fn redeem_script_is_the_one_of_the_bitcoin_libraries() {
    let config = Config::with_public_keys(Network::Testnet, committee(4)).unwrap();
    let bytes = config.redeem_script().to_bytes();
    let script = btc_transaction_utils::multisig::RedeemScript::from_script(
        bitcoin::Script::from(bytes.clone()),
    )
    .unwrap();
    let content = script.content();
    assert_eq!(content.quorum, 3);
    assert_eq!(content.public_keys.len(), 4);
    for n in 0..4 {
        assert_eq!(content.public_keys[n], keypair_from_wif(WIFS[n]).0);
    }
    // OP_3, four pushes of 33 bytes, OP_4, OP_CHECKMULTISIG.
    assert_eq!(bytes.len(), 1 + 4 * 34 + 1 + 1);
    assert_eq!(bytes[0], 0x53);
    assert_eq!(bytes[1], 33);
    assert_eq!(bytes[bytes.len() - 2], 0x54);
    assert_eq!(bytes[bytes.len() - 1], 0xae);
}

#[test]
fn redeem_script_errors() {
    let keys = || vec![bitcoin_key(0), bitcoin_key(1)];
    assert_eq!(
        RedeemScript::new(keys(), 0).unwrap_err(),
        RedeemScriptError::NoQuorum
    );
    assert_eq!(
        RedeemScript::new(vec![], 0).unwrap_err(),
        RedeemScriptError::NoQuorum
    );
    assert_eq!(
        RedeemScript::new(vec![], 1).unwrap_err(),
        RedeemScriptError::NotEnoughPublicKeys
    );
    assert_eq!(
        RedeemScript::new(keys(), 3).unwrap_err(),
        RedeemScriptError::IncorrectQuorum
    );
    let script = RedeemScript::new(keys(), 2).unwrap();
    assert_eq!(script.quorum(), 2);
    assert_eq!(script.total(), 2);
}

#[test]
fn out_script_is_the_witness_program_of_the_redeem_script() {
    let config = Config::with_public_keys(Network::Testnet, committee(4)).unwrap();
    let redeem = config.redeem_script().to_bytes();
    let out = config.anchoring_out_script();
    assert_eq!(out.len(), 34);
    assert_eq!(out[0], 0x00);
    assert_eq!(out[1], 0x20);
    assert_eq!(
        out,
        bitcoin::Script::from(redeem.clone())
            .to_v0_p2wsh()
            .into_bytes()
    );
    assert_ne!(out, redeem);
    assert_eq!(config.redeem_script().script_pubkey(), out);
}

#[test]
fn addresses_carry_the_prefix_of_their_network() {
    let mut config = Config::with_public_keys(Network::Mainnet, committee(4)).unwrap();
    let mainnet = config.anchoring_address().to_string();
    assert!(mainnet.starts_with("bc1q"));
    config.network = Network::Testnet;
    let testnet = config.anchoring_address().to_string();
    assert!(testnet.starts_with("tb1q"));
    config.network = Network::Regtest;
    let regtest = config.anchoring_address().to_string();
    assert!(regtest.starts_with("bcrt1q"));
    config.network = Network::Signet;
    let signet = config.anchoring_address().to_string();
    assert_eq!(signet, testnet);
    assert!(config
        .anchoring_address()
        .same(&config.redeem_script().address(Network::Testnet)));
    assert!(!config
        .anchoring_address()
        .same(&config.redeem_script().address(Network::Mainnet)));

    let expected = bitcoin::Address::p2wsh(
        &bitcoin::Script::from(config.redeem_script().to_bytes()),
        bitcoin::Network::Testnet,
    )
    .to_string();
    assert_eq!(testnet, expected);
}

#[test]
fn public_key_accepts_points_of_the_curve_only() {
    let bytes = keypair_from_wif(WIFS[0]).0.to_bytes();
    assert_eq!(bytes.len(), 33);
    let key = PublicKey::from_slice(bytes.clone()).unwrap();
    assert_eq!(key.to_bytes(), bytes);
    assert!(key.same(&key.clone()));
    assert!(!key.same(&bitcoin_key(1)));
    assert!(PublicKey::from_slice(vec![]).is_none());
    assert!(PublicKey::from_slice(vec![2; 32]).is_none());
    assert!(PublicKey::from_slice(vec![0; 33]).is_none());
    assert!(PublicKey::from_slice(vec![5; 33]).is_none());
    assert!(PublicKey::from_slice(vec![4; 65]).is_none());
}

#[test]
fn validate_names_the_first_rule_that_is_broken() {
    let mut config = Config::default();
    assert_eq!(
        config.validate(),
        Err(ConfigError::RedeemScript(
            RedeemScriptError::NotEnoughPublicKeys
        ))
    );
    config.anchoring_keys = committee(4);
    assert_eq!(config.validate(), Ok(()));
    config.anchoring_interval = 0;
    assert_eq!(config.validate(), Err(ConfigError::ZeroAnchoringInterval));
    config.anchoring_interval = 1;
    assert_eq!(config.validate(), Ok(()));

    config.funding_transaction = Some(funding_to(vec![0x51], 100));
    assert_eq!(
        config.validate(),
        Err(ConfigError::UnsuitableFundingTransaction)
    );
    config.funding_transaction = Some(funding_to(config.anchoring_out_script(), 100));
    assert_eq!(config.validate(), Ok(()));
    config.anchoring_interval = 0;
    assert_eq!(config.validate(), Err(ConfigError::ZeroAnchoringInterval));
}

#[test]
fn find_out_gives_the_first_output_with_the_script() {
    let tx = Transaction {
        version: 2,
        lock_time: 0,
        input: vec![],
        output: vec![
            TxOut {
                value: 1,
                script_pubkey: vec![1],
            },
            TxOut {
                value: 2,
                script_pubkey: vec![2, 2],
            },
            TxOut {
                value: 3,
                script_pubkey: vec![2, 2],
            },
        ],
    };
    assert_eq!(tx.find_out(&vec![1]), Some(0));
    assert_eq!(tx.find_out(&vec![2, 2]), Some(1));
    assert_eq!(tx.find_out(&vec![2]), None);
    assert_eq!(tx.find_out(&vec![]), None);
}

#[test]
fn config_with_funding_transaction_is_read_back() {
    let mut config = Config::with_public_keys(Network::Signet, committee(3)).unwrap();
    config.anchoring_interval = 0;
    config.transaction_fee = u64::MAX;
    config.funding_transaction = Some(funding_to(config.anchoring_out_script(), 12345));
    let bytes = config.to_bytes();
    let read = Config::from_bytes(&bytes).unwrap();
    assert_eq!(read.network, Network::Signet);
    assert_eq!(read.anchoring_interval, 0);
    assert_eq!(read.transaction_fee, u64::MAX);
    assert_eq!(read.anchoring_keys.len(), 3);
    assert!(read
        .funding_transaction
        .as_ref()
        .unwrap()
        .same(config.funding_transaction.as_ref().unwrap()));
    assert_eq!(read.to_bytes(), bytes);
}

#[test]
fn config_encoding_is_exact() {
    let mut config = Config::with_public_keys(Network::Regtest, committee(1)).unwrap();
    config.anchoring_interval = 300;
    config.transaction_fee = 0;
    let key = config.anchoring_keys[0].bitcoin_key.to_bytes();
    let mut expected = vec![0x08, 2];
    // The member: a record of the Bitcoin key and the service key.
    expected.extend_from_slice(&[0x12, 2 + 33 + 2 + 32, 0x0a, 33]);
    expected.extend_from_slice(&key);
    expected.extend_from_slice(&[0x12, 32]);
    expected.extend_from_slice(&[1; 32]);
    // The interval; the fee is zero and left out.
    expected.extend_from_slice(&[0x18, 0xac, 0x02]);
    assert_eq!(config.to_bytes(), expected);

    // On the main network the network is left out too.
    config.network = Network::Mainnet;
    config.transaction_fee = 1;
    assert_eq!(config.to_bytes()[0], 0x12);
    assert_eq!(config.to_bytes()[expected.len() - 2..], [0x20, 1]);
    let read = Config::from_bytes(&config.to_bytes()).unwrap();
    assert_eq!(read.network, Network::Mainnet);
    assert_eq!(read.transaction_fee, 1);
}

#[test]
fn config_decode_errors() {
    assert_eq!(
        Config::from_bytes(&vec![0x08, 4]).unwrap_err(),
        DecodeError::InvalidValue
    );
    assert_eq!(
        Config::from_bytes(&vec![0x0a, 0]).unwrap_err(),
        DecodeError::UnexpectedWireType
    );
    assert_eq!(
        Config::from_bytes(&vec![0x10, 0]).unwrap_err(),
        DecodeError::UnexpectedWireType
    );
    // A member without keys.
    assert_eq!(
        Config::from_bytes(&vec![0x12, 0]).unwrap_err(),
        DecodeError::InvalidValue
    );
    // A member whose Bitcoin key is no key.
    let mut bytes = vec![0x12, 2 + 33 + 2 + 32, 0x0a, 33];
    bytes.extend_from_slice(&[5; 33]);
    bytes.extend_from_slice(&[0x12, 32]);
    bytes.extend_from_slice(&[1; 32]);
    assert_eq!(
        Config::from_bytes(&bytes).unwrap_err(),
        DecodeError::InvalidValue
    );
    // A funding transaction that is none.
    assert_eq!(
        Config::from_bytes(&vec![0x2a, 1, 7]).unwrap_err(),
        DecodeError::InvalidValue
    );
    assert_eq!(
        Config::from_bytes(&vec![0x18]).unwrap_err(),
        DecodeError::IncorrectVarint
    );
    // Nothing at all is the configuration with nothing set.
    let blank = Config::from_bytes(&vec![]).unwrap();
    assert_eq!(blank.network, Network::Mainnet);
    assert!(blank.anchoring_keys.is_empty());
    assert_eq!(blank.anchoring_interval, 0);
    // A later field replaces an earlier one; unknown fields are passed over.
    let read = Config::from_bytes(&vec![0x18, 5, 0x38, 1, 0x18, 6, 0x08, 1, 0x08, 3]).unwrap();
    assert_eq!(read.anchoring_interval, 6);
    assert_eq!(read.network, Network::Signet);
    assert_eq!(Network::from_code(2), Some(Network::Regtest));
    assert_eq!(Network::from_code(4), None);
    assert_eq!(Network::Testnet.to_code(), 1);
}

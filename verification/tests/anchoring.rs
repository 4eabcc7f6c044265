use btc_transaction_utils::test_data::keypair_from_wif;
use exonum_btc_anchoring::btc::{Network, PublicKey};
use exonum_btc_anchoring::config::{AnchoringKeys, Config, Height};
use exonum_btc_anchoring::handlers::{attach_witnesses, AddFunds, SignInput};
use exonum_btc_anchoring::payload::Payload;
use exonum_btc_anchoring::proposal::{estimate_fee, AnchoringProposalState};
use exonum_btc_anchoring::schema::{validator_key_bytes, BtcAnchoringSchema};
use exonum_btc_anchoring::service::{BtcAnchoringService, ExecutionError};
use exonum_btc_anchoring::signing::{sign_input, verify_input_signature};
use exonum_btc_anchoring::sync::{BitcoinKeypair, ChainUpdateError};
use exonum_btc_anchoring::transaction::{hash_eq, Transaction, TxIn, TxOut};

const WIFS: [&str; 6] = [
    "cPHmynxvqfr7sXsJcohiGzoPGBShggxL6VWUdW14skohFZ1LQoeV",
    "cTtSTL1stvg2tmK349WTmQDfHLMLqkkxwuo8ZJeQov9zEhtYtb4u",
    "cQZZ7WvJUb6hXxCq9SF6516vb9bavQRPn2t3g9LFUtAoZuY7vNFk",
    "cQoWXdtbsRP9nu6i8qX8h3qQmM25XDF7XJMBjgnqqr5MqDxmmkjN",
    "cUccK257yZdqHDvGxNCqogdA87vz8C1FU1hDjQ35YuCy1mshCF5P",
    "cVYXjWXoXbFAP3gWZc2zz5UzQV6Z9CX8myPijDutVPSZbX5bnv6h",
];

fn bitcoin_key(n: usize) -> PublicKey {
    PublicKey::from_slice(keypair_from_wif(WIFS[n]).0.to_bytes()).unwrap()
}

fn secret_key(n: usize) -> [u8; 32] {
    let mut key = [0u8; 32];
    key.copy_from_slice(&keypair_from_wif(WIFS[n]).1.key[..]);
    key
}

fn keypair(n: usize) -> BitcoinKeypair {
    BitcoinKeypair {
        public_key: bitcoin_key(n),
        private_key: secret_key(n),
    }
}

fn service_key(n: usize) -> exonum_btc_anchoring::crypto::PublicKey {
    exonum_btc_anchoring::crypto::PublicKey([n as u8 + 1; 32])
}

fn committee(members: &[usize]) -> Vec<AnchoringKeys> {
    members
        .iter()
        .map(|&n| AnchoringKeys {
            bitcoin_key: bitcoin_key(n),
            service_key: service_key(n),
        })
        .collect()
}

fn config(members: &[usize], interval: u64, fee: u64) -> Config {
    let mut config = Config::with_public_keys(Network::Testnet, committee(members)).unwrap();
    config.anchoring_interval = interval;
    config.transaction_fee = fee;
    config
}

fn block_hash(height: u64) -> exonum_btc_anchoring::crypto::Hash {
    let mut hash = [0xb0u8; 32];
    hash[..8].copy_from_slice(&height.to_le_bytes());
    exonum_btc_anchoring::crypto::Hash(hash)
}

struct Kit {
    schema: BtcAnchoringSchema,
    members: Vec<usize>,
}

impl Kit {
    fn new(validators: usize, interval: u64, fee: u64) -> Kit {
        let members: Vec<usize> = (0..validators).collect();
        let mut schema = BtcAnchoringSchema::new();
        BtcAnchoringService
            .initialize(&mut schema, config(&members, interval, fee).to_bytes())
            .unwrap();
        Kit { schema, members }
    }

    /// Four validators, an interval of five blocks, and funds.
    fn default() -> Kit {
        let mut kit = Kit::new(4, 5, 10);
        let funds = kit.funding(700_000, 1);
        kit.schema
            .add_funds(&service_key(0), AddFunds { transaction: funds })
            .unwrap();
        kit
    }

    fn funding(&self, value: u64, seed: u8) -> Transaction {
        funding_to(
            self.schema
                .actual_configuration()
                .anchoring_out_script(),
            value,
            seed,
        )
    }

    fn height(&self) -> u64 {
        self.schema.anchored_blocks.len() as u64
    }

    fn create_block(&mut self) {
        let height = self.height();
        BtcAnchoringService.before_commit(&mut self.schema, block_hash(height));
    }

    fn create_blocks_until(&mut self, height: u64) {
        while self.height() < height {
            self.create_block();
        }
    }

    /// Every validator signs what it sees, one after the other.
    fn sign_all(&mut self) -> Vec<Result<(), ExecutionError>> {
        let mut results = Vec::new();
        for &n in &self.members.clone() {
            let messages = self.schema.chain_update(&vec![keypair(n)]).unwrap();
            for message in messages {
                results.push(self.schema.sign_input(&service_key(n), message));
            }
        }
        results
    }

    fn payload(&self, index: usize) -> Option<Payload> {
        let tx = self.schema.anchoring_txs_chain.get(index)?;
        Payload::from_script(&tx.output.last()?.script_pubkey)
    }

    fn proposal(&self) -> (Transaction, Vec<[u8; 32]>) {
        match self.schema.anchoring_proposal() {
            AnchoringProposalState::Available {
                transaction,
                sighashes,
            } => (transaction, sighashes),
            other => panic!("no proposal: {:?}", other),
        }
    }
}

fn funding_to(script: Vec<u8>, value: u64, seed: u8) -> Transaction {
    Transaction {
        version: 2,
        lock_time: 0,
        input: vec![TxIn {
            prev_txid: [seed; 32],
            vout: 0,
            script_sig: vec![],
            sequence: 0xFFFF_FFFF,
            witness: vec![],
        }],
        output: vec![
            TxOut {
                value: 1,
                script_pubkey: vec![0x6a],
            },
            TxOut {
                value,
                script_pubkey: script,
            },
        ],
    }
}

fn to_bitcoin(tx: &Transaction) -> bitcoin::Transaction {
    bitcoin::consensus::deserialize(&tx.to_bytes()).unwrap()
}

#[test]
fn chain_updater_normal() {
    let mut testkit = Kit::default();
    let anchoring_interval = testkit
        .schema
        .actual_configuration()
        .anchoring_interval;
    // Commit several blocks.
    testkit.create_blocks_until(anchoring_interval);
    // Perform a several anchoring chain updates.
    for i in 0..2 {
        testkit.sign_all();
        testkit.create_block();
        // Make sure the anchoring proposal has been finalized.
        assert_eq!(
            testkit.payload(i as usize).unwrap().block_height,
            Height(i * anchoring_interval)
        );
    }
}

#[test]
fn chain_updater_no_initial_funds() {
    let anchoring_interval = 5;
    let mut testkit = Kit::new(1, anchoring_interval, 10);
    // Commit several blocks.
    testkit.create_blocks_until(anchoring_interval);
    // Try to perform anchoring chain update.
    let e = testkit
        .schema
        .chain_update(&vec![keypair(0)])
        .unwrap_err();

    match e {
        ChainUpdateError::NoInitialFunds => {}
        e => panic!("Unexpected error occurred: {:?}", e),
    }
}

#[test]
fn chain_updater_insufficient_funds() {
    let anchoring_interval = 5;
    let mut testkit = Kit::new(1, anchoring_interval, 8694);

    // Add an initial funding transaction to enable anchoring.
    let funds = testkit.funding(200, 1);
    testkit
        .schema
        .add_funds(&service_key(0), AddFunds { transaction: funds })
        .unwrap();

    // Commit several blocks.
    testkit.create_blocks_until(anchoring_interval);
    // Try to perform anchoring chain update.
    let e = testkit
        .schema
        .chain_update(&vec![keypair(0)])
        .unwrap_err();

    match e {
        ChainUpdateError::InsufficientFunds { balance, total_fee } => {
            assert_eq!(balance, 200);
            assert_eq!(total_fee, 1530);
        }
        e => panic!("Unexpected error occurred: {:?}", e),
    }
}

#[test]
fn normal_progression_step_by_step() {
    let mut kit = Kit::default();
    assert!(matches!(
        kit.schema.anchoring_proposal(),
        AnchoringProposalState::Nothing
    ));
    kit.create_blocks_until(5);

    let results = kit.sign_all();
    // Three of four make a quorum; the fourth finds nothing left to sign.
    assert_eq!(results, vec![Ok(()), Ok(()), Ok(())]);
    assert_eq!(kit.schema.anchoring_txs_chain.len(), 1);
    let payload = kit.payload(0).unwrap();
    assert_eq!(payload.block_height, Height(0));
    assert_eq!(payload.block_hash.0, block_hash(0).0);
    assert_eq!(payload.block_hash.0, kit.schema.anchored_blocks[0].0);
    assert_eq!(kit.schema.latest_anchored_height(), Some(Height(0)));
    assert!(kit.schema.unspent_funding_transaction.is_none());
    assert_eq!(kit.schema.spent_funding_transactions.len(), 1);

    // Nothing is proposed until the next anchored height has a block.
    assert!(matches!(
        kit.schema.anchoring_proposal(),
        AnchoringProposalState::Nothing
    ));
    assert!(kit.sign_all().is_empty());
    kit.create_blocks_until(6);
    let (tx, _) = kit.proposal();
    assert_eq!(
        Payload::from_script(&tx.output[1].script_pubkey)
            .unwrap()
            .block_height,
        Height(5)
    );
    kit.create_blocks_until(10);
    assert_eq!(kit.sign_all(), vec![Ok(()), Ok(()), Ok(())]);
    assert_eq!(kit.schema.anchoring_txs_chain.len(), 2);
    let payload = kit.payload(1).unwrap();
    assert_eq!(payload.block_height, Height(5));
    assert_eq!(payload.block_hash.0, block_hash(5).0);

    // The second transaction spends the first output of the first one.
    let chain = &kit.schema.anchoring_txs_chain;
    assert_eq!(chain[1].input.len(), 1);
    assert_eq!(chain[1].input[0].prev_txid, chain[0].id());
    assert_eq!(chain[1].input[0].vout, 0);
    assert_eq!(chain[1].prev_tx_id(), chain[0].id());
}

#[test]
fn proposal_fields_are_exact() {
    let mut kit = Kit::default();
    kit.create_blocks_until(7);
    let funds = kit.funding(700_000, 1);
    let config = config(&[0, 1, 2, 3], 5, 10);
    let (tx, sighashes) = kit.proposal();

    assert_eq!(tx.version, 2);
    assert_eq!(tx.lock_time, 0);
    assert_eq!(tx.input.len(), 1);
    assert_eq!(tx.input[0].prev_txid, funds.id());
    assert_eq!(tx.input[0].vout, 1);
    assert_eq!(tx.input[0].sequence, 0xFFFF_FFFF);
    assert!(tx.input[0].script_sig.is_empty());
    assert!(tx.input[0].witness.is_empty());
    assert_eq!(tx.output.len(), 2);
    assert_eq!(tx.output[0].script_pubkey, config.anchoring_out_script());
    assert_eq!(tx.output[1].value, 0);
    let payload = Payload {
        block_height: Height(5),
        block_hash: block_hash(5),
    };
    assert_eq!(tx.output[1].script_pubkey, payload.to_script());

    // 147 bytes without witnesses; each witness holds the number of its
    // items, an empty item, three signatures of 73 bytes and the redeem
    // script of 139 bytes, each behind the byte of its length.
    let redeem_script = config.redeem_script().to_bytes();
    assert_eq!(tx.to_bytes().len(), 147);
    assert_eq!(redeem_script.len(), 139);
    let witness = 1 + 1 + 3 * 74 + 1 + 139;
    let vsize = (4 * 147 + 2 + witness + 3) / 4;
    assert_eq!(vsize, 239);
    let fee = 10 * vsize / 1000;
    assert_eq!(fee, 2);
    assert_eq!(tx.output[0].value, 700_000 - fee);

    // The digests are those of the bitcoin libraries.
    assert_eq!(sighashes.len(), 1);
    let script = btc_transaction_utils::multisig::RedeemScript::from_script(
        bitcoin::Script::from(redeem_script.clone()),
    )
    .unwrap();
    let mut signer = btc_transaction_utils::p2wsh::InputSigner::new(script);
    let outside = to_bitcoin(&tx);
    let expected = signer.signature_hash(
        btc_transaction_utils::TxInRef::new(&outside, 0),
        700_000u64,
    );
    assert_eq!(&sighashes[0][..], &expected[..]);
    assert_eq!(tx.sighash(0, &redeem_script, 700_000), sighashes[0]);
    assert_ne!(tx.sighash(0, &redeem_script, 700_001), sighashes[0]);
}

#[test]
fn estimate_fee_is_exact() {
    // One input, a committee of one: (4 * 147 + 2 + 114 + 3) / 4 = 176.
    assert_eq!(estimate_fee(147, 1, 1, 37, 1000), 176);
    assert_eq!(estimate_fee(147, 1, 1, 37, 8694), 1530);
    assert_eq!(estimate_fee(147, 1, 1, 37, 10), 1);
    assert_eq!(estimate_fee(147, 1, 1, 37, 0), 0);
    // Two inputs: (4 * 188 + 2 + 2 * 364 + 3) / 4 = 371.
    assert_eq!(estimate_fee(188, 2, 3, 139, 1000), 371);
    // Lengths from 253 on take three bytes.
    assert_eq!(estimate_fee(0, 1, 0, 252, 1000), (2 + 1 + 1 + 1 + 252 + 3) / 4);
    assert_eq!(estimate_fee(0, 1, 0, 252, 1000), 65);
    assert_eq!(estimate_fee(0, 1, 0, 254, 1000), (2 + 1 + 1 + 3 + 254 + 3) / 4);
    assert_eq!(estimate_fee(0, 1, 0, 254, 1000), 66);
    assert_eq!(estimate_fee(0, 1, 251, 0, 1000), (2 + 3 + 1 + 251 * 74 + 1 + 3) / 4);
    assert_eq!(estimate_fee(0, 1, 251, 0, 1000), 4646);
    assert_eq!(estimate_fee(1, 1, 0, 0x10000, 1000), (4 + 2 + 1 + 1 + 5 + 0x10000 + 3) / 4);
    // What does not fit counts as the largest amount.
    assert_eq!(estimate_fee(usize::MAX, 2, 3, 139, u64::MAX), u64::MAX);
}

#[test]
fn second_funding_is_attached_as_second_input() {
    let mut kit = Kit::default();
    kit.create_blocks_until(5);
    kit.sign_all();
    let more = kit.funding(1_000, 2);
    kit.schema
        .add_funds(
            &service_key(1),
            AddFunds {
                transaction: more.clone(),
            },
        )
        .unwrap();
    kit.create_blocks_until(10);
    let (tx, sighashes) = kit.proposal();
    assert_eq!(tx.input.len(), 2);
    assert_eq!(sighashes.len(), 2);
    assert_eq!(tx.input[0].prev_txid, kit.schema.anchoring_txs_chain[0].id());
    assert_eq!(tx.input[0].vout, 0);
    assert_eq!(tx.input[1].prev_txid, more.id());
    assert_eq!(tx.input[1].vout, 1);
    let before = kit.schema.anchoring_txs_chain[0].output[0].value;
    let fee = estimate_fee(tx.to_bytes().len(), 2, 3, 139, 10);
    assert_eq!(tx.output[0].value, before + 1_000 - fee);

    // Each validator signs both inputs; the proposal is final when both
    // have a quorum.
    let results = kit.sign_all();
    assert_eq!(results.len(), 6);
    assert!(results.iter().all(|r| r.is_ok()));
    assert_eq!(kit.schema.anchoring_txs_chain.len(), 2);
    assert!(kit.schema.unspent_funding_transaction.is_none());
    assert_eq!(kit.schema.spent_funding_transactions.len(), 2);
    assert!(kit.schema.is_spent_funding(&more.id()));
    let signed = &kit.schema.anchoring_txs_chain[1];
    assert_eq!(signed.input[0].witness.len(), 5);
    assert_eq!(signed.input[1].witness.len(), 5);
    assert_eq!(signed.id(), tx.id());
}

#[test]
fn quorum_on_one_input_does_not_finalize() {
    let mut kit = Kit::default();
    kit.create_blocks_until(5);
    kit.sign_all();
    let more = kit.funding(1_000, 2);
    kit.schema
        .add_funds(&service_key(1), AddFunds { transaction: more })
        .unwrap();
    kit.create_blocks_until(10);
    let (tx, _) = kit.proposal();
    let txid = tx.id();
    for n in 0..3 {
        let messages = kit.schema.chain_update(&vec![keypair(n)]).unwrap();
        assert_eq!(messages.len(), 2);
        let first = messages.into_iter().next().unwrap();
        assert_eq!(first.input, 0);
        kit.schema.sign_input(&service_key(n), first).unwrap();
    }
    assert_eq!(kit.schema.input_signatures(&txid, 0).len(), 3);
    assert_eq!(kit.schema.input_signatures(&txid, 1).len(), 0);
    assert_eq!(kit.schema.anchoring_txs_chain.len(), 1);
    assert!(kit.schema.collect_witnesses(&txid, 2, 3, &vec![]).is_none());
    assert!(kit.schema.collect_witnesses(&txid, 1, 3, &vec![]).is_some());

    // What is left to sign is the second input.
    let messages = kit.schema.chain_update(&vec![keypair(0)]).unwrap();
    assert_eq!(messages.len(), 1);
    assert_eq!(messages[0].input, 1);
}

#[test]
fn finalized_transaction_carries_the_first_signatures_by_validator() {
    let mut kit = Kit::default();
    kit.create_blocks_until(5);
    let (tx, sighashes) = kit.proposal();
    let txid = tx.id();
    // The validators sign in the order 3, 1, 2.
    for &n in &[3usize, 1, 2] {
        let messages = kit.schema.chain_update(&vec![keypair(n)]).unwrap();
        assert_eq!(messages.len(), 1);
        for message in messages {
            kit.schema.sign_input(&service_key(n), message).unwrap();
        }
    }
    assert_eq!(kit.schema.anchoring_txs_chain.len(), 1);
    let signed = &kit.schema.anchoring_txs_chain[0];
    let witness = &signed.input[0].witness;
    let redeem_script = kit.schema.actual_configuration().redeem_script().to_bytes();
    assert_eq!(witness.len(), 5);
    assert!(witness[0].is_empty());
    assert_eq!(witness[4], redeem_script);
    // The signatures stand in the order of the validators: 1, 2, 3.
    for (at, &n) in [1usize, 2, 3].iter().enumerate() {
        assert!(verify_input_signature(
            &sighashes[0],
            &bitcoin_key(n),
            &witness[at + 1]
        ));
        let stored = kit.schema.input_signatures(&txid, 0);
        assert_eq!(
            stored.get(&validator_key_bytes(n as u16)),
            Some(witness[at + 1].clone())
        );
    }
    assert!(!verify_input_signature(
        &sighashes[0],
        &bitcoin_key(0),
        &witness[1]
    ));
    // Witnesses do not change the identifier.
    assert_eq!(signed.id(), txid);
    assert_ne!(signed.to_bytes(), tx.to_bytes());
    // The bitcoin libraries accept each signature for the input.
    let script = btc_transaction_utils::multisig::RedeemScript::from_script(
        bitcoin::Script::from(redeem_script),
    )
    .unwrap();
    let signer = btc_transaction_utils::p2wsh::InputSigner::new(script);
    let outside = to_bitcoin(signed);
    for (at, &n) in [1usize, 2, 3].iter().enumerate() {
        signer
            .verify_input(
                btc_transaction_utils::TxInRef::new(&outside, 0),
                700_000u64,
                &keypair_from_wif(WIFS[n]).0,
                btc_transaction_utils::InputSignatureRef::from_bytes(&witness[at + 1]).unwrap(),
            )
            .unwrap();
    }
}

#[test]
fn sign_input_refusals() {
    let mut kit = Kit::default();
    // Nothing is proposed yet.
    let funds = kit.funding(700_000, 1);
    let early = SignInput {
        transaction: funds.clone(),
        input: 0,
        input_signature: vec![],
    };
    assert_eq!(
        kit.schema.sign_input(&service_key(0), early),
        Err(ExecutionError::UnexpectedProposal)
    );
    kit.create_blocks_until(5);
    let (tx, sighashes) = kit.proposal();
    let signature = sign_input(&sighashes[0], &secret_key(0)).unwrap();
    let message = |transaction: &Transaction, input: u32, signature: &Vec<u8>| SignInput {
        transaction: transaction.clone(),
        input,
        input_signature: signature.clone(),
    };

    // The sender is no member of the committee.
    assert_eq!(
        kit.schema
            .sign_input(&service_key(5), message(&tx, 0, &signature)),
        Err(ExecutionError::UnauthorizedSender)
    );
    // Another transaction than the proposal.
    let mut other = tx.clone();
    other.output[0].value -= 1;
    assert_eq!(
        kit.schema
            .sign_input(&service_key(0), message(&other, 0, &signature)),
        Err(ExecutionError::UnexpectedProposal)
    );
    // No such input.
    assert_eq!(
        kit.schema
            .sign_input(&service_key(0), message(&tx, 1, &signature)),
        Err(ExecutionError::InvalidSignature)
    );
    // The signature of another validator.
    assert_eq!(
        kit.schema
            .sign_input(&service_key(1), message(&tx, 0, &signature)),
        Err(ExecutionError::InvalidSignature)
    );
    // No signature at all.
    assert_eq!(
        kit.schema
            .sign_input(&service_key(0), message(&tx, 0, &vec![])),
        Err(ExecutionError::InvalidSignature)
    );
    let mut broken = signature.clone();
    broken[10] ^= 1;
    assert_eq!(
        kit.schema
            .sign_input(&service_key(0), message(&tx, 0, &broken)),
        Err(ExecutionError::InvalidSignature)
    );
    // Nothing was recorded so far.
    assert!(kit.schema.transaction_signatures.is_empty());

    assert_eq!(
        kit.schema
            .sign_input(&service_key(0), message(&tx, 0, &signature)),
        Ok(())
    );
    assert_eq!(kit.schema.input_signatures(&tx.id(), 0).len(), 1);
    assert_eq!(
        kit.schema
            .sign_input(&service_key(0), message(&tx, 0, &signature)),
        Err(ExecutionError::AlreadySigned)
    );
    assert_eq!(kit.schema.input_signatures(&tx.id(), 0).len(), 1);
    assert!(kit.schema.anchoring_txs_chain.is_empty());

    // Once the proposal is final, a late signature is for no proposal.
    for n in 1..3 {
        let late = sign_input(&sighashes[0], &secret_key(n)).unwrap();
        kit.schema
            .sign_input(&service_key(n), message(&tx, 0, &late))
            .unwrap();
    }
    assert_eq!(kit.schema.anchoring_txs_chain.len(), 1);
    let late = sign_input(&sighashes[0], &secret_key(3)).unwrap();
    assert_eq!(
        kit.schema
            .sign_input(&service_key(3), message(&tx, 0, &late)),
        Err(ExecutionError::UnexpectedProposal)
    );
    assert_eq!(kit.schema.input_signatures(&tx.id(), 0).len(), 3);
}

#[test]
fn add_funds_refusals() {
    let mut kit = Kit::new(2, 5, 10);
    let funds = kit.funding(500, 1);
    let add = |transaction: &Transaction| AddFunds {
        transaction: transaction.clone(),
    };
    assert_eq!(
        kit.schema.add_funds(&service_key(4), add(&funds)),
        Err(ExecutionError::UnauthorizedSender)
    );
    assert_eq!(
        kit.schema
            .add_funds(&service_key(0), add(&funding_to(vec![0x51], 500, 1))),
        Err(ExecutionError::UnsuitableFundingTransaction)
    );
    assert!(kit.schema.unspent_funding_transaction.is_none());
    assert_eq!(kit.schema.add_funds(&service_key(1), add(&funds)), Ok(()));
    assert!(kit
        .schema
        .unspent_funding_transaction
        .as_ref()
        .unwrap()
        .same(&funds));
    let more = kit.funding(600, 2);
    assert_eq!(
        kit.schema.add_funds(&service_key(0), add(&more)),
        Err(ExecutionError::FundingTransactionPending)
    );
    assert!(kit
        .schema
        .unspent_funding_transaction
        .as_ref()
        .unwrap()
        .same(&funds));

    // Spend the funds, then try to add them again.
    kit.create_blocks_until(5);
    assert_eq!(kit.sign_all(), vec![Ok(()), Ok(())]);
    assert!(kit.schema.unspent_funding_transaction.is_none());
    assert!(kit.schema.is_spent_funding(&funds.id()));
    assert!(!kit.schema.is_spent_funding(&more.id()));
    assert_eq!(
        kit.schema.add_funds(&service_key(0), add(&funds)),
        Err(ExecutionError::AlreadyUsedFundingTransaction)
    );
    assert_eq!(kit.schema.add_funds(&service_key(0), add(&more)), Ok(()));
}

#[test]
fn initialize_installs_a_valid_configuration() {
    let mut schema = BtcAnchoringSchema::new();
    assert!(schema.actual_config.is_none());
    assert_eq!(
        BtcAnchoringService.initialize(&mut schema, vec![0xff]),
        Err(ExecutionError::MalformedArguments)
    );
    assert_eq!(
        BtcAnchoringService.initialize(&mut schema, Config::default().to_bytes()),
        Err(ExecutionError::MalformedArguments)
    );
    assert_eq!(
        BtcAnchoringService.initialize(&mut schema, config(&[0, 1], 0, 10).to_bytes()),
        Err(ExecutionError::MalformedArguments)
    );
    assert!(schema.actual_config.is_none());

    let mut with_funds = config(&[0, 1], 5, 10);
    let funds = funding_to(with_funds.anchoring_out_script(), 900, 1);
    with_funds.funding_transaction = Some(funds.clone());
    assert_eq!(
        BtcAnchoringService.initialize(&mut schema, with_funds.to_bytes()),
        Ok(())
    );
    assert_eq!(schema.actual_configuration().anchoring_interval, 5);
    assert_eq!(schema.actual_configuration().anchoring_keys.len(), 2);
    assert!(schema.following_configuration().is_none());
    assert!(schema
        .unspent_funding_transaction
        .as_ref()
        .unwrap()
        .same(&funds));

    let mut unsuitable = config(&[0, 1], 5, 10);
    unsuitable.funding_transaction = Some(funding_to(vec![1], 900, 1));
    let mut schema = BtcAnchoringSchema::new();
    assert_eq!(
        BtcAnchoringService.initialize(&mut schema, unsuitable.to_bytes()),
        Err(ExecutionError::MalformedArguments)
    );
}

#[test]
fn before_commit_records_the_block_hash() {
    let mut kit = Kit::new(1, 5, 10);
    assert!(kit.schema.anchored_blocks.is_empty());
    BtcAnchoringService.before_commit(&mut kit.schema, exonum_btc_anchoring::crypto::Hash([1; 32]));
    BtcAnchoringService.before_commit(&mut kit.schema, exonum_btc_anchoring::crypto::Hash([2; 32]));
    assert_eq!(kit.schema.anchored_blocks.len(), 2);
    assert_eq!(kit.schema.anchored_blocks[0].0, [1; 32]);
    assert_eq!(kit.schema.anchored_blocks[1].0, [2; 32]);
}

#[test]
fn verify_config_is_for_the_supervisor() {
    let valid = config(&[0, 1, 2], 5, 10);
    assert_eq!(BtcAnchoringService.verify_config(true, &valid), Ok(()));
    assert_eq!(
        BtcAnchoringService.verify_config(false, &valid),
        Err(ExecutionError::UnauthorizedCaller)
    );
    assert_eq!(
        BtcAnchoringService.verify_config(true, &config(&[0], 0, 10)),
        Err(ExecutionError::MalformedArguments)
    );
    assert_eq!(
        BtcAnchoringService.verify_config(false, &Config::default()),
        Err(ExecutionError::UnauthorizedCaller)
    );
}

#[test]
fn apply_config_with_the_same_address_comes_into_force() {
    let mut kit = Kit::new(3, 5, 10);
    assert_eq!(
        BtcAnchoringService.apply_config(&mut kit.schema, false, config(&[0, 1, 2], 7, 20)),
        Err(ExecutionError::UnauthorizedCaller)
    );
    assert_eq!(kit.schema.actual_configuration().anchoring_interval, 5);

    assert_eq!(
        BtcAnchoringService.apply_config(&mut kit.schema, true, config(&[0, 1, 2], 7, 20)),
        Ok(())
    );
    assert_eq!(kit.schema.actual_configuration().anchoring_interval, 7);
    assert_eq!(kit.schema.actual_configuration().transaction_fee, 20);
    assert!(kit.schema.following_configuration().is_none());
    assert!(kit.schema.unspent_funding_transaction.is_none());
}

#[test]
fn apply_config_does_not_touch_the_funds() {
    let mut kit = Kit::default();
    let funds = kit.funding(700_000, 1);
    // A configuration that names other funds leaves the unspent ones.
    let mut params = config(&[0, 1, 2, 3], 5, 10);
    params.funding_transaction = Some(kit.funding(5, 9));
    assert_eq!(
        BtcAnchoringService.apply_config(&mut kit.schema, true, params),
        Ok(())
    );
    assert!(kit
        .schema
        .unspent_funding_transaction
        .as_ref()
        .unwrap()
        .same(&funds));

    // Funds that were spent do not come back with a configuration.
    kit.create_blocks_until(5);
    kit.sign_all();
    assert!(kit.schema.is_spent_funding(&funds.id()));
    assert!(kit.schema.unspent_funding_transaction.is_none());
    for members in [[0usize, 1, 2, 3], [2, 3, 4, 5]] {
        let mut params = config(&members, 5, 10);
        params.funding_transaction = Some(funds.clone());
        assert_eq!(
            BtcAnchoringService.apply_config(&mut kit.schema, true, params),
            Ok(())
        );
        assert!(kit.schema.unspent_funding_transaction.is_none());
        assert_eq!(kit.schema.spent_funding_transactions.len(), 1);
        assert_eq!(kit.schema.anchoring_txs_chain.len(), 1);
    }
    assert!(kit.schema.following_configuration().is_some());
}

#[test]
fn initialize_with_takes_the_configuration_as_a_value() {
    let mut schema = BtcAnchoringSchema::new();
    assert!(!schema.is_configured());
    assert_eq!(
        BtcAnchoringService.initialize_with(&mut schema, Config::default()),
        Err(ExecutionError::MalformedArguments)
    );
    assert!(schema.actual_config.is_none());
    let mut with_funds = config(&[0], 5, 8694);
    let funds = funding_to(with_funds.anchoring_out_script(), 200, 1);
    with_funds.funding_transaction = Some(funds.clone());
    assert_eq!(
        BtcAnchoringService.initialize_with(&mut schema, with_funds),
        Ok(())
    );
    assert!(schema.is_configured());
    assert!(schema.anchoring_txs_chain.is_empty());
    assert!(schema.transaction_signatures.is_empty());
    let unspent = schema.unspent_funding_transaction.as_ref().unwrap();
    assert!(unspent.same(&funds));
    assert_eq!(unspent.id(), funds.id());
    assert_eq!(unspent.output[1].value, 200);
    for height in 0..5u8 {
        BtcAnchoringService
            .before_commit(&mut schema, exonum_btc_anchoring::crypto::Hash([height; 32]));
    }
    assert!(matches!(
        schema.anchoring_proposal(),
        AnchoringProposalState::InsufficientFunds {
            balance: 200,
            total_fee: 1530
        }
    ));
}

#[test]
fn is_configured_asks_for_committees_intervals_and_outputs() {
    let mut kit = Kit::default();
    assert!(kit.schema.is_configured());
    kit.schema.following_config = Some(config(&[0], 0, 10));
    assert!(!kit.schema.is_configured());
    kit.schema.following_config = Some(Config::default());
    assert!(!kit.schema.is_configured());
    kit.schema.following_config = Some(config(&[0], 1, 10));
    assert!(kit.schema.is_configured());
    kit.schema.anchoring_txs_chain.push(Transaction {
        version: 2,
        lock_time: 0,
        input: vec![],
        output: vec![],
    });
    assert!(!kit.schema.is_configured());
    kit.schema.anchoring_txs_chain.clear();
    kit.schema.actual_config = Some(config(&[0], 0, 10));
    assert!(!kit.schema.is_configured());
    kit.schema.actual_config = None;
    assert!(!kit.schema.is_configured());
}

#[test]
fn committee_transition() {
    let mut kit = Kit::default();
    kit.create_blocks_until(5);
    kit.sign_all();
    assert_eq!(kit.schema.anchoring_txs_chain.len(), 1);
    let old_script = config(&[0, 1, 2, 3], 5, 10).anchoring_out_script();
    let new_script = config(&[2, 3, 4, 5], 5, 10).anchoring_out_script();
    assert_ne!(old_script, new_script);
    assert_eq!(
        kit.schema.anchoring_txs_chain[0].output[0].script_pubkey,
        old_script
    );

    // Another committee: the configuration waits.
    assert_eq!(
        BtcAnchoringService.apply_config(&mut kit.schema, true, config(&[2, 3, 4, 5], 5, 10)),
        Ok(())
    );
    assert!(kit.schema.following_configuration().is_some());
    assert!(kit.schema.actual_configuration().anchoring_keys[0]
        .bitcoin_key
        .same(&bitcoin_key(0)));
    assert!(kit.schema.signing_configuration().anchoring_keys[0]
        .bitcoin_key
        .same(&bitcoin_key(0)));
    assert!(kit.schema.paying_configuration().anchoring_keys[0]
        .bitcoin_key
        .same(&bitcoin_key(2)));

    // The old committee signs the transaction that pays to the new one.
    kit.create_blocks_until(10);
    let (tx, _) = kit.proposal();
    assert_eq!(tx.output[0].script_pubkey, new_script);
    assert_eq!(kit.sign_all(), vec![Ok(()), Ok(()), Ok(())]);
    assert_eq!(kit.schema.anchoring_txs_chain.len(), 2);
    assert_eq!(
        kit.schema.anchoring_txs_chain[1].output[0].script_pubkey,
        new_script
    );
    assert_eq!(
        kit.schema.anchoring_txs_chain[1].input[0].witness[4],
        config(&[0, 1, 2, 3], 5, 10).redeem_script().to_bytes()
    );

    // From now on the new committee signs, and the state follows with the
    // first signature.
    kit.members = vec![2, 3, 4, 5];
    assert!(kit.schema.signing_configuration().anchoring_keys[0]
        .bitcoin_key
        .same(&bitcoin_key(2)));
    kit.create_blocks_until(15);
    let (tx, sighashes) = kit.proposal();
    assert_eq!(tx.output[0].script_pubkey, new_script);
    // A member of the old committee only may not sign any more.
    let stale = sign_input(&sighashes[0], &secret_key(0)).unwrap();
    assert_eq!(
        kit.schema.sign_input(
            &service_key(0),
            SignInput {
                transaction: tx.clone(),
                input: 0,
                input_signature: stale
            }
        ),
        Err(ExecutionError::UnauthorizedSender)
    );
    assert!(kit.schema.following_configuration().is_some());
    assert_eq!(kit.sign_all(), vec![Ok(()), Ok(()), Ok(())]);
    assert!(kit.schema.following_configuration().is_none());
    assert!(kit.schema.actual_configuration().anchoring_keys[0]
        .bitcoin_key
        .same(&bitcoin_key(2)));
    assert_eq!(kit.schema.anchoring_txs_chain.len(), 3);
    assert_eq!(
        kit.schema.anchoring_txs_chain[2].input[0].witness[4],
        config(&[2, 3, 4, 5], 5, 10).redeem_script().to_bytes()
    );
    assert_eq!(kit.payload(2).unwrap().block_height, Height(10));
}

#[test]
fn promote_following_config_waits_for_the_chain() {
    let mut kit = Kit::default();
    assert!(!kit.schema.promote_following_config());
    BtcAnchoringService
        .apply_config(&mut kit.schema, true, config(&[2, 3, 4, 5], 5, 10))
        .unwrap();
    assert!(!kit.schema.promote_following_config());
    kit.create_blocks_until(5);
    kit.sign_all();
    assert!(kit.schema.following_configuration().is_some());
    assert!(kit.schema.promote_following_config());
    assert!(kit.schema.following_configuration().is_none());
    assert!(kit.schema.actual_configuration().anchoring_keys[0]
        .bitcoin_key
        .same(&bitcoin_key(2)));
    assert!(!kit.schema.promote_following_config());
}

#[test]
fn chain_update_signs_with_the_keys_of_members_only() {
    let mut kit = Kit::default();
    kit.create_blocks_until(5);
    let (tx, sighashes) = kit.proposal();
    let messages = kit
        .schema
        .chain_update(&vec![keypair(5), keypair(1), keypair(4), keypair(0)])
        .unwrap();
    assert_eq!(messages.len(), 2);
    assert!(messages[0].transaction.same(&tx));
    assert_eq!(messages[0].input, 0);
    assert!(verify_input_signature(
        &sighashes[0],
        &bitcoin_key(1),
        &messages[0].input_signature
    ));
    assert!(verify_input_signature(
        &sighashes[0],
        &bitcoin_key(0),
        &messages[1].input_signature
    ));
    assert!(kit.schema.chain_update(&vec![]).unwrap().is_empty());

    // A key that cannot sign.
    let broken = BitcoinKeypair {
        public_key: bitcoin_key(2),
        private_key: [0; 32],
    };
    assert_eq!(
        kit.schema.chain_update(&vec![broken]).unwrap_err(),
        ChainUpdateError::InvalidSecretKey
    );
    // It is idle where nothing is proposed.
    let idle = Kit::default();
    assert!(idle.schema.chain_update(&vec![keypair(0)]).unwrap().is_empty());
}

#[test]
fn signatures_are_those_of_the_bitcoin_libraries() {
    let digest = [0x17u8; 32];
    let signature = sign_input(&digest, &secret_key(0)).unwrap();
    assert_eq!(*signature.last().unwrap(), 1);
    assert!(verify_input_signature(&digest, &bitcoin_key(0), &signature));
    assert!(!verify_input_signature(&digest, &bitcoin_key(1), &signature));
    assert!(!verify_input_signature(&[0x18; 32], &bitcoin_key(0), &signature));
    assert!(!verify_input_signature(&digest, &bitcoin_key(0), &digest.to_vec()));
    // Signing is a function of the digest and the key.
    assert_eq!(sign_input(&digest, &secret_key(0)).unwrap(), signature);
    assert_ne!(sign_input(&digest, &secret_key(1)).unwrap(), signature);
    assert!(sign_input(&digest, &[0; 32]).is_none());
    assert!(sign_input(&digest, &[0xff; 32]).is_none());
    assert!(sign_input(&[0; 32], &secret_key(0)).is_none());

    let context = bitcoin::secp256k1::Secp256k1::new();
    let message = bitcoin::secp256k1::Message::from_slice(&digest).unwrap();
    let parsed =
        bitcoin::secp256k1::Signature::from_der(&signature[..signature.len() - 1]).unwrap();
    context
        .verify(&message, &parsed, &keypair_from_wif(WIFS[0]).0.key)
        .unwrap();
}

#[test]
fn transactions_are_those_of_the_bitcoin_library() {
    let hex = "02000000000101f8c16000cc59f9505046303944d42a6c264a322f80b46bb436115b6e306ba9950000000\
               000feffffff02f07dc81600000000160014f65eb9d72a8475dd8e26f4fa748796e211aa88691027000000\
               00000022002001fb25c3db04ca5580da43a7d38dd994650d9aa6d6ee075b4578388deed338ed024730440\
               2206b5f211cd7f9b89e80c734b61113c33f437ba153e7ba6bc275eed857e54fcb260220038562e88b805f\
               0cdfd4873ab3579d52268babe6af9c49086c00343187cdf28a012103979dff5cd9045f4b6fa454d2bc535\
               7586a85d4789123df45f83522963d94e3217fb91300";
    let outside = btc_transaction_utils::test_data::btc_tx_from_hex(hex);
    let bytes = bitcoin::consensus::serialize(&outside);
    let tx = Transaction::from_bytes(&bytes).unwrap();
    assert_eq!(tx.version, 2);
    assert_eq!(tx.lock_time, 0x13b97f);
    assert_eq!(tx.input.len(), 1);
    assert_eq!(tx.input[0].sequence, 0xffff_fffe);
    assert_eq!(tx.input[0].vout, 0);
    assert_eq!(tx.input[0].witness.len(), 2);
    assert_eq!(tx.output.len(), 2);
    assert_eq!(tx.output[1].value, 10_000);
    assert_eq!(tx.output[1].script_pubkey.len(), 34);
    assert_eq!(tx.to_bytes(), bytes);
    assert_eq!(&tx.id()[..], &outside.txid()[..]);
    // The identifier of the test above, as the block explorers write it.
    let mut id = tx.id();
    id.reverse();
    assert_eq!(
        id.iter().map(|b| format!("{:02x}", b)).collect::<String>(),
        "928f24b90b19d29079d74bfa6a3d8488a33e7fa0a1a8cc559f009b880281ebc4"
    );
    assert!(tx.same(&tx.clone()));
    let mut other = tx.clone();
    other.input[0].witness[0][0] ^= 1;
    assert!(!tx.same(&other));
    assert_eq!(tx.id(), other.id());
    assert_eq!(tx.prev_tx_id(), tx.input[0].prev_txid);

    let stripped = attach_witnesses(&tx, &vec![vec![]]);
    assert!(stripped.input[0].witness.is_empty());
    assert_eq!(stripped.id(), tx.id());
    assert!(stripped.to_bytes().len() < bytes.len());

    assert!(Transaction::from_bytes(&vec![]).is_none());
    assert!(Transaction::from_bytes(&bytes[..bytes.len() - 1].to_vec()).is_none());
    let mut longer = bytes.clone();
    longer.push(0);
    assert!(Transaction::from_bytes(&longer).is_none());
    assert!(hash_eq(&tx.id(), &other.id()));
    assert!(!hash_eq(&tx.id(), &[0; 32]));
}

#[test]
fn what_holds_of_every_state_holds_along_a_run() {
    let mut kit = Kit::default();
    let check = |schema: &BtcAnchoringSchema| {
        let chain = &schema.anchoring_txs_chain;
        for i in 0..chain.len() {
            if i > 0 {
                assert_eq!(chain[i].input[0].prev_txid, chain[i - 1].id());
                assert_eq!(chain[i].input[0].vout, 0);
            }
            let payload =
                Payload::from_script(&chain[i].output.last().unwrap().script_pubkey).unwrap();
            assert_eq!(payload.block_height.0 % 5, 0);
            assert_eq!(
                payload.block_hash.0,
                schema.anchored_blocks[payload.block_height.0 as usize].0
            );
        }
        if let Some(tx) = &schema.unspent_funding_transaction {
            assert!(!schema.is_spent_funding(&tx.id()));
        }
        for entry in &schema.transaction_signatures {
            let in_chain = chain.iter().any(|tx| tx.id() == entry.txid);
            let complete = (0..2).all(|i| {
                schema.input_signatures(&entry.txid, i).len() >= 3
                    || schema.input_signatures(&entry.txid, i).len() == 0 && i == 1
            });
            if complete && schema.input_signatures(&entry.txid, 0).len() >= 3 {
                assert!(in_chain);
            }
        }
    };
    let mut spent = 0;
    for height in 1..40u64 {
        kit.create_blocks_until(height);
        if height % 7 == 0 && kit.schema.unspent_funding_transaction.is_none() {
            let funds = kit.funding(1_000 + height, height as u8);
            kit.schema
                .add_funds(&service_key(2), AddFunds { transaction: funds })
                .unwrap();
        }
        kit.sign_all();
        check(&kit.schema);
        assert!(kit.schema.spent_funding_transactions.len() >= spent);
        spent = kit.schema.spent_funding_transactions.len();
    }
    assert_eq!(kit.schema.anchoring_txs_chain.len(), 8);
    assert!(spent >= 3);
}

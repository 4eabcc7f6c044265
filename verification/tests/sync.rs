use std::collections::VecDeque;

use btc_transaction_utils::test_data::keypair_from_wif;
use exonum_btc_anchoring::btc::{Network, PublicKey};
use exonum_btc_anchoring::config::{AnchoringKeys, Config};
use exonum_btc_anchoring::handlers::AddFunds;
use exonum_btc_anchoring::schema::BtcAnchoringSchema;
use exonum_btc_anchoring::service::BtcAnchoringService;
use exonum_btc_anchoring::sync::{
    sync_start, sync_step, BitcoinKeypair, RelayEvent, SyncAction, SyncState,
    SyncWithBitcoinError,
};
use exonum_btc_anchoring::transaction::{Transaction, TxIn, TxOut};

const WIFS: [&str; 4] = [
    "cPHmynxvqfr7sXsJcohiGzoPGBShggxL6VWUdW14skohFZ1LQoeV",
    "cTtSTL1stvg2tmK349WTmQDfHLMLqkkxwuo8ZJeQov9zEhtYtb4u",
    "cQZZ7WvJUb6hXxCq9SF6516vb9bavQRPn2t3g9LFUtAoZuY7vNFk",
    "cQoWXdtbsRP9nu6i8qX8h3qQmM25XDF7XJMBjgnqqr5MqDxmmkjN",
];

fn keypair(n: usize) -> BitcoinKeypair {
    let (public_key, private_key) = keypair_from_wif(WIFS[n]);
    let mut secret = [0u8; 32];
    secret.copy_from_slice(&private_key.key[..]);
    BitcoinKeypair {
        public_key: PublicKey::from_slice(public_key.to_bytes()).unwrap(),
        private_key: secret,
    }
}

fn service_key(n: usize) -> exonum_btc_anchoring::crypto::PublicKey {
    exonum_btc_anchoring::crypto::PublicKey([n as u8 + 1; 32])
}

/// A state with four validators, an interval of five blocks and funds, in
/// which `count` anchoring transactions are final.
fn chain_of(count: usize) -> Vec<Transaction> {
    let keys = (0..4)
        .map(|n| AnchoringKeys {
            bitcoin_key: keypair(n).public_key,
            service_key: service_key(n),
        })
        .collect();
    let mut config = Config::with_public_keys(Network::Testnet, keys).unwrap();
    config.anchoring_interval = 5;
    let mut schema = BtcAnchoringSchema::new();
    BtcAnchoringService
        .initialize(&mut schema, config.to_bytes())
        .unwrap();
    let funds = Transaction {
        version: 2,
        lock_time: 0,
        input: vec![TxIn {
            prev_txid: [9; 32],
            vout: 3,
            script_sig: vec![],
            sequence: 0xFFFF_FFFF,
            witness: vec![],
        }],
        output: vec![TxOut {
            value: 700_000,
            script_pubkey: config.anchoring_out_script(),
        }],
    };
    schema
        .add_funds(&service_key(0), AddFunds { transaction: funds })
        .unwrap();
    for round in 0..count {
        while schema.anchored_blocks.len() < 5 * round + 1 {
            let height = schema.anchored_blocks.len() as u8;
            BtcAnchoringService.before_commit(
                &mut schema,
                exonum_btc_anchoring::crypto::Hash([height; 32]),
            );
        }
        for n in 0..4 {
            for message in schema.chain_update(&vec![keypair(n)]).unwrap() {
                schema.sign_input(&service_key(n), message).unwrap();
            }
        }
    }
    assert_eq!(schema.anchoring_txs_chain.len(), count);
    schema.anchoring_txs_chain
}

#[derive(Debug, Clone)]
enum FakeRelayRequest {
    SendTransaction {
        request: Transaction,
        response: [u8; 32],
    },
    TransactionConfirmations {
        request: [u8; 32],
        response: Option<u32>,
    },
}

impl FakeRelayRequest {
    fn into_send_transaction(self) -> (Transaction, [u8; 32]) {
        if let FakeRelayRequest::SendTransaction { request, response } = self {
            (request, response)
        } else {
            panic!(
                "Expected response for the `send_transaction` request. But got {:?}",
                self
            )
        }
    }

    fn into_transaction_confirmations(self) -> ([u8; 32], Option<u32>) {
        if let FakeRelayRequest::TransactionConfirmations { request, response } = self {
            (request, response)
        } else {
            panic!(
                "Expected response for the `transaction_confirmations` request. But got {:?}",
                self
            )
        }
    }
}

#[derive(Debug, Default)]
struct FakeBitcoinRelay {
    requests: VecDeque<FakeRelayRequest>,
}

impl FakeBitcoinRelay {
    fn enqueue_requests(&mut self, requests: Vec<FakeRelayRequest>) {
        self.requests.extend(requests)
    }

    fn dequeue_request(&mut self) -> FakeRelayRequest {
        self.requests.pop_front().expect("Expected relay request")
    }

    fn send_transaction(&mut self, transaction: &Transaction) -> Result<[u8; 32], String> {
        let (expected_request, response) = self.dequeue_request().into_send_transaction();
        assert!(
            expected_request.same(transaction),
            "Unexpected data in request"
        );
        Ok(response)
    }

    fn transaction_confirmations(&mut self, id: [u8; 32]) -> Result<Option<u32>, String> {
        let (expected_request, response) = self.dequeue_request().into_transaction_confirmations();
        assert_eq!(expected_request, id, "Unexpected data in request");
        Ok(response)
    }

    fn assert_handled(&self) {
        assert!(
            self.requests.is_empty(),
            "Unhandled requests remained. {:?}",
            self
        );
    }
}

/// Runs the task against the relay: asks what it says, tells what came back.
fn process(
    relay: &mut FakeBitcoinRelay,
    chain: &Vec<Transaction>,
    last_known: Option<u64>,
) -> Result<Option<u64>, SyncWithBitcoinError> {
    let (mut state, mut action) = sync_start(chain, last_known);
    loop {
        let event = match action {
            SyncAction::Finish(result) => {
                assert_eq!(state, SyncState::Finished);
                return result;
            }
            SyncAction::AskConfirmations(id) => match relay.transaction_confirmations(id) {
                Ok(confirmations) => RelayEvent::Confirmations(confirmations),
                Err(e) => RelayEvent::Failed(e),
            },
            SyncAction::Send(index) => match relay.send_transaction(&chain[index]) {
                Ok(_) => RelayEvent::Sent,
                Err(e) => RelayEvent::Failed(e),
            },
        };
        let next = sync_step(chain, state, event);
        state = next.0;
        action = next.1;
    }
}

#[test]
fn sync_with_bitcoin_normal() {
    // Create a several anchoring transactions
    let tx_chain = chain_of(2);

    // Check that sync with bitcoin works as expected.
    let mut fake_relay = FakeBitcoinRelay::default();
    // Send first anchoring transaction.
    fake_relay.enqueue_requests(vec![
        // Relay should see that we have only a funding transaction confirmed.
        FakeRelayRequest::TransactionConfirmations {
            request: tx_chain.get(1).unwrap().id(),
            response: None,
        },
        FakeRelayRequest::TransactionConfirmations {
            request: tx_chain.get(0).unwrap().id(),
            response: None,
        },
        FakeRelayRequest::TransactionConfirmations {
            request: tx_chain.get(0).unwrap().prev_tx_id(),
            response: Some(10),
        },
        // Ensure that relay sends first anchoring transaction to the Bitcoin network.
        FakeRelayRequest::SendTransaction {
            request: tx_chain.get(0).unwrap().clone(),
            response: tx_chain.get(0).unwrap().id(),
        },
    ]);
    let latest_committed_tx_index = process(&mut fake_relay, &tx_chain, None)
        .unwrap()
        .expect("Transaction should be committed");
    assert_eq!(latest_committed_tx_index, 0);
    fake_relay.assert_handled();
    // Send second anchoring transaction.
    fake_relay.enqueue_requests(vec![
        FakeRelayRequest::TransactionConfirmations {
            request: tx_chain.get(1).unwrap().id(),
            response: None,
        },
        FakeRelayRequest::SendTransaction {
            request: tx_chain.get(1).unwrap().clone(),
            response: tx_chain.get(1).unwrap().id(),
        },
    ]);
    let latest_committed_tx_index = process(&mut fake_relay, &tx_chain, Some(1))
        .unwrap()
        .expect("Transaction should be committed");
    assert_eq!(latest_committed_tx_index, 1);
    fake_relay.assert_handled();
}

#[test]
fn sync_with_bitcoin_empty_chain() {
    let mut fake_relay = FakeBitcoinRelay::default();
    assert!(process(&mut fake_relay, &chain_of(0), None)
        .unwrap()
        .is_none());
    fake_relay.assert_handled();
}

#[test]
fn sync_with_bitcoin_err_unconfirmed_funding_tx() {
    // Establish anchoring transactions chain.
    let tx_chain = chain_of(1);
    // Check that synchronization will cause an error if the funding transaction was not confirmed.
    let mut fake_relay = FakeBitcoinRelay::default();
    fake_relay.enqueue_requests(vec![
        FakeRelayRequest::TransactionConfirmations {
            request: tx_chain.get(0).unwrap().id(),
            response: None,
        },
        FakeRelayRequest::TransactionConfirmations {
            request: tx_chain.get(0).unwrap().prev_tx_id(),
            response: None,
        },
    ]);

    let e = process(&mut fake_relay, &tx_chain, None).unwrap_err();
    match e {
        SyncWithBitcoinError::UnconfirmedFundingTransaction(hash) => {
            assert_eq!(hash, tx_chain.get(0).unwrap().prev_tx_id())
        }
        e => panic!("Unexpected error occurred: {:?}", e),
    }
    fake_relay.assert_handled();
}

#[test]
fn sync_sends_the_successor_of_the_latest_confirmed_transaction() {
    let tx_chain = chain_of(4);
    let mut fake_relay = FakeBitcoinRelay::default();
    fake_relay.enqueue_requests(vec![
        FakeRelayRequest::TransactionConfirmations {
            request: tx_chain[3].id(),
            response: None,
        },
        FakeRelayRequest::TransactionConfirmations {
            request: tx_chain[2].id(),
            response: None,
        },
        FakeRelayRequest::TransactionConfirmations {
            request: tx_chain[1].id(),
            response: Some(1),
        },
        FakeRelayRequest::SendTransaction {
            request: tx_chain[2].clone(),
            response: tx_chain[2].id(),
        },
    ]);
    assert_eq!(process(&mut fake_relay, &tx_chain, None).unwrap(), Some(1));
    fake_relay.assert_handled();

    // The latest one is confirmed: nothing is sent.
    fake_relay.enqueue_requests(vec![FakeRelayRequest::TransactionConfirmations {
        request: tx_chain[3].id(),
        response: Some(0),
    }]);
    assert_eq!(
        process(&mut fake_relay, &tx_chain, Some(1)).unwrap(),
        Some(3)
    );
    fake_relay.assert_handled();

    // The walk ends at the index that was last known as confirmed.
    fake_relay.enqueue_requests(vec![
        FakeRelayRequest::TransactionConfirmations {
            request: tx_chain[3].id(),
            response: None,
        },
        FakeRelayRequest::TransactionConfirmations {
            request: tx_chain[2].id(),
            response: None,
        },
        FakeRelayRequest::SendTransaction {
            request: tx_chain[2].clone(),
            response: tx_chain[2].id(),
        },
    ]);
    assert_eq!(
        process(&mut fake_relay, &tx_chain, Some(2)).unwrap(),
        Some(2)
    );
    fake_relay.assert_handled();

    // An index beyond the chain counts as its end.
    fake_relay.enqueue_requests(vec![
        FakeRelayRequest::TransactionConfirmations {
            request: tx_chain[3].id(),
            response: None,
        },
        FakeRelayRequest::SendTransaction {
            request: tx_chain[3].clone(),
            response: tx_chain[3].id(),
        },
    ]);
    assert_eq!(
        process(&mut fake_relay, &tx_chain, Some(17)).unwrap(),
        Some(3)
    );
    fake_relay.assert_handled();
}

#[test]
fn sync_steps_are_exact() {
    let chain = chain_of(2);
    let (state, action) = sync_start(&chain, None);
    assert_eq!(state, SyncState::Walking { index: 1, lower: 0 });
    assert!(matches!(action, SyncAction::AskConfirmations(id) if id == chain[1].id()));
    let (state, _) = sync_start(&chain, Some(0));
    assert_eq!(state, SyncState::Walking { index: 1, lower: 0 });
    let (state, _) = sync_start(&chain, Some(1));
    assert_eq!(state, SyncState::Walking { index: 1, lower: 1 });

    let (state, action) = sync_step(
        &chain,
        SyncState::Walking { index: 1, lower: 0 },
        RelayEvent::Confirmations(None),
    );
    assert_eq!(state, SyncState::Walking { index: 0, lower: 0 });
    assert!(matches!(action, SyncAction::AskConfirmations(id) if id == chain[0].id()));

    let (state, action) = sync_step(&chain, state, RelayEvent::Confirmations(None));
    assert_eq!(state, SyncState::CheckingFunding);
    assert!(matches!(action, SyncAction::AskConfirmations(id) if id == chain[0].prev_tx_id()));

    let (state, action) = sync_step(&chain, state, RelayEvent::Confirmations(Some(1)));
    assert_eq!(state, SyncState::Sending { answer: 0 });
    assert!(matches!(action, SyncAction::Send(0)));

    let (state, action) = sync_step(&chain, state, RelayEvent::Sent);
    assert_eq!(state, SyncState::Finished);
    assert!(matches!(action, SyncAction::Finish(Ok(Some(0)))));

    let (state, action) = sync_step(
        &chain,
        SyncState::Walking { index: 0, lower: 0 },
        RelayEvent::Confirmations(Some(3)),
    );
    assert_eq!(state, SyncState::Sending { answer: 0 });
    assert!(matches!(action, SyncAction::Send(1)));
}

#[test]
fn sync_hands_on_the_failure_of_the_relay() {
    let chain = chain_of(1);
    for state in [
        SyncState::Walking { index: 0, lower: 0 },
        SyncState::CheckingFunding,
        SyncState::Sending { answer: 0 },
        SyncState::Finished,
    ] {
        let (next, action) = sync_step(&chain, state, RelayEvent::Failed("no route".to_string()));
        assert_eq!(next, SyncState::Finished);
        match action {
            SyncAction::Finish(Err(SyncWithBitcoinError::Relay(message))) => {
                assert_eq!(message, "no route")
            }
            other => panic!("unexpected action {:?}", other),
        }
    }
}

#[test]
fn sync_refuses_an_answer_that_was_not_asked_for() {
    let chain = chain_of(1);
    let unexpected = |state, event| {
        let (next, action) = sync_step(&chain, state, event);
        assert_eq!(next, SyncState::Finished);
        assert!(matches!(
            action,
            SyncAction::Finish(Err(SyncWithBitcoinError::UnexpectedAnswer))
        ));
    };
    unexpected(SyncState::Walking { index: 0, lower: 0 }, RelayEvent::Sent);
    unexpected(SyncState::CheckingFunding, RelayEvent::Sent);
    unexpected(SyncState::Finished, RelayEvent::Sent);
    unexpected(SyncState::Finished, RelayEvent::Confirmations(None));
    unexpected(
        SyncState::Sending { answer: 0 },
        RelayEvent::Confirmations(Some(1)),
    );
    unexpected(
        SyncState::Walking { index: 1, lower: 0 },
        RelayEvent::Confirmations(None),
    );
    unexpected(
        SyncState::Walking { index: 0, lower: 1 },
        RelayEvent::Confirmations(None),
    );
    let empty = Vec::new();
    let (next, action) = sync_step(
        &empty,
        SyncState::CheckingFunding,
        RelayEvent::Confirmations(None),
    );
    assert_eq!(next, SyncState::Finished);
    assert!(matches!(
        action,
        SyncAction::Finish(Err(SyncWithBitcoinError::UnexpectedAnswer))
    ));
}

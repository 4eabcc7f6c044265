//! The tasks that a validator runs beside the host blockchain: signing the
//! current proposal, and bringing the anchoring chain to Bitcoin.
//!
//! A task does not talk to the relay itself. It says what to ask, is told
//! what came back, and says what to do next.

use vstd::prelude::*;
use crate::btc::PublicKey;
use crate::config::{AnchoringKeysView, Config};
use crate::handlers::{SignInput, SignInputView};
use crate::proposal::{AnchoringProposalState, ProposalView};
use crate::schema::BtcAnchoringSchema;
use crate::signing::{input_signature, sign_input};
use crate::transaction::{transaction_id, Transaction, TransactionView};

verus! {

/// Why the synchronization with Bitcoin stops.
#[derive(Debug)]
pub enum SyncWithBitcoinError {
    /// The transaction that funds the first anchoring transaction is not
    /// confirmed; it is named by its identifier.
    UnconfirmedFundingTransaction([u8; 32]),
    /// The relay failed; its message is handed on as it came.
    Relay(String),
    /// The relay answered something that was not asked.
    UnexpectedAnswer,
}

/// What the relay answered.
#[derive(Debug)]
pub enum RelayEvent {
    /// The number of confirmations of the transaction asked for; `None`
    /// where the relay does not know it or it is not confirmed.
    Confirmations(Option<u32>),
    /// The transaction was sent.
    Sent,
    /// The relay failed.
    Failed(String),
}

/// What the task waits for.
#[derive(Clone, Copy, Debug, PartialEq, Eq, Structural)]
pub enum SyncState {
    /// The confirmations of the anchoring transaction `index`; the walk ends
    /// at `lower`.
    Walking { index: usize, lower: usize },
    /// The confirmations of the transaction that funds the first anchoring
    /// transaction.
    CheckingFunding,
    /// The sending of an anchoring transaction; `answer` is then the index
    /// that the task reports.
    Sending { answer: usize },
    /// Nothing: the task has ended.
    Finished,
}

/// What the task asks for next.
#[derive(Debug)]
pub enum SyncAction {
    /// Ask the relay for the confirmations of a transaction.
    AskConfirmations([u8; 32]),
    /// Send the anchoring transaction with this index.
    Send(usize),
    /// End with this result.
    Finish(Result<Option<u64>, SyncWithBitcoinError>),
}

/// The value of a [`RelayEvent`].
pub enum RelayEventView {
    Confirmations(Option<u32>),
    Sent,
    Failed(Seq<char>),
}

impl View for RelayEvent {
    type V = RelayEventView;

    open spec fn view(&self) -> RelayEventView {
        match self {
            RelayEvent::Confirmations(c) => RelayEventView::Confirmations(*c),
            RelayEvent::Sent => RelayEventView::Sent,
            RelayEvent::Failed(message) => RelayEventView::Failed(message@),
        }
    }
}

/// The value of a result of the task.
pub enum SyncResultView {
    Done(Option<u64>),
    UnconfirmedFundingTransaction(Seq<u8>),
    Relay(Seq<char>),
    UnexpectedAnswer,
}

/// The value of a [`SyncAction`].
pub enum SyncActionView {
    AskConfirmations(Seq<u8>),
    Send(usize),
    Finish(SyncResultView),
}

impl View for SyncAction {
    type V = SyncActionView;

    open spec fn view(&self) -> SyncActionView {
        match self {
            SyncAction::AskConfirmations(id) => SyncActionView::AskConfirmations(id@),
            SyncAction::Send(index) => SyncActionView::Send(*index),
            SyncAction::Finish(Ok(index)) => SyncActionView::Finish(SyncResultView::Done(*index)),
            SyncAction::Finish(Err(SyncWithBitcoinError::UnconfirmedFundingTransaction(id))) => {
                SyncActionView::Finish(SyncResultView::UnconfirmedFundingTransaction(id@))
            },
            SyncAction::Finish(Err(SyncWithBitcoinError::Relay(message))) => {
                SyncActionView::Finish(SyncResultView::Relay(message@))
            },
            SyncAction::Finish(Err(SyncWithBitcoinError::UnexpectedAnswer)) => {
                SyncActionView::Finish(SyncResultView::UnexpectedAnswer)
            },
        }
    }
}

/// How the task starts. With an empty chain it ends at once, with nothing
/// to report. Otherwise it asks for the latest anchoring transaction; the
/// walk will go down to the index that was last known as confirmed, or to
/// the first transaction.
pub open spec fn spec_sync_start(chain: Seq<Transaction>, last_known: Option<u64>) -> (
    SyncState,
    SyncActionView,
) {
    if chain.len() == 0 {
        (SyncState::Finished, SyncActionView::Finish(SyncResultView::Done(None)))
    } else {
        let last = (chain.len() - 1) as usize;
        let lower = match last_known {
            Some(known) => if known < last {
                known as usize
            } else {
                last
            },
            None => 0,
        };
        (
            SyncState::Walking { index: last, lower },
            SyncActionView::AskConfirmations(transaction_id(chain[last as int]@)),
        )
    }
}

/// What the sending of the anchoring transaction `index` looks like, with
/// the index to report afterwards.
pub open spec fn send(index: usize, answer: usize) -> (SyncState, SyncActionView) {
    (SyncState::Sending { answer }, SyncActionView::Send(index))
}

/// What ends the task with a result.
pub open spec fn finish(result: SyncResultView) -> (SyncState, SyncActionView) {
    (SyncState::Finished, SyncActionView::Finish(result))
}

/// How the task goes on after an answer of the relay.
///
/// While it walks down the chain: a confirmed transaction ends the walk,
/// and the one after it is sent, or the task ends with its index where it
/// is the latest. An unconfirmed one lets the walk go on; at its lower end
/// the transaction there is sent, after a look at the funding transaction
/// where the lower end is the first anchoring transaction. When a
/// transaction was sent the task ends with its index, or with the index of
/// the confirmed one before it. A failure of the relay ends the task.
pub open spec fn spec_sync_step(chain: Seq<Transaction>, state: SyncState, event: RelayEventView) -> (
    SyncState,
    SyncActionView,
) {
    match event {
        RelayEventView::Failed(message) => finish(SyncResultView::Relay(message)),
        RelayEventView::Confirmations(confirmations) => match state {
            SyncState::Walking { index, lower } => if index >= chain.len() || lower > index {
                finish(SyncResultView::UnexpectedAnswer)
            } else if confirmations is Some {
                if index + 1 == chain.len() {
                    finish(SyncResultView::Done(Some(index as u64)))
                } else {
                    send((index + 1) as usize, index)
                }
            } else if index > lower {
                (
                    SyncState::Walking { index: (index - 1) as usize, lower },
                    SyncActionView::AskConfirmations(transaction_id(chain[index - 1]@)),
                )
            } else if lower == 0 && chain[0]@.input.len() > 0 {
                (
                    SyncState::CheckingFunding,
                    SyncActionView::AskConfirmations(chain[0]@.input[0].prev_txid),
                )
            } else {
                send(lower, lower)
            },
            SyncState::CheckingFunding => if chain.len() == 0 || chain[0]@.input.len() == 0 {
                finish(SyncResultView::UnexpectedAnswer)
            } else if confirmations is Some {
                send(0, 0)
            } else {
                finish(
                    SyncResultView::UnconfirmedFundingTransaction(chain[0]@.input[0].prev_txid),
                )
            },
            _ => finish(SyncResultView::UnexpectedAnswer),
        },
        RelayEventView::Sent => match state {
            SyncState::Sending { answer } => finish(SyncResultView::Done(Some(answer as u64))),
            _ => finish(SyncResultView::UnexpectedAnswer),
        },
    }
}

/// Starts the synchronization of the anchoring chain with Bitcoin.
pub fn sync_start(chain: &Vec<Transaction>, last_known: Option<u64>) -> (next: (
    SyncState,
    SyncAction,
))
    ensures
        next.0 == spec_sync_start(chain@, last_known).0,
        next.1@ == spec_sync_start(chain@, last_known).1,
{
    let count = chain.len();
    if count == 0 {
        return (SyncState::Finished, SyncAction::Finish(Ok(None)));
    }
    let last = count - 1;
    let lower = match last_known {
        Some(known) => if known < last as u64 {
            known as usize
        } else {
            last
        },
        None => 0,
    };
    (SyncState::Walking { index: last, lower }, SyncAction::AskConfirmations(chain[last].id()))
}

/// Goes on with the synchronization after an answer of the relay.
pub fn sync_step(chain: &Vec<Transaction>, state: SyncState, event: RelayEvent) -> (next: (
    SyncState,
    SyncAction,
))
    ensures
        next.0 == spec_sync_step(chain@, state, event@).0,
        next.1@ == spec_sync_step(chain@, state, event@).1,
{
    let unexpected = (
        SyncState::Finished,
        SyncAction::Finish(Err(SyncWithBitcoinError::UnexpectedAnswer)),
    );
    match event {
        RelayEvent::Failed(message) => (
            SyncState::Finished,
            SyncAction::Finish(Err(SyncWithBitcoinError::Relay(message))),
        ),
        RelayEvent::Confirmations(confirmations) => match state {
            SyncState::Walking { index, lower } => {
                if index >= chain.len() || lower > index {
                    unexpected
                } else if confirmations.is_some() {
                    if index + 1 == chain.len() {
                        (SyncState::Finished, SyncAction::Finish(Ok(Some(index as u64))))
                    } else {
                        (SyncState::Sending { answer: index }, SyncAction::Send(index + 1))
                    }
                } else if index > lower {
                    (
                        SyncState::Walking { index: index - 1, lower },
                        SyncAction::AskConfirmations(chain[index - 1].id()),
                    )
                } else if lower == 0 && chain[0].input.len() > 0 {
                    assert(chain@[0]@.input.len() == chain@[0].input@.len());
                    assert(chain@[0]@.input[0] == chain@[0].input@[0]@);
                    (SyncState::CheckingFunding, SyncAction::AskConfirmations(chain[0].prev_tx_id()))
                } else {
                    assert(lower == 0 ==> chain@[0]@.input.len() == chain@[0].input@.len());
                    (SyncState::Sending { answer: lower }, SyncAction::Send(lower))
                }
            },
            SyncState::CheckingFunding => {
                if chain.len() == 0 || chain[0].input.len() == 0 {
                    assert(chain@.len() > 0 ==> chain@[0]@.input.len() == chain@[0].input@.len());
                    unexpected
                } else if confirmations.is_some() {
                    assert(chain@[0]@.input.len() == chain@[0].input@.len());
                    (SyncState::Sending { answer: 0 }, SyncAction::Send(0))
                } else {
                    assert(chain@[0]@.input.len() == chain@[0].input@.len());
                    assert(chain@[0]@.input[0] == chain@[0].input@[0]@);
                    (
                        SyncState::Finished,
                        SyncAction::Finish(
                            Err(
                                SyncWithBitcoinError::UnconfirmedFundingTransaction(
                                    chain[0].prev_tx_id(),
                                ),
                            ),
                        ),
                    )
                }
            },
            _ => unexpected,
        },
        RelayEvent::Sent => match state {
            SyncState::Sending { answer } => (
                SyncState::Finished,
                SyncAction::Finish(Ok(Some(answer as u64))),
            ),
            _ => unexpected,
        },
    }
}


/// The highest index from `index` down to `lower` whose transaction the
/// relay knows as confirmed.
pub open spec fn highest_confirmed(
    chain: Seq<Transaction>,
    relay: spec_fn(Seq<u8>) -> Option<u32>,
    index: int,
    lower: int,
) -> Option<int>
    decreases index - lower + 1,
{
    if index < lower {
        None
    } else if relay(transaction_id(chain[index]@)) is Some {
        Some(index)
    } else {
        highest_confirmed(chain, relay, index - 1, lower)
    }
}

/// How a task ends that is told what the relay knows whenever it asks, and
/// that every transaction was sent; `steps` bounds the number of answers.
pub open spec fn sync_run(
    chain: Seq<Transaction>,
    state: SyncState,
    action: SyncActionView,
    relay: spec_fn(Seq<u8>) -> Option<u32>,
    steps: nat,
) -> SyncResultView
    decreases steps,
{
    match action {
        SyncActionView::Finish(result) => result,
        SyncActionView::AskConfirmations(id) => if steps == 0 {
            SyncResultView::UnexpectedAnswer
        } else {
            let next = spec_sync_step(chain, state, RelayEventView::Confirmations(relay(id)));
            sync_run(chain, next.0, next.1, relay, (steps - 1) as nat)
        },
        SyncActionView::Send(_) => if steps == 0 {
            SyncResultView::UnexpectedAnswer
        } else {
            let next = spec_sync_step(chain, state, RelayEventView::Sent);
            sync_run(chain, next.0, next.1, relay, (steps - 1) as nat)
        },
    }
}

/// What the task reports for a chain and a relay: nothing for an empty
/// chain; the highest confirmed index of the walk; else the lower end of
/// the walk, which is sent again, unless it is the first anchoring
/// transaction and its funding transaction is not confirmed.
pub open spec fn sync_outcome(
    chain: Seq<Transaction>,
    last_known: Option<u64>,
    relay: spec_fn(Seq<u8>) -> Option<u32>,
) -> SyncResultView {
    if chain.len() == 0 {
        SyncResultView::Done(None)
    } else {
        let last = chain.len() - 1;
        let lower = match last_known {
            Some(known) => if known < last {
                known as int
            } else {
                last
            },
            None => 0,
        };
        match highest_confirmed(chain, relay, last, lower) {
            Some(confirmed) => SyncResultView::Done(Some(confirmed as u64)),
            None => if lower == 0 && chain[0]@.input.len() > 0 && relay(
                chain[0]@.input[0].prev_txid,
            ) is None {
                SyncResultView::UnconfirmedFundingTransaction(chain[0]@.input[0].prev_txid)
            } else {
                SyncResultView::Done(Some(lower as u64))
            },
        }
    }
}

/// A walk that stands at `index` ends as the rest of the walk says.
pub proof fn lemma_sync_walk(
    chain: Seq<Transaction>,
    relay: spec_fn(Seq<u8>) -> Option<u32>,
    index: usize,
    lower: usize,
    steps: nat,
)
    requires
        lower <= index < chain.len(),
        steps >= index - lower + 3,
    ensures
        sync_run(
            chain,
            SyncState::Walking { index, lower },
            SyncActionView::AskConfirmations(transaction_id(chain[index as int]@)),
            relay,
            steps,
        ) == (match highest_confirmed(chain, relay, index as int, lower as int) {
            Some(confirmed) => SyncResultView::Done(Some(confirmed as u64)),
            None => if lower == 0 && chain[0]@.input.len() > 0 && relay(
                chain[0]@.input[0].prev_txid,
            ) is None {
                SyncResultView::UnconfirmedFundingTransaction(chain[0]@.input[0].prev_txid)
            } else {
                SyncResultView::Done(Some(lower as u64))
            },
        }),
    decreases index - lower,
{
    reveal_with_fuel(sync_run, 4);
    let id = transaction_id(chain[index as int]@);
    if relay(id) is None && index > lower {
        lemma_sync_walk(chain, relay, (index - 1) as usize, lower, (steps - 1) as nat);
    } else if relay(id) is None {
        assert(highest_confirmed(chain, relay, index - 1, lower as int) is None);
    }
}

/// A task that is told what the relay knows ends with the outcome for the
/// chain and the relay.
pub proof fn lemma_sync_outcome(
    chain: Seq<Transaction>,
    last_known: Option<u64>,
    relay: spec_fn(Seq<u8>) -> Option<u32>,
)
    requires
        chain.len() <= usize::MAX,
    ensures
        sync_run(
            chain,
            spec_sync_start(chain, last_known).0,
            spec_sync_start(chain, last_known).1,
            relay,
            chain.len() + 3,
        ) == sync_outcome(chain, last_known, relay),
{
    if chain.len() > 0 {
        let last = (chain.len() - 1) as usize;
        let lower = match last_known {
            Some(known) => if known < last {
                known as usize
            } else {
                last
            },
            None => 0,
        };
        lemma_sync_walk(chain, relay, last, lower, chain.len() + 3);
    }
}

/// Why the anchoring chain cannot be updated.
#[derive(Clone, Copy, Debug, PartialEq, Eq, Structural)]
pub enum ChainUpdateError {
    /// The anchoring chain is empty and there is nothing to start it with.
    NoInitialFunds,
    /// The inputs of the proposal do not cover the fee.
    InsufficientFunds { balance: u64, total_fee: u64 },
    /// One of the validator's keys cannot sign.
    InvalidSecretKey,
}

/// A Bitcoin key of a validator with the secret key that belongs to it.
#[derive(Debug)]
pub struct BitcoinKeypair {
    pub public_key: PublicKey,
    pub private_key: [u8; 32],
}

/// The value of a [`BitcoinKeypair`].
pub struct BitcoinKeypairView {
    pub public_key: Seq<u8>,
    pub private_key: Seq<u8>,
}

impl View for BitcoinKeypair {
    type V = BitcoinKeypairView;

    open spec fn view(&self) -> BitcoinKeypairView {
        BitcoinKeypairView { public_key: self.public_key@, private_key: self.private_key@ }
    }
}

/// The values of a list of key pairs.
pub open spec fn keypair_views(keys: Seq<BitcoinKeypair>) -> Seq<BitcoinKeypairView> {
    Seq::new(keys.len(), |i: int| keys[i]@)
}

/// The values of a list of messages.
pub open spec fn message_views(messages: Seq<SignInput>) -> Seq<SignInputView> {
    Seq::new(messages.len(), |i: int| messages[i]@)
}

/// The first member from position `from` on that has the Bitcoin key.
pub open spec fn find_signer(keys: Seq<AnchoringKeysView>, bitcoin_key: Seq<u8>, from: int) -> Option<
    int,
>
    decreases keys.len() - from,
{
    if from < 0 || from >= keys.len() {
        None
    } else if keys[from].bitcoin_key == bitcoin_key {
        Some(from)
    } else {
        find_signer(keys, bitcoin_key, from + 1)
    }
}

/// The position of a Bitcoin key in a committee.
fn signer_index(config: &Config, bitcoin_key: &PublicKey) -> (found: Option<usize>)
    ensures
        found is None <==> find_signer(config@.anchoring_keys, bitcoin_key@, 0) is None,
        found matches Some(n) ==> n < config.anchoring_keys@.len() && find_signer(
            config@.anchoring_keys,
            bitcoin_key@,
            0,
        ) == Some(n as int),
{
    let mut n: usize = 0;
    while n < config.anchoring_keys.len()
        invariant
            n <= config.anchoring_keys@.len(),
            find_signer(config@.anchoring_keys, bitcoin_key@, 0) == find_signer(
                config@.anchoring_keys,
                bitcoin_key@,
                n as int,
            ),
        decreases config.anchoring_keys.len() - n,
    {
        assert(config@.anchoring_keys[n as int] == config.anchoring_keys@[n as int]@);
        if config.anchoring_keys[n].bitcoin_key.same(bitcoin_key) {
            return Some(n);
        }
        n = n + 1;
    }
    None
}

impl BtcAnchoringSchema {
    /// The messages that sign the proposal with the keys from `key` on and,
    /// for that key, the inputs from `input` on, behind those made so far.
    /// A key that is no member of the committee signs nothing; an input
    /// that a member has signed already is passed over.
    pub open spec fn signing_messages(
        &self,
        transaction: TransactionView,
        sighashes: Seq<Seq<u8>>,
        keys: Seq<BitcoinKeypairView>,
        key: int,
        input: int,
        made: Seq<SignInputView>,
    ) -> Result<Seq<SignInputView>, ChainUpdateError>
        decreases keys.len() - key, sighashes.len() - input,
    {
        if key < 0 || input < 0 || key >= keys.len() {
            Ok(made)
        } else if input >= sighashes.len() {
            self.signing_messages(transaction, sighashes, keys, key + 1, 0, made)
        } else {
            match find_signer(self.signing_config().anchoring_keys, keys[key].public_key, 0) {
                None => self.signing_messages(transaction, sighashes, keys, key + 1, 0, made),
                Some(n) => if n > u16::MAX || input > u32::MAX || self.has_signed(
                    transaction_id(transaction),
                    input as u32,
                    n as u16,
                ) {
                    self.signing_messages(transaction, sighashes, keys, key, input + 1, made)
                } else {
                    match input_signature(sighashes[input], keys[key].private_key) {
                        None => Err(ChainUpdateError::InvalidSecretKey),
                        Some(signature) => self.signing_messages(
                            transaction,
                            sighashes,
                            keys,
                            key,
                            input + 1,
                            made.push(
                                SignInputView {
                                    transaction,
                                    input: input as u32,
                                    input_signature: signature,
                                },
                            ),
                        ),
                    }
                },
            }
        }
    }

    /// What a validator with the given keys has to submit: nothing where
    /// nothing is proposed, and else a signature for each input of the
    /// proposal that one of its keys has not signed yet.
    pub open spec fn spec_chain_update(&self, keys: Seq<BitcoinKeypairView>) -> Result<
        Seq<SignInputView>,
        ChainUpdateError,
    > {
        match self.spec_anchoring_proposal() {
            ProposalView::NoInitialFunds => Err(ChainUpdateError::NoInitialFunds),
            ProposalView::InsufficientFunds { balance, total_fee } => Err(
                ChainUpdateError::InsufficientFunds { balance, total_fee },
            ),
            ProposalView::Nothing => Ok(Seq::empty()),
            ProposalView::Available { transaction, sighashes } => self.signing_messages(
                transaction,
                sighashes,
                keys,
                0,
                0,
                Seq::empty(),
            ),
        }
    }

    /// Makes the messages by which a validator signs what it has not signed
    /// yet of the current proposal.
    pub fn chain_update(&self, keys: &Vec<BitcoinKeypair>) -> (messages: Result<
        Vec<SignInput>,
        ChainUpdateError,
    >)
        requires
            self.configured(),
        ensures
            match self.spec_chain_update(keypair_views(keys@)) {
                Ok(expected) => messages matches Ok(made) && message_views(made@) == expected,
                Err(e) => messages matches Err(r) && r == e,
            },
    {
        let (transaction, sighashes) = match self.anchoring_proposal() {
            AnchoringProposalState::NoInitialFunds => {
                return Err(ChainUpdateError::NoInitialFunds);
            },
            AnchoringProposalState::InsufficientFunds { balance, total_fee } => {
                return Err(ChainUpdateError::InsufficientFunds { balance, total_fee });
            },
            AnchoringProposalState::Nothing => {
                let none: Vec<SignInput> = Vec::new();
                assert(message_views(none@) =~= Seq::<SignInputView>::empty());
                return Ok(none);
            },
            AnchoringProposalState::Available { transaction, sighashes } => (
                transaction,
                sighashes,
            ),
        };
        let signing = self.signing_configuration();
        let txid = transaction.id();
        let ghost key_views = keypair_views(keys@);
        let ghost digests = crate::proposal::digests(sighashes@);
        let mut made: Vec<SignInput> = Vec::new();
        let mut key: usize = 0;
        let mut input: usize = 0;
        assert(message_views(made@) =~= Seq::<SignInputView>::empty());
        while key < keys.len()
            invariant
                key <= keys@.len(),
                input <= sighashes@.len(),
                self.configured(),
                signing@ == self.signing_config(),
                txid@ == transaction_id(transaction@),
                key_views == keypair_views(keys@),
                digests == crate::proposal::digests(sighashes@),
                self.spec_chain_update(key_views) == self.signing_messages(
                    transaction@,
                    digests,
                    key_views,
                    0,
                    0,
                    Seq::empty(),
                ),
                self.signing_messages(transaction@, digests, key_views, 0, 0, Seq::empty())
                    == self.signing_messages(
                    transaction@,
                    digests,
                    key_views,
                    key as int,
                    input as int,
                    message_views(made@),
                ),
            decreases keys.len() - key, sighashes.len() - input,
        {
            if input >= sighashes.len() {
                key = key + 1;
                input = 0;
            } else {
                assert(key_views[key as int] == keys@[key as int]@);
                assert(digests[input as int] == sighashes@[input as int]@);
                match signer_index(signing, &keys[key].public_key) {
                    None => {
                        key = key + 1;
                        input = 0;
                    },
                    Some(n) => {
                        if n > u16::MAX as usize || input > u32::MAX as usize
                            || self.input_signatures(&txid, input as u32).contains_key(
                            &crate::schema::validator_key_bytes(n as u16),
                        ) {
                            input = input + 1;
                        } else {
                            match sign_input(&sighashes[input], &keys[key].private_key) {
                                None => {
                                    return Err(ChainUpdateError::InvalidSecretKey);
                                },
                                Some(signature) => {
                                    let ghost before = message_views(made@);
                                    let message = SignInput {
                                        transaction: transaction.clone(),
                                        input: input as u32,
                                        input_signature: signature,
                                    };
                                    made.push(message);
                                    assert(message_views(made@) =~= before.push(message@));
                                    input = input + 1;
                                },
                            }
                        }
                    },
                }
            }
        }
        Ok(made)
    }
}

} // verus!

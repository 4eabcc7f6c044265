//! The transactions of the host blockchain that change the state of the
//! service: a signature for an input of the proposal, and new funds.

use vstd::prelude::*;
use crate::binary_map::Pair;
use crate::bytes::clone_bytes;
use crate::config::{find_member, spec_byzantine_quorum};
use crate::proposal::{AnchoringProposalState, ProposalView};
use crate::schema::{validator_key, BtcAnchoringSchema};
use crate::service::ExecutionError;
use crate::signing::{input_signature_is_valid, verify_input_signature};
use crate::transaction::{
    byte_strings, transaction_id, without_witnesses, Transaction, TransactionView, TxIn, TxInView,
};

verus! {

/// A signature of a validator for one input of the current proposal.
#[derive(Debug)]
pub struct SignInput {
    /// The transaction that the validator signed.
    pub transaction: Transaction,
    /// The index of the input.
    pub input: u32,
    /// The signature: DER, followed by the byte of the sighash type.
    pub input_signature: Vec<u8>,
}

/// A transaction that a validator names as new funds of the committee.
#[derive(Debug)]
pub struct AddFunds {
    pub transaction: Transaction,
}

/// The witness that spends an input of the committee: an empty item, the
/// first `quorum` signatures in the order of their validators, and the
/// redeem script.
pub open spec fn input_witness(pairs: Seq<Pair>, quorum: nat, script: Seq<u8>) -> Seq<Seq<u8>> {
    seq![Seq::empty()] + Seq::new(quorum, |k: int| pairs[k].1) + seq![script]
}

/// The transaction with the given witnesses in place of its own.
pub open spec fn with_witnesses(tx: TransactionView, witnesses: Seq<Seq<Seq<u8>>>) -> TransactionView {
    TransactionView {
        input: Seq::new(
            tx.input.len(),
            |i: int| TxInView { witness: witnesses[i], ..tx.input[i] },
        ),
        ..tx
    }
}

/// Witnesses do not change the identifier of a transaction.
pub proof fn lemma_witnesses_keep_id(tx: TransactionView, witnesses: Seq<Seq<Seq<u8>>>)
    ensures
        transaction_id(with_witnesses(tx, witnesses)) == transaction_id(tx),
{
    assert(without_witnesses(with_witnesses(tx, witnesses)).input =~= without_witnesses(
        tx,
    ).input);
}

/// The witnesses held by a list of witness stacks.
pub open spec fn witness_views(witnesses: Seq<Vec<Vec<u8>>>) -> Seq<Seq<Seq<u8>>> {
    Seq::new(witnesses.len(), |i: int| byte_strings(witnesses[i]@))
}

/// Puts the witnesses in place of those of the transaction.
pub fn attach_witnesses(tx: &Transaction, witnesses: &Vec<Vec<Vec<u8>>>) -> (signed: Transaction)
    requires
        witnesses@.len() == tx.input@.len(),
    ensures
        signed@ == with_witnesses(tx@, witness_views(witnesses@)),
        signed.output@.len() == tx.output@.len(),
{
    let mut input: Vec<TxIn> = Vec::new();
    let mut i: usize = 0;
    while i < tx.input.len()
        invariant
            i <= tx.input@.len(),
            witnesses@.len() == tx.input@.len(),
            input@.len() == i,
            forall|j: int|
                0 <= j < i ==> input@[j]@ == (TxInView {
                    witness: byte_strings(witnesses@[j]@),
                    ..tx.input@[j]@
                }),
        decreases tx.input.len() - i,
    {
        let from = &tx.input[i];
        input.push(
            TxIn {
                prev_txid: from.prev_txid,
                vout: from.vout,
                script_sig: clone_bytes(&from.script_sig),
                sequence: from.sequence,
                witness: crate::transaction::clone_byte_strings(&witnesses[i]),
            },
        );
        i = i + 1;
    }
    let copy = tx.clone();
    let signed = Transaction {
        version: tx.version,
        lock_time: tx.lock_time,
        input,
        output: copy.output,
    };
    assert(signed@.input =~= with_witnesses(tx@, witness_views(witnesses@)).input);
    assert(signed@.output == copy@.output);
    assert(signed.output@.len() == copy@.output.len());
    assert(tx.output@.len() == tx@.output.len());
    signed
}

impl BtcAnchoringSchema {
    /// Whether each of the first `inputs` inputs of a transaction has a
    /// quorum of signatures.
    pub open spec fn is_complete(&self, txid: Seq<u8>, inputs: nat, quorum: nat) -> bool {
        forall|i: u32| i < inputs ==> #[trigger] self.signature_count(txid, i) >= quorum
    }

    /// The witnesses of the inputs of a transaction, made of the signatures
    /// collected for them.
    pub open spec fn witnesses_of(
        &self,
        txid: Seq<u8>,
        inputs: nat,
        quorum: nat,
        script: Seq<u8>,
    ) -> Seq<Seq<Seq<u8>>> {
        Seq::new(
            inputs,
            |i: int| input_witness(self.signature_pairs(txid, i as u32), quorum, script),
        )
    }

    /// Makes the witnesses of the inputs of a transaction, where each of
    /// them has a quorum of signatures.
    pub fn collect_witnesses(
        &self,
        txid: &[u8; 32],
        inputs: usize,
        quorum: usize,
        script: &Vec<u8>,
    ) -> (witnesses: Option<Vec<Vec<Vec<u8>>>>)
        requires
            inputs <= u32::MAX,
        ensures
            witnesses is Some <==> self.is_complete(txid@, inputs as nat, quorum as nat),
            witnesses matches Some(w) ==> witness_views(w@) == self.witnesses_of(
                txid@,
                inputs as nat,
                quorum as nat,
                script@,
            ),
    {
        let mut witnesses: Vec<Vec<Vec<u8>>> = Vec::new();
        let mut i: usize = 0;
        while i < inputs
            invariant
                i <= inputs <= u32::MAX,
                witnesses@.len() == i,
                forall|j: u32| j < i ==> #[trigger] self.signature_count(txid@, j) >= quorum,
                forall|j: int|
                    0 <= j < i ==> byte_strings(witnesses@[j]@) == input_witness(
                        self.signature_pairs(txid@, j as u32),
                        quorum as nat,
                        script@,
                    ),
            decreases inputs - i,
        {
            let signatures = self.input_signatures(txid, i as u32);
            let entries = signatures.entries();
            if entries.len() < quorum {
                assert(self.signature_count(txid@, i as u32) < quorum);
                return None;
            }
            let ghost pairs = self.signature_pairs(txid@, i as u32);
            let mut witness: Vec<Vec<u8>> = Vec::new();
            witness.push(Vec::new());
            let mut k: usize = 0;
            while k < quorum
                invariant
                    k <= quorum <= entries@.len(),
                    crate::binary_map::entry_pairs(entries@) == pairs,
                    witness@.len() == k + 1,
                    witness@[0]@ == Seq::<u8>::empty(),
                    forall|j: int| 0 <= j < k ==> witness@[j + 1]@ == pairs[j].1,
                decreases quorum - k,
            {
                witness.push(clone_bytes(&entries[k].value));
                assert(pairs[k as int].1 == entries@[k as int].value@);
                k = k + 1;
            }
            witness.push(clone_bytes(script));
            assert(byte_strings(witness@) =~= input_witness(pairs, quorum as nat, script@));
            witnesses.push(witness);
            i = i + 1;
        }
        assert(witness_views(witnesses@) =~= self.witnesses_of(
            txid@,
            inputs as nat,
            quorum as nat,
            script@,
        ));
        Some(witnesses)
    }

    /// Puts the following configuration in force once the anchoring chain
    /// has moved to its address. Says whether it did.
    pub fn promote_following_config(&mut self) -> (promoted: bool)
        requires
            old(self).configured(),
        ensures
            promoted == old(self).following_is_due(),
            promoted ==> final(self).actual_config == old(self).following_config && final(self).following_config is None,
            !promoted ==> final(self).actual_config == old(self).actual_config && final(self).following_config == old(self).following_config,
            final(self).anchoring_txs_chain == old(self).anchoring_txs_chain,
            final(self).transaction_signatures == old(self).transaction_signatures,
            final(self).unspent_funding_transaction == old(self).unspent_funding_transaction,
            final(self).spent_funding_transactions == old(self).spent_funding_transactions,
            final(self).anchored_blocks == old(self).anchored_blocks,
            final(self).configured(),
            final(self).signing_config() == old(self).signing_config(),
            final(self).paying_config() == old(self).paying_config(),
            final(self).spec_anchoring_proposal() == old(self).spec_anchoring_proposal(),
    {
        let count = self.anchoring_txs_chain.len();
        let due = match &self.following_config {
            Some(following) => {
                if count > 0 {
                    let last = &self.anchoring_txs_chain[count - 1];
                    assert(last.output@.len() > 0);
                    assert(last@.output[0] == last.output@[0]@);
                    let script = following.anchoring_out_script();
                    crate::bytes::bytes_eq(&last.output[0].script_pubkey, &script)
                } else {
                    false
                }
            },
            None => false,
        };
        if due {
            let following = self.following_config.take();
            self.actual_config = following;
        }
        proof {
            let script = old(self).signing_config().out_script();
            assert(self.signing_config() == old(self).signing_config());
            assert(self.spec_latest_payload() == old(self).spec_latest_payload());
            assert(self.next_anchoring_height() == old(self).next_anchoring_height());
            assert forall|id: Seq<u8>| self.is_spent(id) == old(self).is_spent(id) by {
                crate::schema::lemma_same_spent(&*self, &*old(self), id);
            }
            assert(self.funding_input(script) == old(self).funding_input(script));
            assert(self.proposal_inputs() == old(self).proposal_inputs());
        }
        due
    }
}


/// Two states with the same signatures have the same inputs complete, and
/// make the same witnesses.
pub proof fn lemma_same_signatures(
    a: &BtcAnchoringSchema,
    b: &BtcAnchoringSchema,
    txid: Seq<u8>,
    inputs: nat,
    quorum: nat,
    script: Seq<u8>,
)
    requires
        a.transaction_signatures == b.transaction_signatures,
    ensures
        a.is_complete(txid, inputs, quorum) == b.is_complete(txid, inputs, quorum),
        a.witnesses_of(txid, inputs, quorum, script) == b.witnesses_of(
            txid,
            inputs,
            quorum,
            script,
        ),
{
    if a.is_complete(txid, inputs, quorum) {
        assert forall|i: u32| i < inputs implies #[trigger] b.signature_count(txid, i)
            >= quorum by {
            assert(a.signature_count(txid, i) >= quorum);
        }
    }
    if b.is_complete(txid, inputs, quorum) {
        assert forall|i: u32| i < inputs implies #[trigger] a.signature_count(txid, i)
            >= quorum by {
            assert(b.signature_count(txid, i) >= quorum);
        }
    }
    assert(a.witnesses_of(txid, inputs, quorum, script) =~= b.witnesses_of(
        txid,
        inputs,
        quorum,
        script,
    ));
}

/// The value of a [`SignInput`].
pub struct SignInputView {
    pub transaction: TransactionView,
    pub input: u32,
    pub input_signature: Seq<u8>,
}

impl View for SignInput {
    type V = SignInputView;

    open spec fn view(&self) -> SignInputView {
        SignInputView {
            transaction: self.transaction@,
            input: self.input,
            input_signature: self.input_signature@,
        }
    }
}

/// What the handler of a signature has to know once it has accepted it.
struct Accepted {
    /// The index of the sender in the committee.
    pub validator: u16,
    /// The identifier of the proposal.
    pub txid: [u8; 32],
    /// The number of inputs of the proposal.
    pub inputs: usize,
    /// The quorum of the committee that signs.
    pub quorum: usize,
    /// The redeem script of the committee that signs.
    pub script: Vec<u8>,
    /// The identifier of the funding transaction that the proposal spends.
    pub funding: Option<[u8; 32]>,
}

impl BtcAnchoringSchema {
    /// Why a signature is refused, if it is: the sender is no member of the
    /// committee that signs, or a member beyond the indices that the state
    /// can record; the transaction is not the current proposal; the
    /// signature does not verify for the input under the sender's key; or
    /// the sender has signed this input before.
    pub open spec fn sign_input_refusal(&self, author: Seq<u8>, message: SignInputView) -> Option<
        ExecutionError,
    > {
        let signing = self.signing_config();
        match find_member(signing.anchoring_keys, author, 0) {
            None => Some(ExecutionError::UnauthorizedSender),
            Some(n) => if n > u16::MAX {
                Some(ExecutionError::UnauthorizedSender)
            } else {
                match self.spec_anchoring_proposal() {
                    ProposalView::Available { transaction, sighashes } => if transaction
                        != message.transaction {
                        Some(ExecutionError::UnexpectedProposal)
                    } else if message.input >= sighashes.len() || !input_signature_is_valid(
                        sighashes[message.input as int],
                        signing.anchoring_keys[n].bitcoin_key,
                        message.input_signature,
                    ) {
                        Some(ExecutionError::InvalidSignature)
                    } else if self.has_signed(
                        transaction_id(transaction),
                        message.input,
                        n as u16,
                    ) {
                        Some(ExecutionError::AlreadySigned)
                    } else {
                        None
                    },
                    _ => Some(ExecutionError::UnexpectedProposal),
                }
            },
        }
    }

    /// Checks a signature against the state.
    fn check_sign_input(&self, author: &crate::crypto::PublicKey, message: &SignInput) -> (checked:
        Result<Accepted, ExecutionError>)
        requires
            self.configured(),
        ensures
            match self.sign_input_refusal(author@, message@) {
                Some(e) => checked matches Err(r) && r == e,
                None => checked matches Ok(accepted) && {
                    let signing = self.signing_config();
                    &&& find_member(signing.anchoring_keys, author@, 0) == Some(
                        accepted.validator as int,
                    )
                    &&& accepted.txid@ == transaction_id(message@.transaction)
                    &&& accepted.inputs == message@.transaction.input.len()
                    &&& 1 <= accepted.inputs <= 2
                    &&& message@.transaction.output.len() == 2
                    &&& accepted.quorum == spec_byzantine_quorum(signing.anchoring_keys.len())
                    &&& accepted.script@ == signing.redeem_script()
                    &&& accepted.funding is Some <==> self.funding_input(
                        signing.out_script(),
                    ) is Some
                    &&& accepted.funding matches Some(id) ==> self.unspent_funding_transaction
                        matches Some(tx) && id@ == transaction_id(tx@)
                },
            },
    {
        let signing = self.signing_configuration();
        let (n, key) = match signing.find_bitcoin_key(author) {
            Some(found) => found,
            None => {
                return Err(ExecutionError::UnauthorizedSender);
            },
        };
        if n > u16::MAX as usize {
            return Err(ExecutionError::UnauthorizedSender);
        }
        assert(signing@.anchoring_keys[n as int] == signing.anchoring_keys@[n as int]@);
        let (transaction, sighashes) = match self.anchoring_proposal() {
            AnchoringProposalState::Available { transaction, sighashes } => (
                transaction,
                sighashes,
            ),
            _ => {
                return Err(ExecutionError::UnexpectedProposal);
            },
        };
        if !transaction.same(&message.transaction) {
            return Err(ExecutionError::UnexpectedProposal);
        }
        if message.input as usize >= sighashes.len() {
            return Err(ExecutionError::InvalidSignature);
        }
        if !verify_input_signature(
            &sighashes[message.input as usize],
            &key,
            &message.input_signature,
        ) {
            return Err(ExecutionError::InvalidSignature);
        }
        let txid = transaction.id();
        let key_bytes = crate::schema::validator_key_bytes(n as u16);
        if self.input_signatures(&txid, message.input).contains_key(&key_bytes) {
            return Err(ExecutionError::AlreadySigned);
        }
        let redeem_script = signing.redeem_script();
        let out_script = redeem_script.script_pubkey();
        let funding = match &self.unspent_funding_transaction {
            Some(tx) => match tx.find_out(&out_script) {
                Some(vout) => {
                    let id = tx.id();
                    if vout <= u32::MAX as usize && !self.is_spent_funding(&id) {
                        Some(id)
                    } else {
                        None
                    }
                },
                None => None,
            },
            None => None,
        };
        assert(transaction@.input.len() == transaction.input@.len());
        Ok(
            Accepted {
                validator: n as u16,
                txid,
                inputs: transaction.input.len(),
                quorum: redeem_script.quorum(),
                script: redeem_script.to_bytes(),
                funding,
            },
        )
    }

    /// What an accepted signature makes of the state `self`: `after`.
    pub open spec fn sign_input_applied(
        &self,
        after: &BtcAnchoringSchema,
        author: Seq<u8>,
        message: SignInputView,
    ) -> bool {
        let signing = self.signing_config();
        let validator = find_member(signing.anchoring_keys, author, 0)->Some_0 as u16;
        let tx = message.transaction;
        let txid = transaction_id(tx);
        let quorum = spec_byzantine_quorum(signing.anchoring_keys.len());
        let script = signing.redeem_script();
        let chain = self.anchoring_txs_chain@;
        let spent = self.spent_funding_transactions@;
        &&& after.signatures_of(txid, message.input) == self.signatures_of(
            txid,
            message.input,
        ).insert(validator_key(validator), message.input_signature)
        &&& after.signature_count(txid, message.input) == self.signature_count(
            txid,
            message.input,
        ) + 1
        &&& forall|other: Seq<u8>, i: u32|
            other != txid || i != message.input ==> #[trigger] after.signature_pairs(other, i)
                == self.signature_pairs(other, i)
        &&& after.anchored_blocks == self.anchored_blocks
        &&& self.following_is_due() ==> after.actual_config == self.following_config
            && after.following_config is None
        &&& !self.following_is_due() ==> after.actual_config == self.actual_config
            && after.following_config == self.following_config
        &&& after.is_complete(txid, tx.input.len(), quorum) ==> {
            &&& after.anchoring_txs_chain@.len() == chain.len() + 1
            &&& after.anchoring_txs_chain@.subrange(0, chain.len() as int) == chain
            &&& after.anchoring_txs_chain@.last()@ == with_witnesses(
                tx,
                after.witnesses_of(txid, tx.input.len(), quorum, script),
            )
            &&& match self.funding_input(signing.out_script()) {
                Some(_) => {
                    &&& after.unspent_funding_transaction is None
                    &&& after.spent_funding_transactions@.len() == spent.len() + 1
                    &&& after.spent_funding_transactions@.subrange(0, spent.len() as int)
                        == spent
                    &&& after.spent_funding_transactions@.last()@ == transaction_id(
                        self.unspent_funding_transaction->Some_0@,
                    )
                },
                None => {
                    &&& after.unspent_funding_transaction == self.unspent_funding_transaction
                    &&& after.spent_funding_transactions == self.spent_funding_transactions
                },
            }
        }
        &&& !after.is_complete(txid, tx.input.len(), quorum) ==> {
            &&& after.anchoring_txs_chain == self.anchoring_txs_chain
            &&& after.unspent_funding_transaction == self.unspent_funding_transaction
            &&& after.spent_funding_transactions == self.spent_funding_transactions
        }
    }

    /// Records the signature of a validator for an input of the current
    /// proposal. Once every input of the proposal has a quorum of
    /// signatures the proposal is signed with them and joins the anchoring
    /// chain, and the funding transaction that it spent is marked as spent.
    /// A signature that is refused changes nothing.
    pub fn sign_input(&mut self, author: &crate::crypto::PublicKey, message: SignInput) -> (done:
        Result<(), ExecutionError>)
        requires
            old(self).configured(),
        ensures
            match old(self).sign_input_refusal(author@, message@) {
                Some(e) => done == Err::<(), ExecutionError>(e) && *final(self) == *old(self),
                None => done is Ok && old(self).sign_input_applied(
                    final(self),
                    author@,
                    message@,
                ),
            },
            final(self).configured(),
    {
        let accepted = match self.check_sign_input(author, &message) {
            Ok(accepted) => accepted,
            Err(e) => {
                return Err(e);
            },
        };
        let SignInput { transaction, input, input_signature } = message;
        let ghost tx = transaction@;
        let ghost before = *self;
        self.promote_following_config();
        let ghost promoted = *self;
        let added = self.add_signature(&accepted.txid, input, accepted.validator, input_signature);
        assert(added);
        let ghost recorded = *self;
        match self.collect_witnesses(
            &accepted.txid,
            accepted.inputs,
            accepted.quorum,
            &accepted.script,
        ) {
            Some(witnesses) => {
                assert(witness_views(witnesses@).len() == accepted.inputs);
                assert(transaction@.input.len() == transaction.input@.len());
                let signed = attach_witnesses(&transaction, &witnesses);
                self.anchoring_txs_chain.push(signed);
                match accepted.funding {
                    Some(id) => {
                        self.unspent_funding_transaction = None;
                        self.spent_funding_transactions.push(id);
                    },
                    None => {},
                }
            },
            None => {},
        }
        proof {
            let txid = accepted.txid@;
            let inputs = accepted.inputs as nat;
            let quorum = accepted.quorum as nat;
            assert(self.transaction_signatures == recorded.transaction_signatures);
            assert(promoted.transaction_signatures == before.transaction_signatures);
            lemma_same_signatures(self, &recorded, txid, inputs, quorum, accepted.script@);
            assert forall|other: Seq<u8>, i: u32| other != txid || i != input implies (
            #[trigger] self.signature_pairs(other, i)) == before.signature_pairs(other, i) by {
                assert(recorded.signatures_of(other, i) == promoted.signatures_of(other, i));
                assert(recorded.signature_pairs(other, i) == promoted.signature_pairs(other, i));
            }
            assert(self.signatures_of(txid, input) == recorded.signatures_of(txid, input));
            if recorded.is_complete(txid, inputs, quorum) {
                let chain = before.anchoring_txs_chain@;
                assert(self.anchoring_txs_chain@.subrange(0, chain.len() as int) =~= chain);
                if accepted.funding is Some {
                    let spent = before.spent_funding_transactions@;
                    assert(self.spent_funding_transactions@.subrange(0, spent.len() as int)
                        =~= spent);
                }
            }
        }
        Ok(())
    }

    /// Why new funds are refused, if they are: the sender is no member of
    /// the committee; no output of the transaction pays to the committee; a
    /// funding transaction waits to be spent; or the transaction was spent
    /// before.
    pub open spec fn add_funds_refusal(&self, author: Seq<u8>, tx: TransactionView) -> Option<
        ExecutionError,
    > {
        let committee = self.signing_config();
        if find_member(committee.anchoring_keys, author, 0) is None {
            Some(ExecutionError::UnauthorizedSender)
        } else if !crate::transaction::pays_to(tx, committee.out_script()) {
            Some(ExecutionError::UnsuitableFundingTransaction)
        } else if self.unspent_funding_transaction is Some {
            Some(ExecutionError::FundingTransactionPending)
        } else if self.is_spent(transaction_id(tx)) {
            Some(ExecutionError::AlreadyUsedFundingTransaction)
        } else {
            None
        }
    }

    /// Takes a transaction as the new funds of the committee. Funds that
    /// are refused change nothing.
    pub fn add_funds(&mut self, author: &crate::crypto::PublicKey, message: AddFunds) -> (done:
        Result<(), ExecutionError>)
        requires
            old(self).configured(),
        ensures
            match old(self).add_funds_refusal(author@, message.transaction@) {
                Some(e) => done == Err::<(), ExecutionError>(e) && *final(self) == *old(self),
                None => {
                    &&& done is Ok
                    &&& final(self).unspent_funding_transaction == Some(message.transaction)
                    &&& final(self).actual_config == old(self).actual_config
                    &&& final(self).following_config == old(self).following_config
                    &&& final(self).anchoring_txs_chain == old(self).anchoring_txs_chain
                    &&& final(self).transaction_signatures == old(self).transaction_signatures
                    &&& final(self).spent_funding_transactions == old(self).spent_funding_transactions
                    &&& final(self).anchored_blocks == old(self).anchored_blocks
                },
            },
            final(self).configured(),
    {
        let committee = self.signing_configuration();
        if committee.find_bitcoin_key(author).is_none() {
            return Err(ExecutionError::UnauthorizedSender);
        }
        let script = committee.anchoring_out_script();
        if message.transaction.find_out(&script).is_none() {
            return Err(ExecutionError::UnsuitableFundingTransaction);
        }
        if self.unspent_funding_transaction.is_some() {
            return Err(ExecutionError::FundingTransactionPending);
        }
        let id = message.transaction.id();
        if self.is_spent_funding(&id) {
            return Err(ExecutionError::AlreadyUsedFundingTransaction);
        }
        self.unspent_funding_transaction = Some(message.transaction);
        Ok(())
    }
}

} // verus!

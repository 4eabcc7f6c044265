//! The anchoring proposal: the transaction that the state of the service
//! asks the committee to sign next.

use vstd::prelude::*;
use crate::config::{Config, ConfigView, Height};
use crate::payload::{payload_script, Payload, PayloadView};
use crate::schema::BtcAnchoringSchema;
use crate::transaction::{
    find_output, input_sighash, transaction_encoding, transaction_id, Transaction,
    TransactionView, TxIn, TxInView, TxOut, TxOutView,
};

verus! {

/// The length that a signature of an input is counted with when the size
/// of the signed transaction is estimated: a DER signature and the byte of
/// its sighash type.
pub const SIGNATURE_LEN: u64 = 73;

/// The sequence number of the inputs of an anchoring transaction.
pub const SEQUENCE: u32 = 0xFFFF_FFFF;

/// What the state of the service proposes.
#[derive(Debug)]
pub enum AnchoringProposalState {
    /// The anchoring chain is empty and there is nothing to start it with.
    NoInitialFunds,
    /// The inputs do not cover the fee.
    InsufficientFunds { balance: u64, total_fee: u64 },
    /// There is nothing to anchor yet.
    Nothing,
    /// The transaction to sign, and for each of its inputs the digest that
    /// a signature commits to.
    Available { transaction: Transaction, sighashes: Vec<[u8; 32]> },
}

/// The value of an [`AnchoringProposalState`].
pub enum ProposalView {
    NoInitialFunds,
    InsufficientFunds { balance: u64, total_fee: u64 },
    Nothing,
    Available { transaction: TransactionView, sighashes: Seq<Seq<u8>> },
}

/// The digests held by a list of arrays.
pub open spec fn digests(items: Seq<[u8; 32]>) -> Seq<Seq<u8>> {
    Seq::new(items.len(), |i: int| items[i]@)
}

impl View for AnchoringProposalState {
    type V = ProposalView;

    open spec fn view(&self) -> ProposalView {
        match self {
            AnchoringProposalState::NoInitialFunds => ProposalView::NoInitialFunds,
            AnchoringProposalState::InsufficientFunds { balance, total_fee } => {
                ProposalView::InsufficientFunds { balance: *balance, total_fee: *total_fee }
            },
            AnchoringProposalState::Nothing => ProposalView::Nothing,
            AnchoringProposalState::Available { transaction, sighashes } => {
                ProposalView::Available {
                    transaction: transaction@,
                    sighashes: digests(sighashes@),
                }
            },
        }
    }
}

/// The number of bytes that a length takes in a Bitcoin serialization.
pub open spec fn compact_size_len(n: nat) -> nat {
    if n < 253 {
        1
    } else if n <= 0xFFFF {
        3
    } else if n <= 0xFFFF_FFFF {
        5
    } else {
        9
    }
}

/// The size of the witness of one input once a quorum has signed it: the
/// number of items, an empty item, the signatures and the redeem script.
pub open spec fn witness_len(quorum: nat, script_len: nat) -> nat {
    compact_size_len(quorum + 2) + 1 + quorum * (1 + SIGNATURE_LEN as nat) + compact_size_len(
        script_len,
    ) + script_len
}

/// The virtual size of the signed transaction: a quarter, rounded up, of
/// four times the size without witnesses plus the size of the witnesses and
/// their two marker bytes.
pub open spec fn virtual_size(base_len: nat, inputs: nat, quorum: nat, script_len: nat) -> nat {
    (4 * base_len + 2 + inputs * witness_len(quorum, script_len) + 3) / 4
}

/// The fee for a virtual size at a rate in satoshis per thousand virtual
/// bytes, rounded down; what does not fit 64 bits counts as the largest
/// amount.
pub open spec fn fee_for(rate: u64, vsize: nat) -> u64 {
    if rate as nat * vsize / 1000 > u64::MAX {
        u64::MAX
    } else {
        (rate as nat * vsize / 1000) as u64
    }
}

/// The sum of two amounts; what does not fit 64 bits counts as the largest
/// amount.
pub open spec fn add_amounts(a: u64, b: u64) -> u64 {
    if a + b > u64::MAX {
        u64::MAX
    } else {
        (a + b) as u64
    }
}

/// An input that spends output `vout` of the transaction `txid`, not yet
/// signed.
pub open spec fn unsigned_input(txid: Seq<u8>, vout: u32) -> TxInView {
    TxInView {
        prev_txid: txid,
        vout,
        script_sig: Seq::empty(),
        sequence: SEQUENCE,
        witness: Seq::empty(),
    }
}

/// An anchoring transaction, not yet signed: it pays `value` to
/// `out_script` and carries the payload in its second output.
pub open spec fn unsigned_transaction(
    inputs: Seq<TxInView>,
    out_script: Seq<u8>,
    value: u64,
    payload: PayloadView,
) -> TransactionView {
    TransactionView {
        version: 2,
        lock_time: 0,
        input: inputs,
        output: seq![
            TxOutView { value, script_pubkey: out_script },
            TxOutView { value: 0, script_pubkey: payload_script(payload) },
        ],
    }
}

/// The inputs of a proposal with the amounts that they spend, or `None`
/// where there is nothing to spend.
pub struct ProposalInputs {
    pub inputs: Seq<TxInView>,
    pub values: Seq<u64>,
}

impl BtcAnchoringSchema {
    /// Whether the service can make proposals: a configuration is in force,
    /// no committee is empty, no interval is zero, and every transaction of
    /// the anchoring chain has an output.
    pub open spec fn configured(&self) -> bool {
        &&& self.actual_config matches Some(actual)
        &&& actual.anchoring_keys@.len() > 0
        &&& actual.anchoring_interval > 0
        &&& self.following_config matches Some(following) ==> following.anchoring_keys@.len() > 0
            && following.anchoring_interval > 0
        &&& forall|i: int|
            0 <= i < self.anchoring_txs_chain@.len() ==> (
            #[trigger] self.anchoring_txs_chain@[i]).output@.len() > 0
    }

    /// Whether the anchoring chain has moved to the address of the
    /// following configuration: its latest transaction pays to it.
    pub open spec fn following_is_due(&self) -> bool {
        &&& self.following_config matches Some(following)
        &&& self.anchoring_txs_chain@.len() > 0
        &&& self.anchoring_txs_chain@.last()@.output.len() > 0
        &&& self.anchoring_txs_chain@.last()@.output[0].script_pubkey == following@.out_script()
    }

    /// The configuration whose committee signs the next proposal: the
    /// following one once the chain has moved to its address, the one in
    /// force before.
    pub open spec fn signing_config(&self) -> ConfigView {
        if self.following_is_due() {
            self.following_config->Some_0@
        } else {
            self.actual_config->Some_0@
        }
    }

    /// The configuration to whose address the next proposal pays: the
    /// following one where there is one.
    pub open spec fn paying_config(&self) -> ConfigView {
        match self.following_config {
            Some(following) => following@,
            None => self.actual_config->Some_0@,
        }
    }

    /// The height to anchor next: the anchored height at or below the
    /// latest recorded block, unless the chain has anchored it already.
    pub open spec fn next_anchoring_height(&self) -> Option<u64> {
        if self.anchored_blocks@.len() == 0 {
            None
        } else {
            let latest = self.anchored_blocks@.len() - 1;
            let interval = self.signing_config().anchoring_interval as int;
            let height = latest - latest % interval;
            match self.spec_latest_payload() {
                Some(payload) => if payload.block_height >= height {
                    None
                } else {
                    Some(height as u64)
                },
                None => Some(height as u64),
            }
        }
    }

    /// The input that spends the unspent funding transaction, with its
    /// amount: there is one where the transaction was not spent before and
    /// has an output that pays to `script`.
    pub open spec fn funding_input(&self, script: Seq<u8>) -> Option<(TxInView, u64)> {
        match self.unspent_funding_transaction {
            Some(tx) => match find_output(tx@.output, script, 0) {
                Some(n) => if n <= u32::MAX && !self.is_spent(transaction_id(tx@)) {
                    Some((unsigned_input(transaction_id(tx@), n as u32), tx@.output[n].value))
                } else {
                    None
                },
                None => None,
            },
            None => None,
        }
    }

    /// The inputs of the next proposal: the first output of the latest
    /// anchoring transaction, then the funding input where there is one.
    pub open spec fn proposal_inputs(&self) -> Option<ProposalInputs> {
        let funding = self.funding_input(self.signing_config().out_script());
        if self.anchoring_txs_chain@.len() == 0 {
            match funding {
                Some((input, value)) => Some(
                    ProposalInputs { inputs: seq![input], values: seq![value] },
                ),
                None => None,
            }
        } else {
            let prev = self.anchoring_txs_chain@.last()@;
            let input = unsigned_input(transaction_id(prev), 0);
            let value = prev.output[0].value;
            match funding {
                Some((funding_input, funding_value)) => Some(
                    ProposalInputs {
                        inputs: seq![input, funding_input],
                        values: seq![value, funding_value],
                    },
                ),
                None => Some(ProposalInputs { inputs: seq![input], values: seq![value] }),
            }
        }
    }

    /// What the state proposes.
    pub open spec fn spec_anchoring_proposal(&self) -> ProposalView {
        match self.next_anchoring_height() {
            None => ProposalView::Nothing,
            Some(height) => match self.proposal_inputs() {
                None => ProposalView::NoInitialFunds,
                Some(spent) => {
                    let signing = self.signing_config();
                    let payload = PayloadView {
                        block_height: height,
                        block_hash: self.anchored_blocks@[height as int]@,
                    };
                    let balance = if spent.values.len() == 1 {
                        spent.values[0]
                    } else {
                        add_amounts(spent.values[0], spent.values[1])
                    };
                    let out_script = self.paying_config().out_script();
                    let draft = unsigned_transaction(spent.inputs, out_script, balance, payload);
                    let vsize = virtual_size(
                        transaction_encoding(draft).len(),
                        spent.inputs.len(),
                        crate::config::spec_byzantine_quorum(signing.anchoring_keys.len()),
                        signing.redeem_script().len(),
                    );
                    let total_fee = fee_for(signing.transaction_fee, vsize);
                    if balance < total_fee {
                        ProposalView::InsufficientFunds { balance, total_fee }
                    } else {
                        let transaction = unsigned_transaction(
                            spent.inputs,
                            out_script,
                            (balance - total_fee) as u64,
                            payload,
                        );
                        ProposalView::Available {
                            transaction,
                            sighashes: Seq::new(
                                spent.inputs.len(),
                                |i: int|
                                    input_sighash(
                                        transaction,
                                        i as nat,
                                        signing.redeem_script(),
                                        spent.values[i],
                                    ),
                            ),
                        }
                    }
                },
            },
        }
    }
}


/// The number of bytes that a length takes in a Bitcoin serialization.
fn compact_size(n: u128) -> (len: u128)
    ensures
        len == compact_size_len(n as nat),
{
    if n < 253 {
        1
    } else if n <= 0xFFFF {
        3
    } else if n <= 0xFFFF_FFFF {
        5
    } else {
        9
    }
}

/// The fee of a transaction of `inputs` inputs whose serialization without
/// witnesses takes `base_len` bytes, at `rate` satoshis per thousand virtual
/// bytes, once a quorum has signed each input.
pub fn estimate_fee(base_len: usize, inputs: usize, quorum: usize, script_len: usize, rate: u64) -> (fee:
    u64)
    requires
        1 <= inputs <= 2,
    ensures
        fee == fee_for(
            rate,
            virtual_size(base_len as nat, inputs as nat, quorum as nat, script_len as nat),
        ),
{
    let witness: u128 = compact_size(quorum as u128 + 2) + 1 + quorum as u128 * 74
        + compact_size(script_len as u128) + script_len as u128;
    assert(witness == witness_len(quorum as nat, script_len as nat));
    let witnesses: u128 = if inputs == 1 {
        witness
    } else {
        2 * witness
    };
    assert(witnesses == inputs as nat * witness_len(quorum as nat, script_len as nat))
        by (nonlinear_arith)
        requires
            1 <= inputs <= 2,
            witnesses == (if inputs == 1 {
                witness as int
            } else {
                2 * witness
            }),
            witness == witness_len(quorum as nat, script_len as nat),
    ;
    let vsize: u128 = (4 * base_len as u128 + 2 + witnesses + 3) / 4;
    assert(vsize == virtual_size(base_len as nat, inputs as nat, quorum as nat, script_len as nat));
    match (rate as u128).checked_mul(vsize) {
        Some(product) => {
            if product / 1000 > u64::MAX as u128 {
                u64::MAX
            } else {
                (product / 1000) as u64
            }
        },
        None => {
            assert(rate as nat * vsize as nat / 1000 > u64::MAX) by (nonlinear_arith)
                requires
                    rate as nat * vsize as nat > u128::MAX,
            ;
            u64::MAX
        },
    }
}

/// The sum of two amounts, the largest amount where it does not fit.
fn sum_amounts(a: u64, b: u64) -> (sum: u64)
    ensures
        sum == add_amounts(a, b),
{
    match a.checked_add(b) {
        Some(sum) => sum,
        None => u64::MAX,
    }
}

impl BtcAnchoringSchema {
    /// Whether the service can make proposals.
    pub fn is_configured(&self) -> (ok: bool)
        ensures
            ok == self.configured(),
    {
        match &self.actual_config {
            Some(actual) => {
                if actual.anchoring_keys.len() == 0 || actual.anchoring_interval == 0 {
                    return false;
                }
            },
            None => {
                return false;
            },
        }
        match &self.following_config {
            Some(following) => {
                if following.anchoring_keys.len() == 0 || following.anchoring_interval == 0 {
                    return false;
                }
            },
            None => {},
        }
        let mut i: usize = 0;
        while i < self.anchoring_txs_chain.len()
            invariant
                i <= self.anchoring_txs_chain@.len(),
                forall|j: int|
                    0 <= j < i ==> (#[trigger] self.anchoring_txs_chain@[j]).output@.len() > 0,
            decreases self.anchoring_txs_chain.len() - i,
        {
            if self.anchoring_txs_chain[i].output.len() == 0 {
                return false;
            }
            i = i + 1;
        }
        true
    }

    /// The configuration whose committee signs the next proposal.
    pub fn signing_configuration(&self) -> (config: &Config)
        requires
            self.configured(),
        ensures
            config@ == self.signing_config(),
            config.anchoring_keys@.len() > 0,
            config.anchoring_interval > 0,
    {
        let count = self.anchoring_txs_chain.len();
        match &self.following_config {
            Some(following) => {
                if count > 0 {
                    let last = &self.anchoring_txs_chain[count - 1];
                    assert(last.output@.len() > 0);
                    assert(last@.output[0] == last.output@[0]@);
                    let script = following.anchoring_out_script();
                    if crate::bytes::bytes_eq(&last.output[0].script_pubkey, &script) {
                        return following;
                    }
                }
            },
            None => {},
        }
        self.actual_configuration()
    }

    /// The configuration to whose address the next proposal pays.
    pub fn paying_configuration(&self) -> (config: &Config)
        requires
            self.configured(),
        ensures
            config@ == self.paying_config(),
            config.anchoring_keys@.len() > 0,
    {
        match &self.following_config {
            Some(following) => following,
            None => self.actual_configuration(),
        }
    }

    /// The input that spends the unspent funding transaction, with its
    /// amount.
    fn spendable_funding(&self, script: &Vec<u8>) -> (found: Option<(TxIn, u64)>)
        ensures
            match self.funding_input(script@) {
                Some((input, value)) => found matches Some((i, v)) && i@ == input && v == value,
                None => found is None,
            },
    {
        match &self.unspent_funding_transaction {
            Some(tx) => {
                match tx.find_out(script) {
                    Some(n) => {
                        if n > u32::MAX as usize {
                            return None;
                        }
                        let id = tx.id();
                        if self.is_spent_funding(&id) {
                            return None;
                        }
                        assert(tx@.output[n as int] == tx.output@[n as int]@);
                        let input = TxIn {
                            prev_txid: id,
                            vout: n as u32,
                            script_sig: Vec::new(),
                            sequence: SEQUENCE,
                            witness: Vec::new(),
                        };
                        assert(input@.witness =~= Seq::<Seq<u8>>::empty());
                        Some((input, tx.output[n].value))
                    },
                    None => None,
                }
            },
            None => None,
        }
    }

    /// The proposal of the next anchoring transaction.
    pub fn anchoring_proposal(&self) -> (proposal: AnchoringProposalState)
        requires
            self.configured(),
        ensures
            proposal@ == self.spec_anchoring_proposal(),
    {
        let signing = self.signing_configuration();
        let blocks = self.anchored_blocks.len();
        if blocks == 0 {
            return AnchoringProposalState::Nothing;
        }
        let latest = Height((blocks - 1) as u64);
        let height = signing.previous_anchoring_height(latest);
        match self.latest_anchored_height() {
            Some(anchored) => {
                if anchored.0 >= height.0 {
                    return AnchoringProposalState::Nothing;
                }
            },
            None => {},
        }
        assert(self.next_anchoring_height() == Some(height.0));
        let redeem_script = signing.redeem_script();
        let signing_script = redeem_script.script_pubkey();
        let funding = self.spendable_funding(&signing_script);
        let mut inputs: Vec<TxIn> = Vec::new();
        let mut values: Vec<u64> = Vec::new();
        let count = self.anchoring_txs_chain.len();
        if count > 0 {
            let prev = &self.anchoring_txs_chain[count - 1];
            assert(prev.output@.len() > 0);
            assert(prev@.output[0] == prev.output@[0]@);
            let input = TxIn {
                prev_txid: prev.id(),
                vout: 0,
                script_sig: Vec::new(),
                sequence: SEQUENCE,
                witness: Vec::new(),
            };
            assert(input@.witness =~= Seq::<Seq<u8>>::empty());
            inputs.push(input);
            values.push(prev.output[0].value);
        }
        match funding {
            Some((input, value)) => {
                inputs.push(input);
                values.push(value);
            },
            None => {
                if count == 0 {
                    return AnchoringProposalState::NoInitialFunds;
                }
            },
        }
        let ghost spent = self.proposal_inputs()->Some_0;
        assert(self.proposal_inputs() is Some);
        assert(crate::transaction::input_views(inputs@) =~= spent.inputs);
        assert(values@ =~= spent.values);
        let balance = if values.len() == 1 {
            values[0]
        } else {
            sum_amounts(values[0], values[1])
        };
        let payload = Payload {
            block_height: height,
            block_hash: self.anchored_blocks[height.0 as usize],
        };
        let paying = self.paying_configuration();
        let out_script = paying.anchoring_out_script();
        let payload_out = payload.to_script();
        let mut output: Vec<TxOut> = Vec::new();
        output.push(TxOut { value: balance, script_pubkey: out_script });
        output.push(TxOut { value: 0, script_pubkey: payload_out });
        let mut transaction = Transaction { version: 2, lock_time: 0, input: inputs, output };
        let ghost draft = unsigned_transaction(
            spent.inputs,
            self.paying_config().out_script(),
            balance,
            payload@,
        );
        assert(transaction@.output =~= draft.output);
        assert(transaction@ == draft);
        let base_len = transaction.to_bytes().len();
        let quorum = redeem_script.quorum();
        let script_len = redeem_script.to_bytes().len();
        proof {
            crate::config::lemma_quorum_within_committee(signing.anchoring_keys@.len() as nat);
        }
        let total_fee = estimate_fee(
            base_len,
            transaction.input.len(),
            quorum,
            script_len,
            signing.transaction_fee,
        );
        if balance < total_fee {
            return AnchoringProposalState::InsufficientFunds { balance, total_fee };
        }
        let paid = TxOut {
            value: balance - total_fee,
            script_pubkey: crate::bytes::clone_bytes(&transaction.output[0].script_pubkey),
        };
        transaction.output.set(0, paid);
        let ghost expected = unsigned_transaction(
            spent.inputs,
            self.paying_config().out_script(),
            (balance - total_fee) as u64,
            payload@,
        );
        assert(transaction@.output =~= expected.output);
        assert(transaction@ == expected);
        let script = redeem_script.to_bytes();
        let mut sighashes: Vec<[u8; 32]> = Vec::new();
        let mut i: usize = 0;
        while i < transaction.input.len()
            invariant
                i <= transaction.input@.len(),
                transaction.input@.len() == values@.len(),
                sighashes@.len() == i,
                forall|j: int|
                    0 <= j < i ==> sighashes@[j]@ == input_sighash(
                        transaction@,
                        j as nat,
                        script@,
                        values@[j],
                    ),
            decreases transaction.input.len() - i,
        {
            sighashes.push(transaction.sighash(i, &script, values[i]));
            i = i + 1;
        }
        let proposal = AnchoringProposalState::Available { transaction, sighashes };
        proof {
            let expected_hashes = Seq::new(
                spent.inputs.len(),
                |i: int|
                    input_sighash(
                        expected,
                        i as nat,
                        self.signing_config().redeem_script(),
                        spent.values[i],
                    ),
            );
            assert(digests(sighashes@) =~= expected_hashes);
        }
        proposal
    }
}

} // verus!

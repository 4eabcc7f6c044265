//! What holds of every state that the service reaches.

use vstd::prelude::*;
use crate::config::{lemma_anchoring_height, spec_byzantine_quorum};
use crate::handlers::{lemma_witnesses_keep_id, with_witnesses, SignInputView};
use crate::payload::{lemma_payload_round_trip, parse_payload_script, PayloadView};
use crate::proposal::ProposalView;
use crate::schema::{lemma_same_spent, BtcAnchoringSchema};
use crate::transaction::transaction_id;

verus! {

impl BtcAnchoringSchema {
    /// Every anchoring transaction but the first spends the first output
    /// of the one before it.
    pub open spec fn chain_is_linked(&self) -> bool {
        forall|i: int|
            1 <= i < self.anchoring_txs_chain@.len() ==> {
                let tx = (#[trigger] self.anchoring_txs_chain@[i])@;
                &&& tx.input.len() > 0
                &&& tx.input[0].prev_txid == transaction_id(self.anchoring_txs_chain@[i - 1]@)
                &&& tx.input[0].vout == 0
            }
    }

    /// Every anchoring transaction carries a payload, and the payload holds
    /// the hash that is recorded for its height.
    pub open spec fn chain_is_anchored(&self) -> bool {
        forall|i: int|
            0 <= i < self.anchoring_txs_chain@.len() ==> {
                let tx = (#[trigger] self.anchoring_txs_chain@[i])@;
                &&& tx.output.len() > 0
                &&& parse_payload_script(tx.output.last().script_pubkey) matches Some(payload)
                &&& payload.block_height < self.anchored_blocks@.len()
                &&& payload.block_hash == self.anchored_blocks@[payload.block_height as int]@
            }
    }

    /// The unspent funding transaction was never spent.
    pub open spec fn funding_is_fresh(&self) -> bool {
        self.unspent_funding_transaction matches Some(tx) ==> !self.is_spent(
            transaction_id(tx@),
        )
    }

    /// What holds of every state that the service reaches.
    pub open spec fn is_sound(&self) -> bool {
        &&& self.chain_is_linked()
        &&& self.chain_is_anchored()
        &&& self.funding_is_fresh()
    }

    /// Whether every funding transaction spent in `self` is spent in `after`.
    pub open spec fn spent_within(&self, after: &BtcAnchoringSchema) -> bool {
        forall|id: Seq<u8>| self.is_spent(id) ==> after.is_spent(id)
    }
}

/// The proposal of a state spends the first output of the latest anchoring
/// transaction with its first input, and carries the hash recorded for a
/// height that is a multiple of the interval of the committee that signs.
pub proof fn lemma_proposal_shape(schema: &BtcAnchoringSchema)
    requires
        schema.configured(),
        schema.anchored_blocks@.len() <= usize::MAX,
    ensures
        schema.spec_anchoring_proposal() matches ProposalView::Available {
            transaction,
            sighashes,
        } ==> {
            &&& 1 <= transaction.input.len() <= 2
            &&& sighashes.len() == transaction.input.len()
            &&& transaction.output.len() == 2
            &&& schema.anchoring_txs_chain@.len() > 0 ==> transaction.input[0].prev_txid
                == transaction_id(schema.anchoring_txs_chain@.last()@)
                && transaction.input[0].vout == 0
            &&& parse_payload_script(transaction.output[1].script_pubkey) matches Some(payload)
            &&& payload.block_height % schema.signing_config().anchoring_interval == 0
            &&& payload.block_height < schema.anchored_blocks@.len()
            &&& payload.block_hash == schema.anchored_blocks@[payload.block_height as int]@
        },
{
    if let ProposalView::Available { transaction, sighashes } = schema.spec_anchoring_proposal() {
        let latest = schema.anchored_blocks@.len() - 1;
        let interval = schema.signing_config().anchoring_interval as int;
        lemma_anchoring_height(latest, interval);
        let height = schema.next_anchoring_height()->Some_0;
        let payload = PayloadView {
            block_height: height,
            block_hash: schema.anchored_blocks@[height as int]@,
        };
        lemma_payload_round_trip(payload);
    }
}

/// A signature that is accepted keeps what holds of every state, and the
/// spent funding transactions stay spent. Where it completes the proposal,
/// the proposal is in the anchoring chain under its identifier, and its
/// payload holds a multiple of the interval of the committee that signed.
pub proof fn lemma_sign_input_keeps_soundness(
    before: &BtcAnchoringSchema,
    after: &BtcAnchoringSchema,
    author: Seq<u8>,
    message: SignInputView,
)
    requires
        before.configured(),
        before.anchored_blocks@.len() <= usize::MAX,
        before.is_sound(),
        before.sign_input_refusal(author, message) is None,
        before.sign_input_applied(after, author, message),
    ensures
        after.is_sound(),
        before.spent_within(after),
        after.is_complete(
            transaction_id(message.transaction),
            message.transaction.input.len(),
            spec_byzantine_quorum(before.signing_config().anchoring_keys.len()),
        ) ==> {
            &&& after.in_chain(transaction_id(message.transaction))
            &&& parse_payload_script(
                after.anchoring_txs_chain@.last()@.output.last().script_pubkey,
            ) matches Some(payload)
            &&& payload.block_height % before.signing_config().anchoring_interval == 0
        },
{
    let signing = before.signing_config();
    let tx = message.transaction;
    let txid = transaction_id(tx);
    let quorum = spec_byzantine_quorum(signing.anchoring_keys.len());
    let chain = before.anchoring_txs_chain@;
    let grown = after.anchoring_txs_chain@;
    lemma_proposal_shape(before);
    if after.is_complete(txid, tx.input.len(), quorum) {
        let witnesses = after.witnesses_of(txid, tx.input.len(), quorum, signing.redeem_script());
        let signed = with_witnesses(tx, witnesses);
        lemma_witnesses_keep_id(tx, witnesses);
        assert(grown[chain.len() as int]@ == signed);
        assert(grown.last() == grown[chain.len() as int]);
        assert(signed.output == tx.output);
        assert(tx.output.last() == tx.output[1]);
        assert forall|i: int| 0 <= i < chain.len() implies grown[i] == chain[i] by {
            assert(grown.subrange(0, chain.len() as int)[i] == chain[i]);
        }
        assert(after.chain_is_linked()) by {
            assert forall|i: int| 1 <= i < grown.len() implies {
                let t = (#[trigger] grown[i])@;
                &&& t.input.len() > 0
                &&& t.input[0].prev_txid == transaction_id(grown[i - 1]@)
                &&& t.input[0].vout == 0
            } by {
                if i < chain.len() {
                    assert(grown[i] == chain[i]);
                    assert(grown[i - 1] == chain[i - 1]);
                } else {
                    assert(grown[i - 1] == chain.last());
                }
            }
        }
        assert(after.chain_is_anchored()) by {
            assert forall|i: int| 0 <= i < grown.len() implies {
                let t = (#[trigger] grown[i])@;
                &&& t.output.len() > 0
                &&& parse_payload_script(t.output.last().script_pubkey) matches Some(payload)
                &&& payload.block_height < after.anchored_blocks@.len()
                &&& payload.block_hash == after.anchored_blocks@[payload.block_height as int]@
            } by {
                if i < chain.len() {
                    assert(grown[i] == chain[i]);
                }
            }
        }
        assert(after.in_chain(txid)) by {
            assert(transaction_id(grown[chain.len() as int]@) == txid);
        }
        let spent = before.spent_funding_transactions@;
        let more = after.spent_funding_transactions@;
        if before.funding_input(signing.out_script()) is Some {
            assert forall|id: Seq<u8>| before.is_spent(id) implies after.is_spent(id) by {
                let i = choose|i: int| 0 <= i < spent.len() && spent[i]@ == id;
                assert(more.subrange(0, spent.len() as int)[i] == spent[i]);
                assert(more[i]@ == id);
            }
        }
    }
}


/// New funds that are accepted keep what holds of every state, and the
/// spent funding transactions stay spent.
pub proof fn lemma_add_funds_keeps_soundness(
    before: &BtcAnchoringSchema,
    after: &BtcAnchoringSchema,
    author: Seq<u8>,
    funds: crate::transaction::Transaction,
)
    requires
        before.is_sound(),
        before.add_funds_refusal(author, funds@) is None,
        after.unspent_funding_transaction == Some(funds),
        after.anchoring_txs_chain == before.anchoring_txs_chain,
        after.spent_funding_transactions == before.spent_funding_transactions,
        after.anchored_blocks == before.anchored_blocks,
    ensures
        after.is_sound(),
        before.spent_within(after),
{
    assert forall|id: Seq<u8>| before.is_spent(id) == after.is_spent(id) by {
        lemma_same_spent(before, after, id);
    }
}

/// A new block of the host blockchain keeps what holds of every state.
pub proof fn lemma_before_commit_keeps_soundness(
    before: &BtcAnchoringSchema,
    after: &BtcAnchoringSchema,
    block_hash: crate::crypto::Hash,
)
    requires
        before.is_sound(),
        after.anchored_blocks@ == before.anchored_blocks@.push(block_hash),
        after.anchoring_txs_chain == before.anchoring_txs_chain,
        after.unspent_funding_transaction == before.unspent_funding_transaction,
        after.spent_funding_transactions == before.spent_funding_transactions,
    ensures
        after.is_sound(),
        before.spent_within(after),
{
    assert forall|id: Seq<u8>| before.is_spent(id) == after.is_spent(id) by {
        lemma_same_spent(before, after, id);
    }
    assert forall|i: int| 0 <= i < after.anchoring_txs_chain@.len() implies {
        let tx = (#[trigger] after.anchoring_txs_chain@[i])@;
        &&& tx.output.len() > 0
        &&& parse_payload_script(tx.output.last().script_pubkey) matches Some(payload)
        &&& payload.block_height < after.anchored_blocks@.len()
        &&& payload.block_hash == after.anchored_blocks@[payload.block_height as int]@
    } by {
        let tx = before.anchoring_txs_chain@[i]@;
        let payload = parse_payload_script(tx.output.last().script_pubkey)->Some_0;
        assert(after.anchored_blocks@[payload.block_height as int]
            == before.anchored_blocks@[payload.block_height as int]);
    }
}

/// A change of the configuration keeps what holds of every state: it
/// touches neither the anchoring chain nor the funds.
pub proof fn lemma_apply_config_keeps_soundness(
    before: &BtcAnchoringSchema,
    after: &BtcAnchoringSchema,
)
    requires
        after.anchoring_txs_chain == before.anchoring_txs_chain,
        after.unspent_funding_transaction == before.unspent_funding_transaction,
        after.spent_funding_transactions == before.spent_funding_transactions,
        after.anchored_blocks == before.anchored_blocks,
    ensures
        before.is_sound() ==> after.is_sound(),
        before.spent_within(after),
{
    assert forall|id: Seq<u8>| before.is_spent(id) == after.is_spent(id) by {
        lemma_same_spent(before, after, id);
    }
}

/// The installation of a configuration keeps what holds of every state,
/// unless the configuration brings a funding transaction that was spent
/// before; on a state in which nothing was spent yet it always does.
pub proof fn lemma_initialize_keeps_soundness(
    before: &BtcAnchoringSchema,
    after: &BtcAnchoringSchema,
    funding: Option<crate::transaction::TransactionView>,
)
    requires
        before.is_sound(),
        after.anchoring_txs_chain == before.anchoring_txs_chain,
        after.spent_funding_transactions == before.spent_funding_transactions,
        after.anchored_blocks == before.anchored_blocks,
        funding is None ==> after.unspent_funding_transaction
            == before.unspent_funding_transaction,
        funding matches Some(tx) ==> !before.is_spent(transaction_id(tx)),
        funding matches Some(tx) ==> (after.unspent_funding_transaction matches Some(unspent)
            && unspent@ == tx),
    ensures
        after.is_sound(),
        before.spent_within(after),
{
    assert forall|id: Seq<u8>| before.is_spent(id) == after.is_spent(id) by {
        lemma_same_spent(before, after, id);
    }
}

/// The state of a service that was just initialized has what holds of
/// every state.
pub proof fn lemma_initialized_is_sound(schema: &BtcAnchoringSchema)
    requires
        schema.anchoring_txs_chain@.len() == 0,
        schema.spent_funding_transactions@.len() == 0,
    ensures
        schema.is_sound(),
{
}

} // verus!

//! The anchoring service: how it is initialized, how it follows the host
//! blockchain, and how its configuration changes.

use vstd::prelude::*;
use crate::config::Config;
use crate::config_codec::decode_config;
use crate::schema::BtcAnchoringSchema;

verus! {

/// Why the service refuses a call.
#[derive(Clone, Copy, Debug, PartialEq, Eq, Structural)]
pub enum ExecutionError {
    /// The caller may not make this call.
    UnauthorizedCaller,
    /// The sender is no member of the committee.
    UnauthorizedSender,
    /// The arguments cannot be read or are not valid.
    MalformedArguments,
    /// The transaction to sign is not the current proposal.
    UnexpectedProposal,
    /// The signature does not verify for the input under the sender's key.
    InvalidSignature,
    /// The sender has signed this input before.
    AlreadySigned,
    /// No output of the funding transaction pays to the committee.
    UnsuitableFundingTransaction,
    /// A funding transaction waits to be spent.
    FundingTransactionPending,
    /// The funding transaction was spent before.
    AlreadyUsedFundingTransaction,
}

/// The Bitcoin anchoring service.
#[derive(Clone, Copy, Debug)]
pub struct BtcAnchoringService;

impl BtcAnchoringService {
    /// The configuration that `params` hold, if they can be read and the
    /// configuration is valid.
    pub open spec fn accepted_params(params: Seq<u8>) -> Option<crate::config::ConfigView> {
        match decode_config(params) {
            Ok(config) => if config.is_valid() {
                Some(config)
            } else {
                None
            },
            Err(_) => None,
        }
    }

    /// Installs a configuration as the one in force, if it is valid. Its
    /// funding transaction, if any, becomes the unspent one. A
    /// configuration that is not valid is refused as malformed arguments
    /// and changes nothing.
    pub fn initialize_with(&self, schema: &mut BtcAnchoringSchema, config: Config) -> (done:
        Result<(), ExecutionError>)
        ensures
            done is Ok <==> config.is_valid(),
            done matches Err(e) ==> (e == ExecutionError::MalformedArguments && *final(schema)
                == *old(schema)),
            done is Ok ==> {
                &&& final(schema).actual_config == Some(config)
                &&& config.funding_transaction matches Some(tx) ==> (final(
                    schema).unspent_funding_transaction matches Some(unspent) && unspent@
                    == tx@)
                &&& config.funding_transaction is None ==> final(
                    schema).unspent_funding_transaction == old(
                    schema).unspent_funding_transaction
                &&& final(schema).following_config == old(schema).following_config
                &&& final(schema).anchoring_txs_chain == old(schema).anchoring_txs_chain
                &&& final(schema).transaction_signatures == old(schema).transaction_signatures
                &&& final(schema).spent_funding_transactions == old(
                    schema).spent_funding_transactions
                &&& final(schema).anchored_blocks == old(schema).anchored_blocks
            },
            done is Ok && old(schema).following_config is None && old(
                schema).anchoring_txs_chain@.len() == 0 ==> final(schema).configured(),
            done is Ok && old(schema).is_sound() && old(
                schema).spent_funding_transactions@.len() == 0 ==> final(schema).is_sound(),
    {
        if config.validate().is_err() {
            return Err(ExecutionError::MalformedArguments);
        }
        match &config.funding_transaction {
            Some(tx) => {
                schema.unspent_funding_transaction = Some(tx.clone());
            },
            None => {},
        }
        proof {
            let funding = config@.funding_transaction;
            if old(schema).is_sound() && old(schema).spent_funding_transactions@.len() == 0 {
                crate::laws::lemma_initialize_keeps_soundness(&*old(schema), &*schema, funding);
            }
        }
        schema.actual_config = Some(config);
        Ok(())
    }

    /// Installs the configuration that `params` hold as the one in force.
    /// Its funding transaction, if any, becomes the unspent one. Parameters
    /// that cannot be read, or that hold no valid configuration, are
    /// malformed arguments and change nothing.
    pub fn initialize(&self, schema: &mut BtcAnchoringSchema, params: Vec<u8>) -> (done: Result<
        (),
        ExecutionError,
    >)
        ensures
            done matches Err(e) ==> (e == ExecutionError::MalformedArguments && *final(schema)
                == *old(schema)),
            done is Err <==> Self::accepted_params(params@) is None,
            done is Ok ==> {
                &&& final(schema).actual_config matches Some(config)
                &&& Self::accepted_params(params@) == Some(config@)
                &&& config.funding_transaction matches Some(tx) ==> (final(
                    schema).unspent_funding_transaction matches Some(unspent) && unspent@
                    == tx@)
                &&& config.funding_transaction is None ==> final(
                    schema).unspent_funding_transaction == old(
                    schema).unspent_funding_transaction
                &&& final(schema).following_config == old(schema).following_config
                &&& final(schema).anchoring_txs_chain == old(schema).anchoring_txs_chain
                &&& final(schema).transaction_signatures == old(schema).transaction_signatures
                &&& final(schema).spent_funding_transactions == old(
                    schema).spent_funding_transactions
                &&& final(schema).anchored_blocks == old(schema).anchored_blocks
            },
            done is Ok && old(schema).following_config is None && old(
                schema).anchoring_txs_chain@.len() == 0 ==> final(schema).configured(),
            done is Ok && old(schema).is_sound() && old(
                schema).spent_funding_transactions@.len() == 0 ==> final(schema).is_sound(),
    {
        match Config::from_bytes(&params) {
            Ok(config) => self.initialize_with(schema, config),
            Err(_) => Err(ExecutionError::MalformedArguments),
        }
    }

    /// Records the hash of the latest block of the host blockchain.
    pub fn before_commit(
        &self,
        schema: &mut BtcAnchoringSchema,
        block_header_hash: crate::crypto::Hash,
    )
        ensures
            final(schema).anchored_blocks@ == old(schema).anchored_blocks@.push(block_header_hash),
            old(schema).configured() ==> final(schema).configured(),
            final(schema).actual_config == old(schema).actual_config,
            final(schema).following_config == old(schema).following_config,
            final(schema).anchoring_txs_chain == old(schema).anchoring_txs_chain,
            final(schema).transaction_signatures == old(schema).transaction_signatures,
            final(schema).unspent_funding_transaction == old(schema).unspent_funding_transaction,
            final(schema).spent_funding_transactions == old(schema).spent_funding_transactions,
    {
        schema.anchored_blocks.push(block_header_hash);
    }

    /// Checks a configuration that the supervisor proposes: only the
    /// supervisor may propose, and the configuration must be valid.
    pub fn verify_config(&self, caller_is_supervisor: bool, params: &Config) -> (done: Result<
        (),
        ExecutionError,
    >)
        ensures
            !caller_is_supervisor ==> done == Err::<(), ExecutionError>(
                ExecutionError::UnauthorizedCaller,
            ),
            caller_is_supervisor && !params.is_valid() ==> done == Err::<(), ExecutionError>(
                ExecutionError::MalformedArguments,
            ),
            caller_is_supervisor && params.is_valid() ==> done is Ok,
    {
        if !caller_is_supervisor {
            return Err(ExecutionError::UnauthorizedCaller);
        }
        match params.validate() {
            Ok(()) => Ok(()),
            Err(_) => Err(ExecutionError::MalformedArguments),
        }
    }

    /// Applies a configuration that the supervisor proposes. Where the
    /// anchoring address stays the same the configuration comes into force
    /// at once; otherwise it waits until the anchoring chain has moved to
    /// the new address. The funds are not touched: new funds come by
    /// [`AddFunds`](crate::handlers::AddFunds).
    pub fn apply_config(
        &self,
        schema: &mut BtcAnchoringSchema,
        caller_is_supervisor: bool,
        params: Config,
    ) -> (done: Result<(), ExecutionError>)
        requires
            caller_is_supervisor ==> params.anchoring_keys@.len() > 0,
            caller_is_supervisor ==> (old(schema).actual_config matches Some(actual)
                && actual.anchoring_keys@.len() > 0),
        ensures
            done is Err <==> !caller_is_supervisor,
            done matches Err(e) ==> (e == ExecutionError::UnauthorizedCaller && *final(schema)
                == *old(schema)),
            done is Ok ==> {
                let same_address = old(schema).actual_config->Some_0.spec_address()
                    == params.spec_address();
                &&& same_address ==> final(schema).actual_config == Some(params) && final(
                    schema).following_config == old(schema).following_config
                &&& !same_address ==> final(schema).following_config == Some(params) && final(
                    schema).actual_config == old(schema).actual_config
            },
            final(schema).unspent_funding_transaction == old(schema).unspent_funding_transaction,
            final(schema).anchoring_txs_chain == old(schema).anchoring_txs_chain,
            final(schema).transaction_signatures == old(schema).transaction_signatures,
            final(schema).spent_funding_transactions == old(schema).spent_funding_transactions,
            final(schema).anchored_blocks == old(schema).anchored_blocks,
            old(schema).configured() && params.anchoring_keys@.len() > 0
                && params.anchoring_interval > 0 ==> final(schema).configured(),
            old(schema).is_sound() ==> final(schema).is_sound(),
            old(schema).spent_within(final(schema)),
    {
        if !caller_is_supervisor {
            proof {
                crate::laws::lemma_apply_config_keeps_soundness(&*old(schema), &*schema);
            }
            return Err(ExecutionError::UnauthorizedCaller);
        }
        let actual_address = schema.actual_configuration().anchoring_address();
        if actual_address.same(&params.anchoring_address()) {
            schema.actual_config = Some(params);
        } else {
            schema.following_config = Some(params);
        }
        proof {
            crate::laws::lemma_apply_config_keeps_soundness(&*old(schema), &*schema);
        }
        Ok(())
    }
}

} // verus!

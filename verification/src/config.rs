//! Committee configuration of the anchoring service.

use vstd::prelude::*;
use crate::btc::{
    key_views, p2wsh_address_text, p2wsh_script_pubkey, redeem_script_bytes, Address, Network,
    PublicKey, RedeemScript, RedeemScriptError,
};
use crate::transaction::{pays_to, Transaction, TransactionView};

verus! {

/// A height of the host blockchain: the number of blocks committed.
#[derive(Clone, Copy, Debug, PartialEq, Eq, Structural)]
pub struct Height(pub u64);

/// The number of members of a committee of `total` that form a Byzantine
/// quorum: more than two thirds of them.
pub open spec fn spec_byzantine_quorum(total: nat) -> nat {
    total * 2 / 3 + 1
}

/// Returns the sufficient number of keys for the given number of validators.
pub fn byzantine_quorum(total: usize) -> (quorum: usize)
    ensures
        quorum == spec_byzantine_quorum(total as nat),
{
    let thirds: usize = total / 3;
    let rest: usize = total % 3;
    thirds * 2 + rest * 2 / 3 + 1
}

/// A quorum of a committee that is not empty is positive and within the
/// number of its members.
pub proof fn lemma_quorum_within_committee(total: nat)
    requires
        total > 0,
    ensures
        0 < spec_byzantine_quorum(total) <= total,
{
}

/// An anchored height is a multiple of the interval, and the heights from
/// it up to the next anchored one share it as their anchored height.
pub proof fn lemma_anchoring_height(height: int, interval: int)
    requires
        height >= 0,
        interval > 0,
    ensures
        (height - height % interval) % interval == 0,
        0 <= height - height % interval <= height < height - height % interval + interval,
        (height - height % interval + interval) % interval == 0,
{
    vstd::arithmetic::div_mod::lemma_fundamental_div_mod(height, interval);
    vstd::arithmetic::div_mod::lemma_mod_multiples_basic(height / interval, interval);
    vstd::arithmetic::mul::lemma_mul_is_commutative(height / interval, interval);
    vstd::arithmetic::div_mod::lemma_mod_decreases(height as nat, interval as nat);
    vstd::arithmetic::div_mod::lemma_mod_add_multiples_vanish(
        height - height % interval,
        interval,
    );
}

/// The keys of one member of the committee.
#[derive(Debug)]
pub struct AnchoringKeys {
    /// The key that signs Bitcoin transactions.
    pub bitcoin_key: PublicKey,
    /// The key by which the host blockchain knows the validator.
    pub service_key: crate::crypto::PublicKey,
}

/// The value of an [`AnchoringKeys`].
pub struct AnchoringKeysView {
    pub bitcoin_key: Seq<u8>,
    pub service_key: Seq<u8>,
}

impl View for AnchoringKeys {
    type V = AnchoringKeysView;

    open spec fn view(&self) -> AnchoringKeysView {
        AnchoringKeysView { bitcoin_key: self.bitcoin_key@, service_key: self.service_key@ }
    }
}

impl Clone for AnchoringKeys {
    fn clone(&self) -> (copy: AnchoringKeys)
        ensures
            copy.bitcoin_key@ == self.bitcoin_key@,
            copy.service_key@ == self.service_key@,
    {
        AnchoringKeys { bitcoin_key: self.bitcoin_key.clone(), service_key: self.service_key }
    }
}

/// The configuration of the anchoring service.
#[derive(Debug)]
pub struct Config {
    /// The Bitcoin network.
    pub network: Network,
    /// The committee, in the order in which the redeem script lists it.
    pub anchoring_keys: Vec<AnchoringKeys>,
    /// The number of blocks between two anchored heights.
    pub anchoring_interval: u64,
    /// The fee, in satoshis per thousand virtual bytes.
    pub transaction_fee: u64,
    /// A transaction that funds the anchoring address.
    pub funding_transaction: Option<Transaction>,
}

/// The value of a [`Config`].
pub struct ConfigView {
    pub network: Network,
    pub anchoring_keys: Seq<AnchoringKeysView>,
    pub anchoring_interval: u64,
    pub transaction_fee: u64,
    pub funding_transaction: Option<TransactionView>,
}

/// The values of a committee.
pub open spec fn committee_views(keys: Seq<AnchoringKeys>) -> Seq<AnchoringKeysView> {
    Seq::new(keys.len(), |i: int| keys[i]@)
}

impl View for Config {
    type V = ConfigView;

    open spec fn view(&self) -> ConfigView {
        ConfigView {
            network: self.network,
            anchoring_keys: committee_views(self.anchoring_keys@),
            anchoring_interval: self.anchoring_interval,
            transaction_fee: self.transaction_fee,
            funding_transaction: match self.funding_transaction {
                Some(tx) => Some(tx@),
                None => None,
            },
        }
    }
}

impl Clone for Config {
    fn clone(&self) -> (copy: Config)
        ensures
            copy@ == self@,
    {
        let mut keys: Vec<AnchoringKeys> = Vec::new();
        let mut i: usize = 0;
        while i < self.anchoring_keys.len()
            invariant
                i <= self.anchoring_keys@.len(),
                keys@.len() == i,
                forall|j: int| 0 <= j < i ==> keys@[j]@ == self.anchoring_keys@[j]@,
            decreases self.anchoring_keys.len() - i,
        {
            keys.push(self.anchoring_keys[i].clone());
            i = i + 1;
        }
        assert(committee_views(keys@) =~= committee_views(self.anchoring_keys@));
        let funding_transaction = match &self.funding_transaction {
            Some(tx) => Some(tx.clone()),
            None => None,
        };
        Config {
            network: self.network,
            anchoring_keys: keys,
            anchoring_interval: self.anchoring_interval,
            transaction_fee: self.transaction_fee,
            funding_transaction,
        }
    }
}

/// Why a configuration is refused.
#[derive(Clone, Copy, Debug, PartialEq, Eq, Structural)]
pub enum ConfigError {
    /// The redeem script of the committee cannot be built.
    RedeemScript(RedeemScriptError),
    /// The anchoring interval is zero.
    ZeroAnchoringInterval,
    /// No output of the funding transaction pays to the anchoring address.
    UnsuitableFundingTransaction,
}

/// The Bitcoin keys of a committee, serialized, in its order.
pub open spec fn bitcoin_keys(keys: Seq<AnchoringKeysView>) -> Seq<Seq<u8>> {
    Seq::new(keys.len(), |i: int| keys[i].bitcoin_key)
}

/// The first member from position `from` on that has the service key.
pub open spec fn find_member(keys: Seq<AnchoringKeysView>, service_key: Seq<u8>, from: int) -> Option<
    int,
>
    decreases keys.len() - from,
{
    if from < 0 || from >= keys.len() {
        None
    } else if keys[from].service_key == service_key {
        Some(from)
    } else {
        find_member(keys, service_key, from + 1)
    }
}

/// What is found is a member with the service key, and the first one.
pub proof fn lemma_find_member(keys: Seq<AnchoringKeysView>, service_key: Seq<u8>, from: int)
    requires
        0 <= from,
    ensures
        find_member(keys, service_key, from) matches Some(n) ==> {
            &&& from <= n < keys.len()
            &&& keys[n].service_key == service_key
            &&& forall|j: int| from <= j < n ==> keys[j].service_key != service_key
        },
        find_member(keys, service_key, from) is None ==> forall|j: int|
            from <= j < keys.len() ==> keys[j].service_key != service_key,
    decreases keys.len() - from,
{
    if from < keys.len() && keys[from].service_key != service_key {
        lemma_find_member(keys, service_key, from + 1);
    }
}

impl ConfigView {
    /// The redeem script bytes of the committee: the script of its Bitcoin
    /// keys with a Byzantine quorum of signatures.
    pub open spec fn redeem_script(self) -> Seq<u8> {
        redeem_script_bytes(
            bitcoin_keys(self.anchoring_keys),
            spec_byzantine_quorum(self.anchoring_keys.len()),
        )
    }

    /// The output script that pays to the committee.
    pub open spec fn out_script(self) -> Seq<u8> {
        p2wsh_script_pubkey(self.redeem_script())
    }

    /// The text of the committee's address.
    pub open spec fn address(self) -> Seq<char> {
        p2wsh_address_text(self.redeem_script(), self.network.spec_address_family())
    }

    /// Whether the configuration is valid: the committee is not empty, the
    /// interval is positive and the funding transaction, if there is one,
    /// pays to the committee.
    pub open spec fn is_valid(self) -> bool {
        &&& self.anchoring_keys.len() > 0
        &&& self.anchoring_interval > 0
        &&& self.funding_transaction matches Some(tx) ==> pays_to(tx, self.out_script())
    }

    /// The first rule that the configuration breaks, if any.
    pub open spec fn validate(self) -> Result<(), ConfigError> {
        if self.anchoring_keys.len() == 0 {
            Err(ConfigError::RedeemScript(RedeemScriptError::NotEnoughPublicKeys))
        } else if self.anchoring_interval == 0 {
            Err(ConfigError::ZeroAnchoringInterval)
        } else if self.funding_transaction matches Some(tx) && !pays_to(tx, self.out_script()) {
            Err(ConfigError::UnsuitableFundingTransaction)
        } else {
            Ok(())
        }
    }
}

impl Default for Config {
    fn default() -> (config: Config)
        ensures
            config.network == Network::Testnet,
            config.anchoring_keys@.len() == 0,
            config.anchoring_interval == 5000,
            config.transaction_fee == 10,
            config.funding_transaction is None,
    {
        Config {
            network: Network::Testnet,
            anchoring_keys: Vec::new(),
            anchoring_interval: 5000,
            transaction_fee: 10,
            funding_transaction: None,
        }
    }
}

impl Config {
    /// The redeem script bytes of the committee: the script of its Bitcoin
    /// keys with a Byzantine quorum of signatures.
    pub open spec fn spec_redeem_script(&self) -> Seq<u8> {
        self@.redeem_script()
    }

    /// The output script that pays to the committee.
    pub open spec fn spec_out_script(&self) -> Seq<u8> {
        self@.out_script()
    }

    /// The text of the committee's address.
    pub open spec fn spec_address(&self) -> Seq<char> {
        self@.address()
    }

    /// The latest height at or below `height` that is anchored.
    pub open spec fn spec_previous_anchoring_height(&self, height: int) -> int {
        height - height % (self.anchoring_interval as int)
    }

    /// The nearest height above `height` that is anchored.
    pub open spec fn spec_following_anchoring_height(&self, height: int) -> int {
        self.spec_previous_anchoring_height(height) + self.anchoring_interval
    }

    /// Whether the configuration is valid.
    pub open spec fn is_valid(&self) -> bool {
        self@.is_valid()
    }

    /// Checks the configuration: its redeem script can be built, its
    /// interval is positive, and its funding transaction, if any, has an
    /// output that pays to the committee.
    pub fn validate(&self) -> (checked: Result<(), ConfigError>)
        ensures
            checked == self@.validate(),
            checked is Ok <==> self.is_valid(),
    {
        let quorum = byzantine_quorum(self.anchoring_keys.len());
        let redeem_script = match RedeemScript::new(self.committee_keys(), quorum) {
            Ok(script) => script,
            Err(e) => {
                return Err(ConfigError::RedeemScript(e));
            },
        };
        if self.anchoring_interval == 0 {
            return Err(ConfigError::ZeroAnchoringInterval);
        }
        match &self.funding_transaction {
            Some(tx) => {
                let out_script = redeem_script.script_pubkey();
                if tx.find_out(&out_script).is_none() {
                    return Err(ConfigError::UnsuitableFundingTransaction);
                }
            },
            None => {},
        }
        Ok(())
    }

    /// Creates a configuration with default parameters for the given
    /// network and committee. An empty committee is refused.
    pub fn with_public_keys(network: Network, keys: Vec<AnchoringKeys>) -> (made: Result<
        Config,
        RedeemScriptError,
    >)
        ensures
            keys@.len() == 0 ==> made == Err::<Config, RedeemScriptError>(
                RedeemScriptError::NotEnoughPublicKeys,
            ),
            keys@.len() > 0 ==> (made matches Ok(config) && {
                &&& config.network == network
                &&& config.anchoring_keys == keys
                &&& config.anchoring_interval == 5000
                &&& config.transaction_fee == 10
                &&& config.funding_transaction is None
            }),
    {
        if keys.len() == 0 {
            return Err(RedeemScriptError::NotEnoughPublicKeys);
        }
        Ok(
            Config {
                network,
                anchoring_keys: keys,
                anchoring_interval: 5000,
                transaction_fee: 10,
                funding_transaction: None,
            },
        )
    }

    /// Tries to find the Bitcoin key of the member with the given service
    /// key: the first such member's index and key.
    pub fn find_bitcoin_key(&self, service_key: &crate::crypto::PublicKey) -> (found: Option<
        (usize, PublicKey),
    >)
        ensures
            found is None <==> find_member(self@.anchoring_keys, service_key@, 0) is None,
            found is None <==> forall|i: int|
                0 <= i < self.anchoring_keys@.len() ==> self.anchoring_keys@[i].service_key@
                    != service_key@,
            found matches Some((n, key)) ==> {
                &&& n < self.anchoring_keys@.len()
                &&& find_member(self@.anchoring_keys, service_key@, 0) == Some(n as int)
                &&& self.anchoring_keys@[n as int].service_key@ == service_key@
                &&& key@ == self.anchoring_keys@[n as int].bitcoin_key@
                &&& forall|j: int|
                    0 <= j < n ==> self.anchoring_keys@[j].service_key@ != service_key@
            },
    {
        let mut n: usize = 0;
        while n < self.anchoring_keys.len()
            invariant
                n <= self.anchoring_keys@.len(),
                forall|j: int|
                    0 <= j < n ==> self.anchoring_keys@[j].service_key@ != service_key@,
                find_member(self@.anchoring_keys, service_key@, 0) == find_member(
                    self@.anchoring_keys,
                    service_key@,
                    n as int,
                ),
            decreases self.anchoring_keys.len() - n,
        {
            assert(self@.anchoring_keys[n as int] == self.anchoring_keys@[n as int]@);
            if self.anchoring_keys[n].service_key.same(service_key) {
                return Some((n, self.anchoring_keys[n].bitcoin_key.clone()));
            }
            n = n + 1;
        }
        None
    }

    /// The Bitcoin keys of the committee, in its order.
    fn committee_keys(&self) -> (keys: Vec<PublicKey>)
        ensures
            key_views(keys@) == bitcoin_keys(self@.anchoring_keys),
            keys@.len() == self.anchoring_keys@.len(),
    {
        let mut keys: Vec<PublicKey> = Vec::new();
        let mut i: usize = 0;
        while i < self.anchoring_keys.len()
            invariant
                i <= self.anchoring_keys@.len(),
                keys@.len() == i,
                forall|j: int| 0 <= j < i ==> keys@[j]@ == self.anchoring_keys@[j].bitcoin_key@,
            decreases self.anchoring_keys.len() - i,
        {
            keys.push(self.anchoring_keys[i].bitcoin_key.clone());
            i = i + 1;
        }
        assert(key_views(keys@) =~= bitcoin_keys(self@.anchoring_keys));
        keys
    }

    /// Returns the redeem script of the committee: its Bitcoin keys, in
    /// their order, with a Byzantine quorum of signatures.
    pub fn redeem_script(&self) -> (script: RedeemScript)
        requires
            self.anchoring_keys@.len() > 0,
        ensures
            script.keys() == bitcoin_keys(self@.anchoring_keys),
            script.spec_quorum() == spec_byzantine_quorum(self.anchoring_keys@.len()),
            script.bytes() == self.spec_redeem_script(),
    {
        let quorum = byzantine_quorum(self.anchoring_keys.len());
        match RedeemScript::new(self.committee_keys(), quorum) {
            Ok(script) => script,
            Err(_) => vstd::pervasive::unreached(),
        }
    }

    /// Returns the Bitcoin address of the committee.
    pub fn anchoring_address(&self) -> (address: Address)
        requires
            self.anchoring_keys@.len() > 0,
        ensures
            address@ == self.spec_address(),
    {
        self.redeem_script().address(self.network)
    }

    /// Computes the P2WSH output script that pays to the committee.
    pub fn anchoring_out_script(&self) -> (script: Vec<u8>)
        requires
            self.anchoring_keys@.len() > 0,
        ensures
            script@ == self.spec_out_script(),
            script@.len() == 34,
    {
        self.redeem_script().script_pubkey()
    }

    /// Returns the latest height at or below the given one which must be
    /// anchored.
    pub fn previous_anchoring_height(&self, current_height: Height) -> (height: Height)
        requires
            self.anchoring_interval > 0,
        ensures
            height.0 == self.spec_previous_anchoring_height(current_height.0 as int),
            height.0 == current_height.0 - current_height.0 % self.anchoring_interval,
            height.0 % self.anchoring_interval == 0,
            height.0 <= current_height.0 < height.0 + self.anchoring_interval,
    {
        proof {
            lemma_anchoring_height(current_height.0 as int, self.anchoring_interval as int);
        }
        Height(current_height.0 - current_height.0 % self.anchoring_interval)
    }

    /// Returns the nearest height above the given one which must be anchored.
    pub fn following_anchoring_height(&self, current_height: Height) -> (height: Height)
        requires
            self.anchoring_interval > 0,
            self.spec_following_anchoring_height(current_height.0 as int) <= u64::MAX,
        ensures
            height.0 == self.spec_following_anchoring_height(current_height.0 as int),
            height.0 == self.spec_previous_anchoring_height(current_height.0 as int)
                + self.anchoring_interval,
            height.0 % self.anchoring_interval == 0,
            height.0 > current_height.0,
    {
        proof {
            lemma_anchoring_height(current_height.0 as int, self.anchoring_interval as int);
        }
        Height(self.previous_anchoring_height(current_height).0 + self.anchoring_interval)
    }
}

} // verus!

//! Bitcoin values that the anchoring rules read, and the calls into the
//! Bitcoin libraries that compute scripts, addresses and identifiers.

use vstd::prelude::*;
use crate::bytes::{bytes_eq, clone_bytes};
use crate::crypto::sha256;

verus! {

/// The Bitcoin network on which the anchoring chain lives.
#[derive(Clone, Copy, Debug, PartialEq, Eq, Structural)]
pub enum Network {
    Mainnet,
    Testnet,
    Regtest,
    Signet,
}

/// The address family of a network. Signet addresses are written like
/// testnet ones, so the four networks fall into three families.
#[derive(Clone, Copy, Debug, PartialEq, Eq, Structural)]
pub enum AddressFamily {
    Bitcoin,
    Testnet,
    Regtest,
}

impl Network {
    /// The family whose prefix the addresses of this network carry.
    pub open spec fn spec_address_family(self) -> AddressFamily {
        match self {
            Network::Mainnet => AddressFamily::Bitcoin,
            Network::Testnet => AddressFamily::Testnet,
            Network::Signet => AddressFamily::Testnet,
            Network::Regtest => AddressFamily::Regtest,
        }
    }

    /// The family whose prefix the addresses of this network carry.
    pub fn address_family(self) -> (family: AddressFamily)
        ensures
            family == self.spec_address_family(),
    {
        match self {
            Network::Mainnet => AddressFamily::Bitcoin,
            Network::Testnet => AddressFamily::Testnet,
            Network::Signet => AddressFamily::Testnet,
            Network::Regtest => AddressFamily::Regtest,
        }
    }
}

/// Whether `bytes` is the serialization of a point on the secp256k1 curve
/// that `bitcoin::PublicKey::from_slice` accepts.
pub uninterp spec fn public_key_is_valid(bytes: Seq<u8>) -> bool;

/// Calls `bitcoin::PublicKey::from_slice` and reports whether it accepted
/// the bytes. The library rejects every length but 33 and 65 before it looks
/// at the point.
#[verifier::external_body]
fn check_public_key(bytes: &Vec<u8>) -> (ok: bool)
    ensures
        ok == public_key_is_valid(bytes@),
        ok ==> bytes@.len() == 33 || bytes@.len() == 65,
{
    bitcoin::PublicKey::from_slice(bytes).is_ok()
}

/// A Bitcoin public key of a committee member, held in its serialized form.
#[derive(Debug)]
pub struct PublicKey {
    bytes: Vec<u8>,
}

impl View for PublicKey {
    type V = Seq<u8>;

    closed spec fn view(&self) -> Seq<u8> {
        self.bytes@
    }
}

impl PublicKey {
    #[verifier::type_invariant]
    spec fn well_formed(self) -> bool {
        &&& public_key_is_valid(self.bytes@)
        &&& self.bytes@.len() == 33 || self.bytes@.len() == 65
    }

    /// Accepts the serialized form of a key; `None` where the bytes are no
    /// valid key.
    pub fn from_slice(bytes: Vec<u8>) -> (key: Option<PublicKey>)
        ensures
            key is Some <==> public_key_is_valid(bytes@),
            key matches Some(k) ==> k@ == bytes@,
    {
        if check_public_key(&bytes) {
            Some(PublicKey { bytes })
        } else {
            None
        }
    }

    /// The serialized form of the key.
    pub fn to_bytes(&self) -> (bytes: Vec<u8>)
        ensures
            bytes@ == self@,
            public_key_is_valid(bytes@),
            bytes@.len() == 33 || bytes@.len() == 65,
    {
        proof {
            use_type_invariant(self);
        }
        clone_bytes(&self.bytes)
    }

    /// Whether two keys have the same serialized form.
    pub fn same(&self, other: &PublicKey) -> (same: bool)
        ensures
            same == (self@ == other@),
    {
        bytes_eq(&self.bytes, &other.bytes)
    }
}

impl Clone for PublicKey {
    fn clone(&self) -> (copy: PublicKey)
        ensures
            copy@ == self@,
    {
        proof {
            use_type_invariant(self);
        }
        PublicKey { bytes: clone_bytes(&self.bytes) }
    }
}

/// Why a redeem script cannot be built or read.
#[derive(Clone, Copy, Debug, PartialEq, Eq, Structural)]
pub enum RedeemScriptError {
    /// Not enough keys for the quorum.
    IncorrectQuorum,
    /// The quorum was not set.
    NoQuorum,
    /// At least one public key must be given.
    NotEnoughPublicKeys,
    /// The script is not a standard redeem script.
    NotStandard,
}

/// The multisignature script that `RedeemScriptBuilder::to_script` of
/// btc-transaction-utils builds from the keys, in their order, and the quorum.
pub uninterp spec fn redeem_script_bytes(keys: Seq<Seq<u8>>, quorum: nat) -> Seq<u8>;

/// The check of `RedeemScriptBuilder::to_script` that a committee of
/// `total` keys with the given quorum fails, if any. The builder makes its
/// three checks in this order.
pub open spec fn redeem_script_refusal(total: nat, quorum: nat) -> Option<RedeemScriptError> {
    if quorum == 0 {
        Some(RedeemScriptError::NoQuorum)
    } else if total == 0 {
        Some(RedeemScriptError::NotEnoughPublicKeys)
    } else if total < quorum {
        Some(RedeemScriptError::IncorrectQuorum)
    } else {
        None
    }
}

/// Calls `RedeemScriptBuilder::with_public_keys(..).quorum(..).to_script()`
/// of btc-transaction-utils on the keys parsed back from their bytes. The
/// builder refuses a zero quorum, then an empty key list, then a quorum
/// above the number of keys; otherwise it answers with the script.
#[verifier::external_body]
fn build_redeem_script(keys: &Vec<PublicKey>, quorum: usize) -> (built: Result<
    Vec<u8>,
    RedeemScriptError,
>)
    ensures
        built matches Ok(script) ==> script@ == redeem_script_bytes(
            key_views(keys@),
            quorum as nat,
        ),
        built is Ok <==> redeem_script_refusal(keys@.len(), quorum as nat) is None,
        built matches Err(e) ==> redeem_script_refusal(keys@.len(), quorum as nat) == Some(e),
{
    let parsed = keys.iter().map(|k| bitcoin::PublicKey::from_slice(&k.bytes).unwrap());
    match btc_transaction_utils::multisig::RedeemScriptBuilder::with_public_keys(parsed)
        .quorum(quorum)
        .to_script() {
        Ok(script) => Ok(bitcoin::Script::from(script).into_bytes()),
        Err(btc_transaction_utils::multisig::RedeemScriptError::IncorrectQuorum) => Err(RedeemScriptError::IncorrectQuorum),
        Err(btc_transaction_utils::multisig::RedeemScriptError::NoQuorum) => Err(RedeemScriptError::NoQuorum),
        Err(btc_transaction_utils::multisig::RedeemScriptError::NotEnoughPublicKeys) => Err(RedeemScriptError::NotEnoughPublicKeys),
        Err(btc_transaction_utils::multisig::RedeemScriptError::NotStandard) => Err(RedeemScriptError::NotStandard),
    }
}

/// The serialized forms of a list of keys.
pub open spec fn key_views(keys: Seq<PublicKey>) -> Seq<Seq<u8>> {
    Seq::new(keys.len(), |i: int| keys[i]@)
}


/// The version 0 witness program that pays to `script`: the opcode for an
/// empty push and one push of the 32 bytes of the script's SHA-256.
pub open spec fn p2wsh_script_pubkey(script: Seq<u8>) -> Seq<u8> {
    seq![0u8, 32u8] + sha256(script)
}

/// Calls `bitcoin::Script::to_v0_p2wsh`: the script made of `OP_0` and one
/// push of the SHA-256 of `script`, 34 bytes.
#[verifier::external_body]
fn to_v0_p2wsh(script: &Vec<u8>) -> (out: Vec<u8>)
    ensures
        out@ == seq![0u8, 32u8] + sha256(script@),
        out@.len() == 34,
{
    bitcoin::Script::from(script.clone()).to_v0_p2wsh().into_bytes()
}

/// The text of the P2WSH address of `script` in an address family: what
/// `bitcoin::Address::p2wsh` builds and its `Display` writes.
pub uninterp spec fn p2wsh_address_text(script: Seq<u8>, family: AddressFamily) -> Seq<char>;

/// Calls `bitcoin::Address::p2wsh` for the script and the network of the
/// family, and renders the address.
#[verifier::external_body]
fn p2wsh_address(script: &Vec<u8>, family: AddressFamily) -> (text: String)
    ensures
        text@ == p2wsh_address_text(script@, family),
{
    let network = match family {
        AddressFamily::Bitcoin => bitcoin::Network::Bitcoin,
        AddressFamily::Testnet => bitcoin::Network::Testnet,
        AddressFamily::Regtest => bitcoin::Network::Regtest,
    };
    bitcoin::Address::p2wsh(&bitcoin::Script::from(script.clone()), network).to_string()
}

/// A Bitcoin address, held as its text.
#[derive(Debug)]
pub struct Address {
    text: String,
}

impl View for Address {
    type V = Seq<char>;

    closed spec fn view(&self) -> Seq<char> {
        self.text@
    }
}

impl Address {
    /// The address as text.
    pub fn to_string(&self) -> (text: String)
        ensures
            text@ == self@,
    {
        self.text.clone()
    }

    /// Whether two addresses are the same.
    pub fn same(&self, other: &Address) -> (same: bool)
        ensures
            same == (self@ == other@),
    {
        self.text == other.text
    }
}

/// The redeem script of a committee: the keys in their order, the number of
/// signatures that spends an output, and the script itself.
#[derive(Debug)]
pub struct RedeemScript {
    public_keys: Vec<PublicKey>,
    quorum: usize,
    script: Vec<u8>,
}

/// What a redeem script says: the keys and the quorum.
#[derive(Debug)]
pub struct RedeemScriptContent {
    /// The public keys of the participants.
    pub public_keys: Vec<PublicKey>,
    /// The number of signatures that spends an output of this script.
    pub quorum: usize,
}

impl RedeemScript {
    #[verifier::type_invariant]
    spec fn well_formed(self) -> bool {
        &&& 0 < self.quorum <= self.public_keys@.len()
        &&& self.script@ == redeem_script_bytes(key_views(self.public_keys@), self.quorum as nat)
    }

    /// The serialized keys, in the committee's order.
    pub closed spec fn keys(&self) -> Seq<Seq<u8>> {
        key_views(self.public_keys@)
    }

    /// The number of signatures required.
    pub closed spec fn spec_quorum(&self) -> nat {
        self.quorum as nat
    }

    /// The bytes of the script.
    pub closed spec fn bytes(&self) -> Seq<u8> {
        self.script@
    }

    /// Builds the redeem script of the keys with the given quorum.
    pub fn new(public_keys: Vec<PublicKey>, quorum: usize) -> (built: Result<
        RedeemScript,
        RedeemScriptError,
    >)
        ensures
            built is Ok <==> redeem_script_refusal(public_keys@.len(), quorum as nat) is None,
            built matches Err(e) ==> redeem_script_refusal(public_keys@.len(), quorum as nat)
                == Some(e),
            built matches Ok(rs) ==> {
                &&& rs.keys() == key_views(public_keys@)
                &&& rs.spec_quorum() == quorum
                &&& rs.bytes() == redeem_script_bytes(key_views(public_keys@), quorum as nat)
            },
    {
        match build_redeem_script(&public_keys, quorum) {
            Ok(script) => Ok(RedeemScript { public_keys, quorum, script }),
            Err(e) => Err(e),
        }
    }

    /// The number of signatures that spends an output of this script.
    pub fn quorum(&self) -> (quorum: usize)
        ensures
            quorum == self.spec_quorum(),
            0 < quorum <= self.keys().len(),
    {
        proof {
            use_type_invariant(self);
        }
        self.quorum
    }

    /// The number of keys.
    pub fn total(&self) -> (total: usize)
        ensures
            total == self.keys().len(),
    {
        self.public_keys.len()
    }

    /// The keys and the quorum.
    pub fn content(&self) -> (content: RedeemScriptContent)
        ensures
            content.quorum == self.spec_quorum(),
            key_views(content.public_keys@) == self.keys(),
    {
        let mut keys: Vec<PublicKey> = Vec::new();
        let mut i: usize = 0;
        while i < self.public_keys.len()
            invariant
                i <= self.public_keys.len(),
                keys@.len() == i,
                forall|j: int| 0 <= j < i ==> keys@[j]@ == self.public_keys@[j]@,
            decreases self.public_keys.len() - i,
        {
            keys.push(self.public_keys[i].clone());
            i = i + 1;
        }
        assert(key_views(keys@) =~= key_views(self.public_keys@));
        RedeemScriptContent { public_keys: keys, quorum: self.quorum }
    }

    /// The bytes of the script.
    pub fn to_bytes(&self) -> (bytes: Vec<u8>)
        ensures
            bytes@ == self.bytes(),
            bytes@ == redeem_script_bytes(self.keys(), self.spec_quorum()),
    {
        proof {
            use_type_invariant(self);
        }
        clone_bytes(&self.script)
    }

    /// The output script that pays to this redeem script.
    pub fn script_pubkey(&self) -> (out: Vec<u8>)
        ensures
            out@ == p2wsh_script_pubkey(self.bytes()),
            out@.len() == 34,
    {
        to_v0_p2wsh(&self.script)
    }

    /// The address of this redeem script on a network.
    pub fn address(&self, network: Network) -> (address: Address)
        ensures
            address@ == p2wsh_address_text(self.bytes(), network.spec_address_family()),
    {
        Address { text: p2wsh_address(&self.script, network.address_family()) }
    }
}

} // verus!

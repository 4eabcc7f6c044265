//! The encoding of a configuration: a record with one field for the
//! network, one for each member of the committee, one each for the interval
//! and the fee, and one for the funding transaction where there is one.

use vstd::prelude::*;
use crate::binary_map::{decode_key_value, key_value_record, lemma_decode_key_value, Pair};
use crate::btc::{public_key_is_valid, Network, PublicKey};
use crate::config::{committee_views, AnchoringKeys, AnchoringKeysView, Config, ConfigView};
use crate::transaction::{decoded_transaction, transaction_encoding, Transaction};
use crate::wire::{
    bytes_field, lemma_read_bytes_field, lemma_read_field_consumes, lemma_read_varint_field,
    optional_varint_field, read_field, read_field_at, write_bytes_field,
    write_optional_varint_field, DecodeError,
    FieldView, WIRE_LENGTH_DELIMITED, WIRE_VARINT,
};

verus! {

/// The number that stands for a network on the wire.
pub open spec fn network_code(network: Network) -> u64 {
    match network {
        Network::Mainnet => 0,
        Network::Testnet => 1,
        Network::Regtest => 2,
        Network::Signet => 3,
    }
}

/// The network that a number stands for, if any.
pub open spec fn network_of_code(code: u64) -> Option<Network> {
    if code == 0 {
        Some(Network::Mainnet)
    } else if code == 1 {
        Some(Network::Testnet)
    } else if code == 2 {
        Some(Network::Regtest)
    } else if code == 3 {
        Some(Network::Signet)
    } else {
        None
    }
}

/// The record of one member: the Bitcoin key as field 1, the service key as
/// field 2.
pub open spec fn keys_record(keys: AnchoringKeysView) -> Seq<u8> {
    key_value_record(keys.bitcoin_key, keys.service_key)
}

/// The fields of a committee, one member after the other.
pub open spec fn encode_committee(keys: Seq<AnchoringKeysView>) -> Seq<u8>
    decreases keys.len(),
{
    if keys.len() == 0 {
        Seq::empty()
    } else {
        encode_committee(keys.drop_last()) + bytes_field(2, keys_record(keys.last()))
    }
}

/// The field of the funding transaction: its consensus serialization, or
/// nothing where there is none.
pub open spec fn encode_funding(config: ConfigView) -> Seq<u8> {
    match config.funding_transaction {
        Some(tx) => bytes_field(5, transaction_encoding(tx)),
        None => Seq::empty(),
    }
}

/// The encoding of a configuration. The numbers are left out where they
/// are zero.
pub open spec fn encode_config(config: ConfigView) -> Seq<u8> {
    optional_varint_field(1, network_code(config.network)) + encode_committee(
        config.anchoring_keys,
    ) + optional_varint_field(3, config.anchoring_interval) + optional_varint_field(
        4,
        config.transaction_fee,
    ) + encode_funding(config)
}

/// The configuration from which reading starts: every field is empty.
pub open spec fn blank_config() -> ConfigView {
    ConfigView {
        network: Network::Mainnet,
        anchoring_keys: Seq::empty(),
        anchoring_interval: 0,
        transaction_fee: 0,
        funding_transaction: None,
    }
}

/// Whether a pair of byte strings is a member of a committee: a valid
/// Bitcoin key and a service key of 32 bytes.
pub open spec fn is_member(pair: Pair) -> bool {
    public_key_is_valid(pair.0) && pair.1.len() == 32
}

/// What one field makes of the configuration read so far. A field of the
/// committee adds a member; every other known field replaces what was read
/// before; an unknown field changes nothing.
pub open spec fn apply_config_field(field: FieldView, read: ConfigView) -> Result<
    ConfigView,
    DecodeError,
> {
    if field.number == 1 || field.number == 3 || field.number == 4 {
        if field.wire_type != WIRE_VARINT {
            Err(DecodeError::UnexpectedWireType)
        } else if field.number == 1 {
            match network_of_code(field.value) {
                Some(network) => Ok(ConfigView { network, ..read }),
                None => Err(DecodeError::InvalidValue),
            }
        } else if field.number == 3 {
            Ok(ConfigView { anchoring_interval: field.value, ..read })
        } else {
            Ok(ConfigView { transaction_fee: field.value, ..read })
        }
    } else if field.number == 2 || field.number == 5 {
        if field.wire_type != WIRE_LENGTH_DELIMITED {
            Err(DecodeError::UnexpectedWireType)
        } else if field.number == 2 {
            match decode_key_value(field.payload, Seq::empty(), Seq::empty()) {
                Err(e) => Err(e),
                Ok(pair) => if is_member(pair) {
                    Ok(
                        ConfigView {
                            anchoring_keys: read.anchoring_keys.push(
                                AnchoringKeysView { bitcoin_key: pair.0, service_key: pair.1 },
                            ),
                            ..read
                        },
                    )
                } else {
                    Err(DecodeError::InvalidValue)
                },
            }
        } else {
            match decoded_transaction(field.payload) {
                Some(tx) => Ok(ConfigView { funding_transaction: Some(tx), ..read }),
                None => Err(DecodeError::InvalidValue),
            }
        }
    } else {
        Ok(read)
    }
}

/// Reads the fields of a configuration behind what was read so far.
pub open spec fn decode_config_fields(bytes: Seq<u8>, read: ConfigView) -> Result<
    ConfigView,
    DecodeError,
>
    decreases bytes.len(),
{
    if bytes.len() == 0 {
        Ok(read)
    } else {
        match read_field(bytes) {
            Err(e) => Err(e),
            Ok(field) => {
                proof {
                    lemma_read_field_consumes(bytes);
                }
                match apply_config_field(field, read) {
                    Err(e) => Err(e),
                    Ok(next) => decode_config_fields(field.rest, next),
                }
            },
        }
    }
}

/// Reads an encoded configuration.
pub open spec fn decode_config(bytes: Seq<u8>) -> Result<ConfigView, DecodeError> {
    decode_config_fields(bytes, blank_config())
}

/// Whether a configuration can be written and read back: its members are
/// members, every length fits the length field, and the Bitcoin library
/// reads the funding transaction back from its serialization.
pub open spec fn is_encodable(config: ConfigView) -> bool {
    &&& forall|i: int|
        0 <= i < config.anchoring_keys.len() ==> {
            let keys = #[trigger] config.anchoring_keys[i];
            &&& is_member((keys.bitcoin_key, keys.service_key))
            &&& keys.bitcoin_key.len() > 0
            &&& keys.bitcoin_key.len() <= u64::MAX
            &&& keys_record(keys).len() <= u64::MAX
        }
    &&& config.funding_transaction matches Some(tx) ==> {
        &&& transaction_encoding(tx).len() <= u64::MAX
        &&& decoded_transaction(transaction_encoding(tx)) == Some(tx)
    }
}

/// Reading the fields of a committee adds its members to what was read
/// before, and goes on with what stands behind them.
pub proof fn lemma_decode_committee(keys: Seq<AnchoringKeysView>, rest: Seq<u8>, read: ConfigView)
    requires
        forall|i: int|
            0 <= i < keys.len() ==> {
                let k = #[trigger] keys[i];
                &&& is_member((k.bitcoin_key, k.service_key))
                &&& k.bitcoin_key.len() > 0
                &&& k.bitcoin_key.len() <= u64::MAX
                &&& keys_record(k).len() <= u64::MAX
            },
    ensures
        decode_config_fields(encode_committee(keys) + rest, read) == decode_config_fields(
            rest,
            ConfigView { anchoring_keys: read.anchoring_keys + keys, ..read },
        ),
    decreases keys.len(),
{
    if keys.len() == 0 {
        assert(encode_committee(keys) + rest =~= rest);
        assert(read.anchoring_keys + keys =~= read.anchoring_keys);
    } else {
        let front = keys.drop_last();
        let last = keys.last();
        let behind = bytes_field(2, keys_record(last)) + rest;
        assert(encode_committee(keys) + rest =~= encode_committee(front) + behind);
        assert forall|i: int| 0 <= i < front.len() implies {
            let k = #[trigger] front[i];
            &&& is_member((k.bitcoin_key, k.service_key))
            &&& k.bitcoin_key.len() > 0
            &&& k.bitcoin_key.len() <= u64::MAX
            &&& keys_record(k).len() <= u64::MAX
        } by {
            assert(front[i] == keys[i]);
        }
        lemma_decode_committee(front, behind, read);
        let k = keys[keys.len() - 1];
        assert(k == last);
        lemma_read_bytes_field(2, keys_record(last), rest);
        lemma_decode_key_value(
            (last.bitcoin_key, last.service_key),
            Seq::empty(),
            Seq::empty(),
        );
        assert((read.anchoring_keys + front).push(last) =~= read.anchoring_keys + keys);
        assert(behind.len() > 0);
    }
}

/// What was read with one of its numbers replaced: the network for field
/// 1, the interval for field 3, the fee for field 4.
pub open spec fn with_number(read: ConfigView, number: nat, value: u64) -> ConfigView {
    if number == 1 {
        ConfigView { network: network_of_code(value)->Some_0, ..read }
    } else if number == 3 {
        ConfigView { anchoring_interval: value, ..read }
    } else {
        ConfigView { transaction_fee: value, ..read }
    }
}

/// Reading a number that may be left out sets it in what was read before,
/// and goes on with what stands behind it.
pub proof fn lemma_decode_config_number(number: nat, value: u64, rest: Seq<u8>, read: ConfigView)
    requires
        number == 1 || number == 3 || number == 4,
        number == 1 ==> network_of_code(value) is Some,
        value == 0 ==> with_number(read, number, value) == read,
    ensures
        decode_config_fields(optional_varint_field(number, value) + rest, read)
            == decode_config_fields(rest, with_number(read, number, value)),
{
    let field = optional_varint_field(number, value);
    if value != 0 {
        lemma_read_varint_field(number, value, rest);
        assert(field.len() > 0);
    } else {
        assert(field + rest =~= rest);
    }
}

/// Reading the field of the funding transaction, or nothing where there is
/// none, ends the reading with the configuration.
pub proof fn lemma_decode_funding(config: ConfigView)
    requires
        is_encodable(config),
    ensures
        decode_config_fields(
            encode_funding(config),
            ConfigView { funding_transaction: None, ..config },
        ) == Ok::<ConfigView, DecodeError>(config),
{
    let funding = encode_funding(config);
    match config.funding_transaction {
        Some(tx) => {
            lemma_read_bytes_field(5, transaction_encoding(tx), Seq::empty());
            assert(funding + Seq::<u8>::empty() =~= funding);
            assert(funding.len() > 0);
            assert(decode_config_fields(Seq::empty(), config) == Ok::<ConfigView, DecodeError>(
                config,
            ));
        },
        None => {},
    }
}

/// Reading the encoding of a configuration gives the configuration back.
pub proof fn lemma_config_round_trip(config: ConfigView)
    requires
        is_encodable(config),
    ensures
        decode_config(encode_config(config)) == Ok::<ConfigView, DecodeError>(config),
{
    let code = network_code(config.network);
    let committee = encode_committee(config.anchoring_keys);
    let interval = optional_varint_field(3, config.anchoring_interval);
    let fee = optional_varint_field(4, config.transaction_fee);
    let funding = encode_funding(config);
    let blank = blank_config();
    let with_network = ConfigView { network: config.network, ..blank };
    let with_keys = ConfigView { anchoring_keys: config.anchoring_keys, ..with_network };
    let with_interval = ConfigView { anchoring_interval: config.anchoring_interval, ..with_keys };
    let with_fee = ConfigView { transaction_fee: config.transaction_fee, ..with_interval };

    let behind_network = committee + (interval + (fee + funding));
    assert(encode_config(config) =~= optional_varint_field(1, code) + behind_network);
    lemma_decode_config_number(1, code, behind_network, blank);
    assert(with_number(blank, 1, code) == with_network);

    lemma_decode_committee(config.anchoring_keys, interval + (fee + funding), with_network);
    assert(with_network.anchoring_keys + config.anchoring_keys =~= config.anchoring_keys);

    lemma_decode_config_number(3, config.anchoring_interval, fee + funding, with_keys);
    assert(with_number(with_keys, 3, config.anchoring_interval) == with_interval);

    lemma_decode_config_number(4, config.transaction_fee, funding, with_interval);
    assert(with_number(with_interval, 4, config.transaction_fee) == with_fee);

    lemma_decode_funding(config);
    assert(with_fee == ConfigView { funding_transaction: None, ..config });
}

impl Network {
    /// The number that stands for the network on the wire.
    pub fn to_code(self) -> (code: u64)
        ensures
            code == network_code(self),
    {
        match self {
            Network::Mainnet => 0,
            Network::Testnet => 1,
            Network::Regtest => 2,
            Network::Signet => 3,
        }
    }

    /// The network that a number stands for.
    pub fn from_code(code: u64) -> (network: Option<Network>)
        ensures
            network == network_of_code(code),
    {
        if code == 0 {
            Some(Network::Mainnet)
        } else if code == 1 {
            Some(Network::Testnet)
        } else if code == 2 {
            Some(Network::Regtest)
        } else if code == 3 {
            Some(Network::Signet)
        } else {
            None
        }
    }
}

impl Config {
    /// The encoding of the configuration.
    pub fn to_bytes(&self) -> (bytes: Vec<u8>)
        ensures
            bytes@ == encode_config(self@),
    {
        let ghost view = self@;
        let mut out: Vec<u8> = Vec::new();
        write_optional_varint_field(&mut out, 1, self.network.to_code());
        let ghost head = out@;
        let mut i: usize = 0;
        while i < self.anchoring_keys.len()
            invariant
                i <= self.anchoring_keys@.len(),
                view == self@,
                out@ == head + encode_committee(view.anchoring_keys.take(i as int)),
            decreases self.anchoring_keys.len() - i,
        {
            let key = self.anchoring_keys[i].bitcoin_key.to_bytes();
            let service = crate::bytes::array_to_vec(&self.anchoring_keys[i].service_key.0);
            let mut record: Vec<u8> = Vec::new();
            write_bytes_field(&mut record, 1, &key);
            write_bytes_field(&mut record, 2, &service);
            proof {
                let keys = view.anchoring_keys[i as int];
                assert(keys == self.anchoring_keys@[i as int]@);
                assert(record@ =~= keys_record(keys));
                assert(view.anchoring_keys.take(i + 1).drop_last() =~= view.anchoring_keys.take(
                    i as int,
                ));
                assert(view.anchoring_keys.take(i + 1).last() == keys);
            }
            write_bytes_field(&mut out, 2, &record);
            assert(out@ =~= head + encode_committee(view.anchoring_keys.take(i + 1)));
            i = i + 1;
        }
        assert(view.anchoring_keys.take(self.anchoring_keys@.len() as int)
            =~= view.anchoring_keys);
        write_optional_varint_field(&mut out, 3, self.anchoring_interval);
        write_optional_varint_field(&mut out, 4, self.transaction_fee);
        match &self.funding_transaction {
            Some(tx) => {
                let encoded = tx.to_bytes();
                write_bytes_field(&mut out, 5, &encoded);
            },
            None => {},
        }
        assert(out@ =~= encode_config(view));
        out
    }

    /// Reads a configuration from its encoding.
    pub fn from_bytes(bytes: &Vec<u8>) -> (read: Result<Config, DecodeError>)
        ensures
            match decode_config(bytes@) {
                Ok(config) => read matches Ok(c) && c@ == config,
                Err(e) => read matches Err(r) && r == e,
            },
    {
        let mut config = Config {
            network: Network::Mainnet,
            anchoring_keys: Vec::new(),
            anchoring_interval: 0,
            transaction_fee: 0,
            funding_transaction: None,
        };
        assert(config@.anchoring_keys =~= blank_config().anchoring_keys);
        let mut pos: usize = 0;
        assert(bytes@.skip(0) =~= bytes@);
        while pos < bytes.len()
            invariant
                pos <= bytes@.len(),
                decode_config(bytes@) == decode_config_fields(bytes@.skip(pos as int), config@),
            decreases bytes.len() - pos,
        {
            let field = match read_field_at(bytes, pos) {
                Ok(field) => field,
                Err(e) => {
                    return Err(e);
                },
            };
            let ghost before = config@;
            if field.number == 1 || field.number == 3 || field.number == 4 {
                if field.wire_type != WIRE_VARINT {
                    return Err(DecodeError::UnexpectedWireType);
                }
                if field.number == 1 {
                    match Network::from_code(field.value) {
                        Some(network) => {
                            config.network = network;
                        },
                        None => {
                            return Err(DecodeError::InvalidValue);
                        },
                    }
                } else if field.number == 3 {
                    config.anchoring_interval = field.value;
                } else {
                    config.transaction_fee = field.value;
                }
            } else if field.number == 2 || field.number == 5 {
                if field.wire_type != WIRE_LENGTH_DELIMITED {
                    return Err(DecodeError::UnexpectedWireType);
                }
                if field.number == 2 {
                    let entry = match crate::binary_map::read_key_value(&field.payload) {
                        Ok(entry) => entry,
                        Err(e) => {
                            return Err(e);
                        },
                    };
                    if entry.value.len() != 32 {
                        return Err(DecodeError::InvalidValue);
                    }
                    let service_key = crate::crypto::PublicKey(crate::bytes::to_array(&entry.value));
                    let bitcoin_key = match PublicKey::from_slice(entry.key) {
                        Some(key) => key,
                        None => {
                            return Err(DecodeError::InvalidValue);
                        },
                    };
                    let ghost member = AnchoringKeysView {
                        bitcoin_key: bitcoin_key@,
                        service_key: service_key@,
                    };
                    config.anchoring_keys.push(AnchoringKeys { bitcoin_key, service_key });
                    assert(config@.anchoring_keys =~= before.anchoring_keys.push(member));
                } else {
                    match Transaction::from_bytes(&field.payload) {
                        Some(tx) => {
                            config.funding_transaction = Some(tx);
                        },
                        None => {
                            return Err(DecodeError::InvalidValue);
                        },
                    }
                }
            }
            assert(config@.anchoring_keys =~= committee_views(config.anchoring_keys@));
            pos = field.next;
        }
        Ok(config)
    }
}

} // verus!

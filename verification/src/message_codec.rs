//! The encoding of the two transactions of the service: a signature of an
//! input, and new funds.

use vstd::prelude::*;
use crate::handlers::{AddFunds, SignInput, SignInputView};
use crate::transaction::{decoded_transaction, transaction_encoding, Transaction, TransactionView};
use crate::wire::{
    bytes_field, lemma_read_bytes_field, lemma_read_field_consumes, lemma_read_varint_field,
    optional_bytes_field, optional_varint_field, read_field, read_field_at, write_bytes_field,
    write_optional_bytes_field, write_optional_varint_field, DecodeError,
    FieldView, WIRE_LENGTH_DELIMITED, WIRE_VARINT,
};

verus! {

/// The encoding of a signature of an input: the transaction as field 1, the
/// index of the input as field 2, the signature as field 3. The index is
/// left out where it is zero, the signature where it is empty.
pub open spec fn encode_sign_input(message: SignInputView) -> Seq<u8> {
    bytes_field(1, transaction_encoding(message.transaction)) + optional_varint_field(
        2,
        message.input as u64,
    ) + optional_bytes_field(3, message.input_signature)
}

/// What was read of a signature of an input so far.
pub struct PartialSignInput {
    pub transaction: Option<TransactionView>,
    pub input: u32,
    pub input_signature: Seq<u8>,
}

/// What one field makes of what was read so far: a known field replaces
/// what was read before, an unknown one changes nothing.
pub open spec fn apply_sign_input_field(field: FieldView, read: PartialSignInput) -> Result<
    PartialSignInput,
    DecodeError,
> {
    if field.number == 1 || field.number == 3 {
        if field.wire_type != WIRE_LENGTH_DELIMITED {
            Err(DecodeError::UnexpectedWireType)
        } else if field.number == 3 {
            Ok(PartialSignInput { input_signature: field.payload, ..read })
        } else {
            match decoded_transaction(field.payload) {
                Some(tx) => Ok(PartialSignInput { transaction: Some(tx), ..read }),
                None => Err(DecodeError::InvalidValue),
            }
        }
    } else if field.number == 2 {
        if field.wire_type != WIRE_VARINT {
            Err(DecodeError::UnexpectedWireType)
        } else if field.value > u32::MAX {
            Err(DecodeError::Overflow)
        } else {
            Ok(PartialSignInput { input: field.value as u32, ..read })
        }
    } else {
        Ok(read)
    }
}

/// Reads the fields of a signature of an input behind what was read so
/// far. A message without a transaction is refused.
pub open spec fn decode_sign_input_fields(bytes: Seq<u8>, read: PartialSignInput) -> Result<
    SignInputView,
    DecodeError,
>
    decreases bytes.len(),
{
    if bytes.len() == 0 {
        match read.transaction {
            Some(transaction) => Ok(
                SignInputView {
                    transaction,
                    input: read.input,
                    input_signature: read.input_signature,
                },
            ),
            None => Err(DecodeError::InvalidValue),
        }
    } else {
        match read_field(bytes) {
            Err(e) => Err(e),
            Ok(field) => {
                proof {
                    lemma_read_field_consumes(bytes);
                }
                match apply_sign_input_field(field, read) {
                    Err(e) => Err(e),
                    Ok(next) => decode_sign_input_fields(field.rest, next),
                }
            },
        }
    }
}

/// Reads an encoded signature of an input.
pub open spec fn decode_sign_input(bytes: Seq<u8>) -> Result<SignInputView, DecodeError> {
    decode_sign_input_fields(
        bytes,
        PartialSignInput { transaction: None, input: 0, input_signature: Seq::empty() },
    )
}

/// Whether the Bitcoin library reads a transaction back from its
/// serialization, and the serialization fits the length field.
pub open spec fn is_encodable_transaction(tx: TransactionView) -> bool {
    &&& transaction_encoding(tx).len() <= u64::MAX
    &&& decoded_transaction(transaction_encoding(tx)) == Some(tx)
}

/// Reading the encoding of a signature of an input gives the message back.
pub proof fn lemma_sign_input_round_trip(message: SignInputView)
    requires
        is_encodable_transaction(message.transaction),
        message.input_signature.len() <= u64::MAX,
    ensures
        decode_sign_input(encode_sign_input(message)) == Ok::<SignInputView, DecodeError>(
            message,
        ),
{
    let transaction = bytes_field(1, transaction_encoding(message.transaction));
    let input = optional_varint_field(2, message.input as u64);
    let signature = optional_bytes_field(3, message.input_signature);
    let blank = PartialSignInput { transaction: None, input: 0, input_signature: Seq::empty() };
    let with_tx = PartialSignInput { transaction: Some(message.transaction), ..blank };
    let with_input = PartialSignInput { input: message.input, ..with_tx };
    let all = PartialSignInput { input_signature: message.input_signature, ..with_input };
    assert(encode_sign_input(message) =~= transaction + (input + signature));
    lemma_read_bytes_field(1, transaction_encoding(message.transaction), input + signature);
    assert(transaction.len() > 0);
    if message.input != 0 {
        lemma_read_varint_field(2, message.input as u64, signature);
        assert(input.len() > 0);
    } else {
        assert(input + signature =~= signature);
        assert(with_input == with_tx);
    }
    assert(decode_sign_input_fields(input + signature, with_tx) == decode_sign_input_fields(
        signature,
        with_input,
    ));
    if message.input_signature.len() != 0 {
        lemma_read_bytes_field(3, message.input_signature, Seq::empty());
        assert(signature + Seq::<u8>::empty() =~= signature);
        assert(signature.len() > 0);
    } else {
        assert(message.input_signature =~= Seq::<u8>::empty());
        assert(all == with_input);
    }
    assert(decode_sign_input_fields(Seq::empty(), all) == Ok::<SignInputView, DecodeError>(
        message,
    ));
}

/// The encoding of new funds: the transaction as field 1.
pub open spec fn encode_add_funds(transaction: TransactionView) -> Seq<u8> {
    bytes_field(1, transaction_encoding(transaction))
}

/// Reads the fields of new funds behind the transaction read so far; a
/// later one replaces it. A message without a transaction is refused.
pub open spec fn decode_add_funds_fields(bytes: Seq<u8>, read: Option<TransactionView>) -> Result<
    TransactionView,
    DecodeError,
>
    decreases bytes.len(),
{
    if bytes.len() == 0 {
        match read {
            Some(transaction) => Ok(transaction),
            None => Err(DecodeError::InvalidValue),
        }
    } else {
        match read_field(bytes) {
            Err(e) => Err(e),
            Ok(field) => {
                proof {
                    lemma_read_field_consumes(bytes);
                }
                if field.number != 1 {
                    decode_add_funds_fields(field.rest, read)
                } else if field.wire_type != WIRE_LENGTH_DELIMITED {
                    Err(DecodeError::UnexpectedWireType)
                } else {
                    match decoded_transaction(field.payload) {
                        Some(tx) => decode_add_funds_fields(field.rest, Some(tx)),
                        None => Err(DecodeError::InvalidValue),
                    }
                }
            },
        }
    }
}

/// Reads encoded new funds.
pub open spec fn decode_add_funds(bytes: Seq<u8>) -> Result<TransactionView, DecodeError> {
    decode_add_funds_fields(bytes, None)
}

/// Reading the encoding of new funds gives the transaction back.
pub proof fn lemma_add_funds_round_trip(transaction: TransactionView)
    requires
        is_encodable_transaction(transaction),
    ensures
        decode_add_funds(encode_add_funds(transaction)) == Ok::<TransactionView, DecodeError>(
            transaction,
        ),
{
    let bytes = encode_add_funds(transaction);
    lemma_read_bytes_field(1, transaction_encoding(transaction), Seq::empty());
    assert(bytes + Seq::<u8>::empty() =~= bytes);
    assert(bytes.len() > 0);
    assert(decode_add_funds_fields(Seq::empty(), Some(transaction)) == Ok::<
        TransactionView,
        DecodeError,
    >(transaction));
}

impl SignInput {
    /// The encoding of the message.
    pub fn to_bytes(&self) -> (bytes: Vec<u8>)
        ensures
            bytes@ == encode_sign_input(self@),
    {
        let mut out: Vec<u8> = Vec::new();
        write_bytes_field(&mut out, 1, &self.transaction.to_bytes());
        write_optional_varint_field(&mut out, 2, self.input as u64);
        write_optional_bytes_field(&mut out, 3, &self.input_signature);
        assert(out@ =~= encode_sign_input(self@));
        out
    }

    /// Reads a message from its encoding.
    pub fn from_bytes(bytes: &Vec<u8>) -> (read: Result<SignInput, DecodeError>)
        ensures
            match decode_sign_input(bytes@) {
                Ok(message) => read matches Ok(m) && m@ == message,
                Err(e) => read matches Err(r) && r == e,
            },
    {
        let mut transaction: Option<Transaction> = None;
        let mut input: u32 = 0;
        let mut input_signature: Vec<u8> = Vec::new();
        let mut pos: usize = 0;
        assert(bytes@.skip(0) =~= bytes@);
        while pos < bytes.len()
            invariant
                pos <= bytes@.len(),
                decode_sign_input(bytes@) == decode_sign_input_fields(
                    bytes@.skip(pos as int),
                    PartialSignInput {
                        transaction: match transaction {
                            Some(tx) => Some(tx@),
                            None => None,
                        },
                        input,
                        input_signature: input_signature@,
                    },
                ),
            decreases bytes.len() - pos,
        {
            let field = match read_field_at(bytes, pos) {
                Ok(field) => field,
                Err(e) => {
                    return Err(e);
                },
            };
            if field.number == 1 || field.number == 3 {
                if field.wire_type != WIRE_LENGTH_DELIMITED {
                    return Err(DecodeError::UnexpectedWireType);
                }
                if field.number == 3 {
                    input_signature = field.payload;
                } else {
                    match Transaction::from_bytes(&field.payload) {
                        Some(tx) => {
                            transaction = Some(tx);
                        },
                        None => {
                            return Err(DecodeError::InvalidValue);
                        },
                    }
                }
            } else if field.number == 2 {
                if field.wire_type != WIRE_VARINT {
                    return Err(DecodeError::UnexpectedWireType);
                }
                if field.value > u32::MAX as u64 {
                    return Err(DecodeError::Overflow);
                }
                input = field.value as u32;
            }
            pos = field.next;
        }
        match transaction {
            Some(transaction) => Ok(SignInput { transaction, input, input_signature }),
            None => Err(DecodeError::InvalidValue),
        }
    }
}

impl AddFunds {
    /// The encoding of the message.
    pub fn to_bytes(&self) -> (bytes: Vec<u8>)
        ensures
            bytes@ == encode_add_funds(self.transaction@),
    {
        let mut out: Vec<u8> = Vec::new();
        write_bytes_field(&mut out, 1, &self.transaction.to_bytes());
        out
    }

    /// Reads a message from its encoding.
    pub fn from_bytes(bytes: &Vec<u8>) -> (read: Result<AddFunds, DecodeError>)
        ensures
            match decode_add_funds(bytes@) {
                Ok(transaction) => read matches Ok(m) && m.transaction@ == transaction,
                Err(e) => read matches Err(r) && r == e,
            },
    {
        let mut transaction: Option<Transaction> = None;
        let mut pos: usize = 0;
        assert(bytes@.skip(0) =~= bytes@);
        while pos < bytes.len()
            invariant
                pos <= bytes@.len(),
                decode_add_funds(bytes@) == decode_add_funds_fields(
                    bytes@.skip(pos as int),
                    match transaction {
                        Some(tx) => Some(tx@),
                        None => None,
                    },
                ),
            decreases bytes.len() - pos,
        {
            let field = match read_field_at(bytes, pos) {
                Ok(field) => field,
                Err(e) => {
                    return Err(e);
                },
            };
            if field.number == 1 {
                if field.wire_type != WIRE_LENGTH_DELIMITED {
                    return Err(DecodeError::UnexpectedWireType);
                }
                match Transaction::from_bytes(&field.payload) {
                    Some(tx) => {
                        transaction = Some(tx);
                    },
                    None => {
                        return Err(DecodeError::InvalidValue);
                    },
                }
            }
            pos = field.next;
        }
        match transaction {
            Some(transaction) => Ok(AddFunds { transaction }),
            None => Err(DecodeError::InvalidValue),
        }
    }
}

} // verus!

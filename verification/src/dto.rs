//! The messages by which validators tell each other about the anchoring
//! chain, as they travel over the host blockchain.
//!
//! A raw message is a header of ten bytes, a body, and a signature of 64
//! bytes. The header holds the network (one byte), the protocol version
//! (one byte), the type of the message, the service, both in two bytes, and
//! the length of the message in four. The body starts with fields of fixed
//! width; a field of variable width is held there as a segment, the
//! position and the length of its bytes in the message, four bytes each.
//! Numbers have their lowest byte first.

use vstd::prelude::*;
use vstd::bytes::{
    spec_u16_from_le_bytes, spec_u32_from_le_bytes, spec_u64_from_le_bytes, u16_from_le_bytes,
    u32_from_le_bytes, u64_from_le_bytes,
};
use crate::bytes::copy_range;
use crate::crypto::{hash, sha256};
use crate::transaction::{decoded_transaction, Transaction, TransactionView};

verus! {

/// The length of the header of a raw message.
pub const HEADER_LENGTH: usize = 10;

/// The length of the signature at the end of a raw message.
pub const SIGNATURE_LENGTH: usize = 64;

/// The type of a message that carries a signature.
pub const ANCHORING_MESSAGE_SIGNATURE: u16 = 0;

/// The type of a message that tells the latest expected transaction.
pub const ANCHORING_MESSAGE_LATEST: u16 = 1;

/// The width of the fixed part of the body of a signature message.
pub const SIGNATURE_BODY_SIZE: usize = 54;

/// The width of the fixed part of the body of a message about the latest
/// expected transaction.
pub const LATEST_BODY_SIZE: usize = 50;

/// Why bytes are no anchoring message.
#[derive(Clone, Copy, Debug, PartialEq, Eq, Structural)]
pub enum MessageError {
    /// The message is shorter than its header, fixed fields and signature.
    TooShort,
    /// The type of the message is none of this service.
    UnexpectedMessageType,
    /// A segment lies outside the part of the message behind the fixed
    /// fields.
    IncorrectSegment,
    /// The bytes of the transaction are no transaction.
    IncorrectTransaction,
}

/// A message as it travels: its bytes.
#[derive(Debug)]
pub struct RawTransaction {
    pub bytes: Vec<u8>,
}

/// The type of the message that the header names.
pub open spec fn spec_message_type(raw: Seq<u8>) -> u16 {
    spec_u16_from_le_bytes(raw.subrange(2, 4))
}

/// The bytes of the segment that is held at `at`; `fixed_end` is where the
/// fixed fields end. The segment has to lie between the fixed fields and
/// the signature.
pub open spec fn spec_segment(raw: Seq<u8>, at: int, fixed_end: int) -> Option<Seq<u8>> {
    let position = spec_u32_from_le_bytes(raw.subrange(at, at + 4)) as int;
    let count = spec_u32_from_le_bytes(raw.subrange(at + 4, at + 8)) as int;
    if fixed_end <= position && position + count <= raw.len() - SIGNATURE_LENGTH {
        Some(raw.subrange(position, position + count))
    } else {
        None
    }
}

/// The value of a [`MsgAnchoringSignature`].
pub struct MsgAnchoringSignatureView {
    pub from: Seq<u8>,
    pub validator: u16,
    pub tx: TransactionView,
    pub input: u32,
    pub signature: Seq<u8>,
    pub raw: Seq<u8>,
}

/// The value of a [`MsgAnchoringUpdateLatest`].
pub struct MsgAnchoringUpdateLatestView {
    pub from: Seq<u8>,
    pub validator: u16,
    pub tx: TransactionView,
    pub lect_count: u64,
    pub raw: Seq<u8>,
}

/// The value of an [`AnchoringMessage`].
pub enum AnchoringMessageView {
    Signature(MsgAnchoringSignatureView),
    UpdateLatest(MsgAnchoringUpdateLatestView),
}

/// Reads a signature message, which its type has to announce: the sender
/// in 32 bytes, the index of the
/// validator, the transaction as a segment, the index of the input, and the
/// signature as a segment.
pub open spec fn parse_signature_message(raw: Seq<u8>) -> Result<
    MsgAnchoringSignatureView,
    MessageError,
> {
    let body = HEADER_LENGTH as int;
    let fixed_end = body + SIGNATURE_BODY_SIZE;
    if raw.len() < fixed_end + SIGNATURE_LENGTH {
        Err(MessageError::TooShort)
    } else if spec_message_type(raw) != ANCHORING_MESSAGE_SIGNATURE {
        Err(MessageError::UnexpectedMessageType)
    } else {
        match (spec_segment(raw, body + 34, fixed_end), spec_segment(raw, body + 46, fixed_end)) {
            (Some(tx_bytes), Some(signature)) => match decoded_transaction(tx_bytes) {
                Some(tx) => Ok(
                    MsgAnchoringSignatureView {
                        from: raw.subrange(body, body + 32),
                        validator: spec_u16_from_le_bytes(raw.subrange(body + 32, body + 34)),
                        tx,
                        input: spec_u32_from_le_bytes(raw.subrange(body + 42, body + 46)),
                        signature,
                        raw,
                    },
                ),
                None => Err(MessageError::IncorrectTransaction),
            },
            _ => Err(MessageError::IncorrectSegment),
        }
    }
}

/// Reads a message about the latest expected transaction, which its type
/// has to announce: the sender in 32 bytes, the index of the validator, the transaction as a segment, and the
/// number of such messages that the validator has sent.
pub open spec fn parse_latest_message(raw: Seq<u8>) -> Result<
    MsgAnchoringUpdateLatestView,
    MessageError,
> {
    let body = HEADER_LENGTH as int;
    let fixed_end = body + LATEST_BODY_SIZE;
    if raw.len() < fixed_end + SIGNATURE_LENGTH {
        Err(MessageError::TooShort)
    } else if spec_message_type(raw) != ANCHORING_MESSAGE_LATEST {
        Err(MessageError::UnexpectedMessageType)
    } else {
        match spec_segment(raw, body + 34, fixed_end) {
            Some(tx_bytes) => match decoded_transaction(tx_bytes) {
                Some(tx) => Ok(
                    MsgAnchoringUpdateLatestView {
                        from: raw.subrange(body, body + 32),
                        validator: spec_u16_from_le_bytes(raw.subrange(body + 32, body + 34)),
                        tx,
                        lect_count: spec_u64_from_le_bytes(raw.subrange(body + 42, body + 50)),
                        raw,
                    },
                ),
                None => Err(MessageError::IncorrectTransaction),
            },
            None => Err(MessageError::IncorrectSegment),
        }
    }
}

/// Reads an anchoring message: what its type announces.
pub open spec fn parse_message(raw: Seq<u8>) -> Result<AnchoringMessageView, MessageError> {
    if raw.len() < HEADER_LENGTH + SIGNATURE_LENGTH {
        Err(MessageError::TooShort)
    } else if spec_message_type(raw) == ANCHORING_MESSAGE_SIGNATURE {
        match parse_signature_message(raw) {
            Ok(message) => Ok(AnchoringMessageView::Signature(message)),
            Err(e) => Err(e),
        }
    } else if spec_message_type(raw) == ANCHORING_MESSAGE_LATEST {
        match parse_latest_message(raw) {
            Ok(message) => Ok(AnchoringMessageView::UpdateLatest(message)),
            Err(e) => Err(e),
        }
    } else {
        Err(MessageError::UnexpectedMessageType)
    }
}

/// Copies 32 bytes from `at` on into an array.
fn read_key(raw: &Vec<u8>, at: usize) -> (key: [u8; 32])
    requires
        at + 32 <= raw@.len(),
    ensures
        key@ == raw@.subrange(at as int, at + 32),
{
    let total = raw.len();
    let mut key: [u8; 32] = [0u8; 32];
    let mut i: usize = 0;
    while i < 32
        invariant
            i <= 32,
            at + 32 <= raw@.len(),
            total == raw@.len(),
            forall|j: int| 0 <= j < i ==> key@[j] == raw@[at + j],
        decreases 32 - i,
    {
        key[i] = raw[at + i];
        i = i + 1;
    }
    assert(key@ =~= raw@.subrange(at as int, at + 32));
    key
}

/// Reads a number of two bytes at `at`.
fn read_u16(raw: &Vec<u8>, at: usize) -> (value: u16)
    requires
        at + 2 <= raw@.len(),
    ensures
        value == spec_u16_from_le_bytes(raw@.subrange(at as int, at + 2)),
{
    let total = raw.len();
    assert(at + 2 <= total);
    u16_from_le_bytes(copy_range(raw, at, at + 2).as_slice())
}

/// Reads a number of four bytes at `at`.
fn read_u32(raw: &Vec<u8>, at: usize) -> (value: u32)
    requires
        at + 4 <= raw@.len(),
    ensures
        value == spec_u32_from_le_bytes(raw@.subrange(at as int, at + 4)),
{
    let total = raw.len();
    assert(at + 4 <= total);
    u32_from_le_bytes(copy_range(raw, at, at + 4).as_slice())
}

/// Reads a number of eight bytes at `at`.
fn read_u64(raw: &Vec<u8>, at: usize) -> (value: u64)
    requires
        at + 8 <= raw@.len(),
    ensures
        value == spec_u64_from_le_bytes(raw@.subrange(at as int, at + 8)),
{
    let total = raw.len();
    assert(at + 8 <= total);
    u64_from_le_bytes(copy_range(raw, at, at + 8).as_slice())
}

/// Reads the bytes of the segment that is held at `at`.
fn read_segment(raw: &Vec<u8>, at: usize, fixed_end: usize) -> (segment: Option<Vec<u8>>)
    requires
        at + 8 <= raw@.len(),
        raw@.len() >= SIGNATURE_LENGTH,
    ensures
        segment is Some <==> spec_segment(raw@, at as int, fixed_end as int) is Some,
        segment matches Some(bytes) ==> spec_segment(raw@, at as int, fixed_end as int) == Some(
            bytes@,
        ),
{
    let total = raw.len();
    assert(at + 8 <= total);
    let position = read_u32(raw, at) as u64;
    let count = read_u32(raw, at + 4) as u64;
    let end = (raw.len() - SIGNATURE_LENGTH) as u64;
    if (fixed_end as u64) <= position && position + count <= end {
        Some(copy_range(raw, position as usize, (position + count) as usize))
    } else {
        None
    }
}

/// A signature of a validator for an input of an anchoring transaction.
#[derive(Debug)]
pub struct MsgAnchoringSignature {
    from: crate::crypto::PublicKey,
    validator: u16,
    tx: Transaction,
    input: u32,
    signature: Vec<u8>,
    raw: RawTransaction,
}

impl View for MsgAnchoringSignature {
    type V = MsgAnchoringSignatureView;

    closed spec fn view(&self) -> MsgAnchoringSignatureView {
        MsgAnchoringSignatureView {
            from: self.from@,
            validator: self.validator,
            tx: self.tx@,
            input: self.input,
            signature: self.signature@,
            raw: self.raw.bytes@,
        }
    }
}

impl MsgAnchoringSignature {
    #[verifier::type_invariant]
    spec fn well_formed(self) -> bool {
        parse_signature_message(self.raw.bytes@) == Ok::<MsgAnchoringSignatureView, MessageError>(
            self@,
        )
    }

    /// Reads the message from its bytes.
    pub fn from_raw(raw: RawTransaction) -> (read: Result<MsgAnchoringSignature, MessageError>)
        ensures
            match parse_signature_message(raw.bytes@) {
                Ok(message) => read matches Ok(m) && m@ == message,
                Err(e) => read matches Err(r) && r == e,
            },
    {
        let body = HEADER_LENGTH;
        let fixed_end = body + SIGNATURE_BODY_SIZE;
        if raw.bytes.len() < fixed_end + SIGNATURE_LENGTH {
            return Err(MessageError::TooShort);
        }
        if read_u16(&raw.bytes, 2) != ANCHORING_MESSAGE_SIGNATURE {
            return Err(MessageError::UnexpectedMessageType);
        }
        let tx_bytes = read_segment(&raw.bytes, body + 34, fixed_end);
        let signature = read_segment(&raw.bytes, body + 46, fixed_end);
        match (tx_bytes, signature) {
            (Some(tx_bytes), Some(signature)) => match Transaction::from_bytes(&tx_bytes) {
                Some(tx) => Ok(
                    MsgAnchoringSignature {
                        from: crate::crypto::PublicKey(read_key(&raw.bytes, body)),
                        validator: read_u16(&raw.bytes, body + 32),
                        tx,
                        input: read_u32(&raw.bytes, body + 42),
                        signature,
                        raw,
                    },
                ),
                None => Err(MessageError::IncorrectTransaction),
            },
            _ => Err(MessageError::IncorrectSegment),
        }
    }

    /// The sender.
    pub fn from(&self) -> (key: &crate::crypto::PublicKey)
        ensures
            key@ == self@.from,
    {
        &self.from
    }

    /// The index of the validator in the committee.
    pub fn validator(&self) -> (validator: u16)
        ensures
            validator == self@.validator,
    {
        self.validator
    }

    /// The transaction that was signed.
    pub fn tx(&self) -> (tx: &Transaction)
        ensures
            tx@ == self@.tx,
    {
        &self.tx
    }

    /// The index of the input that was signed.
    pub fn input(&self) -> (input: u32)
        ensures
            input == self@.input,
    {
        self.input
    }

    /// The signature of the input.
    pub fn signature(&self) -> (signature: &Vec<u8>)
        ensures
            signature@ == self@.signature,
    {
        &self.signature
    }

    /// The message as it travels. Reading it gives this message.
    pub fn raw(&self) -> (raw: &RawTransaction)
        ensures
            raw.bytes@ == self@.raw,
            parse_signature_message(raw.bytes@) == Ok::<
                MsgAnchoringSignatureView,
                MessageError,
            >(self@),
    {
        proof {
            use_type_invariant(self);
        }
        &self.raw
    }
}

/// What a validator expects the latest transaction of the anchoring chain
/// to be.
#[derive(Debug)]
pub struct MsgAnchoringUpdateLatest {
    from: crate::crypto::PublicKey,
    validator: u16,
    tx: Transaction,
    lect_count: u64,
    raw: RawTransaction,
}

impl View for MsgAnchoringUpdateLatest {
    type V = MsgAnchoringUpdateLatestView;

    closed spec fn view(&self) -> MsgAnchoringUpdateLatestView {
        MsgAnchoringUpdateLatestView {
            from: self.from@,
            validator: self.validator,
            tx: self.tx@,
            lect_count: self.lect_count,
            raw: self.raw.bytes@,
        }
    }
}

impl MsgAnchoringUpdateLatest {
    #[verifier::type_invariant]
    spec fn well_formed(self) -> bool {
        parse_latest_message(self.raw.bytes@) == Ok::<MsgAnchoringUpdateLatestView, MessageError>(
            self@,
        )
    }

    /// Reads the message from its bytes.
    pub fn from_raw(raw: RawTransaction) -> (read: Result<MsgAnchoringUpdateLatest, MessageError>)
        ensures
            match parse_latest_message(raw.bytes@) {
                Ok(message) => read matches Ok(m) && m@ == message,
                Err(e) => read matches Err(r) && r == e,
            },
    {
        let body = HEADER_LENGTH;
        let fixed_end = body + LATEST_BODY_SIZE;
        if raw.bytes.len() < fixed_end + SIGNATURE_LENGTH {
            return Err(MessageError::TooShort);
        }
        if read_u16(&raw.bytes, 2) != ANCHORING_MESSAGE_LATEST {
            return Err(MessageError::UnexpectedMessageType);
        }
        match read_segment(&raw.bytes, body + 34, fixed_end) {
            Some(tx_bytes) => match Transaction::from_bytes(&tx_bytes) {
                Some(tx) => Ok(
                    MsgAnchoringUpdateLatest {
                        from: crate::crypto::PublicKey(read_key(&raw.bytes, body)),
                        validator: read_u16(&raw.bytes, body + 32),
                        tx,
                        lect_count: read_u64(&raw.bytes, body + 42),
                        raw,
                    },
                ),
                None => Err(MessageError::IncorrectTransaction),
            },
            None => Err(MessageError::IncorrectSegment),
        }
    }

    /// The sender.
    pub fn from(&self) -> (key: &crate::crypto::PublicKey)
        ensures
            key@ == self@.from,
    {
        &self.from
    }

    /// The index of the validator in the committee.
    pub fn validator(&self) -> (validator: u16)
        ensures
            validator == self@.validator,
    {
        self.validator
    }

    /// The transaction that the validator expects.
    pub fn tx(&self) -> (tx: &Transaction)
        ensures
            tx@ == self@.tx,
    {
        &self.tx
    }

    /// The number of such messages that the validator has sent.
    pub fn lect_count(&self) -> (count: u64)
        ensures
            count == self@.lect_count,
    {
        self.lect_count
    }

    /// The message as it travels. Reading it gives this message.
    pub fn raw(&self) -> (raw: &RawTransaction)
        ensures
            raw.bytes@ == self@.raw,
            parse_latest_message(raw.bytes@) == Ok::<
                MsgAnchoringUpdateLatestView,
                MessageError,
            >(self@),
    {
        proof {
            use_type_invariant(self);
        }
        &self.raw
    }
}

/// A message of the anchoring service.
#[derive(Debug)]
pub enum AnchoringMessage {
    Signature(MsgAnchoringSignature),
    UpdateLatest(MsgAnchoringUpdateLatest),
}

impl View for AnchoringMessage {
    type V = AnchoringMessageView;

    open spec fn view(&self) -> AnchoringMessageView {
        match self {
            AnchoringMessage::Signature(message) => AnchoringMessageView::Signature(message@),
            AnchoringMessage::UpdateLatest(message) => AnchoringMessageView::UpdateLatest(
                message@,
            ),
        }
    }
}

impl AnchoringMessageView {
    /// The sender of the message.
    pub open spec fn from(self) -> Seq<u8> {
        match self {
            AnchoringMessageView::Signature(message) => message.from,
            AnchoringMessageView::UpdateLatest(message) => message.from,
        }
    }

    /// The bytes of the message.
    pub open spec fn raw(self) -> Seq<u8> {
        match self {
            AnchoringMessageView::Signature(message) => message.raw,
            AnchoringMessageView::UpdateLatest(message) => message.raw,
        }
    }
}

impl From<MsgAnchoringSignature> for AnchoringMessage {
    fn from(message: MsgAnchoringSignature) -> (wrapped: AnchoringMessage) {
        AnchoringMessage::Signature(message)
    }
}

impl vstd::std_specs::convert::FromSpecImpl<MsgAnchoringSignature> for AnchoringMessage {
    open spec fn obeys_from_spec() -> bool {
        true
    }

    open spec fn from_spec(message: MsgAnchoringSignature) -> AnchoringMessage {
        AnchoringMessage::Signature(message)
    }
}

impl From<MsgAnchoringUpdateLatest> for AnchoringMessage {
    fn from(message: MsgAnchoringUpdateLatest) -> (wrapped: AnchoringMessage) {
        AnchoringMessage::UpdateLatest(message)
    }
}

impl vstd::std_specs::convert::FromSpecImpl<MsgAnchoringUpdateLatest> for AnchoringMessage {
    open spec fn obeys_from_spec() -> bool {
        true
    }

    open spec fn from_spec(message: MsgAnchoringUpdateLatest) -> AnchoringMessage {
        AnchoringMessage::UpdateLatest(message)
    }
}

impl AnchoringMessage {
    /// The sender of the message.
    pub fn from(&self) -> (key: &crate::crypto::PublicKey)
        ensures
            key@ == self@.from(),
    {
        match self {
            AnchoringMessage::UpdateLatest(message) => message.from(),
            AnchoringMessage::Signature(message) => message.from(),
        }
    }

    /// The message as it travels. Reading it gives this message.
    pub fn raw(&self) -> (raw: &RawTransaction)
        ensures
            raw.bytes@ == self@.raw(),
            parse_message(raw.bytes@) == Ok::<AnchoringMessageView, MessageError>(self@),
    {
        match self {
            AnchoringMessage::UpdateLatest(message) => message.raw(),
            AnchoringMessage::Signature(message) => message.raw(),
        }
    }

    /// The content hash of the message: the hash of its bytes.
    pub fn hash(&self) -> (digest: crate::crypto::Hash)
        ensures
            digest@ == sha256(self@.raw()),
    {
        hash(&self.raw().bytes)
    }

    /// The part of the message that its signature covers: all but the
    /// signature.
    pub fn signed_bytes(&self) -> (bytes: Vec<u8>)
        ensures
            bytes@ == self@.raw().subrange(0, self@.raw().len() - SIGNATURE_LENGTH),
    {
        let raw = &self.raw().bytes;
        copy_range(raw, 0, raw.len() - SIGNATURE_LENGTH)
    }

    /// The signature of the message: its last 64 bytes.
    pub fn signature_bytes(&self) -> (bytes: Vec<u8>)
        ensures
            bytes@ == self@.raw().subrange(
                self@.raw().len() - SIGNATURE_LENGTH,
                self@.raw().len() as int,
            ),
    {
        let raw = &self.raw().bytes;
        copy_range(raw, raw.len() - SIGNATURE_LENGTH, raw.len())
    }

    /// Reads an anchoring message from its bytes. A message of another type
    /// than the two of this service is refused.
    pub fn from_raw(raw: RawTransaction) -> (read: Result<AnchoringMessage, MessageError>)
        ensures
            match parse_message(raw.bytes@) {
                Ok(message) => read matches Ok(m) && m@ == message,
                Err(e) => read matches Err(r) && r == e,
            },
    {
        if raw.bytes.len() < HEADER_LENGTH + SIGNATURE_LENGTH {
            return Err(MessageError::TooShort);
        }
        let message_type = read_u16(&raw.bytes, 2);
        if message_type == ANCHORING_MESSAGE_SIGNATURE {
            match MsgAnchoringSignature::from_raw(raw) {
                Ok(message) => Ok(AnchoringMessage::Signature(message)),
                Err(e) => Err(e),
            }
        } else if message_type == ANCHORING_MESSAGE_LATEST {
            match MsgAnchoringUpdateLatest::from_raw(raw) {
                Ok(message) => Ok(AnchoringMessage::UpdateLatest(message)),
                Err(e) => Err(e),
            }
        } else {
            Err(MessageError::UnexpectedMessageType)
        }
    }
}

} // verus!

//! Length-delimited records: the framing of the binary map on the wire.
//!
//! A record is a sequence of fields. A field starts with a tag, a varint
//! that holds the field number and the wire type; what follows depends on the
//! wire type. Readers take the bytes that are left and answer with what they
//! read and the bytes behind it.

use vstd::prelude::*;
use crate::bytes::{append_bytes, copy_range};

verus! {

/// Wire type of a varint.
pub const WIRE_VARINT: u8 = 0;

/// Wire type of eight fixed bytes.
pub const WIRE_FIXED64: u8 = 1;

/// Wire type of a length and that many bytes.
pub const WIRE_LENGTH_DELIMITED: u8 = 2;

/// Wire type of the tag that begins a group.
pub const WIRE_START_GROUP: u8 = 3;

/// Wire type of the tag that ends a group.
pub const WIRE_END_GROUP: u8 = 4;

/// Wire type of four fixed bytes.
pub const WIRE_FIXED32: u8 = 5;

/// Why bytes are no record.
#[derive(Clone, Copy, Debug, PartialEq, Eq, Structural)]
pub enum DecodeError {
    /// A varint has no end within ten bytes, or within the input.
    IncorrectVarint,
    /// A varint does not fit the integer it stands for.
    Overflow,
    /// A tag with field number zero or with an unknown wire type.
    IncorrectTag,
    /// A known field with another wire type than its own.
    UnexpectedWireType,
    /// The input ends inside a field.
    UnexpectedEof,
    /// A value that the record carries is refused by its own rules.
    InvalidValue,
}

/// The varint that stands for `value`: seven bits to a byte, the lowest
/// first, the high bit set on every byte but the last.
pub open spec fn varint(value: nat) -> Seq<u8>
    decreases value,
{
    if value < 128 {
        seq![value as u8]
    } else {
        seq![(value % 128 + 128) as u8] + varint(value / 128)
    }
}

/// Reads a varint of at most `budget` bytes from the front of `bytes`: its
/// value and the bytes behind it.
pub open spec fn parse_varint(bytes: Seq<u8>, budget: nat) -> Option<(nat, Seq<u8>)>
    decreases budget,
{
    if budget == 0 || bytes.len() == 0 {
        None
    } else if bytes[0] < 128 {
        Some((bytes[0] as nat, bytes.skip(1)))
    } else {
        match parse_varint(bytes.skip(1), (budget - 1) as nat) {
            Some((high, rest)) => Some(((bytes[0] - 128) as nat + 128 * high, rest)),
            None => None,
        }
    }
}

/// Reads a varint that fits 64 bits from the front of `bytes`.
pub open spec fn read_varint(bytes: Seq<u8>) -> Result<(u64, Seq<u8>), DecodeError> {
    match parse_varint(bytes, 10) {
        Some((value, rest)) => if value <= u64::MAX {
            Ok((value as u64, rest))
        } else {
            Err(DecodeError::Overflow)
        },
        None => Err(DecodeError::IncorrectVarint),
    }
}

/// `128` to the power `n`.
pub open spec fn pow128(n: nat) -> nat
    decreases n,
{
    if n == 0 {
        1
    } else {
        128 * pow128((n - 1) as nat)
    }
}

/// A value below `128^n` takes at most `n` bytes as a varint.
pub proof fn lemma_varint_len(value: nat, n: nat)
    requires
        n >= 1,
        value < pow128(n),
    ensures
        1 <= varint(value).len() <= n,
    decreases n,
{
    if value >= 128 {
        assert(n >= 2) by {
            reveal_with_fuel(pow128, 2);
        }
        lemma_varint_len(value / 128, (n - 1) as nat);
    }
}

/// A 64-bit value takes at most ten bytes as a varint.
pub proof fn lemma_varint_len_u64(value: u64)
    ensures
        1 <= varint(value as nat).len() <= 10,
{
    assert(pow128(10) == 1180591620717411303424) by {
        reveal_with_fuel(pow128, 11);
    }
    lemma_varint_len(value as nat, 10);
}

/// Reading the varint of a value gives the value back and leaves what
/// stood behind it.
pub proof fn lemma_parse_varint(value: nat, rest: Seq<u8>, budget: nat)
    requires
        varint(value).len() <= budget,
    ensures
        parse_varint(varint(value) + rest, budget) == Some((value, rest)),
    decreases value,
{
    let bytes = varint(value) + rest;
    if value < 128 {
        assert(bytes[0] == value as u8);
        assert(bytes.skip(1) =~= rest);
    } else {
        assert(bytes[0] == (value % 128 + 128) as u8);
        assert(bytes.skip(1) =~= varint(value / 128) + rest);
        lemma_parse_varint(value / 128, rest, (budget - 1) as nat);
    }
}

/// What a reader leaves is shorter than what it was given.
pub proof fn lemma_parse_varint_consumes(bytes: Seq<u8>, budget: nat)
    ensures
        parse_varint(bytes, budget) matches Some((_, rest)) ==> rest.len() < bytes.len() && rest
            == bytes.skip(bytes.len() - rest.len()),
    decreases budget,
{
    if budget == 0 || bytes.len() == 0 {
    } else if bytes[0] < 128 {
    } else {
        lemma_parse_varint_consumes(bytes.skip(1), (budget - 1) as nat);
        match parse_varint(bytes.skip(1), (budget - 1) as nat) {
            Some((_, rest)) => {
                assert(bytes.skip(1).skip(bytes.len() - 1 - rest.len()) =~= bytes.skip(
                    bytes.len() - rest.len(),
                ));
            },
            None => {},
        }
    }
}

/// Appends the varint of `value` to `out`.
pub fn write_varint(out: &mut Vec<u8>, value: u64)
    ensures
        final(out)@ == old(out)@ + varint(value as nat),
    decreases value,
{
    if value < 128 {
        out.push(value as u8);
        assert(out@ =~= old(out)@ + varint(value as nat));
    } else {
        out.push((value % 128 + 128) as u8);
        write_varint(out, value / 128);
        assert(out@ =~= old(out)@ + varint(value as nat));
    }
}

/// Reads a varint of at most `budget` bytes at `pos`: its value and the
/// position behind it.
fn parse_varint_at(bytes: &Vec<u8>, pos: usize, budget: u8) -> (read: Option<(u128, usize)>)
    requires
        pos <= bytes@.len(),
        budget <= 10,
    ensures
        match parse_varint(bytes@.skip(pos as int), budget as nat) {
            Some((value, rest)) => read matches Some((v, next)) && v == value && pos < next
                <= bytes@.len() && bytes@.skip(next as int) == rest,
            None => read is None,
        },
        read matches Some((v, _)) ==> v < pow128(budget as nat),
    decreases budget,
{
    let ghost tail = bytes@.skip(pos as int);
    if budget == 0 || pos >= bytes.len() {
        return None;
    }
    let first = bytes[pos];
    assert(tail[0] == first);
    assert(tail.skip(1) =~= bytes@.skip(pos + 1));
    assert(pow128(budget as nat) == 128 * pow128((budget - 1) as nat));
    if first < 128 {
        assert(pow128((budget - 1) as nat) >= 1) by {
            lemma_pow128_positive((budget - 1) as nat);
        }
        return Some((first as u128, pos + 1));
    }
    match parse_varint_at(bytes, pos + 1, budget - 1) {
        Some((high, next)) => {
            assert(pow128(9) == 0x8000_0000_0000_0000) by {
                reveal_with_fuel(pow128, 10);
            }
            assert(high < pow128(9)) by {
                lemma_pow128_monotonic((budget - 1) as nat, 9);
            }
            Some(((first - 128) as u128 + 128 * high, next))
        },
        None => None,
    }
}

/// Powers of 128 are positive.
pub proof fn lemma_pow128_positive(n: nat)
    ensures
        pow128(n) >= 1,
    decreases n,
{
    if n > 0 {
        lemma_pow128_positive((n - 1) as nat);
    }
}

/// Powers of 128 grow with the exponent.
pub proof fn lemma_pow128_monotonic(m: nat, n: nat)
    requires
        m <= n,
    ensures
        pow128(m) <= pow128(n),
    decreases n,
{
    if m < n {
        lemma_pow128_monotonic(m, (n - 1) as nat);
        lemma_pow128_positive((n - 1) as nat);
    }
}

/// Reads a varint that fits 64 bits at `pos`: its value and the position
/// behind it.
pub fn read_varint_at(bytes: &Vec<u8>, pos: usize) -> (read: Result<(u64, usize), DecodeError>)
    requires
        pos <= bytes@.len(),
    ensures
        match read_varint(bytes@.skip(pos as int)) {
            Ok((value, rest)) => read matches Ok((v, next)) && v == value && pos < next
                <= bytes@.len() && bytes@.skip(next as int) == rest,
            Err(e) => read == Err::<(u64, usize), DecodeError>(e),
        },
{
    match parse_varint_at(bytes, pos, 10) {
        Some((value, next)) => {
            if value <= u64::MAX as u128 {
                Ok((value as u64, next))
            } else {
                Err(DecodeError::Overflow)
            }
        },
        None => Err(DecodeError::IncorrectVarint),
    }
}


/// A field as a reader sees it: its number, its wire type, its value where
/// it is a varint (zero otherwise), its bytes where it is length-delimited
/// (empty otherwise), and the bytes behind it.
pub struct FieldView {
    pub number: u32,
    pub wire_type: u8,
    pub value: u64,
    pub payload: Seq<u8>,
    pub rest: Seq<u8>,
}

/// Reads one field that is no group from the front of `bytes`: the tag,
/// then what the wire type announces.
pub open spec fn read_plain_field(bytes: Seq<u8>) -> Result<FieldView, DecodeError> {
    match read_varint(bytes) {
        Err(e) => Err(e),
        Ok((tag, rest)) => {
            let number = (tag / 8) as u32;
            let wire_type = (tag % 8) as u8;
            let skipped = |rest: Seq<u8>|
                Ok::<FieldView, DecodeError>(
                    FieldView { number, wire_type, value: 0, payload: Seq::empty(), rest },
                );
            if tag > u32::MAX {
                Err(DecodeError::Overflow)
            } else if tag / 8 == 0 || tag % 8 > 5 {
                Err(DecodeError::IncorrectTag)
            } else if wire_type == WIRE_VARINT {
                match read_varint(rest) {
                    Err(e) => Err(e),
                    Ok((value, rest)) => Ok(
                        FieldView { number, wire_type, value, payload: Seq::empty(), rest },
                    ),
                }
            } else if wire_type == WIRE_FIXED64 {
                if rest.len() < 8 {
                    Err(DecodeError::UnexpectedEof)
                } else {
                    skipped(rest.skip(8))
                }
            } else if wire_type == WIRE_FIXED32 {
                if rest.len() < 4 {
                    Err(DecodeError::UnexpectedEof)
                } else {
                    skipped(rest.skip(4))
                }
            } else if wire_type == WIRE_LENGTH_DELIMITED {
                match read_varint(rest) {
                    Err(e) => Err(e),
                    Ok((len, rest)) => if len > rest.len() {
                        Err(DecodeError::UnexpectedEof)
                    } else {
                        Ok(
                            FieldView {
                                number,
                                wire_type,
                                value: 0,
                                payload: rest.take(len as int),
                                rest: rest.skip(len as int),
                            },
                        )
                    },
                }
            } else {
                Err(DecodeError::UnexpectedWireType)
            }
        },
    }
}

/// What a reader of a field that is no group leaves is shorter than what
/// it was given.
pub proof fn lemma_read_plain_field_consumes(bytes: Seq<u8>)
    ensures
        read_plain_field(bytes) matches Ok(field) ==> field.rest.len() < bytes.len(),
{
    lemma_parse_varint_consumes(bytes, 10);
    if let Ok((tag, rest)) = read_varint(bytes) {
        lemma_parse_varint_consumes(rest, 10);
    }
}

/// Passes over the fields of a group up to the tag that ends it, and
/// gives what stands behind that tag. A group inside the group is refused.
pub open spec fn skip_group(bytes: Seq<u8>) -> Result<Seq<u8>, DecodeError>
    decreases bytes.len(),
{
    match read_varint(bytes) {
        Err(e) => Err(e),
        Ok((tag, rest)) => if tag > u32::MAX {
            Err(DecodeError::Overflow)
        } else if tag / 8 == 0 || tag % 8 > 5 {
            Err(DecodeError::IncorrectTag)
        } else if tag % 8 == WIRE_END_GROUP {
            Ok(rest)
        } else {
            match read_plain_field(bytes) {
                Err(e) => Err(e),
                Ok(field) => {
                    proof {
                        lemma_read_plain_field_consumes(bytes);
                    }
                    skip_group(field.rest)
                },
            }
        },
    }
}

/// What stands behind a group is shorter than the group and it.
pub proof fn lemma_skip_group_consumes(bytes: Seq<u8>)
    ensures
        skip_group(bytes) matches Ok(rest) ==> rest.len() < bytes.len(),
    decreases bytes.len(),
{
    lemma_parse_varint_consumes(bytes, 10);
    if let Ok((tag, rest)) = read_varint(bytes) {
        if tag <= u32::MAX && tag / 8 != 0 && tag % 8 <= 5 && tag % 8 != WIRE_END_GROUP {
            if let Ok(field) = read_plain_field(bytes) {
                lemma_read_plain_field_consumes(bytes);
                lemma_skip_group_consumes(field.rest);
            }
        }
    }
}

/// Reads one field from the front of `bytes`: the tag, then what the wire
/// type announces. A group is passed over as a whole; a tag that ends a
/// group where none was begun is refused.
pub open spec fn read_field(bytes: Seq<u8>) -> Result<FieldView, DecodeError> {
    match read_varint(bytes) {
        Err(e) => Err(e),
        Ok((tag, rest)) => if tag <= u32::MAX && tag / 8 != 0 && tag % 8 == WIRE_START_GROUP {
            match skip_group(rest) {
                Err(e) => Err(e),
                Ok(behind) => Ok(
                    FieldView {
                        number: (tag / 8) as u32,
                        wire_type: WIRE_START_GROUP,
                        value: 0,
                        payload: Seq::empty(),
                        rest: behind,
                    },
                ),
            }
        } else {
            read_plain_field(bytes)
        },
    }
}

/// A length-delimited field with the given number and bytes.
pub open spec fn bytes_field(number: nat, payload: Seq<u8>) -> Seq<u8> {
    varint(number * 8 + 2) + varint(payload.len()) + payload
}

/// What a reader of a field leaves is shorter than what it was given.
pub proof fn lemma_read_field_consumes(bytes: Seq<u8>)
    ensures
        read_field(bytes) matches Ok(field) ==> field.rest.len() < bytes.len(),
{
    lemma_parse_varint_consumes(bytes, 10);
    lemma_read_plain_field_consumes(bytes);
    if let Ok((tag, rest)) = read_varint(bytes) {
        lemma_skip_group_consumes(rest);
    }
}

/// Reading a length-delimited field gives its number and bytes back and
/// leaves what stood behind it.
pub proof fn lemma_read_bytes_field(number: nat, payload: Seq<u8>, rest: Seq<u8>)
    requires
        0 < number,
        number * 8 + 2 <= u32::MAX,
        payload.len() <= u64::MAX,
    ensures
        read_field(bytes_field(number, payload) + rest) == Ok::<FieldView, DecodeError>(
            FieldView {
                number: number as u32,
                wire_type: WIRE_LENGTH_DELIMITED,
                value: 0,
                payload,
                rest,
            },
        ),
{
    let tag = number * 8 + 2;
    let bytes = bytes_field(number, payload) + rest;
    let behind_tag = varint(payload.len()) + payload + rest;
    assert(bytes =~= varint(tag) + behind_tag);
    lemma_varint_len_u64(tag as u64);
    lemma_parse_varint(tag, behind_tag, 10);
    assert(behind_tag =~= varint(payload.len()) + (payload + rest));
    lemma_varint_len_u64(payload.len() as u64);
    lemma_parse_varint(payload.len(), payload + rest, 10);
    assert((payload + rest).take(payload.len() as int) =~= payload);
    assert((payload + rest).skip(payload.len() as int) =~= rest);
}

/// A varint field with the given number and value.
pub open spec fn varint_field(number: nat, value: u64) -> Seq<u8> {
    varint(number * 8) + varint(value as nat)
}

/// Reading a varint field gives its number and value back and leaves what
/// stood behind it.
pub proof fn lemma_read_varint_field(number: nat, value: u64, rest: Seq<u8>)
    requires
        0 < number,
        number * 8 <= u32::MAX,
    ensures
        read_field(varint_field(number, value) + rest) == Ok::<FieldView, DecodeError>(
            FieldView {
                number: number as u32,
                wire_type: WIRE_VARINT,
                value,
                payload: Seq::empty(),
                rest,
            },
        ),
{
    let tag = number * 8;
    let bytes = varint_field(number, value) + rest;
    let behind_tag = varint(value as nat) + rest;
    assert(bytes =~= varint(tag) + behind_tag);
    lemma_varint_len_u64(tag as u64);
    lemma_parse_varint(tag, behind_tag, 10);
    lemma_varint_len_u64(value);
    lemma_parse_varint(value as nat, rest, 10);
}

/// Appends a varint field to `out`.
pub fn write_varint_field(out: &mut Vec<u8>, number: u32, value: u64)
    requires
        number * 8 <= u32::MAX,
    ensures
        final(out)@ == old(out)@ + varint_field(number as nat, value),
{
    write_varint(out, (number * 8) as u64);
    write_varint(out, value);
    assert(out@ =~= old(out)@ + varint_field(number as nat, value));
}

/// Appends a length-delimited field to `out`.
pub fn write_bytes_field(out: &mut Vec<u8>, number: u32, payload: &Vec<u8>)
    requires
        number * 8 + 2 <= u32::MAX,
    ensures
        final(out)@ == old(out)@ + bytes_field(number as nat, payload@),
{
    write_varint(out, (number * 8 + 2) as u64);
    write_varint(out, payload.len() as u64);
    append_bytes(out, payload);
    assert(out@ =~= old(out)@ + bytes_field(number as nat, payload@));
}

/// A varint field that is left out where its value is zero, as a reader
/// takes zero for a field that is not there.
pub open spec fn optional_varint_field(number: nat, value: u64) -> Seq<u8> {
    if value == 0 {
        Seq::empty()
    } else {
        varint_field(number, value)
    }
}

/// A length-delimited field that is left out where it has no bytes.
pub open spec fn optional_bytes_field(number: nat, payload: Seq<u8>) -> Seq<u8> {
    if payload.len() == 0 {
        Seq::empty()
    } else {
        bytes_field(number, payload)
    }
}

/// Appends a varint field to `out`, unless its value is zero.
pub fn write_optional_varint_field(out: &mut Vec<u8>, number: u32, value: u64)
    requires
        number * 8 <= u32::MAX,
    ensures
        final(out)@ == old(out)@ + optional_varint_field(number as nat, value),
{
    if value != 0 {
        write_varint_field(out, number, value);
    } else {
        assert(out@ =~= old(out)@ + optional_varint_field(number as nat, value));
    }
}

/// Appends a length-delimited field to `out`, unless it has no bytes.
pub fn write_optional_bytes_field(out: &mut Vec<u8>, number: u32, payload: &Vec<u8>)
    requires
        number * 8 + 2 <= u32::MAX,
    ensures
        final(out)@ == old(out)@ + optional_bytes_field(number as nat, payload@),
{
    if payload.len() != 0 {
        write_bytes_field(out, number, payload);
    } else {
        assert(out@ =~= old(out)@ + optional_bytes_field(number as nat, payload@));
    }
}

/// A field as read from a buffer: its number, its wire type, its value
/// where it is a varint, its bytes where it is length-delimited, and the
/// position behind it.
#[derive(Debug)]
pub struct Field {
    pub number: u32,
    pub wire_type: u8,
    pub value: u64,
    pub payload: Vec<u8>,
    pub next: usize,
}

/// Reads one field that is no group at `pos`.
fn read_plain_field_at(bytes: &Vec<u8>, pos: usize) -> (read: Result<Field, DecodeError>)
    requires
        pos <= bytes@.len(),
    ensures
        match read_plain_field(bytes@.skip(pos as int)) {
            Ok(view) => read matches Ok(field) && {
                &&& field.number == view.number
                &&& field.wire_type == view.wire_type
                &&& field.value == view.value
                &&& field.payload@ == view.payload
                &&& pos < field.next <= bytes@.len()
                &&& bytes@.skip(field.next as int) == view.rest
            },
            Err(e) => read == Err::<Field, DecodeError>(e),
        },
{
    let (tag, behind_tag) = match read_varint_at(bytes, pos) {
        Ok(read) => read,
        Err(e) => {
            return Err(e);
        },
    };
    if tag > u32::MAX as u64 {
        return Err(DecodeError::Overflow);
    }
    if tag / 8 == 0 || tag % 8 > 5 {
        return Err(DecodeError::IncorrectTag);
    }
    let number = (tag / 8) as u32;
    let wire_type = (tag % 8) as u8;
    let ghost rest = bytes@.skip(behind_tag as int);
    if wire_type == WIRE_VARINT {
        match read_varint_at(bytes, behind_tag) {
            Ok((value, next)) => Ok(
                Field { number, wire_type, value, payload: Vec::new(), next },
            ),
            Err(e) => Err(e),
        }
    } else if wire_type == WIRE_FIXED64 {
        if bytes.len() - behind_tag < 8 {
            return Err(DecodeError::UnexpectedEof);
        }
        assert(rest.skip(8) =~= bytes@.skip(behind_tag + 8));
        Ok(Field { number, wire_type, value: 0, payload: Vec::new(), next: behind_tag + 8 })
    } else if wire_type == WIRE_FIXED32 {
        if bytes.len() - behind_tag < 4 {
            return Err(DecodeError::UnexpectedEof);
        }
        assert(rest.skip(4) =~= bytes@.skip(behind_tag + 4));
        Ok(Field { number, wire_type, value: 0, payload: Vec::new(), next: behind_tag + 4 })
    } else if wire_type == WIRE_LENGTH_DELIMITED {
        let (len, start) = match read_varint_at(bytes, behind_tag) {
            Ok(read) => read,
            Err(e) => {
                return Err(e);
            },
        };
        if len > (bytes.len() - start) as u64 {
            return Err(DecodeError::UnexpectedEof);
        }
        let end = start + len as usize;
        let payload = copy_range(bytes, start, end);
        assert(bytes@.skip(start as int).take(len as int) =~= bytes@.subrange(
            start as int,
            end as int,
        ));
        assert(bytes@.skip(start as int).skip(len as int) =~= bytes@.skip(end as int));
        Ok(Field { number, wire_type, value: 0, payload, next: end })
    } else {
        Err(DecodeError::UnexpectedWireType)
    }
}

/// Passes over the fields of a group that begins at `pos`: the position
/// behind the tag that ends it.
fn skip_group_at(bytes: &Vec<u8>, pos: usize) -> (read: Result<usize, DecodeError>)
    requires
        pos <= bytes@.len(),
    ensures
        match skip_group(bytes@.skip(pos as int)) {
            Ok(rest) => read matches Ok(next) && pos < next <= bytes@.len() && bytes@.skip(
                next as int,
            ) == rest,
            Err(e) => read == Err::<usize, DecodeError>(e),
        },
{
    let mut at: usize = pos;
    loop
        invariant
            pos <= at <= bytes@.len(),
            skip_group(bytes@.skip(pos as int)) == skip_group(bytes@.skip(at as int)),
        decreases bytes@.len() - at,
    {
        let (tag, behind_tag) = match read_varint_at(bytes, at) {
            Ok(read) => read,
            Err(e) => {
                return Err(e);
            },
        };
        if tag > u32::MAX as u64 {
            return Err(DecodeError::Overflow);
        }
        if tag / 8 == 0 || tag % 8 > 5 {
            return Err(DecodeError::IncorrectTag);
        }
        if tag % 8 == WIRE_END_GROUP as u64 {
            return Ok(behind_tag);
        }
        match read_plain_field_at(bytes, at) {
            Ok(field) => {
                at = field.next;
            },
            Err(e) => {
                return Err(e);
            },
        }
    }
}

/// Reads one field at `pos`.
pub fn read_field_at(bytes: &Vec<u8>, pos: usize) -> (read: Result<Field, DecodeError>)
    requires
        pos <= bytes@.len(),
    ensures
        match read_field(bytes@.skip(pos as int)) {
            Ok(view) => read matches Ok(field) && {
                &&& field.number == view.number
                &&& field.wire_type == view.wire_type
                &&& field.value == view.value
                &&& field.payload@ == view.payload
                &&& pos < field.next <= bytes@.len()
                &&& bytes@.skip(field.next as int) == view.rest
            },
            Err(e) => read == Err::<Field, DecodeError>(e),
        },
{
    match read_varint_at(bytes, pos) {
        Ok((tag, behind_tag)) => {
            if tag <= u32::MAX as u64 && tag / 8 != 0 && tag % 8 == WIRE_START_GROUP as u64 {
                return match skip_group_at(bytes, behind_tag) {
                    Ok(next) => Ok(
                        Field {
                            number: (tag / 8) as u32,
                            wire_type: WIRE_START_GROUP,
                            value: 0,
                            payload: Vec::new(),
                            next,
                        },
                    ),
                    Err(e) => Err(e),
                };
            }
        },
        Err(_) => {},
    }
    read_plain_field_at(bytes, pos)
}

} // verus!

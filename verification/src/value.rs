//! The structured on-chain value format: a nested tagged-constructor tree,
//! and the decoders that turn positions of such a tree into primitive values.
//!
//! Field access is positional and 0-indexed. A missing field, a field of the
//! wrong kind, or an integer outside the unsigned 64-bit range is a decode
//! failure carrying the offending position; decoding never panics.

use vstd::prelude::*;

verus! {

/// A generic nested tagged value as it appears in on-chain payloads: a tagged
/// constructor with an ordered list of optional fields, an integer, a byte
/// string, or some other primitive kind this protocol never reads.
pub enum PlutusValue {
    Constr { tag: u64, fields: Vec<Option<PlutusValue>> },
    Integer(i128),
    ByteString(Vec<u8>),
    Other,
}

/// Why a structured value failed to decode.
#[derive(Clone, Copy, Debug, PartialEq, Eq, Structural)]
pub enum DecodeReason {
    /// The output carried no structured value at all.
    MissingDatum,
    /// A constructor node was required and something else was found.
    ExpectedConstructor,
    /// The required positional field is absent.
    MissingField,
    /// The field exists but is not an integer.
    ExpectedInteger,
    /// The field exists but is not a byte string.
    ExpectedBytes,
    /// The integer does not fit an unsigned 64-bit counter or timestamp.
    IntegerOutOfRange,
    /// A credential constructor carries a discriminant this protocol does not know.
    UnknownCredentialTag,
}

/// A decode failure: the reason, and the 0-indexed field position at which
/// the value did not match the required shape.
#[derive(Clone, Copy, Debug, PartialEq, Eq, Structural)]
pub struct DecodeError {
    pub reason: DecodeReason,
    pub field: u64,
}

/// The field at position `i`, where a position outside the list counts as absent.
pub open spec fn spec_field(fields: Seq<Option<PlutusValue>>, i: int) -> Option<PlutusValue> {
    if 0 <= i < fields.len() {
        fields[i]
    } else {
        None
    }
}

/// What decoding field `i` as an unsigned 64-bit integer returns.
pub open spec fn spec_field_integer(fields: Seq<Option<PlutusValue>>, i: int) -> Result<
    u64,
    DecodeError,
> {
    match spec_field(fields, i) {
        None => Err(DecodeError { reason: DecodeReason::MissingField, field: i as u64 }),
        Some(v) => match v {
            PlutusValue::Integer(n) => if 0 <= n <= u64::MAX {
                Ok(n as u64)
            } else {
                Err(DecodeError { reason: DecodeReason::IntegerOutOfRange, field: i as u64 })
            },
            _ => Err(DecodeError { reason: DecodeReason::ExpectedInteger, field: i as u64 }),
        },
    }
}

/// What decoding field `i` as a byte string returns.
pub open spec fn spec_field_bytes(fields: Seq<Option<PlutusValue>>, i: int) -> Result<
    Seq<u8>,
    DecodeError,
> {
    match spec_field(fields, i) {
        None => Err(DecodeError { reason: DecodeReason::MissingField, field: i as u64 }),
        Some(v) => match v {
            PlutusValue::ByteString(b) => Ok(b@),
            _ => Err(DecodeError { reason: DecodeReason::ExpectedBytes, field: i as u64 }),
        },
    }
}

/// Decodes the field at `index` as an unsigned 64-bit integer, the
/// representation of counters and timestamps in this protocol.
pub fn field_integer(fields: &Vec<Option<PlutusValue>>, index: usize) -> (r: Result<
    u64,
    DecodeError,
>)
    requires
        index <= u64::MAX,
    ensures
        r == spec_field_integer(fields@, index as int),
{
    if index < fields.len() {
        match &fields[index] {
            Some(PlutusValue::Integer(n)) => {
                let n: i128 = *n;
                if 0 <= n && n <= u64::MAX as i128 {
                    Ok(n as u64)
                } else {
                    Err(
                        DecodeError {
                            reason: DecodeReason::IntegerOutOfRange,
                            field: index as u64,
                        },
                    )
                }
            },
            Some(_) => Err(DecodeError { reason: DecodeReason::ExpectedInteger, field: index as u64 }),
            None => Err(DecodeError { reason: DecodeReason::MissingField, field: index as u64 }),
        }
    } else {
        Err(DecodeError { reason: DecodeReason::MissingField, field: index as u64 })
    }
}

/// Decodes the field at `index` as a byte string, copying the bytes out.
pub fn field_bytes(fields: &Vec<Option<PlutusValue>>, index: usize) -> (r: Result<
    Vec<u8>,
    DecodeError,
>)
    requires
        index <= u64::MAX,
    ensures
        match r {
            Ok(b) => spec_field_bytes(fields@, index as int) == Ok::<Seq<u8>, DecodeError>(b@),
            Err(e) => spec_field_bytes(fields@, index as int) == Err::<Seq<u8>, DecodeError>(e),
        },
{
    if index < fields.len() {
        match &fields[index] {
            Some(PlutusValue::ByteString(b)) => Ok(crate::copy_bytes(b)),
            Some(_) => Err(DecodeError { reason: DecodeReason::ExpectedBytes, field: index as u64 }),
            None => Err(DecodeError { reason: DecodeReason::MissingField, field: index as u64 }),
        }
    } else {
        Err(DecodeError { reason: DecodeReason::MissingField, field: index as u64 })
    }
}

} // verus!

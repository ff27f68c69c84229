use seine::block::TunaBlock;
use seine::value::{field_bytes, field_integer, DecodeError, DecodeReason, PlutusValue};

fn state_fields(
    number: i128,
    hash: Vec<u8>,
    leading_zeros: i128,
    target_number: i128,
    epoch_time: i128,
    posix_time: i128,
) -> Vec<Option<PlutusValue>> {
    vec![
        Some(PlutusValue::Integer(number)),
        Some(PlutusValue::ByteString(hash)),
        Some(PlutusValue::Integer(leading_zeros)),
        Some(PlutusValue::Integer(target_number)),
        Some(PlutusValue::Integer(epoch_time)),
        Some(PlutusValue::Integer(posix_time)),
    ]
}

#[test]
fn decodes_well_formed_state() {
    let datum = Some(PlutusValue::Constr {
        tag: 0,
        fields: state_fields(42, vec![0xaa, 0xbb], 7, 65535, 600_000, 1_700_000_000),
    });
    let block = TunaBlock::from_datum(&datum).unwrap();
    assert_eq!(block.number, 42);
    assert_eq!(block.current_hash, vec![0xaa, 0xbb]);
    assert_eq!(block.leading_zeros, 7);
    assert_eq!(block.target_number, 65535);
    assert_eq!(block.epoch_time, 600_000);
    assert_eq!(block.current_posix_time, 1_700_000_000);
    assert!(block.nonce.is_none());
    assert!(block.credential.is_none());
    assert!(block.extra_data.is_none());
}

#[test]
fn rejects_missing_datum() {
    let err = TunaBlock::from_datum(&None).unwrap_err();
    assert_eq!(err, DecodeError { reason: DecodeReason::MissingDatum, field: 0 });
}

#[test]
fn rejects_non_constructor_datum() {
    let datum = Some(PlutusValue::Integer(5));
    let err = TunaBlock::from_datum(&datum).unwrap_err();
    assert_eq!(err, DecodeError { reason: DecodeReason::ExpectedConstructor, field: 0 });
}

#[test]
fn rejects_short_constructor() {
    let mut fields = state_fields(1, vec![0x01], 2, 3, 4, 5);
    fields.pop();
    let datum = Some(PlutusValue::Constr { tag: 0, fields });
    let err = TunaBlock::from_datum(&datum).unwrap_err();
    assert_eq!(err, DecodeError { reason: DecodeReason::MissingField, field: 5 });
}

#[test]
fn rejects_wrong_kind_field() {
    let mut fields = state_fields(1, vec![0x01], 2, 3, 4, 5);
    fields[0] = Some(PlutusValue::ByteString(vec![0x01]));
    let datum = Some(PlutusValue::Constr { tag: 0, fields });
    let err = TunaBlock::from_datum(&datum).unwrap_err();
    assert_eq!(err, DecodeError { reason: DecodeReason::ExpectedInteger, field: 0 });
}

#[test]
fn rejects_absent_field_slot() {
    let mut fields = state_fields(1, vec![0x01], 2, 3, 4, 5);
    fields[3] = None;
    let datum = Some(PlutusValue::Constr { tag: 0, fields });
    let err = TunaBlock::from_datum(&datum).unwrap_err();
    assert_eq!(err, DecodeError { reason: DecodeReason::MissingField, field: 3 });
}

#[test]
fn rejects_negative_counter() {
    let fields = state_fields(-1, vec![0x01], 2, 3, 4, 5);
    let datum = Some(PlutusValue::Constr { tag: 0, fields });
    let err = TunaBlock::from_datum(&datum).unwrap_err();
    assert_eq!(err, DecodeError { reason: DecodeReason::IntegerOutOfRange, field: 0 });
}

#[test]
fn rejects_oversized_counter() {
    let fields = state_fields((u64::MAX as i128) + 1, vec![0x01], 2, 3, 4, 5);
    let datum = Some(PlutusValue::Constr { tag: 0, fields });
    let err = TunaBlock::from_datum(&datum).unwrap_err();
    assert_eq!(err, DecodeError { reason: DecodeReason::IntegerOutOfRange, field: 0 });
}

#[test]
fn field_integer_reads_boundary_values() {
    let fields = vec![
        Some(PlutusValue::Integer(0)),
        Some(PlutusValue::Integer(u64::MAX as i128)),
    ];
    assert_eq!(field_integer(&fields, 0).unwrap(), 0);
    assert_eq!(field_integer(&fields, 1).unwrap(), u64::MAX);
    let err = field_integer(&fields, 2).unwrap_err();
    assert_eq!(err, DecodeError { reason: DecodeReason::MissingField, field: 2 });
}

#[test]
fn field_bytes_copies_bytes() {
    let fields = vec![Some(PlutusValue::ByteString(vec![1, 2, 3]))];
    assert_eq!(field_bytes(&fields, 0).unwrap(), vec![1, 2, 3]);
    let err = field_bytes(&fields, 1).unwrap_err();
    assert_eq!(err, DecodeError { reason: DecodeReason::MissingField, field: 1 });
    let ints = vec![Some(PlutusValue::Integer(9))];
    let err = field_bytes(&ints, 0).unwrap_err();
    assert_eq!(err, DecodeError { reason: DecodeReason::ExpectedBytes, field: 0 });
}

use seine::block::{reconstruct, MinerCredential, TunaBlock};
use seine::chain::{
    AssetData, MultiassetData, RedeemerData, RedeemerPurpose, TxData, TxInputData, TxOutputData,
};
use seine::classify::classify;
use seine::classify::Generation;
use seine::constants::{
    tuna_v1_address, tuna_v1_asset_name, tuna_v1_policy, tuna_v2_address, tuna_v2_policy,
};
use seine::value::{DecodeError, DecodeReason, PlutusValue};

fn state_datum(number: i128) -> Option<PlutusValue> {
    Some(PlutusValue::Constr {
        tag: 0,
        fields: vec![
            Some(PlutusValue::Integer(number)),
            Some(PlutusValue::ByteString(vec![0xca, 0xfe])),
            Some(PlutusValue::Integer(5)),
            Some(PlutusValue::Integer(1000)),
            Some(PlutusValue::Integer(600_000)),
            Some(PlutusValue::Integer(1_700_000_000)),
        ],
    })
}

fn v1_state_output(number: i128) -> TxOutputData {
    TxOutputData {
        address: tuna_v1_address(),
        assets: vec![MultiassetData {
            policy_id: tuna_v1_policy(),
            assets: vec![AssetData { name: tuna_v1_asset_name() }],
        }],
        datum: state_datum(number),
    }
}

fn v2_state_output(number: i128) -> TxOutputData {
    TxOutputData {
        address: tuna_v2_address(),
        assets: vec![MultiassetData {
            policy_id: tuna_v2_policy(),
            assets: vec![AssetData { name: b"TUNA state".to_vec() }],
        }],
        datum: state_datum(number),
    }
}

fn spend_redeemer(payload: PlutusValue) -> Option<RedeemerData> {
    Some(RedeemerData { purpose: RedeemerPurpose::Spend, payload })
}

fn reconstruct_classified(tx: &TxData) -> Result<TunaBlock, DecodeError> {
    let candidate = classify(tx).expect("transaction should carry a candidate");
    reconstruct(tx, &candidate)
}

#[test]
fn no_prior_input_leaves_nonce_and_credential_unset() {
    // The only input spends an output without protocol assets, so it is no
    // prior-state input.
    let tx = TxData {
        hash: vec![0x01],
        inputs: vec![TxInputData {
            as_output: Some(TxOutputData {
                address: vec![0x61, 0x99],
                assets: vec![],
                datum: None,
            }),
            redeemer: spend_redeemer(PlutusValue::Constr {
                tag: 0,
                fields: vec![Some(PlutusValue::ByteString(vec![0xff]))],
            }),
        }],
        outputs: vec![v1_state_output(1)],
    };
    let block = reconstruct_classified(&tx).unwrap();
    assert_eq!(block.number, 1);
    assert!(block.nonce.is_none());
    assert!(block.credential.is_none());
}

#[test]
fn v2_prior_input_fills_nonce_and_payment_credential() {
    let payload = PlutusValue::Constr {
        tag: 0,
        fields: vec![
            Some(PlutusValue::ByteString(vec![0xab, 0x12])),
            Some(PlutusValue::Constr {
                tag: 121,
                fields: vec![Some(PlutusValue::ByteString(vec![0xcd, 0x34]))],
            }),
        ],
    };
    let tx = TxData {
        hash: vec![0x02],
        inputs: vec![TxInputData {
            as_output: Some(v2_state_output(7)),
            redeemer: spend_redeemer(payload),
        }],
        outputs: vec![v2_state_output(8)],
    };
    let block = reconstruct_classified(&tx).unwrap();
    assert_eq!(block.number, 8);
    assert_eq!(block.nonce.as_deref(), Some(&[0xab, 0x12][..]));
    match block.credential {
        Some(MinerCredential::Payment(key)) => assert_eq!(key, vec![0xcd, 0x34]),
        _ => panic!("expected a payment credential"),
    }
}

#[test]
fn v2_asset_credential_joins_policy_and_name() {
    let payload = PlutusValue::Constr {
        tag: 0,
        fields: vec![
            Some(PlutusValue::ByteString(vec![0x11])),
            Some(PlutusValue::Constr {
                tag: 122,
                fields: vec![
                    Some(PlutusValue::ByteString(vec![0x22, 0x33])),
                    Some(PlutusValue::ByteString(vec![0x44])),
                ],
            }),
        ],
    };
    let tx = TxData {
        hash: vec![0x03],
        inputs: vec![TxInputData {
            as_output: Some(v2_state_output(9)),
            redeemer: spend_redeemer(payload),
        }],
        outputs: vec![v2_state_output(10)],
    };
    let block = reconstruct_classified(&tx).unwrap();
    assert_eq!(block.nonce.as_deref(), Some(&[0x11][..]));
    match block.credential {
        Some(MinerCredential::Asset { policy, name }) => {
            assert_eq!(policy, vec![0x22, 0x33]);
            assert_eq!(name, vec![0x44]);
        },
        _ => panic!("expected an asset credential"),
    }
}

#[test]
fn unknown_credential_tag_is_a_decode_error() {
    let payload = PlutusValue::Constr {
        tag: 0,
        fields: vec![
            Some(PlutusValue::ByteString(vec![0x11])),
            Some(PlutusValue::Constr { tag: 99, fields: vec![] }),
        ],
    };
    let tx = TxData {
        hash: vec![0x04],
        inputs: vec![TxInputData {
            as_output: Some(v2_state_output(11)),
            redeemer: spend_redeemer(payload),
        }],
        outputs: vec![v2_state_output(12)],
    };
    let err = reconstruct_classified(&tx).unwrap_err();
    assert_eq!(err, DecodeError { reason: DecodeReason::UnknownCredentialTag, field: 1 });
}

#[test]
fn v1_prior_input_fills_nonce_only() {
    let payload = PlutusValue::Constr {
        tag: 0,
        fields: vec![Some(PlutusValue::ByteString(vec![0xee, 0xef]))],
    };
    let tx = TxData {
        hash: vec![0x05],
        inputs: vec![TxInputData {
            as_output: Some(v1_state_output(3)),
            redeemer: spend_redeemer(payload),
        }],
        outputs: vec![v1_state_output(4)],
    };
    let block = reconstruct_classified(&tx).unwrap();
    assert_eq!(block.nonce.as_deref(), Some(&[0xee, 0xef][..]));
    assert!(block.credential.is_none());
}

#[test]
fn non_spend_redeemer_is_no_prior_input() {
    let payload = PlutusValue::Constr {
        tag: 0,
        fields: vec![Some(PlutusValue::ByteString(vec![0x77]))],
    };
    let tx = TxData {
        hash: vec![0x06],
        inputs: vec![TxInputData {
            as_output: Some(v1_state_output(5)),
            redeemer: Some(RedeemerData { purpose: RedeemerPurpose::Mint, payload }),
        }],
        outputs: vec![v1_state_output(6)],
    };
    let block = reconstruct_classified(&tx).unwrap();
    assert!(block.nonce.is_none());
    assert!(block.credential.is_none());
}

#[test]
fn first_of_several_prior_inputs_wins() {
    let first_payload = PlutusValue::Constr {
        tag: 0,
        fields: vec![Some(PlutusValue::ByteString(vec![0x0a]))],
    };
    let second_payload = PlutusValue::Constr {
        tag: 0,
        fields: vec![Some(PlutusValue::ByteString(vec![0x0b]))],
    };
    let tx = TxData {
        hash: vec![0x07],
        inputs: vec![
            TxInputData {
                as_output: Some(v1_state_output(1)),
                redeemer: spend_redeemer(first_payload),
            },
            TxInputData {
                as_output: Some(v1_state_output(2)),
                redeemer: spend_redeemer(second_payload),
            },
        ],
        outputs: vec![v1_state_output(3)],
    };
    let block = reconstruct_classified(&tx).unwrap();
    assert_eq!(block.nonce.as_deref(), Some(&[0x0a][..]));
}

#[test]
fn malformed_state_rejects_whole_record() {
    let mut output = v1_state_output(1);
    output.datum = Some(PlutusValue::Constr {
        tag: 0,
        fields: vec![Some(PlutusValue::Integer(1))],
    });
    let tx = TxData { hash: vec![0x08], inputs: vec![], outputs: vec![output] };
    let err = reconstruct_classified(&tx).unwrap_err();
    assert_eq!(err, DecodeError { reason: DecodeReason::MissingField, field: 1 });
}

#[test]
fn prior_payload_missing_nonce_is_a_decode_error() {
    let payload = PlutusValue::Constr { tag: 0, fields: vec![Some(PlutusValue::Integer(1))] };
    let tx = TxData {
        hash: vec![0x09],
        inputs: vec![TxInputData {
            as_output: Some(v1_state_output(1)),
            redeemer: spend_redeemer(payload),
        }],
        outputs: vec![v1_state_output(2)],
    };
    let err = reconstruct_classified(&tx).unwrap_err();
    assert_eq!(err, DecodeError { reason: DecodeReason::ExpectedBytes, field: 0 });
}

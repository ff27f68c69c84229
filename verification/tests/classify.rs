use seine::chain::{AssetData, MultiassetData, TxData, TxOutputData};
use seine::classify::{classify, output_matches, Generation};
use seine::constants::{
    tuna_v1_address, tuna_v1_asset_name, tuna_v1_policy, tuna_v2_address, tuna_v2_policy,
};

fn v1_output() -> TxOutputData {
    TxOutputData {
        address: tuna_v1_address(),
        assets: vec![MultiassetData {
            policy_id: tuna_v1_policy(),
            assets: vec![AssetData { name: tuna_v1_asset_name() }],
        }],
        datum: None,
    }
}

fn v2_output() -> TxOutputData {
    TxOutputData {
        address: tuna_v2_address(),
        assets: vec![MultiassetData {
            policy_id: tuna_v2_policy(),
            assets: vec![AssetData { name: b"TUNA counter".to_vec() }],
        }],
        datum: None,
    }
}

fn plain_output() -> TxOutputData {
    TxOutputData { address: vec![0x61, 0x01, 0x02], assets: vec![], datum: None }
}

fn tx_with_outputs(outputs: Vec<TxOutputData>) -> TxData {
    TxData { hash: vec![0xd0, 0x0d], inputs: vec![], outputs }
}

#[test]
fn second_generation_takes_priority() {
    let tx = tx_with_outputs(vec![v1_output(), v2_output()]);
    let candidate = classify(&tx).unwrap();
    assert_eq!(candidate.generation, Generation::V2);
    assert_eq!(candidate.output_index, 1);
}

#[test]
fn second_generation_takes_priority_in_either_order() {
    let tx = tx_with_outputs(vec![v2_output(), v1_output()]);
    let candidate = classify(&tx).unwrap();
    assert_eq!(candidate.generation, Generation::V2);
    assert_eq!(candidate.output_index, 0);
}

#[test]
fn first_generation_matches_when_alone() {
    let tx = tx_with_outputs(vec![plain_output(), v1_output()]);
    let candidate = classify(&tx).unwrap();
    assert_eq!(candidate.generation, Generation::V1);
    assert_eq!(candidate.output_index, 1);
}

#[test]
fn irrelevant_transaction_yields_no_candidate() {
    let tx = tx_with_outputs(vec![plain_output(), plain_output()]);
    assert!(classify(&tx).is_none());
}

#[test]
fn empty_transaction_yields_no_candidate() {
    let tx = tx_with_outputs(vec![]);
    assert!(classify(&tx).is_none());
}

#[test]
fn classification_is_repeatable() {
    let tx = tx_with_outputs(vec![v1_output(), v2_output()]);
    let first = classify(&tx).unwrap();
    let second = classify(&tx).unwrap();
    assert_eq!(first, second);
}

#[test]
fn v1_name_must_match_exactly() {
    let mut output = v1_output();
    output.assets[0].assets[0].name = b"lord tunafish".to_vec();
    assert!(!output_matches(&output, Generation::V1));
    output.assets[0].assets[0].name = tuna_v1_asset_name();
    assert!(output_matches(&output, Generation::V1));
}

#[test]
fn v2_name_matches_by_prefix_only() {
    let mut output = v2_output();
    assert!(output_matches(&output, Generation::V2));
    output.assets[0].assets[0].name = b"TUNA".to_vec();
    assert!(output_matches(&output, Generation::V2));
    output.assets[0].assets[0].name = b"TUN".to_vec();
    assert!(!output_matches(&output, Generation::V2));
    output.assets[0].assets[0].name = b"tuna mint".to_vec();
    assert!(!output_matches(&output, Generation::V2));
}

#[test]
fn address_and_policy_must_both_match() {
    let mut output = v2_output();
    output.address = tuna_v1_address();
    assert!(!output_matches(&output, Generation::V2));

    let mut output = v2_output();
    output.assets[0].policy_id = tuna_v1_policy();
    assert!(!output_matches(&output, Generation::V2));

    let mut output = v2_output();
    output.assets = vec![];
    assert!(!output_matches(&output, Generation::V2));
}

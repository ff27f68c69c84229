use seine::block::{MinerCredential, TunaBlock};
use seine::epoch::calculate_epoch;
use seine::store::StoredRow;
use seine::{bytes_eq, bytes_start_with, concat_bytes, copy_bytes};

fn base_record() -> TunaBlock {
    TunaBlock {
        number: 42,
        current_hash: vec![0x00, 0x1f, 0xab],
        leading_zeros: 5,
        target_number: 1000,
        epoch_time: 600_000,
        current_posix_time: 1_700_000_000,
        nonce: None,
        credential: None,
        extra_data: None,
    }
}

#[test]
fn row_text_renders_lowercase_hex() {
    let row = StoredRow {
        record: base_record(),
        tx_hash: vec![0xde, 0xad, 0xbe, 0xef],
        slot: 1000,
        block_hash: vec![0x0b, 0x10],
    };
    let text = row.to_row_text();
    assert_eq!(text.number, 42);
    assert_eq!(text.hash, "001fab");
    assert_eq!(text.leading_zeros, 5);
    assert_eq!(text.target_number, 1000);
    assert_eq!(text.epoch_time, 600_000);
    assert_eq!(text.current_posix_time, 1_700_000_000);
    assert!(text.nonce.is_none());
    assert!(text.miner_cred.is_none());
    assert!(text.nft_cred.is_none());
    assert!(text.data.is_none());
    assert_eq!(text.cardano_tx_hash, "deadbeef");
    assert_eq!(text.cardano_slot, 1000);
    assert_eq!(text.cardano_hash, "0b10");
}

#[test]
fn row_text_renders_nonce_and_payment_credential() {
    let mut record = base_record();
    record.nonce = Some(vec![0xab, 0x12]);
    record.credential = Some(MinerCredential::Payment(vec![0xcd, 0x34]));
    let row = StoredRow { record, tx_hash: vec![0x01], slot: 1, block_hash: vec![0x02] };
    let text = row.to_row_text();
    assert_eq!(text.nonce.as_deref(), Some("ab12"));
    assert_eq!(text.miner_cred.as_deref(), Some("cd34"));
    assert!(text.nft_cred.is_none());
}

#[test]
fn row_text_joins_asset_credential_policy_and_name() {
    let mut record = base_record();
    record.credential = Some(MinerCredential::Asset {
        policy: vec![0x22, 0x33],
        name: vec![0x44],
    });
    let row = StoredRow { record, tx_hash: vec![0x01], slot: 1, block_hash: vec![0x02] };
    let text = row.to_row_text();
    assert!(text.miner_cred.is_none());
    assert_eq!(text.nft_cred.as_deref(), Some("223344"));
}

#[test]
fn byte_helpers_compare_and_join() {
    assert!(bytes_eq(&[], &[]));
    assert!(bytes_eq(&[1, 2], &[1, 2]));
    assert!(!bytes_eq(&[1, 2], &[1, 3]));
    assert!(!bytes_eq(&[1, 2], &[1, 2, 3]));

    assert!(bytes_start_with(&[1, 2, 3], &[1, 2]));
    assert!(bytes_start_with(&[1, 2], &[]));
    assert!(!bytes_start_with(&[1], &[1, 2]));
    assert!(!bytes_start_with(&[2, 2, 3], &[1]));

    assert_eq!(concat_bytes(&[1, 2], &[3]), vec![1, 2, 3]);
    assert_eq!(concat_bytes(&[], &[]), Vec::<u8>::new());
    assert_eq!(copy_bytes(&vec![9, 8]), vec![9, 8]);
}

#[test]
fn epoch_formula_matches_expected_values() {
    assert_eq!(calculate_epoch(0), 1);
    assert_eq!(calculate_epoch(2015), 1);
    assert_eq!(calculate_epoch(2016), 2);
    assert_eq!(calculate_epoch(15 * 2016), 16);
    assert_eq!(calculate_epoch(15 * 2016 + 1), 16);
    assert_eq!(calculate_epoch(15 * 2016 + 504), 17);
    assert_eq!(calculate_epoch(15 * 2016 + 2 * 504 - 1), 17);
    assert_eq!(calculate_epoch(15 * 2016 + 2 * 504), 18);
}

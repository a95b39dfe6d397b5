use ownnest_solanaapp::account::{ACCOUNT_SPACE, MAX_PAYLOAD_LEN};
use ownnest_solanaapp::{store_design, DesignAccount, RecordStore, StoreDesign, StoreError};

const TAG: [u8; 8] = [1, 2, 3, 4, 5, 6, 7, 8];
const COST: u64 = 7_000;

fn fresh_store() -> RecordStore {
    RecordStore::new(42, COST, TAG)
}

fn signed(address: u64) -> StoreDesign {
    StoreDesign {
        design_account: address,
        user: 9,
        user_is_signer: true,
        user_lamports: 10_000,
    }
}

#[test]
fn circle_payload_is_stored_byte_for_byte() {
    let mut store = fresh_store();
    let json = "{\"shape\":\"circle\",\"r\":5}".to_string();
    assert_eq!(json.len(), 24);
    assert_eq!(store_design(&mut store, signed(1), json), Ok(()));
    let expected: Vec<u8> = vec![
        0x7b, 0x22, 0x73, 0x68, 0x61, 0x70, 0x65, 0x22, 0x3a, 0x22, 0x63, 0x69, 0x72, 0x63,
        0x6c, 0x65, 0x22, 0x2c, 0x22, 0x72, 0x22, 0x3a, 0x35, 0x7d,
    ];
    assert_eq!(store.payload(1), Some(expected.as_slice()));
}

#[test]
fn circle_account_bytes_follow_the_layout() {
    let mut store = fresh_store();
    let json = "{\"shape\":\"circle\",\"r\":5}".to_string();
    assert_eq!(store_design(&mut store, signed(1), json.clone()), Ok(()));
    let data = store.account_data(1).unwrap();
    assert_eq!(data.len(), 8 + 4 + 24);
    assert_eq!(&data[0..8], &TAG[..]);
    assert_eq!(&data[8..12], &[24u8, 0, 0, 0][..]);
    assert_eq!(&data[12..], json.as_bytes());
}

#[test]
fn too_long_payload_is_rejected_then_limit_succeeds() {
    let mut store = fresh_store();
    let too_long = "a".repeat(1025);
    assert_eq!(
        store_design(&mut store, signed(1), too_long),
        Err(StoreError::CapacityExceeded)
    );
    assert!(!store.contains(1));
    assert_eq!(store.payload(1), None);

    let at_limit = "a".repeat(1024);
    assert_eq!(store_design(&mut store, signed(2), at_limit.clone()), Ok(()));
    assert_eq!(store.payload(2), Some(at_limit.as_bytes()));
    let data = store.account_data(2).unwrap();
    assert_eq!(data.len(), ACCOUNT_SPACE);
    assert_eq!(&data[8..12], &[0u8, 4, 0, 0][..]);
}

#[test]
fn multibyte_text_counts_bytes_not_characters() {
    let mut store = fresh_store();
    // 512 two-byte characters: 1024 bytes, accepted.
    let fits = "é".repeat(512);
    assert_eq!(store_design(&mut store, signed(1), fits.clone()), Ok(()));
    assert_eq!(store.payload(1), Some(fits.as_bytes()));
    // 513 of them: 1026 bytes, rejected though only 513 characters.
    let over = "é".repeat(513);
    assert_eq!(
        store_design(&mut store, signed(2), over),
        Err(StoreError::CapacityExceeded)
    );
    assert!(!store.contains(2));
}

#[test]
fn empty_payload_is_stored() {
    let mut store = fresh_store();
    assert_eq!(store_design(&mut store, signed(3), String::new()), Ok(()));
    assert!(store.contains(3));
    assert_eq!(store.payload(3), Some(&[][..]));
    assert_eq!(store.account_data(3), Some(vec![1, 2, 3, 4, 5, 6, 7, 8, 0, 0, 0, 0]));
}

#[test]
fn second_store_into_same_cell_fails_and_keeps_first() {
    let mut store = fresh_store();
    assert_eq!(store_design(&mut store, signed(5), "{\"v\":1}".to_string()), Ok(()));
    assert_eq!(
        store_design(&mut store, signed(5), "{\"v\":2}".to_string()),
        Err(StoreError::AllocationFailure)
    );
    assert_eq!(store.payload(5), Some("{\"v\":1}".as_bytes()));
}

#[test]
fn unsigned_request_is_rejected() {
    let mut store = fresh_store();
    let mut ctx = signed(6);
    ctx.user_is_signer = false;
    assert_eq!(
        store_design(&mut store, ctx, "{}".to_string()),
        Err(StoreError::AuthorizationFailure)
    );
    assert!(!store.contains(6));
}

#[test]
fn unsigned_request_is_rejected_before_size_is_checked() {
    let mut store = fresh_store();
    let mut ctx = signed(6);
    ctx.user_is_signer = false;
    assert_eq!(
        store_design(&mut store, ctx, "a".repeat(2000)),
        Err(StoreError::AuthorizationFailure)
    );
    assert!(!store.contains(6));
}

#[test]
fn payer_without_funds_cannot_allocate() {
    let mut store = fresh_store();
    let mut ctx = signed(7);
    ctx.user_lamports = COST - 1;
    assert_eq!(
        store_design(&mut store, ctx, "{}".to_string()),
        Err(StoreError::AllocationFailure)
    );
    assert!(!store.contains(7));
    ctx.user_lamports = COST;
    assert_eq!(store_design(&mut store, ctx, "{}".to_string()), Ok(()));
    assert!(store.contains(7));
}

#[test]
fn cells_at_other_addresses_are_untouched() {
    let mut store = fresh_store();
    assert_eq!(store_design(&mut store, signed(1), "[1]".to_string()), Ok(()));
    assert_eq!(store_design(&mut store, signed(2), "[2]".to_string()), Ok(()));
    assert_eq!(store.payload(1), Some("[1]".as_bytes()));
    assert_eq!(store.payload(2), Some("[2]".as_bytes()));
    assert_eq!(store.payload(3), None);
    assert_eq!(store.account_data(3), None);
}

#[test]
fn configuration_is_kept() {
    let mut store = fresh_store();
    assert_eq!(store.program_id(), 42);
    assert_eq!(store.allocation_cost(), COST);
    assert_eq!(store_design(&mut store, signed(1), "{}".to_string()), Ok(()));
    assert_eq!(store.program_id(), 42);
    assert_eq!(store.allocation_cost(), COST);
}

#[test]
fn record_from_text_holds_utf8_bytes() {
    let rec = DesignAccount::from_text("ab€");
    assert_eq!(rec.json_data, vec![0x61, 0x62, 0xe2, 0x82, 0xac]);
    assert!(rec.fits());
    let big = DesignAccount::from_text(&"x".repeat(MAX_PAYLOAD_LEN + 1));
    assert!(!big.fits());
}

#[test]
fn length_prefix_is_little_endian() {
    let rec = DesignAccount { json_data: vec![0u8; 300] };
    let bytes = rec.to_account_bytes(&[9; 8]);
    assert_eq!(bytes.len(), 312);
    assert_eq!(&bytes[0..8], &[9u8; 8][..]);
    assert_eq!(&bytes[8..12], &[44u8, 1, 0, 0][..]);
}

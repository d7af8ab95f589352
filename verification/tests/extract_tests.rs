use raydiumpoolsubscription::extract::extract_event;
use raydiumpoolsubscription::extract::ExtractionError;
use raydiumpoolsubscription::model::BalanceRecord;
use raydiumpoolsubscription::model::ExtractConfig;
use raydiumpoolsubscription::model::TransactionRecord;

const LP_OWNER: &str = "5Q544fKrFoe6tsEbD7S8EmxGTJYAKtTVhAW5Q5pge4j1";
const WSOL_MINT: &str = "So11111111111111111111111111111111111111112";
const BASE_MINT: &str = "4k3Dyjzvzp8eMZWUXbBCjEvwSkkk59S5iCNLY3QrkX6R";
const CREATOR: &str = "9xQeWvG816bUx9EPjHmaT23yvVM2ZWbrrpZb9PusVFin";

fn cfg() -> ExtractConfig {
    ExtractConfig {
        lp_owner: LP_OWNER.to_string(),
        quote_mint: WSOL_MINT.to_string(),
    }
}

fn quote_record() -> BalanceRecord {
    BalanceRecord {
        owner: LP_OWNER.to_string(),
        mint: WSOL_MINT.to_string(),
        decimals: Some(9),
        ui_amount: Some("5.0".to_string()),
    }
}

fn base_record() -> BalanceRecord {
    BalanceRecord {
        owner: LP_OWNER.to_string(),
        mint: BASE_MINT.to_string(),
        decimals: Some(6),
        ui_amount: Some("1000.0".to_string()),
    }
}

fn tx(success: bool, keys: Vec<&str>, balances: Vec<BalanceRecord>) -> TransactionRecord {
    TransactionRecord {
        success,
        account_keys: keys.into_iter().map(|k| k.to_string()).collect(),
        balances,
    }
}

#[test]
fn pairing_extracts_both_sides() {
    let t = tx(true, vec![CREATOR], vec![quote_record(), base_record()]);
    let r = extract_event(
        &"sig-1".to_string(),
        &"2024-01-01T00:00:00+00:00".to_string(),
        &t,
        &cfg(),
    );
    let ext = r.expect("extraction must succeed").expect("must be an event");
    assert_eq!(ext.event.signature, "sig-1");
    assert_eq!(ext.event.timestamp, "2024-01-01T00:00:00+00:00");
    assert_eq!(ext.event.creator, CREATOR);
    assert_eq!(ext.event.tokens.len(), 2);
    // base side first
    assert_eq!(ext.event.tokens[0].address, BASE_MINT);
    assert_eq!(ext.event.tokens[0].decimals, 6);
    assert_eq!(ext.event.tokens[0].lp_amount, "1000.0");
    // quote side second
    assert_eq!(ext.event.tokens[1].address, WSOL_MINT);
    assert_eq!(ext.event.tokens[1].decimals, 9);
    assert_eq!(ext.event.tokens[1].lp_amount, "5.0");
    assert!(ext.warnings.is_empty());
}

#[test]
fn quote_only_is_rejected_as_incomplete() {
    let t = tx(true, vec![CREATOR], vec![quote_record()]);
    let r = extract_event(
        &"sig-2".to_string(),
        &"2024-01-01T00:00:00+00:00".to_string(),
        &t,
        &cfg(),
    );
    assert_eq!(r.unwrap_err(), ExtractionError::IncompleteBalances);
}

#[test]
fn base_only_is_rejected_as_incomplete() {
    let t = tx(true, vec![CREATOR], vec![base_record()]);
    let r = extract_event(
        &"sig-3".to_string(),
        &"2024-01-01T00:00:00+00:00".to_string(),
        &t,
        &cfg(),
    );
    assert_eq!(r.unwrap_err(), ExtractionError::IncompleteBalances);
}

#[test]
fn empty_balance_records_are_rejected() {
    let t = tx(true, vec![CREATOR], Vec::new());
    let r = extract_event(
        &"sig-empty".to_string(),
        &"2024-01-01T00:00:00+00:00".to_string(),
        &t,
        &cfg(),
    );
    assert_eq!(r.unwrap_err(), ExtractionError::IncompleteBalances);
}

#[test]
fn failed_transaction_is_not_an_event() {
    let t = tx(false, vec![CREATOR], vec![quote_record(), base_record()]);
    let r = extract_event(
        &"sig-4".to_string(),
        &"2024-01-01T00:00:00+00:00".to_string(),
        &t,
        &cfg(),
    );
    assert!(r.unwrap().is_none());
}

#[test]
fn missing_signer_is_rejected() {
    let t = tx(true, vec![], vec![quote_record(), base_record()]);
    let r = extract_event(
        &"sig-5".to_string(),
        &"2024-01-01T00:00:00+00:00".to_string(),
        &t,
        &cfg(),
    );
    assert_eq!(r.unwrap_err(), ExtractionError::NoSigner);
}

#[test]
fn absent_subfields_default_with_warnings() {
    let mut q = quote_record();
    q.decimals = None;
    let mut b = base_record();
    b.ui_amount = None;
    let t = tx(true, vec![CREATOR], vec![q, b]);
    let r = extract_event(
        &"sig-6".to_string(),
        &"2024-01-01T00:00:00+00:00".to_string(),
        &t,
        &cfg(),
    );
    let ext = r.unwrap().unwrap();
    // base first: its amount was absent and defaulted
    assert_eq!(ext.event.tokens[0].lp_amount, "0");
    assert_eq!(ext.event.tokens[0].decimals, 6);
    // quote second: its decimals were absent and defaulted
    assert_eq!(ext.event.tokens[1].decimals, 0);
    assert_eq!(ext.event.tokens[1].lp_amount, "5.0");
    assert_eq!(ext.warnings.len(), 2);
    assert_eq!(ext.warnings[0], "balance record lacks an amount; defaulted to 0");
    assert_eq!(ext.warnings[1], "balance record lacks decimals; defaulted to 0");
}

#[test]
fn first_matching_record_wins() {
    // two base-side candidates: the first one is taken
    let other_base = BalanceRecord {
        owner: LP_OWNER.to_string(),
        mint: CREATOR.to_string(),
        decimals: Some(2),
        ui_amount: Some("7.0".to_string()),
    };
    let t = tx(
        true,
        vec![CREATOR],
        vec![base_record(), other_base, quote_record()],
    );
    let r = extract_event(
        &"sig-7".to_string(),
        &"2024-01-01T00:00:00+00:00".to_string(),
        &t,
        &cfg(),
    );
    let ext = r.unwrap().unwrap();
    assert_eq!(ext.event.tokens[0].address, BASE_MINT);
}

#[test]
fn records_of_other_owners_are_ignored() {
    let mut stray = quote_record();
    stray.owner = CREATOR.to_string();
    let t = tx(true, vec![CREATOR], vec![stray, base_record()]);
    let r = extract_event(
        &"sig-8".to_string(),
        &"2024-01-01T00:00:00+00:00".to_string(),
        &t,
        &cfg(),
    );
    assert_eq!(r.unwrap_err(), ExtractionError::IncompleteBalances);
}

use raydiumpoolsubscription::clock::now_rfc3339;
use raydiumpoolsubscription::config::build_extract_config;
use raydiumpoolsubscription::config::validate_address;
use raydiumpoolsubscription::config::ConfigError;
use raydiumpoolsubscription::detect::candidate_from_notification;
use raydiumpoolsubscription::detect::DiffDetector;
use raydiumpoolsubscription::detect::NotificationError;
use raydiumpoolsubscription::driver::process_candidate;
use raydiumpoolsubscription::driver::BackoffPolicy;
use raydiumpoolsubscription::driver::BackoffState;
use raydiumpoolsubscription::driver::FetchOutcome;
use raydiumpoolsubscription::driver::SourceDecision;
use raydiumpoolsubscription::driver::StepResult;
use raydiumpoolsubscription::model::BalanceRecord;
use raydiumpoolsubscription::model::CandidateEvent;
use raydiumpoolsubscription::model::ExtractConfig;
use raydiumpoolsubscription::model::TransactionRecord;
use raydiumpoolsubscription::store::EventStore;

const LP_OWNER: &str = "5Q544fKrFoe6tsEbD7S8EmxGTJYAKtTVhAW5Q5pge4j1";
const WSOL_MINT: &str = "So11111111111111111111111111111111111111112";
const BASE_MINT: &str = "4k3Dyjzvzp8eMZWUXbBCjEvwSkkk59S5iCNLY3QrkX6R";
const CREATOR: &str = "9xQeWvG816bUx9EPjHmaT23yvVM2ZWbrrpZb9PusVFin";

fn cfg() -> ExtractConfig {
    ExtractConfig {
        lp_owner: LP_OWNER.to_string(),
        quote_mint: WSOL_MINT.to_string(),
    }
}

fn good_transaction() -> FetchOutcome {
    FetchOutcome::Transaction(TransactionRecord {
        success: true,
        account_keys: vec![CREATOR.to_string()],
        balances: vec![
            BalanceRecord {
                owner: LP_OWNER.to_string(),
                mint: WSOL_MINT.to_string(),
                decimals: Some(9),
                ui_amount: Some("5.0".to_string()),
            },
            BalanceRecord {
                owner: LP_OWNER.to_string(),
                mint: BASE_MINT.to_string(),
                decimals: Some(6),
                ui_amount: Some("1000.0".to_string()),
            },
        ],
    })
}

#[test]
fn diff_polling_emits_only_new_addresses() {
    let mut d = DiffDetector::new(Vec::new());
    let first = d.tick(vec!["A".to_string(), "B".to_string()]);
    assert_eq!(first, vec!["A".to_string(), "B".to_string()]);
    let second = d.tick(vec!["A".to_string(), "B".to_string(), "C".to_string()]);
    assert_eq!(second, vec!["C".to_string()]);
}

#[test]
fn diff_polling_reappearing_address_is_new_again() {
    // accepted limitation: the known set is replaced, not unioned
    let mut d = DiffDetector::new(Vec::new());
    assert_eq!(d.tick(vec!["A".to_string()]), vec!["A".to_string()]);
    assert_eq!(d.tick(Vec::new()), Vec::<String>::new());
    assert_eq!(d.tick(vec!["A".to_string()]), vec!["A".to_string()]);
}

#[test]
fn diff_polling_initial_snapshot_not_reported() {
    let mut d = DiffDetector::new(vec!["A".to_string()]);
    assert_eq!(d.known_len(), 1);
    let fresh = d.tick(vec!["A".to_string(), "B".to_string()]);
    assert_eq!(fresh, vec!["B".to_string()]);
}

#[test]
fn notification_with_signature_becomes_candidate() {
    let r = candidate_from_notification(
        Some("sig-x".to_string()),
        vec!["log line".to_string()],
    );
    match r.unwrap() {
        CandidateEvent::Transaction { signature, raw_logs } => {
            assert_eq!(signature, "sig-x");
            assert_eq!(raw_logs, vec!["log line".to_string()]);
        }
        CandidateEvent::Account { .. } => panic!("wrong candidate kind"),
    }
}

#[test]
fn notification_without_signature_is_an_error() {
    let r = candidate_from_notification(None, Vec::new());
    assert_eq!(r.unwrap_err(), NotificationError::NoSignature);
}

#[test]
fn stored_candidate_appends_and_reports() {
    let mut store = EventStore::new(1_000_000);
    let ts = "2024-01-01T00:00:00+00:00".to_string();
    let r = process_candidate(&mut store, &"sig-new".to_string(), &ts, &good_transaction(), &cfg());
    match r {
        StepResult::Stored { event, line, rotation_needed, warnings } => {
            assert_eq!(event.signature, "sig-new");
            assert!(line.starts_with("{\"signature\":\"sig-new\""));
            assert!(!rotation_needed);
            assert!(warnings.is_empty());
        }
        _ => panic!("expected the event to be stored"),
    }
    assert!(store.contains(&"sig-new".to_string()));
}

#[test]
fn duplicate_candidate_is_skipped() {
    let mut store = EventStore::new(1_000_000);
    let ts = "2024-01-01T00:00:00+00:00".to_string();
    let sig = "sig-twice".to_string();
    let first = process_candidate(&mut store, &sig, &ts, &good_transaction(), &cfg());
    assert!(matches!(first, StepResult::Stored { .. }));
    let second = process_candidate(&mut store, &sig, &ts, &good_transaction(), &cfg());
    assert!(matches!(second, StepResult::SkippedDuplicate));
}

#[test]
fn incomplete_balances_yield_one_failure_entry() {
    let mut store = EventStore::new(1_000_000);
    let ts = "2024-01-01T00:00:00+00:00".to_string();
    let quote_only = FetchOutcome::Transaction(TransactionRecord {
        success: true,
        account_keys: vec![CREATOR.to_string()],
        balances: vec![BalanceRecord {
            owner: LP_OWNER.to_string(),
            mint: WSOL_MINT.to_string(),
            decimals: Some(9),
            ui_amount: Some("5.0".to_string()),
        }],
    });
    let r = process_candidate(&mut store, &"sig-incomplete".to_string(), &ts, &quote_only, &cfg());
    match r {
        StepResult::Failure { log_line } => {
            assert_eq!(
                log_line,
                "2024-01-01T00:00:00+00:00 extraction failed: incomplete balance records"
            );
        }
        _ => panic!("expected a failure entry"),
    }
    // nothing was stored
    assert!(!store.contains(&"sig-incomplete".to_string()));
}

#[test]
fn missing_signer_yields_failure_entry() {
    let mut store = EventStore::new(1_000_000);
    let ts = "2024-01-01T00:00:00+00:00".to_string();
    let unsigned = FetchOutcome::Transaction(TransactionRecord {
        success: true,
        account_keys: Vec::new(),
        balances: vec![
            BalanceRecord {
                owner: LP_OWNER.to_string(),
                mint: WSOL_MINT.to_string(),
                decimals: Some(9),
                ui_amount: Some("5.0".to_string()),
            },
            BalanceRecord {
                owner: LP_OWNER.to_string(),
                mint: BASE_MINT.to_string(),
                decimals: Some(6),
                ui_amount: Some("1000.0".to_string()),
            },
        ],
    });
    let r = process_candidate(&mut store, &"sig-unsigned".to_string(), &ts, &unsigned, &cfg());
    match r {
        StepResult::Failure { log_line } => {
            assert_eq!(log_line, "2024-01-01T00:00:00+00:00 extraction failed: no signer");
        }
        _ => panic!("expected a failure entry"),
    }
}

#[test]
fn failed_on_chain_transaction_is_silent_noise() {
    let mut store = EventStore::new(1_000_000);
    let ts = "2024-01-01T00:00:00+00:00".to_string();
    let failed = FetchOutcome::Transaction(TransactionRecord {
        success: false,
        account_keys: vec![CREATOR.to_string()],
        balances: Vec::new(),
    });
    let r = process_candidate(&mut store, &"sig-failed".to_string(), &ts, &failed, &cfg());
    assert!(matches!(r, StepResult::NotAnEvent));
    let unfound = process_candidate(
        &mut store,
        &"sig-unknown".to_string(),
        &ts,
        &FetchOutcome::NotFound,
        &cfg(),
    );
    assert!(matches!(unfound, StepResult::NotAnEvent));
}

#[test]
fn transport_failure_every_third_call_never_halts() {
    let mut store = EventStore::new(1_000_000);
    let ts = "2024-01-01T00:00:00+00:00".to_string();
    let mut stored = 0;
    let mut failures = 0;
    for k in 0..9 {
        let sig = format!("sig-{}", k);
        let fetch = if k % 3 == 2 {
            FetchOutcome::TransportError("connection reset".to_string())
        } else {
            good_transaction()
        };
        match process_candidate(&mut store, &sig, &ts, &fetch, &cfg()) {
            StepResult::Stored { .. } => stored += 1,
            StepResult::Failure { log_line } => {
                assert_eq!(
                    log_line,
                    "2024-01-01T00:00:00+00:00 transport error: connection reset"
                );
                failures += 1;
            }
            _ => panic!("unexpected outcome"),
        }
    }
    // every candidate outside the failing pattern was processed and stored
    assert_eq!(stored, 6);
    assert_eq!(failures, 3);
    for k in 0..9 {
        let sig = format!("sig-{}", k);
        assert_eq!(store.contains(&sig), k % 3 != 2);
    }
}

#[test]
fn backoff_doubles_up_to_cap_then_gives_up() {
    let policy = BackoffPolicy { budget: 5, initial_delay_ms: 100, max_delay_ms: 1000 };
    let mut st = BackoffState::new();
    let mut delays = Vec::new();
    for _ in 0..5 {
        match st.on_failure(&policy) {
            SourceDecision::Retry { delay_ms } => delays.push(delay_ms),
            SourceDecision::GiveUp => panic!("gave up within budget"),
        }
    }
    assert_eq!(delays, vec![100, 200, 400, 800, 1000]);
    assert!(matches!(st.on_failure(&policy), SourceDecision::GiveUp));
    st.on_success();
    assert!(matches!(
        st.on_failure(&policy),
        SourceDecision::Retry { delay_ms: 100 }
    ));
}

#[test]
fn addresses_are_validated_at_startup() {
    assert!(validate_address(LP_OWNER));
    assert!(validate_address(WSOL_MINT));
    assert!(!validate_address("short"));
    assert!(!validate_address("0000000000000000000000000000000000000000000")); // '0' is not base58
    let ok = build_extract_config(LP_OWNER.to_string(), WSOL_MINT.to_string()).unwrap();
    assert_eq!(ok.lp_owner, LP_OWNER);
    assert_eq!(ok.quote_mint, WSOL_MINT);
    assert_eq!(
        build_extract_config("bad".to_string(), WSOL_MINT.to_string()).unwrap_err(),
        ConfigError::BadLpOwner
    );
    assert_eq!(
        build_extract_config(LP_OWNER.to_string(), "bad".to_string()).unwrap_err(),
        ConfigError::BadQuoteMint
    );
}

#[test]
fn clock_yields_a_nonempty_timestamp() {
    let ts = now_rfc3339();
    assert!(!ts.is_empty());
    assert!(ts.contains('T'));
}

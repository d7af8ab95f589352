//! Turns one fetched transaction into zero-or-one pool event.
//!
//! A successful transaction yields an event exactly when its post-execution
//! token-balance records hold, under the pool authority, one balance of the
//! configured quote mint and one balance of a different mint. A transaction
//! that failed on chain is not an event; one without the two-sided pairing is
//! rejected, not stored as partial data.

use vstd::prelude::*;
use crate::model::BalanceRecord;
use crate::model::BalanceRecordView;
use crate::model::ExtractConfig;
use crate::model::ExtractConfigView;
use crate::model::PoolEvent;
use crate::model::TokenInfo;
use crate::model::TokenInfoView;
use crate::model::TransactionRecord;

verus! {

/// Why a successful transaction still yielded no pool event.
#[derive(PartialEq, Eq, Structural, Clone, Copy, Debug)]
pub enum ExtractionError {
    /// The balance records do not hold both a quote-side and a base-side
    /// pool-owned balance.
    IncompleteBalances,
    /// The transaction carries no signer/account list entry to name a creator.
    NoSigner,
}

/// A decoded pool event together with the data-quality warnings raised while
/// decoding it (one per balance sub-field that was absent and defaulted).
#[derive(Debug)]
pub struct Extraction {
    pub event: PoolEvent,
    pub warnings: Vec<String>,
}

/// Does this record hold the pool authority's balance of the side asked for?
/// The quote side is the record whose mint is the configured quote mint; the
/// base side is a pool-owned record of any other mint.
pub open spec fn matches_side(b: BalanceRecordView, cfg: ExtractConfigView, quote: bool) -> bool {
    b.owner == cfg.lp_owner && (if quote {
        b.mint == cfg.quote_mint
    } else {
        b.mint != cfg.quote_mint
    })
}

/// The token information a balance record decodes to: its mint, and its
/// decimals and amount with an absent sub-field defaulted to zero.
pub open spec fn token_of(b: BalanceRecordView) -> TokenInfoView {
    TokenInfoView {
        address: b.mint,
        decimals: match b.decimals {
            Option::Some(d) => d,
            Option::None => 0,
        },
        lp_amount: match b.ui_amount {
            Option::Some(a) => a,
            Option::None => "0"@,
        },
    }
}

/// The warnings decoding one balance record raises: one per absent sub-field.
pub open spec fn record_warnings(b: BalanceRecordView) -> Seq<Seq<char>> {
    (if b.decimals is None {
        seq!["balance record lacks decimals; defaulted to 0"@]
    } else {
        Seq::<Seq<char>>::empty()
    }) + (if b.ui_amount is None {
        seq!["balance record lacks an amount; defaulted to 0"@]
    } else {
        Seq::<Seq<char>>::empty()
    })
}

/// Index of the first balance record matching the given side, if any.
fn find_first_side(balances: &Vec<BalanceRecord>, cfg: &ExtractConfig, quote: bool) -> (r: Option<
    usize,
>)
    ensures
        match r {
            Option::Some(i) => {
                &&& i < balances@.len()
                &&& matches_side(balances@[i as int]@, cfg@, quote)
                &&& forall|j: int|
                    0 <= j < i ==> !matches_side(#[trigger] balances@[j]@, cfg@, quote)
            },
            Option::None => forall|j: int|
                0 <= j < balances@.len() ==> !matches_side(#[trigger] balances@[j]@, cfg@, quote),
        },
{
    let n = balances.len();
    let mut i: usize = 0;
    while i < n
        invariant
            n == balances@.len(),
            i <= n,
            forall|j: int| 0 <= j < i ==> !matches_side(#[trigger] balances@[j]@, cfg@, quote),
        decreases n - i,
    {
        let b = &balances[i];
        let owner_ok = b.owner == cfg.lp_owner;
        let mint_is_quote = b.mint == cfg.quote_mint;
        let side_ok = if quote {
            mint_is_quote
        } else {
            !mint_is_quote
        };
        if owner_ok && side_ok {
            return Option::Some(i);
        }
        i = i + 1;
    }
    Option::None
}

/// Decode one balance record to its token information, pushing one warning
/// for each sub-field the record did not carry.
fn token_of_record(b: &BalanceRecord, warnings: &mut Vec<String>) -> (t: TokenInfo)
    ensures
        t@ == token_of(b@),
        final(warnings).deep_view() == old(warnings).deep_view() + record_warnings(b@),
{
    let decimals: u8 = match &b.decimals {
        Option::Some(d) => *d,
        Option::None => {
            warnings.push(String::from_str("balance record lacks decimals; defaulted to 0"));
            0
        },
    };
    let lp_amount: String = match &b.ui_amount {
        Option::Some(a) => a.clone(),
        Option::None => {
            warnings.push(String::from_str("balance record lacks an amount; defaulted to 0"));
            String::from_str("0")
        },
    };
    let t = TokenInfo { address: b.mint.clone(), decimals, lp_amount };
    proof {
        assert(final(warnings).deep_view() =~= old(warnings).deep_view() + record_warnings(b@));
    }
    t
}

/// Does some balance record hold the pool authority's balance of the given
/// side?
pub open spec fn has_side(
    bv: Seq<BalanceRecordView>,
    cfg: ExtractConfigView,
    quote: bool,
) -> bool {
    exists|i: int| 0 <= i < bv.len() && matches_side(#[trigger] bv[i], cfg, quote)
}

/// What a successful extraction hands back, stated over views: the event
/// carries the candidate's signature, the given timestamp, the first account
/// key as creator, and exactly the base-side then quote-side token
/// information taken from the first matching balance records, with the
/// warnings of both records in that order.
pub open spec fn extraction_ok(
    evv: crate::model::PoolEventView,
    warns: Seq<Seq<char>>,
    sig: Seq<char>,
    ts: Seq<char>,
    txv: crate::model::TransactionRecordView,
    cfg: ExtractConfigView,
) -> bool {
    let bv = txv.balances;
    &&& evv.signature == sig
    &&& evv.timestamp == ts
    &&& txv.account_keys.len() > 0
    &&& evv.creator == txv.account_keys[0]
    &&& evv.tokens.len() == 2
    &&& exists|qi: int, bi: int|
        {
            &&& 0 <= qi < bv.len()
            &&& 0 <= bi < bv.len()
            &&& matches_side(#[trigger] bv[qi], cfg, true)
            &&& matches_side(#[trigger] bv[bi], cfg, false)
            &&& (forall|j: int| 0 <= j < qi ==> !matches_side(#[trigger] bv[j], cfg, true))
            &&& (forall|j: int| 0 <= j < bi ==> !matches_side(#[trigger] bv[j], cfg, false))
            &&& evv.tokens[0] == token_of(bv[bi])
            &&& evv.tokens[1] == token_of(bv[qi])
            &&& warns == record_warnings(bv[bi]) + record_warnings(bv[qi])
        }
}

/// A decoded pool event pairs the sides as the data model demands: the
/// quote-side entry (second) carries the configured quote mint, and the
/// base-side entry (first) carries a different mint — never two quote sides
/// and never a partial pairing.
pub proof fn lemma_extracted_pairing(
    evv: crate::model::PoolEventView,
    warns: Seq<Seq<char>>,
    sig: Seq<char>,
    ts: Seq<char>,
    txv: crate::model::TransactionRecordView,
    cfg: ExtractConfigView,
)
    requires
        extraction_ok(evv, warns, sig, ts, txv, cfg),
    ensures
        evv.tokens.len() == 2,
        evv.tokens[1].address == cfg.quote_mint,
        evv.tokens[0].address != cfg.quote_mint,
{
}

/// Turn one fetched transaction into zero-or-one pool event.
///
/// A transaction that failed on chain is no event and yields `Ok(None)`.
/// A successful one yields `Ok(Some(..))` exactly when its balance records
/// pair a quote-side and a base-side pool-owned balance and it names at least
/// one signer; the event lists the base token first, then the quote token,
/// each taken from the first matching record. Otherwise the transaction is
/// rejected: `IncompleteBalances` when the pairing is missing, `NoSigner`
/// when the pairing is present but the signer list is empty.
pub fn extract_event(
    signature: &String,
    timestamp: &String,
    tx: &TransactionRecord,
    cfg: &ExtractConfig,
) -> (r: Result<Option<Extraction>, ExtractionError>)
    ensures
        !tx.success ==> r is Ok && r->Ok_0 is None,
        tx.success ==> {
            let bv = tx@.balances;
            let has_quote = has_side(bv, cfg@, true);
            let has_base = has_side(bv, cfg@, false);
            &&& (!(has_quote && has_base) <==> r == Result::<Option<Extraction>, ExtractionError>::Err(
                ExtractionError::IncompleteBalances,
            ))
            &&& (has_quote && has_base && tx@.account_keys.len() == 0 <==> r == Result::<
                Option<Extraction>,
                ExtractionError,
            >::Err(ExtractionError::NoSigner))
            &&& (has_quote && has_base && tx@.account_keys.len() > 0 ==> r is Ok && r->Ok_0 is Some
                && extraction_ok(
                r->Ok_0->0.event@,
                r->Ok_0->0.warnings.deep_view(),
                signature@,
                timestamp@,
                tx@,
                cfg@,
            ))
        },
{
    if !tx.success {
        return Result::Ok(Option::None);
    }
    let quote_idx = find_first_side(&tx.balances, cfg, true);
    let base_idx = find_first_side(&tx.balances, cfg, false);
    proof {
        assert(forall|j: int|
            0 <= j < tx@.balances.len() ==> #[trigger] tx@.balances[j] == tx.balances@[j]@);
    }
    match (quote_idx, base_idx) {
        (Option::Some(qi), Option::Some(bi)) => {
            proof {
                assert(matches_side(tx@.balances[qi as int], cfg@, true));
                assert(matches_side(tx@.balances[bi as int], cfg@, false));
            }
            if tx.account_keys.len() == 0 {
                return Result::Err(ExtractionError::NoSigner);
            }
            let mut warnings: Vec<String> = Vec::new();
            let base = token_of_record(&tx.balances[bi], &mut warnings);
            let quote = token_of_record(&tx.balances[qi], &mut warnings);
            let mut tokens: Vec<TokenInfo> = Vec::new();
            tokens.push(base);
            tokens.push(quote);
            let event = PoolEvent {
                signature: signature.clone(),
                timestamp: timestamp.clone(),
                creator: tx.account_keys[0].clone(),
                tokens,
            };
            proof {
                assert(event@.tokens =~= seq![
                    token_of(tx@.balances[bi as int]),
                    token_of(tx@.balances[qi as int]),
                ]);
                assert(warnings.deep_view() =~= record_warnings(tx@.balances[bi as int])
                    + record_warnings(tx@.balances[qi as int]));
            }
            Result::Ok(Option::Some(Extraction { event, warnings }))
        },
        _ => Result::Err(ExtractionError::IncompleteBalances),
    }
}

} // verus!

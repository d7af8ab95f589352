//! Data model of the pipeline: candidate events produced by a detector,
//! balance records decoded from a transaction, and the canonical pool event
//! that the store persists.

use vstd::prelude::*;

verus! {

/// The balance a liquidity pool holds of one token, as decoded from a
/// transaction's post-execution token-balance records.
#[derive(Debug)]
pub struct TokenInfo {
    /// Mint identifier of the token.
    pub address: String,
    /// On-chain decimal configuration of the mint.
    pub decimals: u8,
    /// Pool-owned balance of this token, as a decimal text amount.
    pub lp_amount: String,
}

/// Mathematical value of a [`TokenInfo`].
pub struct TokenInfoView {
    pub address: Seq<char>,
    pub decimals: u8,
    pub lp_amount: Seq<char>,
}

impl View for TokenInfo {
    type V = TokenInfoView;

    open spec fn view(&self) -> TokenInfoView {
        TokenInfoView {
            address: self.address@,
            decimals: self.decimals,
            lp_amount: self.lp_amount@,
        }
    }
}

/// The canonical decoded record of a pool-creation transaction.
#[derive(Debug)]
pub struct PoolEvent {
    /// Unique transaction identifier; the store's dedup key.
    pub signature: String,
    /// UTC time of extraction, as an RFC 3339 text.
    pub timestamp: String,
    /// Address of the transaction's fee payer (first signer).
    pub creator: String,
    /// One entry per side of the pool, base first, then quote.
    pub tokens: Vec<TokenInfo>,
}

/// Mathematical value of a [`PoolEvent`].
pub struct PoolEventView {
    pub signature: Seq<char>,
    pub timestamp: Seq<char>,
    pub creator: Seq<char>,
    pub tokens: Seq<TokenInfoView>,
}

impl View for PoolEvent {
    type V = PoolEventView;

    open spec fn view(&self) -> PoolEventView {
        PoolEventView {
            signature: self.signature@,
            timestamp: self.timestamp@,
            creator: self.creator@,
            tokens: self.tokens@.map_values(|t: TokenInfo| t@),
        }
    }
}

/// One post-execution token-balance record of a transaction, already brought
/// to plain values. A sub-field the transaction metadata did not carry is
/// `None`; extraction replaces it with a sentinel and reports a warning.
#[derive(Debug)]
pub struct BalanceRecord {
    /// Authority that holds this balance.
    pub owner: String,
    /// Mint of the balance.
    pub mint: String,
    /// Decimal configuration, if the record carried it.
    pub decimals: Option<u8>,
    /// Balance amount as decimal text, if the record carried it.
    pub ui_amount: Option<String>,
}

/// Mathematical value of a [`BalanceRecord`].
pub struct BalanceRecordView {
    pub owner: Seq<char>,
    pub mint: Seq<char>,
    pub decimals: Option<u8>,
    pub ui_amount: Option<Seq<char>>,
}

impl View for BalanceRecord {
    type V = BalanceRecordView;

    open spec fn view(&self) -> BalanceRecordView {
        BalanceRecordView {
            owner: self.owner@,
            mint: self.mint@,
            decimals: self.decimals,
            ui_amount: match self.ui_amount {
                Option::Some(a) => Option::Some(a@),
                Option::None => Option::None,
            },
        }
    }
}

/// A fetched transaction, brought to plain values: whether it executed
/// successfully on chain, its signer/account list (first entry is the fee
/// payer), and its post-execution token-balance records.
#[derive(Debug)]
pub struct TransactionRecord {
    pub success: bool,
    pub account_keys: Vec<String>,
    pub balances: Vec<BalanceRecord>,
}

/// Mathematical value of a [`TransactionRecord`].
pub struct TransactionRecordView {
    pub success: bool,
    pub account_keys: Seq<Seq<char>>,
    pub balances: Seq<BalanceRecordView>,
}

impl View for TransactionRecord {
    type V = TransactionRecordView;

    open spec fn view(&self) -> TransactionRecordView {
        TransactionRecordView {
            success: self.success,
            account_keys: self.account_keys@.map_values(|s: String| s@),
            balances: self.balances@.map_values(|b: BalanceRecord| b@),
        }
    }
}

/// A reference to something that might be a new-pool transaction: either a
/// bare pool-account address seen by the diff-polling detector, or a
/// transaction signature with its raw log lines pushed by a subscription.
#[derive(Debug)]
pub enum CandidateEvent {
    Account { address: String },
    Transaction { signature: String, raw_logs: Vec<String> },
}

/// Mathematical value of a [`CandidateEvent`].
pub enum CandidateEventView {
    Account { address: Seq<char> },
    Transaction { signature: Seq<char>, raw_logs: Seq<Seq<char>> },
}

impl View for CandidateEvent {
    type V = CandidateEventView;

    open spec fn view(&self) -> CandidateEventView {
        match self {
            CandidateEvent::Account { address } => CandidateEventView::Account {
                address: address@,
            },
            CandidateEvent::Transaction { signature, raw_logs } => CandidateEventView::Transaction {
                signature: signature@,
                raw_logs: raw_logs@.map_values(|s: String| s@),
            },
        }
    }
}

/// Addresses that extraction matches balance records against: the authority
/// that holds pooled balances, and the designated quote mint expected on one
/// side of every pool.
#[derive(Debug)]
pub struct ExtractConfig {
    pub lp_owner: String,
    pub quote_mint: String,
}

/// Mathematical value of an [`ExtractConfig`].
pub struct ExtractConfigView {
    pub lp_owner: Seq<char>,
    pub quote_mint: Seq<char>,
}

impl View for ExtractConfig {
    type V = ExtractConfigView;

    open spec fn view(&self) -> ExtractConfigView {
        ExtractConfigView {
            lp_owner: self.lp_owner@,
            quote_mint: self.quote_mint@,
        }
    }
}

} // verus!

//! Startup validation of the configured addresses.
//!
//! The watcher is configured with the pool authority and the quote mint (and
//! the caller with further endpoints and paths). A malformed address must
//! fail fast at startup with a descriptive error, before any watching
//! starts; no partial startup.

use vstd::prelude::*;
use crate::model::ExtractConfig;

verus! {

/// Characters of the base-58 alphabet addresses are written in (digits and
/// letters, with `0`, `O`, `I` and `l` left out).
pub open spec fn is_base58_char(c: char) -> bool {
    ('1' <= c && c <= '9') || ('A' <= c && c <= 'H') || ('J' <= c && c <= 'N') || ('P' <= c && c
        <= 'Z') || ('a' <= c && c <= 'k') || ('m' <= c && c <= 'z')
}

/// A plausible address: base-58 text of the length a 32-byte key encodes to.
pub open spec fn is_valid_address(s: Seq<char>) -> bool {
    32 <= s.len() <= 44 && forall|i: int| 0 <= i < s.len() ==> is_base58_char(#[trigger] s[i])
}

/// Check one configured address.
pub fn validate_address(s: &str) -> (r: bool)
    ensures
        r == is_valid_address(s@),
{
    let n = s.unicode_len();
    if n < 32 || n > 44 {
        return false;
    }
    let mut i: usize = 0;
    while i < n
        invariant
            n == s@.len(),
            i <= n,
            forall|j: int| 0 <= j < i ==> is_base58_char(#[trigger] s@[j]),
        decreases n - i,
    {
        let c = s.get_char(i);
        let ok = ('1' <= c && c <= '9') || ('A' <= c && c <= 'H') || ('J' <= c && c <= 'N') || ('P'
            <= c && c <= 'Z') || ('a' <= c && c <= 'k') || ('m' <= c && c <= 'z');
        if !ok {
            return false;
        }
        i = i + 1;
    }
    true
}

/// Which configured address was rejected at startup.
#[derive(PartialEq, Eq, Structural, Clone, Copy, Debug)]
pub enum ConfigError {
    BadLpOwner,
    BadQuoteMint,
}

/// Validate the extraction addresses, fail-fast: the configuration is
/// accepted exactly when both are plausible addresses; otherwise the first
/// malformed one (pool authority before quote mint) is named.
pub fn build_extract_config(lp_owner: String, quote_mint: String) -> (r: Result<
    ExtractConfig,
    ConfigError,
>)
    ensures
        !is_valid_address(lp_owner@) ==> r == Result::<ExtractConfig, ConfigError>::Err(
            ConfigError::BadLpOwner,
        ),
        is_valid_address(lp_owner@) && !is_valid_address(quote_mint@) ==> r == Result::<
            ExtractConfig,
            ConfigError,
        >::Err(ConfigError::BadQuoteMint),
        is_valid_address(lp_owner@) && is_valid_address(quote_mint@) ==> r is Ok
            && r->Ok_0@.lp_owner == lp_owner@ && r->Ok_0@.quote_mint == quote_mint@,
{
    if !validate_address(lp_owner.as_str()) {
        return Result::Err(ConfigError::BadLpOwner);
    }
    if !validate_address(quote_mint.as_str()) {
        return Result::Err(ConfigError::BadQuoteMint);
    }
    Result::Ok(ExtractConfig { lp_owner, quote_mint })
}

} // verus!

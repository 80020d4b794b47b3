//! The Strict-Transport-Security header value: how long browsers should
//! insist on HTTPS, and whether subdomains are included. Attaching the
//! header to responses is the web layer's business.

use vstd::prelude::*;
use vstd::string::*;
use crate::decimal::{dec_rep, u64_to_string};

verus! {

pub const MONTH_SECS: u64 = 60 * 60 * 24 * 31;

/// Policy knobs for the header.
pub struct StsOptions {
    pub expire_time: u64,
    pub include_subdomains: bool,
}

impl core::default::Default for StsOptions {
    /// One month, this host only.
    fn default() -> (r: Self)
        ensures
            r.expire_time == MONTH_SECS,
            !r.include_subdomains,
    {
        StsOptions { expire_time: MONTH_SECS, include_subdomains: false }
    }
}

/// The header value the options denote.
pub open spec fn sts_header_value(expire_time: u64, include_subdomains: bool) -> Seq<char> {
    "max-age="@ + dec_rep(expire_time as int) + if include_subdomains {
        "; includeSubDomains"@
    } else {
        Seq::<char>::empty()
    }
}

/// The header value for the default policy.
pub fn sts_header() -> (r: String)
    ensures
        r@ == sts_header_value(MONTH_SECS, false),
{
    sts_header_opts(StsOptions::default())
}

/// The header value for a chosen policy.
pub fn sts_header_opts(options: StsOptions) -> (r: String)
    ensures
        r@ == sts_header_value(options.expire_time, options.include_subdomains),
{
    let mut out = "max-age=".to_owned();
    let digits = u64_to_string(options.expire_time);
    out.append(digits.as_str());
    if options.include_subdomains {
        out.append("; includeSubDomains");
    }
    out
}

} // verus!

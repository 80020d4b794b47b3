//! The HTTP-to-HTTPS redirect decision: whether a request needs
//! redirecting, and where to. Inspecting and rewriting live requests is
//! the web layer's business.

use vstd::prelude::*;
use vstd::string::*;
use crate::util::str_eq;

verus! {

/// Marker for the production-only redirect policy: in production every
/// plain-HTTP request is answered with a permanent redirect to the HTTPS
/// origin.
pub struct ProductionHttpsRedirect;

/// Where a request must be redirected: the HTTPS origin plus the
/// original path.
pub fn redirect_handler(host: String, to: String) -> (r: String)
    ensures
        r@ == "https://"@ + host@ + to@,
{
    let mut out = "https://".to_owned();
    out.append(host.as_str());
    out.append(to.as_str());
    out
}

/// Decides the redirect for one request: a request already marked HTTPS
/// by the proxy passes through; any other is sent to the HTTPS origin.
pub fn https_redirector(host: &String, x_forwarded_proto: Option<&String>, uri: &String) -> (r:
    Option<String>)
    ensures
        match x_forwarded_proto {
            Some(scheme) => (scheme@ == "https"@ <==> r is None),
            None => r is Some,
        },
        r matches Some(target) ==> target@ == "https://"@ + host@ + uri@,
{
    let is_https = match x_forwarded_proto {
        Some(scheme) => str_eq(scheme.as_str(), "https"),
        None => false,
    };
    if is_https {
        None
    } else {
        Some(redirect_handler(host.clone(), uri.clone()))
    }
}

} // verus!

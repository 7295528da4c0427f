//! Fallback values for unset configuration options.
//!
//! The process reads its configuration from the environment outside the
//! library and hands each option in as an `Option<String>`; these functions
//! apply the documented defaults.

use vstd::prelude::*;

verus! {

/// The expected password, defaulting to `"password"` when unset.
pub fn password_or_default(configured: Option<String>) -> (r: String)
    ensures
        match configured {
            Some(v) => r@ == v@,
            None => r@ == "password"@,
        },
{
    match configured {
        Some(v) => v,
        None => String::from_str("password"),
    }
}

/// The shared secret embedded in every delegation form, defaulting to
/// `"shared_secret"` when unset.
pub fn shared_secret_or_default(configured: Option<String>) -> (r: String)
    ensures
        match configured {
            Some(v) => r@ == v@,
            None => r@ == "shared_secret"@,
        },
{
    match configured {
        Some(v) => v,
        None => String::from_str("shared_secret"),
    }
}

/// The host to bind, defaulting to `"127.0.0.1"` when unset.
pub fn host_or_default(configured: Option<String>) -> (r: String)
    ensures
        match configured {
            Some(v) => r@ == v@,
            None => r@ == "127.0.0.1"@,
        },
{
    match configured {
        Some(v) => v,
        None => String::from_str("127.0.0.1"),
    }
}

/// The port to bind, defaulting to `"8080"` when unset.
pub fn port_or_default(configured: Option<String>) -> (r: String)
    ensures
        match configured {
            Some(v) => r@ == v@,
            None => r@ == "8080"@,
        },
{
    match configured {
        Some(v) => v,
        None => String::from_str("8080"),
    }
}

/// Joins host and port into the `host:port` bind address.
pub fn bind_address(host: &String, port: &String) -> (r: String)
    ensures
        r@ == host@ + ":"@ + port@,
{
    let mut r = String::new();
    r.append(host.as_str());
    r.append(":");
    r.append(port.as_str());
    r
}

} // verus!

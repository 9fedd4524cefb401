//! The relay's configuration and its well-known queue names.
//!
//! The broker connection address comes from the process environment; the
//! relay itself only decides whether what it was handed is usable.  A
//! missing or empty address is the fatal configuration error: no relay
//! value exists in that case, so no half-initialized instance can ever be
//! observed.

use vstd::prelude::*;

use crate::RelayError;

verus! {

/// A usable relay configuration: the broker connection address, known to be
/// non-empty.
pub struct RelayConfig {
    pub address: String,
}

impl RelayConfig {
    /// The address this configuration connects to.
    pub open spec fn addr(&self) -> Seq<char> {
        self.address@
    }

    /// Builds the configuration from the environment-supplied connection
    /// address, if any.  Succeeds exactly when an address is present and
    /// non-empty; otherwise the configuration error, which callers must
    /// treat as fatal at startup.
    pub fn from_address(addr: Option<String>) -> (r: Result<RelayConfig, RelayError>)
        ensures
            (r is Ok) <==> (addr matches Some(a) && a@.len() > 0),
            r matches Err(e) ==> e == RelayError::Config,
            (match (addr, r) {
                (Some(a), Ok(c)) => c.addr() == a@,
                _ => true,
            }),
    {
        match addr {
            None => Err(RelayError::Config),
            Some(a) => {
                if a.as_str().is_empty() {
                    Err(RelayError::Config)
                } else {
                    Ok(RelayConfig { address: a })
                }
            },
        }
    }
}

/// The name of the inbound queue the relay blocks on.
pub fn inbound_queue_key() -> (r: &'static str)
    ensures
        r@ == "messages"@,
{
    "messages"
}

/// The name of the persistence queue the relay appends to.
pub fn persistence_queue_key() -> (r: &'static str)
    ensures
        r@ == "db_processor"@,
{
    "db_processor"
}

} // verus!

//! Configuration of a watch session: the endpoint of the remote feed and
//! the identity watched for. Both are read once, before the first
//! connection attempt; a missing or unparsable value is fatal and no
//! attempt is made.

use vstd::prelude::*;
use crate::identity::{decoded_identity, parse_identity, valid_identity_text, Identity};

verus! {

/// The fatal, pre-loop errors: a missing endpoint, a missing identity, or
/// an identity text that is not well-formed hexadecimal.
#[derive(Debug, PartialEq, Eq, Structural, Clone, Copy)]
pub enum ConfigError {
    MissingEndpoint,
    MissingIdentity,
    InvalidIdentity,
}

/// A validated watch configuration.
#[derive(Debug, PartialEq, Eq)]
pub struct Config {
    /// The remote endpoint's address, as given. The transport alone judges
    /// whether it can connect to it.
    pub endpoint: Vec<u8>,
    /// The identity whose events are reported.
    pub target: Identity,
}

/// Validates the two configuration inputs, as read from the environment:
/// both must be present and the identity text must parse. Exactly the first
/// failure in that order is reported, and on success the endpoint is kept
/// as given and the target is the parsed identity.
pub fn load_config(endpoint: Option<Vec<u8>>, identity_text: Option<Vec<u8>>) -> (r: Result<
    Config,
    ConfigError,
>)
    ensures
        match (endpoint, identity_text) {
            (Option::None, _) => r matches Err(e) && e == ConfigError::MissingEndpoint,
            (Option::Some(_), Option::None) => r matches Err(e) && e
                == ConfigError::MissingIdentity,
            (Option::Some(ep), Option::Some(t)) => {
                &&& (r is Ok <==> valid_identity_text(t@))
                &&& (r matches Ok(c) ==> c.endpoint@ == ep@ && c.target.wf() && c.target@
                    == decoded_identity(t@))
                &&& (r matches Err(e) ==> e == ConfigError::InvalidIdentity)
            },
        },
{
    let ep = match endpoint {
        Option::Some(ep) => ep,
        Option::None => {
            return Result::Err(ConfigError::MissingEndpoint);
        },
    };
    let text = match identity_text {
        Option::Some(t) => t,
        Option::None => {
            return Result::Err(ConfigError::MissingIdentity);
        },
    };
    match parse_identity(&text) {
        Result::Ok(target) => Result::Ok(Config { endpoint: ep, target }),
        Result::Err(e) => Result::Err(e),
    }
}

} // verus!

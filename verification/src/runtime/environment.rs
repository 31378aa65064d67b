//! The environment errors of the earlier storage layout.

use vstd::prelude::*;
use vstd::string::StringExecFns;

use crate::text::{append_decimal, decimal};

verus! {

/// What went wrong in the environment.
#[derive(Clone, PartialEq, Debug)]
pub enum EnvError {
    StorageUnavailable,
    StorageSchemaVersionDowngrade(usize, usize),
    Fetch(String),
    AddonTransport(String),
    Serde(String),
}

/// The message of an environment error.
pub open spec fn environment_error_message(error: EnvError) -> Seq<char> {
    match error {
        EnvError::StorageUnavailable => "Storage is not available."@,
        EnvError::StorageSchemaVersionDowngrade(from, to) => "Downgrade storage schema version from "@
            + decimal(from as nat) + " to "@ + decimal(to as nat) + " is not allowed."@,
        EnvError::Fetch(message) => "Failed to fetch: "@ + message@,
        EnvError::AddonTransport(message) => "Addon protocol violation: "@ + message@,
        EnvError::Serde(message) => "Serialization error: "@ + message@,
    }
}

/// The code of an environment error: one per kind of error.
pub open spec fn environment_error_code(error: EnvError) -> u64 {
    match error {
        EnvError::StorageUnavailable => 1,
        EnvError::StorageSchemaVersionDowngrade(_, _) => 2,
        EnvError::Fetch(_) => 3,
        EnvError::AddonTransport(_) => 4,
        EnvError::Serde(_) => 5,
    }
}

fn prefixed(prefix: &str, message: &String) -> (r: String)
    ensures
        r@ == prefix@ + message@,
{
    let mut s = String::from_str(prefix);
    s.append(message.as_str());
    s
}

impl EnvError {
    /// The message shown for the error.
    pub fn message(&self) -> (r: String)
        ensures
            r@ == environment_error_message(*self),
    {
        match self {
            EnvError::StorageUnavailable => String::from_str("Storage is not available."),
            EnvError::StorageSchemaVersionDowngrade(from, to) => {
                let mut s = String::from_str("Downgrade storage schema version from ");
                append_decimal(&mut s, *from as u64);
                s.append(" to ");
                append_decimal(&mut s, *to as u64);
                s.append(" is not allowed.");
                s
            },
            EnvError::Fetch(message) => prefixed("Failed to fetch: ", message),
            EnvError::AddonTransport(message) => prefixed("Addon protocol violation: ", message),
            EnvError::Serde(message) => prefixed("Serialization error: ", message),
        }
    }

    /// The code reported for the error.
    pub fn code(&self) -> (r: u64)
        ensures
            r == environment_error_code(*self),
    {
        match self {
            EnvError::StorageUnavailable => 1,
            EnvError::StorageSchemaVersionDowngrade(_, _) => 2,
            EnvError::Fetch(_) => 3,
            EnvError::AddonTransport(_) => 4,
            EnvError::Serde(_) => 5,
        }
    }
}

} // verus!

use vstd::prelude::*;

use crate::runtime::EnvError;
use crate::types::api::APIError;

verus! {

/// An error of the context: from the API, the environment, or its own rules.
#[derive(PartialEq, Debug)]
pub enum CtxError {
    API(APIError),
    Env(EnvError),
    Other(OtherError),
}

impl Clone for CtxError {
    fn clone(&self) -> (r: Self)
        ensures
            r == *self,
    {
        match self {
            CtxError::API(error) => CtxError::API(
                APIError { message: error.message.clone(), code: error.code },
            ),
            CtxError::Env(error) => CtxError::Env(error.duplicate()),
            CtxError::Other(error) => CtxError::Other(*error),
        }
    }
}

impl From<APIError> for CtxError {
    fn from(error: APIError) -> (r: Self) {
        CtxError::API(error)
    }
}

impl vstd::std_specs::convert::FromSpecImpl<APIError> for CtxError {
    open spec fn obeys_from_spec() -> bool {
        true
    }

    open spec fn from_spec(v: APIError) -> Self {
        CtxError::API(v)
    }
}

impl From<EnvError> for CtxError {
    fn from(error: EnvError) -> (r: Self) {
        CtxError::Env(error)
    }
}

impl vstd::std_specs::convert::FromSpecImpl<EnvError> for CtxError {
    open spec fn obeys_from_spec() -> bool {
        true
    }

    open spec fn from_spec(v: EnvError) -> Self {
        CtxError::Env(v)
    }
}

impl From<OtherError> for CtxError {
    fn from(error: OtherError) -> (r: Self) {
        CtxError::Other(error)
    }
}

impl vstd::std_specs::convert::FromSpecImpl<OtherError> for CtxError {
    open spec fn obeys_from_spec() -> bool {
        true
    }

    open spec fn from_spec(v: OtherError) -> Self {
        CtxError::Other(v)
    }
}

/// The context's own errors.
#[derive(Clone, Copy, PartialEq, Eq, Debug, Structural)]
pub enum OtherError {
    UserNotLoggedIn,
    LibraryItemNotFound,
    AddonAlreadyInstalled,
    AddonNotInstalled,
    AddonIsProtected,
    AddonConfigurationRequired,
    UserAddonsAreLocked,
    UserLibraryIsMissing,
}

pub open spec fn other_error_message(error: OtherError) -> Seq<char> {
    match error {
        OtherError::UserNotLoggedIn => "User is not logged in"@,
        OtherError::LibraryItemNotFound => "Item is not found in library"@,
        OtherError::AddonAlreadyInstalled => "Addon is already installed"@,
        OtherError::AddonNotInstalled => "Addon is not installed"@,
        OtherError::AddonIsProtected => "Addon is protected"@,
        OtherError::AddonConfigurationRequired => "Addon requires configuration"@,
        OtherError::UserAddonsAreLocked =>
            "Fetching Addons from the API failed and we have defaulted the addons to the officials ones until the request succeeds"@,
        OtherError::UserLibraryIsMissing =>
            "Fetching Library from the API failed and we have defaulted to empty library until the request succeeds"@,
    }
}

pub open spec fn other_error_code(error: OtherError) -> u64 {
    match error {
        OtherError::UserNotLoggedIn => 1,
        OtherError::LibraryItemNotFound => 2,
        OtherError::AddonAlreadyInstalled => 3,
        OtherError::AddonNotInstalled => 4,
        OtherError::AddonIsProtected => 5,
        OtherError::AddonConfigurationRequired => 6,
        OtherError::UserAddonsAreLocked => 7,
        OtherError::UserLibraryIsMissing => 8,
    }
}

impl OtherError {
    /// The message shown for the error.
    pub fn message(&self) -> (r: String)
        ensures
            r@ == other_error_message(*self),
    {
        let text = match self {
            OtherError::UserNotLoggedIn => "User is not logged in",
            OtherError::LibraryItemNotFound => "Item is not found in library",
            OtherError::AddonAlreadyInstalled => "Addon is already installed",
            OtherError::AddonNotInstalled => "Addon is not installed",
            OtherError::AddonIsProtected => "Addon is protected",
            OtherError::AddonConfigurationRequired => "Addon requires configuration",
            OtherError::UserAddonsAreLocked =>
                "Fetching Addons from the API failed and we have defaulted the addons to the officials ones until the request succeeds",
            OtherError::UserLibraryIsMissing =>
                "Fetching Library from the API failed and we have defaulted to empty library until the request succeeds",
        };
        text.to_owned()
    }

    /// The code reported for the error.
    pub fn code(&self) -> (r: u64)
        ensures
            r == other_error_code(*self),
    {
        match self {
            OtherError::UserNotLoggedIn => 1,
            OtherError::LibraryItemNotFound => 2,
            OtherError::AddonAlreadyInstalled => 3,
            OtherError::AddonNotInstalled => 4,
            OtherError::AddonIsProtected => 5,
            OtherError::AddonConfigurationRequired => 6,
            OtherError::UserAddonsAreLocked => 7,
            OtherError::UserLibraryIsMissing => 8,
        }
    }
}

/// Different kinds of errors of the context have different codes.
pub proof fn law_other_error_code_injective(a: OtherError, b: OtherError)
    ensures
        other_error_code(a) == other_error_code(b) <==> a == b,
{
}

} // verus!

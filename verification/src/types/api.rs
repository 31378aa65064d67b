use vstd::prelude::*;

verus! {

/// An error that the API reported.
#[derive(Clone, PartialEq, Eq, Debug)]
pub struct APIError {
    pub message: String,
    pub code: u64,
}

} // verus!

verus! {

/// A code with which another device links to the account, and the link
/// and QR code that show it.
#[derive(Clone, PartialEq, Eq, Debug)]
pub struct LinkCodeResponse {
    pub code: String,
    pub link: String,
    pub qrcode: String,
}

/// The requests of the linking flow: create a code, or read what was
/// linked with a code.
#[derive(Clone, PartialEq, Eq, Debug)]
pub enum LinkRequest {
    Create,
    Read { code: String },
}

} // verus!

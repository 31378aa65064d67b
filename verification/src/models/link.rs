//! Linking another device to the account with a code.

use vstd::prelude::*;
use vstd::string::StringExecFns;

use crate::models::common::Loadable;
use crate::runtime::env::env_error_message;
use crate::runtime::{Effects, EnvError};
use crate::types::api::{APIError, LinkCodeResponse, LinkRequest};

verus! {

/// Why linking failed.
#[derive(PartialEq, Debug)]
pub enum LinkError {
    API(APIError),
    Env(EnvError),
    UnexpectedResponse(String),
}

impl From<APIError> for LinkError {
    fn from(error: APIError) -> (r: Self) {
        LinkError::API(error)
    }
}

impl vstd::std_specs::convert::FromSpecImpl<APIError> for LinkError {
    open spec fn obeys_from_spec() -> bool {
        true
    }

    open spec fn from_spec(v: APIError) -> Self {
        LinkError::API(v)
    }
}

impl From<EnvError> for LinkError {
    fn from(error: EnvError) -> (r: Self) {
        LinkError::Env(error)
    }
}

impl vstd::std_specs::convert::FromSpecImpl<EnvError> for LinkError {
    open spec fn obeys_from_spec() -> bool {
        true
    }

    open spec fn from_spec(v: EnvError) -> Self {
        LinkError::Env(v)
    }
}

/// The text shown for a linking error.
pub open spec fn link_error_text(error: LinkError) -> Seq<char> {
    match error {
        LinkError::API(e) => "API: "@ + e.message@,
        LinkError::Env(e) => "Env: "@ + env_error_message(e),
        LinkError::UnexpectedResponse(message) => "UnexpectedResponse: "@ + message@,
    }
}

impl LinkError {
    /// The text shown for the error.
    pub fn to_display_string(&self) -> (r: String)
        ensures
            r@ == link_error_text(*self),
    {
        match self {
            LinkError::API(e) => {
                let mut s = String::from_str("API: ");
                s.append(e.message.as_str());
                s
            },
            LinkError::Env(e) => {
                let mut s = String::from_str("Env: ");
                let m = e.message();
                s.append(m.as_str());
                s
            },
            LinkError::UnexpectedResponse(message) => {
                let mut s = String::from_str("UnexpectedResponse: ");
                s.append(message.as_str());
                s
            },
        }
    }
}

/// The linking flow: the code that was created, and the data read with it.
pub struct Link<T> {
    pub code: Option<Loadable<LinkCodeResponse, LinkError>>,
    pub data: Option<Loadable<T, LinkError>>,
}

impl<T> Default for Link<T> {
    fn default() -> (r: Self)
        ensures
            r.code is None,
            r.data is None,
    {
        Link { code: None, data: None }
    }
}

/// What the linking flow reacts to: the user's actions, and the answers to
/// its requests (the data as converted from the response, or the
/// conversion's error message).
pub enum LinkMsg<T> {
    Load,
    ReadData,
    Unload,
    CodeResult(Result<LinkCodeResponse, LinkError>),
    DataResult(String, Result<Result<T, String>, LinkError>),
}

/// The code, once created.
pub open spec fn ready_code<T>(link: Link<T>) -> Option<Seq<char>> {
    match link.code {
        Some(Loadable::Ready(response)) => Some(response.code@),
        _ => None,
    }
}

pub open spec fn is_loading<R, E>(value: Option<Loadable<R, E>>) -> bool {
    value matches Some(Loadable::Loading)
}

/// The state after a message, and the requests it makes.
pub open spec fn spec_link_update<T>(link: Link<T>, msg: LinkMsg<T>) -> (Link<T>, Seq<LinkRequest>) {
    match msg {
        LinkMsg::Load => (Link { code: Some(Loadable::Loading), data: None }, seq![LinkRequest::Create]),
        LinkMsg::ReadData => match link.code {
            Some(Loadable::Ready(response)) => (
                Link { code: link.code, data: Some(Loadable::Loading) },
                seq![LinkRequest::Read { code: response.code }],
            ),
            _ => (link, Seq::empty()),
        },
        LinkMsg::Unload => (Link { code: None, data: None }, Seq::empty()),
        LinkMsg::CodeResult(result) => if is_loading(link.code) {
            (
                Link {
                    code: Some(
                        match result {
                            Ok(response) => Loadable::Ready(response),
                            Err(error) => Loadable::Error(error),
                        },
                    ),
                    data: None,
                },
                Seq::empty(),
            )
        } else {
            (link, Seq::empty())
        },
        LinkMsg::DataResult(code, result) => if is_loading(link.data) && ready_code(link) == Some(
            code@,
        ) {
            (
                Link {
                    code: link.code,
                    data: Some(
                        match result {
                            Ok(Ok(data)) => Loadable::Ready(data),
                            Ok(Err(message)) => Loadable::Error(
                                LinkError::UnexpectedResponse(message),
                            ),
                            Err(error) => Loadable::Error(error),
                        },
                    ),
                },
                Seq::empty(),
            )
        } else {
            (link, Seq::empty())
        },
    }
}

fn code_is_loading(code: &Option<Loadable<LinkCodeResponse, LinkError>>) -> (r: bool)
    ensures
        r == is_loading(*code),
{
    matches!(code, Some(Loadable::Loading))
}

fn data_is_loading<T>(data: &Option<Loadable<T, LinkError>>) -> (r: bool)
    ensures
        r == is_loading(*data),
{
    matches!(data, Some(Loadable::Loading))
}

impl<T> Link<T> {
    /// The reducer of the linking flow: the state after the message and the
    /// requests to make, as [`spec_link_update`] gives them. A change is
    /// reported exactly when the state differs.
    pub fn update(&mut self, msg: LinkMsg<T>) -> (r: Effects<LinkRequest>)
        ensures
            ({
                let (next, requests) = spec_link_update(*old(self), msg);
                &&& *final(self) == next
                &&& r.effect_list() == requests
                &&& r.has_changed == (*old(self) != next)
            }),
    {
        match msg {
            LinkMsg::Load => {
                let changed = !(code_is_loading(&self.code) && self.data.is_none());
                self.code = Some(Loadable::Loading);
                self.data = None;
                let effects = Effects::one(LinkRequest::Create).unchanged();
                if changed {
                    effects.join(Effects::none())
                } else {
                    effects
                }
            },
            LinkMsg::ReadData => {
                let request = match &self.code {
                    Some(Loadable::Ready(response)) => Some(
                        LinkRequest::Read { code: response.code.clone() },
                    ),
                    _ => None,
                };
                match request {
                    Some(request) => {
                        let changed = !data_is_loading(&self.data);
                        self.data = Some(Loadable::Loading);
                        let effects = Effects::one(request).unchanged();
                        if changed {
                            effects.join(Effects::none())
                        } else {
                            effects
                        }
                    },
                    None => Effects::none().unchanged(),
                }
            },
            LinkMsg::Unload => {
                let changed = self.code.is_some() || self.data.is_some();
                self.code = None;
                self.data = None;
                if changed {
                    Effects::none()
                } else {
                    Effects::none().unchanged()
                }
            },
            LinkMsg::CodeResult(result) => {
                if code_is_loading(&self.code) {
                    self.code = Some(
                        match result {
                            Ok(response) => Loadable::Ready(response),
                            Err(error) => Loadable::Error(error),
                        },
                    );
                    self.data = None;
                    Effects::none()
                } else {
                    Effects::none().unchanged()
                }
            },
            LinkMsg::DataResult(code, result) => {
                let matches_code = match &self.code {
                    Some(Loadable::Ready(response)) => crate::text::str_eq(
                        response.code.as_str(),
                        code.as_str(),
                    ),
                    _ => false,
                };
                if data_is_loading(&self.data) && matches_code {
                    self.data = Some(
                        match result {
                            Ok(Ok(data)) => Loadable::Ready(data),
                            Ok(Err(message)) => Loadable::Error(
                                LinkError::UnexpectedResponse(message),
                            ),
                            Err(error) => Loadable::Error(error),
                        },
                    );
                    Effects::none()
                } else {
                    Effects::none().unchanged()
                }
            },
        }
    }
}

} // verus!

verus! {

/// Answers that nothing waits for change nothing: a code answer while no
/// code is loading, and a data answer while no data is loading or for
/// another code than the one shown.
pub proof fn law_link_unrequested_answers_are_ignored<T>(link: Link<T>, msg: LinkMsg<T>)
    requires
        (match msg {
            LinkMsg::CodeResult(_) => !is_loading(link.code),
            LinkMsg::DataResult(code, _) => !is_loading(link.data) || ready_code(link) != Some(
                code@,
            ),
            _ => false,
        }),
    ensures
        spec_link_update(link, msg) == (link, Seq::<LinkRequest>::empty()),
{
}

/// Leaving the flow forgets the code and the data, whatever the state.
pub proof fn law_link_unload_resets<T>(link: Link<T>)
    ensures
        spec_link_update(link, LinkMsg::Unload).0 == (Link::<T> { code: None, data: None }),
{
}

} // verus!

use stremio_core::models::common::Loadable;
use stremio_core::models::link::{Link, LinkError, LinkMsg};
use stremio_core::runtime::EnvError;
use stremio_core::types::api::{APIError, LinkCodeResponse, LinkRequest};

fn code(value: &str) -> LinkCodeResponse {
    LinkCodeResponse {
        code: value.to_string(),
        link: format!("https://link/{value}"),
        qrcode: "qr".to_string(),
    }
}

#[test]
fn link_flow_creates_a_code_and_reads_data() {
    let mut link: Link<u32> = Link::default();
    let effects = link.update(LinkMsg::Load);
    assert!(effects.has_changed);
    assert_eq!(effects.into_effects(), vec![LinkRequest::Create]);
    assert_eq!(link.code, Some(Loadable::Loading));
    let effects = link.update(LinkMsg::CodeResult(Ok(code("ABC"))));
    assert!(effects.has_changed);
    assert_eq!(link.code, Some(Loadable::Ready(code("ABC"))));
    let effects = link.update(LinkMsg::ReadData);
    assert!(effects.has_changed);
    assert_eq!(effects.into_effects(), vec![LinkRequest::Read { code: "ABC".to_string() }]);
    assert_eq!(link.data, Some(Loadable::Loading));
    // an answer for another code is ignored
    let ignored = link.update(LinkMsg::DataResult("XYZ".to_string(), Ok(Ok(1))));
    assert!(!ignored.has_changed);
    assert_eq!(link.data, Some(Loadable::Loading));
    let effects = link.update(LinkMsg::DataResult("ABC".to_string(), Ok(Ok(7))));
    assert!(effects.has_changed);
    assert_eq!(link.data, Some(Loadable::Ready(7)));
    let effects = link.update(LinkMsg::Unload);
    assert!(effects.has_changed);
    assert_eq!(link.code, None);
    assert_eq!(link.data, None);
    let again = link.update(LinkMsg::Unload);
    assert!(!again.has_changed);
}

#[test]
fn link_errors_are_kept_and_shown() {
    let mut link: Link<u32> = Link::default();
    // a code answer without a request is ignored
    let ignored = link.update(LinkMsg::CodeResult(Ok(code("A"))));
    assert!(!ignored.has_changed);
    assert_eq!(link.code, None);
    let nothing = link.update(LinkMsg::ReadData);
    assert!(!nothing.has_changed && nothing.is_empty());
    link.update(LinkMsg::Load);
    let error = LinkError::from(APIError { message: "denied".to_string(), code: 1 });
    link.update(LinkMsg::CodeResult(Err(error)));
    assert_eq!(
        link.code,
        Some(Loadable::Error(LinkError::API(APIError { message: "denied".to_string(), code: 1 })))
    );
    link.update(LinkMsg::Load);
    link.update(LinkMsg::CodeResult(Ok(code("C"))));
    link.update(LinkMsg::ReadData);
    link.update(LinkMsg::DataResult("C".to_string(), Ok(Err("bad data".to_string()))));
    assert_eq!(
        link.data,
        Some(Loadable::Error(LinkError::UnexpectedResponse("bad data".to_string())))
    );
    assert_eq!(
        LinkError::API(APIError { message: "m".to_string(), code: 2 }).to_display_string(),
        "API: m"
    );
    assert_eq!(
        LinkError::from(EnvError::Fetch("x".to_string())).to_display_string(),
        "Env: Failed to fetch: x"
    );
    assert_eq!(
        LinkError::UnexpectedResponse("u".to_string()).to_display_string(),
        "UnexpectedResponse: u"
    );
    // loading again while a code is loading changes nothing but asks again
    let mut loading: Link<u32> = Link::default();
    loading.update(LinkMsg::Load);
    let repeat = loading.update(LinkMsg::Load);
    assert!(!repeat.has_changed);
    assert_eq!(repeat.into_effects(), vec![LinkRequest::Create]);
}

use home_orbit::response::{
    apply_headers, failure, is_valid_status, key_of, permanent_redirect, translate,
    DescriptorField, HeaderEntry, HttpResponse, ResponseDescriptor, DEFAULT_STATUS,
    FAILURE_STATUS, REDIRECT_STATUS,
};

fn entry(name: Option<&str>, value: Option<&str>) -> HeaderEntry {
    HeaderEntry { name: name.map(String::from), value: value.map(String::from) }
}

fn pair(name: &str, value: &str) -> (String, String) {
    (name.to_string(), value.to_string())
}

#[test]
fn translate_full_descriptor() {
    let response = translate(ResponseDescriptor {
        status: Some(201),
        body: Some("ok".to_string()),
        headers: Some(vec![entry(Some("X-Test"), Some("1"))]),
    });
    assert_eq!(
        response,
        HttpResponse { status: 201, body: "ok".to_string(), headers: vec![pair("X-Test", "1")] }
    );
}

#[test]
fn translate_defaults_status_and_headers() {
    let response = translate(ResponseDescriptor {
        status: None,
        body: Some("hello".to_string()),
        headers: None,
    });
    assert_eq!(response.status, 200);
    assert_eq!(response.body, "hello");
    assert!(response.headers.is_empty());
}

#[test]
fn translate_empty_descriptor() {
    let response = translate(ResponseDescriptor { status: None, body: None, headers: None });
    assert_eq!(response, HttpResponse { status: 200, body: String::new(), headers: vec![] });
}

#[test]
fn translate_replaces_invalid_status() {
    for status in [0u16, 42, 99, 1000, 1001, 65535] {
        let response =
            translate(ResponseDescriptor { status: Some(status), body: None, headers: None });
        assert_eq!(response.status, 200);
    }
}

#[test]
fn translate_keeps_valid_status() {
    for status in [100u16, 200, 204, 308, 404, 500, 599, 600, 999] {
        let response =
            translate(ResponseDescriptor { status: Some(status), body: None, headers: None });
        assert_eq!(response.status, status);
    }
}

#[test]
fn status_validity_bounds() {
    assert!(!is_valid_status(99));
    assert!(is_valid_status(100));
    assert!(is_valid_status(999));
    assert!(!is_valid_status(1000));
    assert!(!is_valid_status(0));
}

#[test]
fn headers_skip_entries_that_are_not_strings() {
    let entries = vec![
        entry(Some("A"), Some("1")),
        entry(None, Some("2")),
        entry(Some("C"), None),
        entry(None, None),
        entry(Some("E"), Some("5")),
    ];
    assert_eq!(apply_headers(&entries), vec![pair("A", "1"), pair("E", "5")]);
}

#[test]
fn headers_are_applied_verbatim_and_in_order() {
    let entries = vec![
        entry(Some("Set-Cookie"), Some("a=1")),
        entry(Some(""), Some("")),
        entry(Some("Set-Cookie"), Some("b=2")),
        entry(Some("x y"), Some(" z ")),
    ];
    assert_eq!(
        apply_headers(&entries),
        vec![pair("Set-Cookie", "a=1"), pair("", ""), pair("Set-Cookie", "b=2"), pair("x y", " z ")]
    );
}

#[test]
fn empty_mapping_gives_no_headers() {
    assert!(apply_headers(&vec![]).is_empty());
    let response =
        translate(ResponseDescriptor { status: None, body: None, headers: Some(vec![]) });
    assert!(response.headers.is_empty());
}

#[test]
fn permanent_redirect_names_its_target() {
    let response = permanent_redirect("/home");
    assert_eq!(response.status, 308);
    assert_eq!(response.status, REDIRECT_STATUS);
    assert_eq!(response.body, "");
    assert_eq!(response.headers, vec![pair("location", "/home")]);
}

#[test]
fn failure_is_a_plain_text_500() {
    let response = failure("went wrong".to_string());
    assert_eq!(response.status, 500);
    assert_eq!(response.status, FAILURE_STATUS);
    assert_eq!(response.body, "went wrong");
    assert_eq!(response.headers, vec![pair("content-type", "text/plain; charset=utf-8")]);
}

#[test]
fn descriptor_keys() {
    assert_eq!(key_of(DescriptorField::Status), "status");
    assert_eq!(key_of(DescriptorField::Body), "body");
    assert_eq!(key_of(DescriptorField::Headers), "headers");
}

#[test]
fn default_status_is_200() {
    assert_eq!(DEFAULT_STATUS, 200);
}

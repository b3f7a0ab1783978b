use gateway_httpd::http_header_map_upper_bound;
use gateway_httpd::title_header_name;
use gateway_httpd::title_header_name_str;
use gateway_httpd::CaseHttpHeaders;
use gateway_httpd::Error;
use gateway_httpd::ErrorSource;
use gateway_httpd::ErrorType;
use gateway_httpd::HeaderName;
use gateway_httpd::ImmutStr;
use gateway_httpd::IntoCaseHeader;
use gateway_httpd::Method;
use gateway_httpd::RetryType;
use gateway_httpd::StatusCode;
use gateway_httpd::Uri;

#[test]
fn size_hint_is_clamped() {
    assert_eq!(http_header_map_upper_bound(None), 8);
    assert_eq!(http_header_map_upper_bound(Some(0)), 8);
    assert_eq!(http_header_map_upper_bound(Some(7)), 8);
    assert_eq!(http_header_map_upper_bound(Some(8)), 8);
    assert_eq!(http_header_map_upper_bound(Some(17)), 17);
    assert_eq!(http_header_map_upper_bound(Some(4096)), 4096);
    assert_eq!(http_header_map_upper_bound(Some(4097)), 4096);
    assert_eq!(http_header_map_upper_bound(Some(usize::MAX)), 4096);
}

#[test]
fn immut_str_variants() {
    let fixed = ImmutStr::Static("fixed");
    let owned = ImmutStr::Owned(String::from("owned").into_boxed_str());
    assert_eq!(fixed.as_str(), "fixed");
    assert_eq!(owned.as_str(), "owned");
    assert!(!fixed.is_owned());
    assert!(owned.is_owned());
    assert_eq!(owned.clone(), owned);
    assert_ne!(fixed, owned);
}

#[test]
fn retry_type_decides_once() {
    let mut retry = RetryType::ReuseOnly;
    retry.decide_reuse(true);
    assert!(retry.retry());
    retry.decide_reuse(false);
    assert!(retry.retry());
    let mut no = RetryType::ReuseOnly;
    no.decide_reuse(false);
    assert!(!no.retry());
    assert!(!RetryType::Decide(false).retry());
}

#[test]
fn explained_error_has_no_source_and_no_retry() {
    let e = Error::explain(ErrorType::InvalidHTTPHeader, ImmutStr::Static("why"));
    assert_eq!(e.etype, ErrorType::InvalidHTTPHeader);
    assert!(matches!(e.esource, ErrorSource::Unset));
    assert!(matches!(e.retry, RetryType::Decide(false)));
    assert_eq!(e.context.as_ref().unwrap().as_str(), "why");
}

#[test]
fn method_is_a_case_sensitive_token() {
    assert_eq!(Method::from_bytes(b"get").unwrap().as_bytes(), b"get");
    assert_eq!(Method::get().as_bytes(), b"GET");
    assert!(Method::from_bytes(b"").is_none());
    assert!(Method::from_bytes(b"GET ").is_none());
    assert!(Method::from_bytes(b"A/B").is_none());
    assert!(Method::from_bytes(b"!#$%&'*+-.^_`|~09AZaz").is_some());
    let long = vec![b'A'; 100];
    assert_eq!(Method::from_bytes(&long).unwrap().clone().as_bytes(), &long[..]);
}

#[test]
fn status_code_range() {
    assert_eq!(StatusCode::ok().as_u16(), 200);
    assert_eq!(StatusCode::from_u16(100).unwrap().as_u16(), 100);
    assert_eq!(StatusCode::from_u16(999).unwrap().as_u16(), 999);
    assert!(StatusCode::from_u16(99).is_none());
    assert!(StatusCode::from_u16(1000).is_none());
    assert!(StatusCode::from_u16(u16::MAX).is_none());
}

#[test]
fn header_name_is_normalized() {
    assert_eq!(HeaderName::from_bytes(b"X-Test-ID").unwrap().as_bytes(), b"x-test-id");
    assert_eq!(HeaderName::from_bytes(b"content-TYPE").unwrap().as_bytes(), b"content-type");
    assert!(HeaderName::from_bytes(b"").is_none());
    assert!(HeaderName::from_bytes(b"a b").is_none());
    assert!(HeaderName::from_bytes(b"caf\xC3\xA9").is_none());
    let longest = vec![b'A'; 65535];
    assert_eq!(HeaderName::from_bytes(&longest).unwrap().as_bytes(), &vec![b'a'; 65535][..]);
    assert!(HeaderName::from_bytes(&vec![b'a'; 65536]).is_none());
    let at_scratch_limit = vec![b'Z'; 64];
    assert_eq!(HeaderName::from_bytes(&at_scratch_limit).unwrap().clone().as_bytes(), &vec![b'z'; 64][..]);
}

#[test]
fn uri_shows_path_and_query() {
    let uri = Uri::from_path_and_query("/a/b?c=d").unwrap();
    assert_eq!(uri.as_str(), "/a/b?c=d");
    assert_eq!(uri.path(), "/a/b");
    let uri = Uri::from_path_and_query("?c=d").unwrap();
    assert_eq!(uri.as_str(), "?c=d");
    assert_eq!(uri.path(), "/");
    let uri = Uri::from_path_and_query("/a#frag?x").unwrap();
    assert_eq!(uri.as_str(), "/a");
    assert_eq!(uri.path(), "/a");
    let uri = Uri::from_path_and_query("#frag").unwrap();
    assert_eq!(uri.as_str(), "/");
    let uri = Uri::from_path_and_query("").unwrap();
    assert_eq!(uri.as_str(), "/");
    assert_eq!(uri.clone().path(), "/");
    assert_eq!(Uri::root().as_str(), "/");
    assert_eq!(Uri::root().path(), "/");
    assert!(Uri::from_path_and_query("a/b").is_none());
    assert!(Uri::from_path_and_query("/a b").is_none());
    assert!(Uri::from_path_and_query("/a\u{7f}").is_none());
}

#[test]
fn case_header_holds_the_given_bytes() {
    assert_eq!(CaseHttpHeaders::new(String::from("X-Test-ID")).as_slice(), b"X-Test-ID");
    assert_eq!(CaseHttpHeaders::from_slice(b"\xFFraw").as_slice(), b"\xFFraw");
    assert_eq!("X-Static".into_case_header_name().as_slice(), b"X-Static");
    assert_eq!(String::from("X-Owned").into_case_header_name().as_slice(), b"X-Owned");
    assert_eq!(bytes::Bytes::from_static(b"X-B").into_case_header_name().as_slice(), b"X-B");
    let case = CaseHttpHeaders::from_slice(b"X-Same");
    assert_eq!(case.clone().into_case_header_name().as_slice(), b"X-Same");
}

#[test]
fn normalized_name_is_spelled_in_title_case_where_known() {
    let known = HeaderName::from_bytes(b"transfer-encoding").unwrap();
    assert_eq!(title_header_name_str(&known), Some("Transfer-Encoding"));
    assert_eq!(&title_header_name(&known)[..], b"Transfer-Encoding");
    assert_eq!((&known).into_case_header_name().as_slice(), b"Transfer-Encoding");
    let unknown = HeaderName::from_bytes(b"X-Unknown").unwrap();
    assert_eq!(title_header_name_str(&unknown), None);
    assert_eq!(&title_header_name(&unknown)[..], b"x-unknown");
    assert_eq!(unknown.into_case_header_name().as_slice(), b"x-unknown");
    let near = HeaderName::from_bytes(b"ages").unwrap();
    assert_eq!(title_header_name_str(&near), None);
}

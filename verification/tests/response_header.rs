use gateway_httpd::ErrorType;
use gateway_httpd::RespParts;
use gateway_httpd::ResponseHeader;
use gateway_httpd::StatusCode;
use gateway_httpd::Version;

fn wire(resp: &ResponseHeader) -> Vec<u8> {
    let mut buf = Vec::new();
    resp.header_to_h1_write(&mut buf);
    buf
}

fn parts(resp: &ResponseHeader) -> &RespParts {
    resp.as_ref()
}

#[test]
fn build_sets_status_and_version() {
    let resp = ResponseHeader::build(404, None).unwrap();
    assert_eq!(parts(&resp).status.as_u16(), 404);
    assert_eq!(parts(&resp).version, Version::Http11);
    assert_eq!(parts(&resp).headers.len(), 0);
}

#[test]
fn status_bounds() {
    assert!(ResponseHeader::build(100, None).is_ok());
    assert!(ResponseHeader::build(999, None).is_ok());
    assert!(ResponseHeader::build(99, None).is_err());
    assert!(ResponseHeader::build(0, None).is_err());
    assert!(ResponseHeader::build_no_case(1000, Some(3)).is_err());
    assert!(ResponseHeader::build_no_case(600, Some(3)).is_ok());
}

#[test]
fn invalid_status_fails_construction() {
    let err = ResponseHeader::build(1000, None).unwrap_err();
    assert_eq!(err.etype, ErrorType::InvalidHTTPHeader);
    assert_eq!(err.context.as_ref().unwrap().as_str(), "invalid status");
}

#[test]
fn set_status_checks_the_code() {
    let mut resp = ResponseHeader::build(200, None).unwrap();
    resp.set_status(503).unwrap();
    assert_eq!(parts(&resp).status.as_u16(), 503);
    let err = resp.set_status(1000).unwrap_err();
    assert_eq!(err.etype, ErrorType::InvalidHTTPHeader);
    assert_eq!(parts(&resp).status.as_u16(), 503);
    assert_eq!(parts(&resp).status, StatusCode::from_u16(503).unwrap());
}

#[test]
fn set_version_replaces_the_version() {
    let mut resp = ResponseHeader::build(200, None).unwrap();
    resp.set_version(Version::Http10);
    assert_eq!(parts(&resp).version, Version::Http10);
}

#[test]
fn headers_keep_their_casing() {
    let mut resp = ResponseHeader::build(200, None).unwrap();
    assert_eq!(resp.append_header("Content-LENGTH", b"10").unwrap(), false);
    assert_eq!(resp.append_header("Set-Cookie", b"a").unwrap(), false);
    assert_eq!(resp.append_header("set-cookie", b"b").unwrap(), true);
    assert_eq!(wire(&resp), b"Content-LENGTH: 10\r\nSet-Cookie: a\r\nset-cookie: b\r\n");
    assert_eq!(resp.insert_header("SET-COOKIE", b"c").unwrap(), true);
    assert_eq!(wire(&resp), b"Content-LENGTH: 10\r\nSET-COOKIE: c\r\n");
    let taken = resp.remove_header("content-length").unwrap();
    assert_eq!(&taken[..], b"10");
    assert_eq!(wire(&resp), b"SET-COOKIE: c\r\n");
    assert_eq!(resp.keys_len(), 1);
}

#[test]
fn headers_without_casing_use_the_title_table() {
    let mut resp = ResponseHeader::build_no_case(200, None).unwrap();
    resp.append_header("SERVER", b"gw").unwrap();
    resp.append_header("X-Trace", b"1").unwrap();
    assert_eq!(wire(&resp), b"Server: gw\r\nx-trace: 1\r\n");
}

#[test]
fn invalid_header_parts_are_refused() {
    let mut resp = ResponseHeader::build(200, None).unwrap();
    let err = resp.append_header("X-A", b"\r").unwrap_err();
    assert_eq!(err.context.as_ref().unwrap().as_str(), " invalid value while append");
    let err = resp.insert_header("X-A", b"\0").unwrap_err();
    assert_eq!(err.context.as_ref().unwrap().as_str(), " invalid value while insert");
    let err = resp.insert_header("X A", b"v").unwrap_err();
    assert_eq!(err.context.as_ref().unwrap().as_str(), "invalid http header name");
    assert_eq!(wire(&resp), b"");
    assert!(resp.remove_header("x-a").is_none());
}

#[test]
fn response_clone_is_independent() {
    let mut source = ResponseHeader::build(200, None).unwrap();
    source.append_header("X-Test-ID", b"42").unwrap();
    let mut copy = source.clone();
    copy.remove_header("x-test-id");
    copy.set_status(500).unwrap();
    assert_eq!(wire(&source), b"X-Test-ID: 42\r\n");
    assert_eq!(parts(&source).status.as_u16(), 200);
    assert_eq!(wire(&copy), b"");
}

#[test]
fn response_parts_convert_both_ways() {
    let mut resp = ResponseHeader::build(201, None).unwrap();
    resp.append_header("Date", b"today").unwrap();
    let mut own = resp.as_own_parts();
    own.headers.clear();
    assert_eq!(parts(&resp).headers.len(), 1);
    let parts: RespParts = resp.into();
    assert_eq!(parts.status.as_u16(), 201);
    let back = ResponseHeader::from(parts);
    assert_eq!(wire(&back), b"Date: today\r\n");
}

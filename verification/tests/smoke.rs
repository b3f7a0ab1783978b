use gateway_httpd::prelude::RequestHeader;

#[test]
fn it_works() {}

#[test]
fn lib_it_works() {
    let req = RequestHeader::build(b"GET", b"/", None);
    assert!(req.is_ok());
}

use bytes::Bytes;
use gateway_httpd::append_header_value;
use gateway_httpd::empty_header_map;
use gateway_httpd::header_to_h1_write;
use gateway_httpd::insert_header_value;
use gateway_httpd::maps_have_room;
use gateway_httpd::remove_header;
use gateway_httpd::ErrorType;
use gateway_httpd::HMap;

#[test]
fn free_functions_keep_two_maps_in_lock_step() {
    let mut names = empty_header_map(Some(2));
    let mut values = empty_header_map(None);
    assert!(names.is_empty() && values.is_empty());
    assert!(maps_have_room(Some(&names), &values));
    let existed =
        append_header_value(Some(&mut names), &mut values, "X-One", Bytes::from_static(b"1"))
            .unwrap();
    assert!(!existed);
    let existed =
        append_header_value(Some(&mut names), &mut values, "x-one", Bytes::from_static(b"2"))
            .unwrap();
    assert!(existed);
    let existed =
        insert_header_value(Some(&mut names), &mut values, "X-Two", Bytes::from_static(b"3"))
            .unwrap();
    assert!(!existed);
    assert_eq!(names.len(), values.len());
    assert_eq!(names.keys_len(), values.keys_len());
    let mut buf = Vec::new();
    header_to_h1_write(Some(&names), &values, &mut buf);
    assert_eq!(buf, b"X-One: 1\r\nx-one: 2\r\nX-Two: 3\r\n");
    let taken = remove_header(Some(&mut names), &mut values, "X-ONE").unwrap();
    assert_eq!(&taken[..], b"1");
    assert!(!names.contains_key("x-one"));
    assert!(!values.contains_key("x-one"));
    let mut buf = Vec::new();
    header_to_h1_write(Some(&names), &values, &mut buf);
    assert_eq!(buf, b"X-Two: 3\r\n");
}

#[test]
fn free_functions_work_without_a_casing_map() {
    let mut values: HMap = empty_header_map(None);
    assert!(maps_have_room(None, &values));
    append_header_value(None, &mut values, "Content-Length", Bytes::from_static(b"0")).unwrap();
    insert_header_value(None, &mut values, "X-Y", Bytes::from_static(b"z")).unwrap();
    let mut buf = Vec::new();
    header_to_h1_write(None, &values, &mut buf);
    assert_eq!(buf, b"Content-Length: 0\r\nx-y: z\r\n");
    assert!(remove_header(None, &mut values, "x-y").is_some());
    assert!(remove_header(None, &mut values, "x-y").is_none());
}

#[test]
fn free_functions_refuse_an_invalid_name_before_any_change() {
    let mut names = empty_header_map(Some(2));
    let mut values = empty_header_map(None);
    let err = append_header_value(Some(&mut names), &mut values, "Bad:Name", Bytes::new())
        .unwrap_err();
    assert_eq!(err.etype, ErrorType::InvalidHTTPHeader);
    assert!(insert_header_value(Some(&mut names), &mut values, "", Bytes::new()).is_err());
    assert!(names.is_empty());
    assert!(values.is_empty());
}

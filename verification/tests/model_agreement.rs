use gateway_httpd::HeaderName;
use gateway_httpd::Method;
use gateway_httpd::RequestHeader;
use gateway_httpd::ResponseHeader;
use gateway_httpd::StatusCode;

fn is_token_byte(b: u8) -> bool {
    b.is_ascii_alphanumeric() || b"!#$%&'*+-.^_`|~".contains(&b)
}

/// A header map as a list of groups: a normalized name with its items.
struct Model {
    groups: Vec<(Vec<u8>, Vec<Vec<u8>>)>,
}

impl Model {
    fn position(&self, name: &[u8]) -> Option<usize> {
        self.groups.iter().position(|g| g.0 == name)
    }

    fn append(&mut self, name: &[u8], item: &[u8]) -> bool {
        match self.position(name) {
            Some(i) => {
                self.groups[i].1.push(item.to_vec());
                true
            }
            None => {
                self.groups.push((name.to_vec(), vec![item.to_vec()]));
                false
            }
        }
    }

    fn insert(&mut self, name: &[u8], item: &[u8]) -> bool {
        match self.position(name) {
            Some(i) => {
                self.groups[i].1 = vec![item.to_vec()];
                true
            }
            None => {
                self.groups.push((name.to_vec(), vec![item.to_vec()]));
                false
            }
        }
    }

    fn remove(&mut self, name: &[u8]) -> Option<Vec<u8>> {
        let i = self.position(name)?;
        let group = self.groups.swap_remove(i);
        Some(group.1[0].clone())
    }
}

fn block(cases: &Model, values: &Model) -> Vec<u8> {
    let mut out = Vec::new();
    for (case_group, value_group) in cases.groups.iter().zip(values.groups.iter()) {
        assert_eq!(case_group.0, value_group.0);
        assert_eq!(case_group.1.len(), value_group.1.len());
        for (case, value) in case_group.1.iter().zip(value_group.1.iter()) {
            out.extend_from_slice(case);
            out.extend_from_slice(b": ");
            out.extend_from_slice(value);
            out.extend_from_slice(b"\r\n");
        }
    }
    out
}

fn next(state: &mut u64) -> usize {
    *state = state.wrapping_mul(6364136223846793005).wrapping_add(1442695040888963407);
    (*state >> 33) as usize
}

#[test]
fn request_headers_agree_with_the_model_over_a_long_run() {
    let spellings = [
        "Host", "HOST", "host", "X-A", "x-a", "X-B", "Accept", "accept", "X-C", "x-C", "X-D",
        "Content-Type", "Cookie", "cookie", "X-E",
    ];
    let mut state: u64 = 42;
    let mut req = RequestHeader::build(b"GET", b"/", Some(1)).unwrap();
    let mut cases = Model { groups: Vec::new() };
    let mut values = Model { groups: Vec::new() };
    for step in 0..3000usize {
        let spelling = spellings[next(&mut state) % spellings.len()];
        let key = spelling.to_ascii_lowercase().into_bytes();
        let value = format!("v{}", step).into_bytes();
        match next(&mut state) % 4 {
            0 | 1 => {
                let existed = req.append_header(spelling, &value).unwrap();
                cases.append(&key, spelling.as_bytes());
                assert_eq!(existed, values.append(&key, &value));
            }
            2 => {
                let existed = req.insert_header(spelling, &value).unwrap();
                cases.insert(&key, spelling.as_bytes());
                assert_eq!(existed, values.insert(&key, &value));
            }
            _ => {
                let taken = req.remove_header(spelling).map(|b| b.to_vec());
                cases.remove(&key);
                assert_eq!(taken, values.remove(&key));
            }
        }
        let mut written = Vec::new();
        req.header_to_h1_write(&mut written);
        assert_eq!(written, block(&cases, &values), "step {}", step);
        assert_eq!(req.keys_len(), values.groups.len());
    }
}

#[test]
fn response_headers_without_casing_agree_with_the_model() {
    let names = ["x-a", "x-b", "x-c", "x-d", "x-e", "x-f"];
    let mut state: u64 = 7;
    let mut resp = ResponseHeader::build_no_case(200, None).unwrap();
    let mut values = Model { groups: Vec::new() };
    for step in 0..1500usize {
        let name = names[next(&mut state) % names.len()];
        let value = format!("{}", step).into_bytes();
        match next(&mut state) % 3 {
            0 => {
                resp.append_header(name, &value).unwrap();
                values.append(name.as_bytes(), &value);
            }
            1 => {
                resp.insert_header(name, &value).unwrap();
                values.insert(name.as_bytes(), &value);
            }
            _ => {
                let taken = resp.remove_header(name).map(|b| b.to_vec());
                assert_eq!(taken, values.remove(name.as_bytes()));
            }
        }
        let spelled = Model { groups: values.groups.clone() };
        let mut cases = Model { groups: Vec::new() };
        for group in &spelled.groups {
            cases.groups.push((group.0.clone(), vec![group.0.clone(); group.1.len()]));
        }
        let mut written = Vec::new();
        resp.header_to_h1_write(&mut written);
        assert_eq!(written, block(&cases, &values), "step {}", step);
    }
}

#[test]
fn header_name_bytes_are_the_token_bytes() {
    for b in 0..=255u8 {
        let name = HeaderName::from_bytes(&[b]);
        assert_eq!(name.is_some(), is_token_byte(b), "byte {}", b);
        if let Some(name) = name {
            assert_eq!(name.as_bytes(), &[b.to_ascii_lowercase()]);
        }
        let longer = [b'a', b, b'z'];
        assert_eq!(HeaderName::from_bytes(&longer).is_some(), is_token_byte(b));
        let mut beyond_scratch = vec![b'Q'; 70];
        beyond_scratch[35] = b;
        let name = HeaderName::from_bytes(&beyond_scratch);
        assert_eq!(name.is_some(), is_token_byte(b));
        if let Some(name) = name {
            assert_eq!(name.as_bytes(), &beyond_scratch.to_ascii_lowercase()[..]);
        }
    }
}

#[test]
fn method_bytes_are_the_token_bytes() {
    for b in 0..=255u8 {
        let method = Method::from_bytes(&[b]);
        assert_eq!(method.is_some(), is_token_byte(b), "byte {}", b);
        if let Some(method) = method {
            assert_eq!(method.as_bytes(), &[b]);
        }
        let mut long = vec![b'M'; 20];
        long[19] = b;
        assert_eq!(Method::from_bytes(&long).is_some(), is_token_byte(b));
    }
}

#[test]
fn header_value_bytes_are_tab_and_all_from_32_but_del() {
    for b in 0..=255u8 {
        let mut resp = ResponseHeader::build(200, None).unwrap();
        let accepted = resp.append_header("X-V", &[b'a', b, b'c']).is_ok();
        assert_eq!(accepted, (b >= 32 && b != 127) || b == b'\t', "byte {}", b);
    }
    let mut resp = ResponseHeader::build(200, None).unwrap();
    assert!(resp.append_header("X-Empty", b"").is_ok());
}

#[test]
fn status_codes_are_100_to_999() {
    for code in 0..=u16::MAX {
        let status = StatusCode::from_u16(code);
        assert_eq!(status.is_some(), (100..=999).contains(&code));
        if let Some(status) = status {
            assert_eq!(status.as_u16(), code);
        }
    }
}

#[test]
fn shown_target_is_the_target_up_to_its_fragment() {
    let targets = [
        "/", "/a", "/a?b", "/a?b#c", "/a#b?c", "#", "#x", "?", "?#", "/#", "*", "/a?b?c#d#e",
        "/\u{e9}#\u{e9}", "",
    ];
    for target in targets {
        let mut req = RequestHeader::build(b"GET", target.as_bytes(), None).unwrap();
        let kept = match target.find('#') {
            Some(i) => &target[..i],
            None => target,
        };
        let shown = if kept.is_empty() { "/" } else { kept };
        assert_eq!(req.raw_path(), shown.as_bytes(), "target {:?}", target);
        let before_query = match shown.find('?') {
            Some(i) => &shown[..i],
            None => shown,
        };
        let path = if before_query.is_empty() { "/" } else { before_query };
        assert_eq!(req.uri.path(), path, "target {:?}", target);
    }
}

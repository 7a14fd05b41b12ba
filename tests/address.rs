use ttrpc_hello::address::{
    abstract_record, parse_scheme_address, parse_uri, parse_vsock, split_uri, Address, AddressError,
};
use ttrpc_hello::number::parse_u32;

fn named(p: &str) -> Result<Address, AddressError> {
    Ok(Address::UnixNamed { path: p.to_string() })
}

fn abstract_name(p: &str) -> Result<Address, AddressError> {
    Ok(Address::UnixAbstract { name: p.to_string() })
}

fn vsock(cid: u32, port: u32) -> Result<Address, AddressError> {
    Ok(Address::Vsock { cid, port })
}

#[test]
fn named_unix_path_is_kept() {
    assert_eq!(parse_uri("unix:///tmp/my.socket", false), named("/tmp/my.socket"));
    assert_eq!(parse_uri("unix://relative/path", false), named("relative/path"));
    assert_eq!(parse_uri("unix://", false), named(""));
}

#[test]
fn scheme_is_matched_without_case() {
    assert_eq!(parse_uri("UNIX:///tmp/a", false), named("/tmp/a"));
    assert_eq!(parse_uri("VSock://3:4", false), vsock(3, 4));
}

#[test]
fn surrounding_white_space_is_trimmed() {
    assert_eq!(parse_uri("  unix:///tmp/a \n", false), named("/tmp/a"));
}

#[test]
fn sentinel_path_is_abstract_with_one_nul() {
    assert_eq!(parse_uri("unix://@foo", false), abstract_name("@foo\0"));
}

#[test]
fn forced_abstract_path() {
    assert_eq!(parse_uri("unix:///tmp/x", true), abstract_name("/tmp/x\0"));
    assert_eq!(parse_uri("unix://@x", true), abstract_name("@x\0"));
}

#[test]
fn abstract_record_has_exact_length() {
    let r = abstract_record("@foo\0");
    assert_eq!(r, vec![0u8, b'@', b'f', b'o', b'o', 0u8]);
    assert_eq!(r.len(), "@foo\0".len() + 1);
    assert_eq!(abstract_record("").len(), 1);
}

#[test]
fn vsock_wildcard_cid() {
    assert_eq!(parse_uri("vsock://-1:1024", false), vsock(u32::MAX, 1024));
    assert_eq!(parse_uri("vsock://:1024", false), vsock(0xFFFF_FFFF, 1024));
}

#[test]
fn vsock_numbers_are_kept() {
    assert_eq!(parse_uri("vsock://3:1024", false), vsock(3, 1024));
    assert_eq!(parse_uri("vsock://0:0", false), vsock(0, 0));
    assert_eq!(parse_uri("vsock://4294967295:4294967295", false), vsock(u32::MAX, u32::MAX));
    assert_eq!(parse_uri("vsock://+7:+8", false), vsock(7, 8));
}

#[test]
fn vsock_cid_not_numeric() {
    assert_eq!(parse_uri("vsock://x:1", false), Err(AddressError::CidNotNumeric));
    assert_eq!(parse_uri("vsock://-2:1", false), Err(AddressError::CidNotNumeric));
    assert_eq!(parse_uri("vsock://4294967296:1", false), Err(AddressError::CidNotNumeric));
}

#[test]
fn vsock_port_not_numeric() {
    assert_eq!(parse_uri("vsock://3:y", false), Err(AddressError::PortNotNumeric));
    assert_eq!(parse_uri("vsock://3:", false), Err(AddressError::PortNotNumeric));
    assert_eq!(parse_uri("vsock://-1:99999999999", false), Err(AddressError::PortNotNumeric));
}

#[test]
fn vsock_needs_one_colon() {
    assert_eq!(parse_uri("vsock://-1", false), Err(AddressError::InvalidVsockUri));
    assert_eq!(parse_uri("vsock://1:2:3", false), Err(AddressError::InvalidVsockUri));
    assert_eq!(parse_vsock("12"), Err(AddressError::InvalidVsockUri));
}

#[test]
fn uri_needs_one_separator() {
    assert_eq!(parse_uri("unix:/tmp/a", false), Err(AddressError::InvalidUri));
    assert_eq!(parse_uri("", false), Err(AddressError::InvalidUri));
    assert_eq!(parse_uri("unix://a://b", false), Err(AddressError::InvalidUri));
}

#[test]
fn unknown_scheme() {
    assert_eq!(parse_uri("http://x", false), Err(AddressError::InvalidScheme));
    assert_eq!(parse_uri("://x", false), Err(AddressError::InvalidScheme));
}

#[test]
fn decimal_text() {
    assert_eq!(parse_u32("0"), Some(0));
    assert_eq!(parse_u32("1234"), Some(1234));
    assert_eq!(parse_u32("+1"), Some(1));
    assert_eq!(parse_u32("4294967295"), Some(u32::MAX));
    assert_eq!(parse_u32("4294967296"), None);
    assert_eq!(parse_u32(""), None);
    assert_eq!(parse_u32("+"), None);
    assert_eq!(parse_u32("-1"), None);
    assert_eq!(parse_u32("1 "), None);
    for s in ["0", "17", "+17", "65535", "4294967295", "x", "", "99999999999", "1.5"] {
        assert_eq!(parse_u32(s), s.parse::<u32>().ok());
    }
}

#[test]
fn uri_splits_at_its_separator() {
    assert_eq!(split_uri("unix:///tmp/a"), Some(("unix", "/tmp/a")));
    assert_eq!(split_uri("vsock://-1:3"), Some(("vsock", "-1:3")));
    assert_eq!(split_uri("a:/b"), None);
    assert_eq!(split_uri("a://b://c"), None);
}

#[test]
fn lower_case_scheme_decides() {
    assert_eq!(parse_scheme_address("unix", "@n", false), abstract_name("@n\0"));
    assert_eq!(parse_scheme_address("vsock", "2:3", false), vsock(2, 3));
    assert_eq!(parse_scheme_address("UNIX", "/a", false), Err(AddressError::InvalidScheme));
}

use p2p_transfer::stun::{
    binding_request, conclude, new_binding_request, parse_binding_response, DiscoveryError,
    MappedAddress, Reply, STUN_HEADER_LEN,
};

fn response_with(attributes: &[u8]) -> Vec<u8> {
    let mut r = vec![0x01, 0x01, 0x00, attributes.len() as u8, 0x21, 0x12, 0xA4, 0x42];
    r.extend_from_slice(&[7u8; 12]);
    r.extend_from_slice(attributes);
    r
}

#[test]
fn binding_request_is_header_cookie_and_id() {
    let id = [1, 2, 3, 4, 5, 6, 7, 8, 9, 10, 11, 12];
    assert_eq!(
        binding_request(&id),
        vec![0x00, 0x01, 0x00, 0x00, 0x21, 0x12, 0xA4, 0x42, 1, 2, 3, 4, 5, 6, 7, 8, 9, 10, 11, 12]
    );
}

#[test]
fn new_binding_request_has_fixed_prefix_and_twenty_bytes() {
    let r = new_binding_request();
    assert_eq!(r.len(), 20);
    assert_eq!(STUN_HEADER_LEN, 20);
    assert_eq!(&r[..8], &[0x00, 0x01, 0x00, 0x00, 0x21, 0x12, 0xA4, 0x42]);
}

#[test]
fn new_binding_requests_differ_in_their_ids() {
    let a = new_binding_request();
    let b = new_binding_request();
    let c = new_binding_request();
    assert!(a[8..] != b[8..] || b[8..] != c[8..]);
    assert_ne!(&a[8..], &[0u8; 12]);
}

#[test]
fn xor_mapped_address_is_unmasked() {
    let r = response_with(&[0x00, 0x20, 0x00, 0x08, 0x00, 0x01, 0x91, 0x11, 0xE1, 0xBA, 0xA5, 0x61]);
    let a = parse_binding_response(&r).unwrap();
    assert_eq!(a.port, 0x9111 ^ 0x2112);
    assert_eq!(a.port, 0xB003);
    assert_eq!(a.ip, [0xE1 ^ 0x21, 0xBA ^ 0x12, 0xA5 ^ 0xA4, 0x61 ^ 0x42]);
    assert_eq!(a.ip, [192, 168, 1, 35]);
}

#[test]
fn attributes_before_the_address_are_skipped_with_their_padding() {
    let mut attrs = vec![0x80, 0x22, 0x00, 0x05, b'h', b'e', b'l', b'l', b'o', 0, 0, 0];
    attrs.extend_from_slice(&[0x00, 0x01, 0x00, 0x00]);
    attrs.extend_from_slice(&[0x00, 0x20, 0x00, 0x08, 0, 1, 0x21, 0x12, 0x21, 0x12, 0xA4, 0x42]);
    let a = parse_binding_response(&response_with(&attrs)).unwrap();
    assert_eq!(a, MappedAddress { ip: [0, 0, 0, 0], port: 0 });
}

#[test]
fn the_first_xor_mapped_address_wins() {
    let mut attrs = vec![0x00, 0x20, 0x00, 0x08, 0, 1, 0x21, 0x13, 0x20, 0x12, 0xA4, 0x42];
    attrs.extend_from_slice(&[0x00, 0x20, 0x00, 0x08, 0, 1, 0x21, 0x10, 0x22, 0x12, 0xA4, 0x42]);
    let a = parse_binding_response(&response_with(&attrs)).unwrap();
    assert_eq!(a, MappedAddress { ip: [1, 0, 0, 0], port: 1 });
}

#[test]
fn a_short_xor_mapped_address_is_passed_over() {
    let mut attrs = vec![0x00, 0x20, 0x00, 0x04, 1, 2, 3, 4];
    attrs.extend_from_slice(&[0x00, 0x20, 0x00, 0x08, 0, 1, 0x21, 0x10, 0x22, 0x12, 0xA4, 0x42]);
    let a = parse_binding_response(&response_with(&attrs)).unwrap();
    assert_eq!(a, MappedAddress { ip: [3, 0, 0, 0], port: 2 });
}

#[test]
fn missing_attribute_is_address_not_found() {
    assert_eq!(parse_binding_response(&[]), Err(DiscoveryError::AddressNotFound));
    assert_eq!(parse_binding_response(&response_with(&[])), Err(DiscoveryError::AddressNotFound));
    let other = response_with(&[0x00, 0x01, 0x00, 0x08, 0, 1, 2, 3, 4, 5, 6, 7]);
    assert_eq!(parse_binding_response(&other), Err(DiscoveryError::AddressNotFound));
}

#[test]
fn a_cut_off_address_is_address_not_found() {
    let r = response_with(&[0x00, 0x20, 0x00, 0x08, 0x00, 0x01, 0x91, 0x11, 0xE1, 0xBA, 0xA5, 0x61]);
    for cut in 0..r.len() {
        assert_eq!(parse_binding_response(&r[..cut]), Err(DiscoveryError::AddressNotFound));
    }
}

#[test]
fn an_attribute_that_runs_past_the_end_stops_the_walk() {
    let r = response_with(&[0x00, 0x01, 0xFF, 0xFF, 0x00, 0x20, 0x00, 0x08, 0, 1, 2, 3, 4, 5, 6, 7]);
    assert_eq!(parse_binding_response(&r), Err(DiscoveryError::AddressNotFound));
}

#[test]
fn conclude_maps_each_outcome() {
    let r = response_with(&[0x00, 0x20, 0x00, 0x08, 0x00, 0x01, 0x91, 0x11, 0xE1, 0xBA, 0xA5, 0x61]);
    assert_eq!(
        conclude(Reply::Datagram(&r)),
        Ok(MappedAddress { ip: [192, 168, 1, 35], port: 0xB003 })
    );
    assert_eq!(conclude(Reply::Datagram(&r[..24])), Err(DiscoveryError::AddressNotFound));
    assert_eq!(conclude(Reply::TimedOut), Err(DiscoveryError::Timeout));
    assert_eq!(conclude(Reply::Failed), Err(DiscoveryError::Network));
}

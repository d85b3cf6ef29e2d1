use p2p_transfer::signaling::{
    check_relay_reply, decode_message, encode_message, endpoint_from_mapped, get_pip_from_json,
    interpret, keys_from_json_str, peer_request, peers_from_reply, registration, Endpoint,
    PeerQuery, ProtocolError, RawFields, RelayRejected, SignalingMessage,
};
use p2p_transfer::stun::MappedAddress;
use p2p_transfer::text::dotted_quad;

fn s(text: &str) -> String {
    text.to_string()
}

fn no_fields() -> RawFields {
    RawFields {
        kind: None,
        status: None,
        username: None,
        target: None,
        initiator: None,
        action: None,
        name: None,
        error: None,
        size: None,
        ipv4_ip: None,
        ipv4_port: None,
        ipv6_ip: None,
        ipv6_port: None,
    }
}

fn every_message() -> Vec<SignalingMessage> {
    vec![
        SignalingMessage::Register {
            username: s("ann"),
            ipv4_ip: Some(s("203.0.113.7")),
            ipv4_port: Some(42069),
            ipv6_ip: Some(s("2001:db8::1")),
            ipv6_port: Some(42070),
        },
        SignalingMessage::Register {
            username: s("bob \"the\" \\ builder\n"),
            ipv4_ip: None,
            ipv4_port: None,
            ipv6_ip: Some(s("::1")),
            ipv6_port: Some(0),
        },
        SignalingMessage::RequestPeer,
        SignalingMessage::GetUsers,
        SignalingMessage::PeerList { peers: vec![] },
        SignalingMessage::PeerList { peers: vec![s("ann")] },
        SignalingMessage::PeerList { peers: vec![s("ann"), s("b\"ob"), s("")] },
        SignalingMessage::InitiateRelay { target: s("bob") },
        SignalingMessage::RelayInitiated { initiator: Some(s("ann")), target: None },
        SignalingMessage::RelayInitiated { initiator: None, target: Some(s("bob")) },
        SignalingMessage::RelayControl { action: s("end") },
        SignalingMessage::FileMetadata { name: s("r\u{e9}sum\u{e9}.pdf"), size: 102400 },
        SignalingMessage::FileMetadata { name: s(""), size: u64::MAX },
        SignalingMessage::FileEnd { name: s("a.txt") },
        SignalingMessage::Error { message: s("no such user") },
    ]
}

#[test]
fn messages_are_written_as_tagged_objects() {
    assert_eq!(encode_message(&SignalingMessage::RequestPeer), "{\"type\":\"request_peer\"}");
    assert_eq!(encode_message(&SignalingMessage::GetUsers), "{\"type\":\"getusers\"}");
    assert_eq!(
        encode_message(&SignalingMessage::InitiateRelay { target: s("bob") }),
        "{\"type\":\"initiate_relay\",\"target\":\"bob\"}"
    );
    assert_eq!(
        encode_message(&SignalingMessage::RelayInitiated { initiator: Some(s("ann")), target: None }),
        "{\"type\":\"relay_initiated\",\"initiator\":\"ann\",\"target\":null}"
    );
    assert_eq!(
        encode_message(&SignalingMessage::RelayControl { action: s("end") }),
        "{\"type\":\"relay_control\",\"action\":\"end\"}"
    );
    assert_eq!(
        encode_message(&SignalingMessage::FileMetadata { name: s("a.txt"), size: 2500 }),
        "{\"type\":\"file_metadata\",\"name\":\"a.txt\",\"size\":2500}"
    );
    assert_eq!(
        encode_message(&SignalingMessage::FileMetadata { name: s("z"), size: u64::MAX }),
        "{\"type\":\"file_metadata\",\"name\":\"z\",\"size\":18446744073709551615}"
    );
    assert_eq!(
        encode_message(&SignalingMessage::FileEnd { name: s("a.txt") }),
        "{\"type\":\"file_end\",\"name\":\"a.txt\"}"
    );
    assert_eq!(
        encode_message(&SignalingMessage::Error { message: s("no") }),
        "{\"type\":\"error\",\"error\":\"no\"}"
    );
}

#[test]
fn register_is_written_with_null_for_a_missing_family() {
    let both = SignalingMessage::Register {
        username: s("ann"),
        ipv4_ip: Some(s("203.0.113.7")),
        ipv4_port: Some(42069),
        ipv6_ip: Some(s("2001:db8::1")),
        ipv6_port: Some(42070),
    };
    assert_eq!(
        encode_message(&both),
        "{\"type\":\"register\",\"username\":\"ann\",\"ipv4_ip\":\"203.0.113.7\",\
         \"ipv4_port\":42069,\"ipv6_ip\":\"2001:db8::1\",\"ipv6_port\":42070}"
    );
    let v6_only = SignalingMessage::Register {
        username: s("ann"),
        ipv4_ip: None,
        ipv4_port: None,
        ipv6_ip: Some(s("::1")),
        ipv6_port: Some(0),
    };
    assert_eq!(
        encode_message(&v6_only),
        "{\"type\":\"register\",\"username\":\"ann\",\"ipv4_ip\":null,\"ipv4_port\":null,\
         \"ipv6_ip\":\"::1\",\"ipv6_port\":0}"
    );
}

#[test]
fn strings_are_quoted_with_their_escapes() {
    let m = SignalingMessage::FileEnd { name: s("a\"b\\c\nd\u{1}") };
    assert_eq!(
        encode_message(&m),
        "{\"type\":\"file_end\",\"name\":\"a\\\"b\\\\c\\nd\\u0001\"}"
    );
    let plain = SignalingMessage::FileEnd { name: s("abc") };
    assert_ne!(encode_message(&plain), "{\"type\":\"file_end\",\"name\":abc}");
}

#[test]
fn what_is_written_reads_back() {
    for m in every_message() {
        let text = encode_message(&m);
        assert_eq!(decode_message(&text), Ok(m));
    }
}

#[test]
fn what_is_written_is_json() {
    for m in every_message() {
        let text = encode_message(&m);
        let v: serde_json::Value = serde_json::from_str(&text).unwrap();
        if let SignalingMessage::PeerList { peers } = &m {
            assert_eq!(v.as_array().unwrap().len(), peers.len());
        } else {
            assert!(v.get("type").unwrap().is_string());
        }
    }
}

#[test]
fn a_list_of_peers_is_a_bare_array() {
    assert_eq!(encode_message(&SignalingMessage::PeerList { peers: vec![] }), "[]");
    assert_eq!(encode_message(&SignalingMessage::PeerList { peers: vec![s("ann")] }), "[\"ann\"]");
    assert_eq!(
        encode_message(&SignalingMessage::PeerList { peers: vec![s("ann"), s("bob"), s("cy")] }),
        "[\"ann\",\"bob\",\"cy\"]"
    );
    assert_eq!(
        decode_message(" [ \"ann\", 7, {\"type\":\"error\"}, \"bob\" ] "),
        Ok(SignalingMessage::PeerList { peers: vec![s("ann"), s("bob")] })
    );
    assert_eq!(decode_message("[]"), Ok(SignalingMessage::PeerList { peers: vec![] }));
}

#[test]
fn members_may_come_in_any_order_and_with_others() {
    let text = "{ \"size\": 7, \"extra\": [1, 2], \"name\": \"n\", \"type\": \"file_metadata\" }";
    assert_eq!(
        decode_message(text),
        Ok(SignalingMessage::FileMetadata { name: s("n"), size: 7 })
    );
}

#[test]
fn text_that_is_not_json_is_malformed() {
    for text in ["", "hello", "{", "{\"type\":}", "{\"type\":\"file_end\",}", "[1,"] {
        assert_eq!(decode_message(text), Err(ProtocolError::Malformed));
    }
}

#[test]
fn json_without_a_type_is_missing_type() {
    for text in [
        "{}",
        "42",
        "\"register\"",
        "null",
        "true",
        "{\"type\":5}",
        "{\"name\":\"x\"}",
        "{\"status\":\"registered\"}",
        "{\"status\":\"getusers\"}",
    ] {
        assert_eq!(decode_message(text), Err(ProtocolError::MissingType));
    }
}

#[test]
fn a_foreign_type_is_unknown() {
    for text in [
        "{\"type\":\"peer_information\"}",
        "{\"type\":\"\"}",
        "{\"type\":\"registered\",\"status\":\"relay_initiated\"}",
    ] {
        assert_eq!(decode_message(text), Err(ProtocolError::UnknownType));
    }
    assert_eq!(decode_message("{\"type\":\"Register\"}"), Err(ProtocolError::UnknownType));
}

#[test]
fn a_required_member_that_is_missing_is_reported() {
    for text in [
        "{\"type\":\"register\"}",
        "{\"type\":\"register\",\"username\":5}",
        "{\"type\":\"initiate_relay\"}",
        "{\"type\":\"relay_control\",\"action\":null}",
        "{\"type\":\"file_metadata\",\"name\":\"n\"}",
        "{\"type\":\"file_metadata\",\"size\":1}",
        "{\"type\":\"file_metadata\",\"name\":\"n\",\"size\":-1}",
        "{\"type\":\"file_metadata\",\"name\":\"n\",\"size\":1.5}",
        "{\"type\":\"file_metadata\",\"name\":\"n\",\"size\":\"1\"}",
        "{\"type\":\"file_end\"}",
        "{\"type\":\"error\"}",
    ] {
        assert_eq!(decode_message(text), Err(ProtocolError::MissingField));
    }
}

#[test]
fn optional_members_may_be_missing() {
    assert_eq!(
        decode_message("{\"type\":\"register\",\"username\":\"ann\"}"),
        Ok(SignalingMessage::Register {
            username: s("ann"),
            ipv4_ip: None,
            ipv4_port: None,
            ipv6_ip: None,
            ipv6_port: None,
        })
    );
    assert_eq!(
        decode_message("{\"type\":\"relay_initiated\"}"),
        Ok(SignalingMessage::RelayInitiated { initiator: None, target: None })
    );
}

#[test]
fn a_port_beyond_sixteen_bits_is_absent() {
    let text = "{\"type\":\"register\",\"username\":\"a\",\"ipv4_port\":65535,\"ipv6_port\":65536}";
    assert_eq!(
        decode_message(text),
        Ok(SignalingMessage::Register {
            username: s("a"),
            ipv4_ip: None,
            ipv4_port: Some(65535),
            ipv6_ip: None,
            ipv6_port: None,
        })
    );
}

#[test]
fn status_stands_in_for_a_missing_type() {
    assert_eq!(
        decode_message("{\"status\":\"relay_initiated\",\"target\":\"bob\"}"),
        Ok(SignalingMessage::RelayInitiated { initiator: None, target: Some(s("bob")) })
    );
    assert_eq!(
        decode_message("{\"type\":\"file_end\",\"status\":\"relay_initiated\",\"name\":\"n\"}"),
        Ok(SignalingMessage::FileEnd { name: s("n") })
    );
}

#[test]
fn a_bare_error_object_is_an_error_report() {
    assert_eq!(
        decode_message("{\"error\":\"Target not found\"}"),
        Ok(SignalingMessage::Error { message: s("Target not found") })
    );
}

#[test]
fn interpret_reads_plain_fields() {
    let mut f = no_fields();
    assert_eq!(interpret(f.clone()), Err(ProtocolError::MissingType));
    f.error = Some(s("boom"));
    assert_eq!(interpret(f.clone()), Ok(SignalingMessage::Error { message: s("boom") }));
    f.kind = Some(s("file_metadata"));
    f.name = Some(s("n"));
    assert_eq!(interpret(f.clone()), Err(ProtocolError::MissingField));
    f.size = Some(9);
    assert_eq!(interpret(f.clone()), Ok(SignalingMessage::FileMetadata { name: s("n"), size: 9 }));
    f.kind = Some(s("nonsense"));
    assert_eq!(interpret(f.clone()), Err(ProtocolError::UnknownType));
    f.kind = None;
    f.status = Some(s("file_metadata"));
    assert_eq!(interpret(f.clone()), Ok(SignalingMessage::Error { message: s("boom") }));
    f.error = None;
    assert_eq!(interpret(f.clone()), Err(ProtocolError::MissingType));
    f.status = Some(s("file_end"));
    f.name = Some(s("a.bin"));
    assert_eq!(interpret(f.clone()), Err(ProtocolError::MissingType));
    f.status = Some(s("relay_initiated"));
    f.target = Some(s("bob"));
    assert_eq!(
        interpret(f),
        Ok(SignalingMessage::RelayInitiated { initiator: None, target: Some(s("bob")) })
    );
}

#[test]
fn status_names_no_message_but_the_grant_of_a_relay() {
    for text in [
        "{\"status\":\"file_end\",\"name\":\"a.bin\"}",
        "{\"status\":\"file_metadata\",\"name\":\"a.bin\",\"size\":3}",
        "{\"status\":\"relay_control\",\"action\":\"end\"}",
        "{\"status\":\"register\",\"username\":\"ann\"}",
        "{\"status\":\"request_peer\"}",
        "{\"status\":\"initiate_relay\",\"target\":\"bob\"}",
        "{\"status\":\"error\"}",
        "{\"status\":\"Relay_Initiated\"}",
        "{\"type\":null,\"status\":\"file_end\",\"name\":\"a.bin\"}",
    ] {
        assert_eq!(decode_message(text), Err(ProtocolError::MissingType));
    }
    assert_eq!(
        decode_message("{\"status\":\"file_end\",\"name\":\"a.bin\",\"error\":\"late\"}"),
        Ok(SignalingMessage::Error { message: s("late") })
    );
    assert_eq!(
        decode_message("{\"status\":\"relay_initiated\",\"error\":\"odd\"}"),
        Ok(SignalingMessage::RelayInitiated { initiator: None, target: None })
    );
}

fn quoted_by_rule(text: &str) -> String {
    let mut out = String::from("\"");
    for c in text.chars() {
        match c {
            '"' => out.push_str("\\\""),
            '\\' => out.push_str("\\\\"),
            '\u{8}' => out.push_str("\\b"),
            '\t' => out.push_str("\\t"),
            '\n' => out.push_str("\\n"),
            '\u{c}' => out.push_str("\\f"),
            '\r' => out.push_str("\\r"),
            c if (c as u32) < 0x20 => {
                out.push_str("\\u00");
                out.push(b"0123456789abcdef"[(c as usize) / 16] as char);
                out.push(b"0123456789abcdef"[(c as usize) % 16] as char);
            }
            c => out.push(c),
        }
    }
    out.push('"');
    out
}

#[test]
fn every_character_is_quoted_by_the_rule() {
    let mut all = String::new();
    for code in 0u32..0x100 {
        let c = char::from_u32(code).unwrap();
        all.push(c);
        let one = c.to_string();
        let text = encode_message(&SignalingMessage::FileEnd { name: one.clone() });
        let expected = format!("{{\"type\":\"file_end\",\"name\":{}}}", quoted_by_rule(&one));
        assert_eq!(text, expected);
    }
    all.push_str("\u{7f}\u{80}\u{2028}\u{fffd}\u{1f600}/");
    let text = encode_message(&SignalingMessage::Error { message: all.clone() });
    assert_eq!(text, format!("{{\"type\":\"error\",\"error\":{}}}", quoted_by_rule(&all)));
    assert_eq!(
        encode_message(&SignalingMessage::Error { message: s("\u{0}\u{1f}\u{7f}\u{b}") }),
        "{\"type\":\"error\",\"error\":\"\\u0000\\u001f\u{7f}\\u000b\"}"
    );
}

#[test]
fn peers_come_from_an_array_or_from_keys() {
    assert_eq!(
        peers_from_reply(PeerQuery::RequestPeer, "[\"ann\", 5, \"bob\", null, \"cy\"]"),
        Ok(vec![s("ann"), s("bob"), s("cy")])
    );
    assert_eq!(peers_from_reply(PeerQuery::RequestPeer, "[]"), Ok(vec![]));
    assert_eq!(peers_from_reply(PeerQuery::RequestPeer, "{\"ann\":1}"), Ok(vec![]));
    assert_eq!(
        peers_from_reply(PeerQuery::GetUsers, "{\"bob\":{\"ip\":\"1.2.3.4\"},\"ann\":{}}"),
        Ok(vec![s("ann"), s("bob")])
    );
    assert_eq!(peers_from_reply(PeerQuery::GetUsers, "[\"ann\"]"), Ok(vec![]));
    assert_eq!(peers_from_reply(PeerQuery::GetUsers, "oops"), Err(ProtocolError::Malformed));
    assert_eq!(peers_from_reply(PeerQuery::RequestPeer, "["), Err(ProtocolError::Malformed));
}

#[test]
fn keys_of_an_object_are_the_user_names() {
    assert_eq!(keys_from_json_str("{\"zed\":1,\"amy\":2}"), Ok(vec![s("amy"), s("zed")]));
    assert_eq!(keys_from_json_str("{}"), Ok(vec![]));
    assert_eq!(keys_from_json_str("7"), Ok(vec![]));
    assert_eq!(keys_from_json_str("{"), Err(ProtocolError::Malformed));
}

#[test]
fn peer_requests() {
    assert_eq!(peer_request(PeerQuery::RequestPeer), SignalingMessage::RequestPeer);
    assert_eq!(peer_request(PeerQuery::GetUsers), SignalingMessage::GetUsers);
}

#[test]
fn the_private_address_is_read_from_pip() {
    let v: serde_json::Value = serde_json::from_str("{\"pip\":\"192.168.0.5\",\"ip\":\"x\"}").unwrap();
    assert_eq!(get_pip_from_json(&v), Some(s("192.168.0.5")));
    let v: serde_json::Value = serde_json::from_str("{\"pip\":7}").unwrap();
    assert_eq!(get_pip_from_json(&v), None);
    let v: serde_json::Value = serde_json::from_str("[\"pip\"]").unwrap();
    assert_eq!(get_pip_from_json(&v), None);
}

#[test]
fn only_relay_initiated_grants_a_relay() {
    let ok = decode_message("{\"status\":\"relay_initiated\",\"target\":\"bob\"}");
    assert_eq!(check_relay_reply(&ok), Ok(()));
    let typed = decode_message("{\"type\":\"relay_initiated\",\"initiator\":\"ann\"}");
    assert_eq!(check_relay_reply(&typed), Ok(()));
    for text in [
        "{\"error\":\"Target not found\"}",
        "{\"type\":\"error\",\"error\":\"busy\"}",
        "{\"status\":\"pending\"}",
        "{\"type\":\"file_end\",\"name\":\"x\"}",
        "[\"relay_initiated\"]",
        "not json",
        "{}",
    ] {
        assert_eq!(check_relay_reply(&decode_message(text)), Err(RelayRejected));
    }
}

#[test]
fn dotted_quads() {
    assert_eq!(dotted_quad(&[0, 0, 0, 0]), "0.0.0.0");
    assert_eq!(dotted_quad(&[192, 168, 1, 35]), "192.168.1.35");
    assert_eq!(dotted_quad(&[255, 255, 255, 255]), "255.255.255.255");
    assert_eq!(dotted_quad(&[10, 9, 100, 99]), "10.9.100.99");
}

#[test]
fn registration_leaves_a_failed_family_out() {
    let v4 = endpoint_from_mapped(
        &MappedAddress { ip: [203, 0, 113, 7], port: 42069 },
        Some(s("192.168.0.5")),
    );
    assert_eq!(
        v4,
        Endpoint { public_ip: s("203.0.113.7"), public_port: 42069, private_ip: Some(s("192.168.0.5")) }
    );
    let v6 = Endpoint { public_ip: s("2001:db8::1"), public_port: 42070, private_ip: None };
    assert_eq!(
        registration(s("ann"), Some(v4.clone()), None),
        SignalingMessage::Register {
            username: s("ann"),
            ipv4_ip: Some(s("203.0.113.7")),
            ipv4_port: Some(42069),
            ipv6_ip: None,
            ipv6_port: None,
        }
    );
    assert_eq!(
        registration(s("ann"), None, Some(v6.clone())),
        SignalingMessage::Register {
            username: s("ann"),
            ipv4_ip: None,
            ipv4_port: None,
            ipv6_ip: Some(s("2001:db8::1")),
            ipv6_port: Some(42070),
        }
    );
    let both = registration(s("ann"), Some(v4), Some(v6));
    assert_eq!(decode_message(&encode_message(&both)), Ok(both));
}

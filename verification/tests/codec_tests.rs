use dragon_claw_agent::codec::{
    decode_messages, encode_message, find_bytes, lower_bytes, trim_bytes, upper_bytes, HttpHeader,
    HttpMessage, HttpVersion,
};

fn msg(method: &str, target: &str, version: HttpVersion, headers: &[(&str, &str)]) -> HttpMessage {
    HttpMessage {
        method: method.as_bytes().to_vec(),
        target: target.as_bytes().to_vec(),
        version,
        headers: headers
            .iter()
            .map(|(n, v)| HttpHeader {
                name: n.as_bytes().to_vec(),
                value: v.as_bytes().to_vec(),
            })
            .collect(),
    }
}

#[test]
fn encode_notify_exact_bytes() {
    let m = msg(
        "NOTIFY",
        "*",
        HttpVersion::V11,
        &[("Host", "239.255.255.250:1900"), ("NTS", "ssdp:alive")],
    );
    let wire = encode_message(&m);
    let expected =
        b"NOTIFY * HTTP/1.1\r\nHOST: 239.255.255.250:1900\r\nNTS: ssdp:alive\r\n\r\n".to_vec();
    assert_eq!(wire, expected);
}

#[test]
fn round_trip_preserves_message_modulo_header_case() {
    let m = msg(
        "NOTIFY",
        "*",
        HttpVersion::V11,
        &[("Host", "239.255.255.250:1900"), ("Cache-Control", "max-age=30"), ("NTS", "ssdp:alive")],
    );
    let mut buffer = encode_message(&m);
    let decoded = decode_messages(&mut buffer);
    assert!(buffer.is_empty());
    assert_eq!(decoded.len(), 1);
    let d = &decoded[0];
    assert_eq!(d.method, b"NOTIFY".to_vec());
    assert_eq!(d.target, b"*".to_vec());
    assert_eq!(d.version, HttpVersion::V11);
    assert_eq!(d.headers.len(), 3);
    assert_eq!(d.headers[0].name, b"host".to_vec());
    assert_eq!(d.headers[0].value, b"239.255.255.250:1900".to_vec());
    assert_eq!(d.headers[1].name, b"cache-control".to_vec());
    assert_eq!(d.headers[1].value, b"max-age=30".to_vec());
    assert_eq!(d.headers[2].name, b"nts".to_vec());
    assert_eq!(d.headers[2].value, b"ssdp:alive".to_vec());
}

#[test]
fn decoder_returns_back_to_back_messages_and_drains_them() {
    let a = msg("M-SEARCH", "*", HttpVersion::V11, &[("ST", "thing:1")]);
    let b = msg("NOTIFY", "*", HttpVersion::V11, &[("NTS", "ssdp:byebye")]);
    let mut buffer = encode_message(&a);
    buffer.extend_from_slice(&encode_message(&b));
    buffer.extend_from_slice(&encode_message(&a));
    let decoded = decode_messages(&mut buffer);
    assert_eq!(decoded.len(), 3);
    assert!(buffer.is_empty());
    assert_eq!(decoded[0].method, b"M-SEARCH".to_vec());
    assert_eq!(decoded[1].method, b"NOTIFY".to_vec());
    assert_eq!(decoded[2].method, b"M-SEARCH".to_vec());
}

#[test]
fn decoder_keeps_incomplete_tail_in_place() {
    let a = msg("NOTIFY", "*", HttpVersion::V11, &[("NTS", "ssdp:alive")]);
    let mut buffer = encode_message(&a);
    buffer.extend_from_slice(b"NOTIFY * HTTP/1.1\r\nNTS: part");
    let decoded = decode_messages(&mut buffer);
    assert_eq!(decoded.len(), 1);
    assert_eq!(buffer, b"NOTIFY * HTTP/1.1\r\nNTS: part".to_vec());
}

#[test]
fn decoder_without_blank_line_finds_nothing_and_keeps_bytes() {
    let mut buffer = b"NOTIFY * HTTP/1.1\r\nNTS: ssdp:alive\r\n".to_vec();
    let before = buffer.clone();
    let decoded = decode_messages(&mut buffer);
    assert!(decoded.is_empty());
    assert_eq!(buffer, before);
}

#[test]
fn decoder_skips_leading_garbage_lines() {
    let mut buffer = b"oops no structure\r\nNOTIFY * HTTP/1.1\r\nNTS: ssdp:alive\r\n\r\n".to_vec();
    let decoded = decode_messages(&mut buffer);
    assert_eq!(decoded.len(), 1);
    assert_eq!(decoded[0].method, b"NOTIFY".to_vec());
    assert!(buffer.is_empty());
}

#[test]
fn decoder_aborts_message_with_unknown_version() {
    let mut buffer = b"NOTIFY * HTTP/9.9\r\nNTS: ssdp:alive\r\n\r\n".to_vec();
    let decoded = decode_messages(&mut buffer);
    assert!(decoded.is_empty());
    assert!(buffer.is_empty());
}

#[test]
fn decoder_skips_malformed_header_lines() {
    let mut buffer = b"NOTIFY * HTTP/1.1\r\nno colon here\r\nNTS: ssdp:alive\r\n\r\n".to_vec();
    let decoded = decode_messages(&mut buffer);
    assert_eq!(decoded.len(), 1);
    assert_eq!(decoded[0].headers.len(), 1);
    assert_eq!(decoded[0].headers[0].name, b"nts".to_vec());
}

#[test]
fn decoder_trims_header_whitespace() {
    let mut buffer = b"NOTIFY * HTTP/1.1\r\n  NTS  :   ssdp:alive  \r\n\r\n".to_vec();
    let decoded = decode_messages(&mut buffer);
    assert_eq!(decoded.len(), 1);
    assert_eq!(decoded[0].headers[0].name, b"nts".to_vec());
    assert_eq!(decoded[0].headers[0].value, b"ssdp:alive".to_vec());
}

#[test]
fn find_bytes_returns_first_occurrence() {
    assert_eq!(find_bytes(b"abcabc", b"bc"), Some(1));
    assert_eq!(find_bytes(b"abcabc", b"zz"), None);
    assert_eq!(find_bytes(b"a", b"ab"), None);
    assert_eq!(find_bytes(b"\r\n\r\n", b"\r\n\r\n"), Some(0));
}

#[test]
fn trim_bytes_removes_ascii_whitespace_at_both_ends() {
    assert_eq!(trim_bytes(b"  x y\t "), b"x y".to_vec());
    assert_eq!(trim_bytes(b" \t\r\n "), Vec::<u8>::new());
    assert_eq!(trim_bytes(b"plain"), b"plain".to_vec());
}

#[test]
fn case_folding_is_ascii_bytewise() {
    assert_eq!(lower_bytes(b"Cache-Control"), b"cache-control".to_vec());
    assert_eq!(upper_bytes(b"user-agent"), b"USER-AGENT".to_vec());
}

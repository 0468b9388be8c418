use newsletter::configuration::{DatabaseSettings, Environment};
use newsletter::response::{decode_headers, encode_headers, HeaderPair, HttpResponse};

#[test]
fn header_framing_round_trips() {
    let headers = vec![
        HeaderPair { name: b"content-type".to_vec(), value: b"text/plain".to_vec() },
        HeaderPair { name: b"x-empty".to_vec(), value: Vec::new() },
        HeaderPair { name: b"x-bytes".to_vec(), value: vec![0, 255, 128] },
        HeaderPair { name: b"x-bytes".to_vec(), value: vec![7] },
    ];
    let bytes = encode_headers(&headers);
    let decoded = decode_headers(&bytes).unwrap();
    assert_eq!(decoded, headers);
}

#[test]
fn header_framing_of_nothing_is_empty() {
    let bytes = encode_headers(&Vec::new());
    assert!(bytes.is_empty());
    assert_eq!(decode_headers(&bytes).unwrap(), Vec::new());
}

#[test]
fn header_framing_exact_bytes() {
    // One pair: 8-byte little-endian name length, name, 8-byte value
    // length, value.
    let headers = vec![HeaderPair { name: b"ab".to_vec(), value: b"c".to_vec() }];
    let bytes = encode_headers(&headers);
    let expected = vec![
        2, 0, 0, 0, 0, 0, 0, 0, b'a', b'b', 1, 0, 0, 0, 0, 0, 0, 0, b'c',
    ];
    assert_eq!(bytes, expected);
}

#[test]
fn malformed_framings_are_rejected() {
    assert!(decode_headers(&[1, 2, 3]).is_none());
    // A length prefix pointing past the end.
    assert!(decode_headers(&[200, 0, 0, 0, 0, 0, 0, 0]).is_none());
    // A well-formed pair followed by trailing garbage.
    let mut bytes = encode_headers(&vec![HeaderPair { name: b"a".to_vec(), value: b"b".to_vec() }]);
    bytes.push(9);
    assert!(decode_headers(&bytes).is_none());
}

#[test]
fn response_well_formedness() {
    let ok = HttpResponse { status: 303, headers: Vec::new(), body: Vec::new() };
    assert!(ok.is_wf());
    let bad = HttpResponse { status: 42, headers: Vec::new(), body: Vec::new() };
    assert!(!bad.is_wf());
}

#[test]
fn environment_names_round_trip() {
    assert_eq!(Environment::Local.as_str(), "local");
    assert_eq!(Environment::Production.as_str(), "production");
    assert!(matches!(Environment::try_from("local"), Ok(Environment::Local)));
    assert!(matches!(Environment::try_from("LOCAL"), Ok(Environment::Local)));
    assert!(matches!(Environment::try_from("Production"), Ok(Environment::Production)));
    assert!(Environment::try_from("staging").is_err());
    assert!(Environment::try_from("").is_err());
}

#[test]
fn database_settings_carry_their_values() {
    let s = DatabaseSettings {
        database_path: "newsletter".to_string(),
        create_if_missing: true,
        journal_mode: "WAL".to_string(),
        synchronous: "NORMAL".to_string(),
        busy_timeout: 5,
        foreign_keys: true,
        auto_vacuum: "INCREMENTAL".to_string(),
        page_size: 4096,
        cache_size: "-20000".to_string(),
        mmap_size: "536870912".to_string(),
        temp_store: "MEMORY".to_string(),
    };
    assert_eq!(s.database_path, "newsletter");
    assert_eq!(s.busy_timeout, 5);
    assert_eq!(s.page_size, 4096);
}

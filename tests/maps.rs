use proxy_wasm::maps::{
    deserialize_map, deserialize_map_bytes, map_is_well_formed, serialize_map,
    serialize_map_bytes, serialize_property_path, try_deserialize_map,
    try_deserialize_map_bytes,
};

fn map() -> Vec<(&'static str, &'static str)> {
    vec![
        (":method", "GET"),
        (":path", "/bytes/1"),
        (":authority", "httpbin.org"),
        ("Powered-By", "proxy-wasm"),
    ]
}

fn serialized_map() -> Vec<u8> {
    vec![
        // num entries
        4, 0, 0, 0,
        // len (":method", "GET")
        7, 0, 0, 0, 3, 0, 0, 0,
        // len (":path", "/bytes/1")
        5, 0, 0, 0, 8, 0, 0, 0,
        // len (":authority", "httpbin.org")
        10, 0, 0, 0, 11, 0, 0, 0,
        // len ("Powered-By", "proxy-wasm")
        10, 0, 0, 0, 10, 0, 0, 0,
        // ":method"
        58, 109, 101, 116, 104, 111, 100, 0,
        // "GET"
        71, 69, 84, 0,
        // ":path"
        58, 112, 97, 116, 104, 0,
        // "/bytes/1"
        47, 98, 121, 116, 101, 115, 47, 49, 0,
        // ":authority"
        58, 97, 117, 116, 104, 111, 114, 105, 116, 121, 0,
        // "httpbin.org"
        104, 116, 116, 112, 98, 105, 110, 46, 111, 114, 103, 0,
        // "Powered-By"
        80, 111, 119, 101, 114, 101, 100, 45, 66, 121, 0,
        // "proxy-wasm"
        112, 114, 111, 120, 121, 45, 119, 97, 115, 109, 0,
    ]
}

#[test]
fn test_serialize_map_empty() {
    let serialized_map = serialize_map(&[]);
    assert_eq!(serialized_map, [0, 0, 0, 0]);
}

#[test]
fn test_serialize_map_empty_bytes() {
    let serialized_map = serialize_map_bytes(&[]);
    assert_eq!(serialized_map, [0, 0, 0, 0]);
}

#[test]
fn test_deserialize_map_empty() {
    let map = deserialize_map(&[]);
    assert_eq!(map, []);
    let map = deserialize_map(&[0, 0, 0, 0]);
    assert_eq!(map, []);
}

#[test]
fn test_deserialize_map_empty_bytes() {
    let map = deserialize_map_bytes(&[]);
    assert_eq!(map, []);
    let map = deserialize_map_bytes(&[0, 0, 0, 0]);
    assert_eq!(map, []);
}

#[test]
fn test_serialize_map() {
    let serialized_map = serialize_map(&map());
    assert_eq!(serialized_map, crate::serialized_map());
}

#[test]
fn test_serialize_map_bytes() {
    let map: Vec<(&str, &[u8])> = map().iter().map(|x| (x.0, x.1.as_bytes())).collect();
    let serialized_map = serialize_map_bytes(&map);
    assert_eq!(serialized_map, crate::serialized_map());
}

#[test]
fn test_deserialize_map() {
    let expected_map = crate::map();
    let map = deserialize_map(&serialized_map());
    assert_eq!(map.len(), expected_map.len());
    for (got, expected) in map.into_iter().zip(expected_map) {
        assert_eq!(got.0, expected.0);
        assert_eq!(got.1, expected.1);
    }
}

#[test]
fn test_deserialize_map_bytes() {
    let expected_map = crate::map();
    let map = deserialize_map_bytes(&serialized_map());
    assert_eq!(map.len(), expected_map.len());
    for (got, expected) in map.into_iter().zip(expected_map) {
        assert_eq!(got.0, expected.0);
        assert_eq!(got.1, expected.1.as_bytes());
    }
}

#[test]
fn test_deserialize_map_roundtrip() {
    let map = deserialize_map(&serialized_map());
    let map_refs: Vec<(&str, &str)> = map.iter().map(|x| (x.0.as_ref(), x.1.as_ref())).collect();
    let serialized_map = serialize_map(&map_refs);
    assert_eq!(serialized_map, crate::serialized_map());
}

#[test]
fn test_deserialize_map_roundtrip_bytes() {
    let map = deserialize_map_bytes(&serialized_map());
    let map_refs: Vec<(&str, &[u8])> = map.iter().map(|x| (x.0.as_ref(), x.1.as_ref())).collect();
    let serialized_map = serialize_map_bytes(&map_refs);
    assert_eq!(serialized_map, crate::serialized_map());
}

#[test]
fn test_deserialize_map_all_chars() {
    // 0x00-0x7f are valid single-byte UTF-8 characters.
    for i in 0..0x7f {
        let serialized_src = [1, 0, 0, 0, 1, 0, 0, 0, 1, 0, 0, 0, 99, 0, i, 0];
        let map = deserialize_map(&serialized_src);
        let map_refs: Vec<(&str, &str)> =
            map.iter().map(|x| (x.0.as_ref(), x.1.as_ref())).collect();
        let serialized_map = serialize_map(&map_refs);
        assert_eq!(serialized_map, serialized_src);
    }
    // 0x80-0xff are invalid single-byte UTF-8 characters.
    for i in 0x80..0xff {
        let serialized_src = [1, 0, 0, 0, 1, 0, 0, 0, 1, 0, 0, 0, 99, 0, i, 0];
        assert!(try_deserialize_map(&serialized_src).is_none());
    }
}

#[test]
fn test_deserialize_map_all_chars_bytes() {
    // All 256 single-byte characters are allowed when emitting bytes.
    for i in 0..0xff {
        let serialized_src = [1, 0, 0, 0, 1, 0, 0, 0, 1, 0, 0, 0, 99, 0, i, 0];
        let map = deserialize_map_bytes(&serialized_src);
        let map_refs: Vec<(&str, &[u8])> =
            map.iter().map(|x| (x.0.as_ref(), x.1.as_ref())).collect();
        let serialized_map = serialize_map_bytes(&map_refs);
        assert_eq!(serialized_map, serialized_src);
    }
}

#[test]
fn malformed_maps_are_refused() {
    assert!(map_is_well_formed(&[]));
    assert!(!map_is_well_formed(&[1, 0]));
    // one entry whose key would run past the end
    assert!(!map_is_well_formed(&[1, 0, 0, 0, 9, 0, 0, 0, 0, 0, 0, 0, 99, 0]));
    // count larger than the size table
    assert!(!map_is_well_formed(&[2, 0, 0, 0, 1, 0, 0, 0]));
    assert!(try_deserialize_map_bytes(&[1, 0]).is_none());
    assert!(map_is_well_formed(&serialized_map()));
}

#[test]
fn invalid_utf8_key_is_refused_even_for_byte_values() {
    let src = [1, 0, 0, 0, 1, 0, 0, 0, 1, 0, 0, 0, 0xff, 0, 97, 0];
    assert!(try_deserialize_map_bytes(&src).is_none());
    let ok = [1, 0, 0, 0, 1, 0, 0, 0, 1, 0, 0, 0, 97, 0, 0xff, 0];
    let map = try_deserialize_map_bytes(&ok).unwrap();
    assert_eq!(map, vec![("a".to_string(), vec![0xffu8])]);
}

#[test]
fn property_path_parts_are_joined_by_zero_bytes() {
    assert_eq!(serialize_property_path(vec![]), Vec::<u8>::new());
    assert_eq!(serialize_property_path(vec!["node"]), b"node".to_vec());
    assert_eq!(
        serialize_property_path(vec!["upstream", "address"]),
        b"upstream\0address".to_vec()
    );
}

#[test]
fn serialized_lengths_are_little_endian() {
    let long_value = "x".repeat(300);
    let bytes = serialize_map(&[("k", long_value.as_str())]);
    assert_eq!(&bytes[0..12], &[1, 0, 0, 0, 1, 0, 0, 0, 44, 1, 0, 0]);
    assert_eq!(bytes.len(), 12 + 2 + 301);
}

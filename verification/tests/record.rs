use candidateparser_ffi::c_string::{contains_nul, copy_bytes, to_c_string};
use candidateparser_ffi::{IceCandidateFFI, KeyValueMap, KeyValuePair, ParsedCandidate};

fn sample() -> ParsedCandidate {
    ParsedCandidate {
        foundation: b"842163049".to_vec(),
        component_id: 1,
        transport: b"udp".to_vec(),
        priority: 1686052607,
        connection_address: b"1.2.3.4".to_vec(),
        port: 46154,
        candidate_type: b"srflx".to_vec(),
        rel_addr: Some(b"10.0.0.17".to_vec()),
        rel_port: Some(46154),
        extensions: vec![
            (b"generation".to_vec(), b"0".to_vec()),
            (b"ufrag".to_vec(), b"EEtu".to_vec()),
            (b"network-id".to_vec(), b"3".to_vec()),
            (b"network-cost".to_vec(), b"10".to_vec()),
        ],
    }
}

/// What a C reader takes a string buffer to hold.
fn read_c_string(buf: &[u8]) -> Vec<u8> {
    let end = buf.iter().position(|b| *b == 0).unwrap();
    buf[..end].to_vec()
}

#[test]
fn contains_nul_finds_a_nul_anywhere() {
    assert!(!contains_nul(b""));
    assert!(!contains_nul(b"abc"));
    assert!(contains_nul(b"\0"));
    assert!(contains_nul(b"\0bc"));
    assert!(contains_nul(b"a\0c"));
    assert!(contains_nul(b"ab\0"));
}

#[test]
fn copy_bytes_copies_every_byte() {
    assert_eq!(copy_bytes(b""), Vec::<u8>::new());
    assert_eq!(copy_bytes(b"abc"), b"abc".to_vec());
    assert_eq!(copy_bytes(&[0, 255, 0, 7]), vec![0, 255, 0, 7]);
}

#[test]
fn to_c_string_appends_one_terminator() {
    assert_eq!(to_c_string(b"udp"), Some(b"udp\0".to_vec()));
    assert_eq!(to_c_string(b""), Some(vec![0]));
    assert_eq!(to_c_string(&[255, 1]), Some(vec![255, 1, 0]));
}

#[test]
fn to_c_string_refuses_an_embedded_nul() {
    assert_eq!(to_c_string(b"u\0dp"), None);
    assert_eq!(to_c_string(b"udp\0"), None);
    assert_eq!(to_c_string(b"\0"), None);
}

#[test]
fn pair_owns_copies_with_their_lengths() {
    let pair = KeyValuePair::new(b"ufrag", b"EEtu");
    assert_eq!(pair.key, b"ufrag".to_vec());
    assert_eq!(pair.key_len, 5);
    assert_eq!(pair.val, b"EEtu".to_vec());
    assert_eq!(pair.val_len, 4);

    let empty = KeyValuePair::new(b"", b"\0\0");
    assert_eq!(empty.key, Vec::<u8>::new());
    assert_eq!(empty.key_len, 0);
    assert_eq!(empty.val, vec![0, 0]);
    assert_eq!(empty.val_len, 2);
}

#[test]
fn map_of_no_pairs_is_empty() {
    let map = KeyValueMap::from_pairs(&Vec::new());
    assert_eq!(map.len, 0);
    assert!(map.values.is_empty());
}

#[test]
fn map_keeps_the_order_of_its_pairs() {
    let pairs = vec![
        (b"b".to_vec(), b"2".to_vec()),
        (b"a".to_vec(), b"1".to_vec()),
        (b"c".to_vec(), b"".to_vec()),
    ];
    let map = KeyValueMap::from_pairs(&pairs);
    assert_eq!(map.len, 3);
    assert_eq!(map.values.len(), 3);
    for (pair, (key, val)) in map.values.iter().zip(pairs.iter()) {
        assert_eq!(&pair.key, key);
        assert_eq!(pair.key_len, key.len());
        assert_eq!(&pair.val, val);
        assert_eq!(pair.val_len, val.len());
    }
}

#[test]
fn record_of_a_full_candidate() {
    let record = IceCandidateFFI::from_parsed(&sample()).unwrap();
    assert_eq!(record.foundation, b"842163049\0".to_vec());
    assert_eq!(record.component_id, 1);
    assert_eq!(record.transport, b"udp\0".to_vec());
    assert_eq!(record.priority, 1686052607);
    assert_eq!(record.connection_address, b"1.2.3.4\0".to_vec());
    assert_eq!(record.port, 46154);
    assert_eq!(record.candidate_type, b"srflx\0".to_vec());
    assert_eq!(record.rel_addr, Some(b"10.0.0.17\0".to_vec()));
    assert_eq!(record.rel_port, 46154);
    assert_eq!(record.extensions.len, 4);
    let keys: Vec<&[u8]> = record.extensions.values.iter().map(|p| &p.key[..]).collect();
    assert_eq!(keys, vec![&b"generation"[..], &b"ufrag"[..], &b"network-id"[..], &b"network-cost"[..]]);
    let vals: Vec<&[u8]> = record.extensions.values.iter().map(|p| &p.val[..]).collect();
    assert_eq!(vals, vec![&b"0"[..], &b"EEtu"[..], &b"3"[..], &b"10"[..]]);
    let lens: Vec<(usize, usize)> =
        record.extensions.values.iter().map(|p| (p.key_len, p.val_len)).collect();
    assert_eq!(lens, vec![(10, 1), (5, 4), (10, 1), (12, 2)]);
}

#[test]
fn reading_a_record_gives_the_candidate_back() {
    let parsed = sample();
    let record = IceCandidateFFI::from_parsed(&parsed).unwrap();
    let read = ParsedCandidate {
        foundation: read_c_string(&record.foundation),
        component_id: record.component_id,
        transport: read_c_string(&record.transport),
        priority: record.priority,
        connection_address: read_c_string(&record.connection_address),
        port: record.port,
        candidate_type: read_c_string(&record.candidate_type),
        rel_addr: record.rel_addr.as_ref().map(|buf| read_c_string(buf)),
        rel_port: if record.rel_port == 0 { None } else { Some(record.rel_port) },
        extensions: record.extensions.values[..record.extensions.len]
            .iter()
            .map(|p| (p.key[..p.key_len].to_vec(), p.val[..p.val_len].to_vec()))
            .collect(),
    };
    assert_eq!(read, parsed);
}

#[test]
fn every_string_buffer_ends_at_its_only_nul() {
    let record = IceCandidateFFI::from_parsed(&sample()).unwrap();
    let rel_addr = record.rel_addr.clone().unwrap();
    for buf in [
        &record.foundation,
        &record.transport,
        &record.connection_address,
        &record.candidate_type,
        &rel_addr,
    ] {
        assert_eq!(buf.iter().position(|b| *b == 0), Some(buf.len() - 1));
    }
}

#[test]
fn absent_related_pair_uses_the_sentinels() {
    let mut parsed = sample();
    parsed.rel_addr = None;
    parsed.rel_port = None;
    let record = IceCandidateFFI::from_parsed(&parsed).unwrap();
    assert_eq!(record.rel_addr, None);
    assert_eq!(record.rel_port, 0);
}

#[test]
fn related_port_without_address_is_not_laid_out() {
    let mut parsed = sample();
    parsed.rel_addr = None;
    parsed.rel_port = Some(1337);
    let record = IceCandidateFFI::from_parsed(&parsed).unwrap();
    assert_eq!(record.rel_addr, None);
    assert_eq!(record.rel_port, 0);
}

#[test]
fn related_address_without_port_is_not_laid_out() {
    let mut parsed = sample();
    parsed.rel_port = None;
    let record = IceCandidateFFI::from_parsed(&parsed).unwrap();
    assert_eq!(record.rel_addr, None);
    assert_eq!(record.rel_port, 0);
}

#[test]
fn related_address_with_port_zero_is_not_laid_out() {
    let mut parsed = sample();
    parsed.rel_port = Some(0);
    let record = IceCandidateFFI::from_parsed(&parsed).unwrap();
    assert_eq!(record.rel_addr, None);
    assert_eq!(record.rel_port, 0);
}

#[test]
fn whole_related_pair_is_laid_out() {
    let mut parsed = sample();
    parsed.rel_addr = Some(b"::1".to_vec());
    parsed.rel_port = Some(1);
    let record = IceCandidateFFI::from_parsed(&parsed).unwrap();
    assert_eq!(record.rel_addr, Some(b"::1\0".to_vec()));
    assert_eq!(record.rel_port, 1);
}

#[test]
fn related_address_is_null_exactly_where_the_port_is_zero() {
    for rel_addr in [None, Some(b"10.0.0.17".to_vec())] {
        for rel_port in [None, Some(0), Some(1), Some(65535)] {
            let mut parsed = sample();
            parsed.rel_addr = rel_addr.clone();
            parsed.rel_port = rel_port;
            let record = IceCandidateFFI::from_parsed(&parsed).unwrap();
            assert_eq!(record.rel_addr.is_none(), record.rel_port == 0);
            let whole = rel_addr.is_some() && rel_port.is_some() && rel_port != Some(0);
            assert_eq!(record.rel_addr.is_some(), whole);
        }
    }
}

#[test]
fn nul_in_a_related_address_gives_no_record_whatever_the_port() {
    for rel_port in [None, Some(0), Some(1), Some(46154)] {
        let mut parsed = sample();
        parsed.rel_addr = Some(b"10.0\x00.0.17".to_vec());
        parsed.rel_port = rel_port;
        assert!(IceCandidateFFI::from_parsed(&parsed).is_none());
    }
}

#[test]
fn candidate_without_extensions_has_an_empty_array() {
    let mut parsed = sample();
    parsed.extensions = Vec::new();
    let record = IceCandidateFFI::from_parsed(&parsed).unwrap();
    assert_eq!(record.extensions.len, 0);
    assert!(record.extensions.values.is_empty());
}

#[test]
fn nul_in_a_text_gives_no_record() {
    let mut parsed = sample();
    parsed.foundation = b"84\x002163049".to_vec();
    assert!(IceCandidateFFI::from_parsed(&parsed).is_none());

    let mut parsed = sample();
    parsed.transport = b"\0".to_vec();
    assert!(IceCandidateFFI::from_parsed(&parsed).is_none());

    let mut parsed = sample();
    parsed.connection_address = b"1.2.3.4\0".to_vec();
    assert!(IceCandidateFFI::from_parsed(&parsed).is_none());

    let mut parsed = sample();
    parsed.candidate_type = b"\0host".to_vec();
    assert!(IceCandidateFFI::from_parsed(&parsed).is_none());

    let mut parsed = sample();
    parsed.rel_addr = Some(b"10.0\x00.0.17".to_vec());
    assert!(IceCandidateFFI::from_parsed(&parsed).is_none());
}

#[test]
fn nul_in_an_extension_is_kept() {
    let mut parsed = sample();
    parsed.extensions = vec![(b"k\0ey".to_vec(), b"\0".to_vec())];
    let record = IceCandidateFFI::from_parsed(&parsed).unwrap();
    assert_eq!(record.extensions.len, 1);
    assert_eq!(record.extensions.values[0].key, b"k\0ey".to_vec());
    assert_eq!(record.extensions.values[0].key_len, 4);
    assert_eq!(record.extensions.values[0].val, vec![0]);
    assert_eq!(record.extensions.values[0].val_len, 1);
}

#[test]
fn empty_texts_become_lone_terminators() {
    let parsed = ParsedCandidate {
        foundation: Vec::new(),
        component_id: 0,
        transport: Vec::new(),
        priority: 0,
        connection_address: Vec::new(),
        port: 0,
        candidate_type: Vec::new(),
        rel_addr: Some(Vec::new()),
        rel_port: Some(65535),
        extensions: Vec::new(),
    };
    let record = IceCandidateFFI::from_parsed(&parsed).unwrap();
    assert_eq!(record.foundation, vec![0]);
    assert_eq!(record.transport, vec![0]);
    assert_eq!(record.connection_address, vec![0]);
    assert_eq!(record.candidate_type, vec![0]);
    assert_eq!(record.rel_addr, Some(vec![0]));
    assert_eq!(record.rel_port, 65535);
    assert_eq!(record.component_id, 0);
    assert_eq!(record.priority, 0);
    assert_eq!(record.port, 0);
}

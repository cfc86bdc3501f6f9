use dupewatch::fingerprint::{dec_bytes, fingerprint_key, hex_bytes, index_key};
use dupewatch::store::{check_link, forget_keys, LinkDecision, RETENTION_SECS};

#[test]
fn retention_is_seven_days() {
    assert_eq!(RETENTION_SECS, 604800);
}

#[test]
fn hex_rendering_matches_known_values() {
    assert_eq!(hex_bytes(0), b"0".to_vec());
    assert_eq!(hex_bytes(10), b"a".to_vec());
    assert_eq!(hex_bytes(255), b"ff".to_vec());
    assert_eq!(hex_bytes(0xc236e8573f8c4a48), b"c236e8573f8c4a48".to_vec());
}

#[test]
fn dec_rendering_matches_known_values() {
    assert_eq!(dec_bytes(0), b"0".to_vec());
    assert_eq!(dec_bytes(111), b"111".to_vec());
    assert_eq!(dec_bytes(9876543210), b"9876543210".to_vec());
}

#[test]
fn fingerprint_is_fnv1a_of_link_dash_scope() {
    // FNV-1a 64 of "http://example.com/a-111", in lowercase hex.
    let key = fingerprint_key(&b"http://example.com/a".to_vec(), 111);
    assert_eq!(key, b"c236e8573f8c4a48".to_vec());
}

#[test]
fn fingerprint_is_deterministic() {
    let a = fingerprint_key(&b"https://a.bc".to_vec(), 42);
    let b = fingerprint_key(&b"https://a.bc".to_vec(), 42);
    assert_eq!(a, b);
}

#[test]
fn fingerprint_depends_on_scope() {
    let a = fingerprint_key(&b"https://a.bc".to_vec(), 1);
    let b = fingerprint_key(&b"https://a.bc".to_vec(), 2);
    assert_ne!(a, b);
}

#[test]
fn index_key_is_scope_dash_message() {
    assert_eq!(index_key(111, 222), b"111-222".to_vec());
}

#[test]
fn unseen_link_is_recorded_under_both_keys() {
    let link = b"http://example.com/a".to_vec();
    let permalink = b"https://messages.example/111/222".to_vec();
    let decision = check_link(&link, 111, 222, &permalink, None);
    match decision {
        LinkDecision::New { writes } => {
            assert_eq!(writes.len(), 2);
            assert_eq!(writes[0].key, b"c236e8573f8c4a48".to_vec());
            assert_eq!(writes[0].value, permalink);
            assert_eq!(writes[0].expire_secs, 604800);
            assert_eq!(writes[1].key, b"111-222".to_vec());
            assert_eq!(writes[1].value, b"c236e8573f8c4a48".to_vec());
            assert_eq!(writes[1].expire_secs, 604800);
        },
        LinkDecision::Duplicate { .. } => panic!("first sighting must be recorded, not reported"),
    }
}

#[test]
fn seen_link_is_reported_with_prior_reference() {
    let link = b"http://example.com/a".to_vec();
    let permalink = b"https://messages.example/111/333".to_vec();
    let prior = b"https://messages.example/111/222".to_vec();
    let decision = check_link(&link, 111, 333, &permalink, Some(prior.clone()));
    match decision {
        LinkDecision::Duplicate { prior: p } => assert_eq!(p, prior),
        LinkDecision::New { .. } => panic!("recorded link must be reported as duplicate"),
    }
}

#[test]
fn forget_removes_both_keys_when_tracked() {
    let idx = index_key(111, 222);
    let keys = forget_keys(&idx, Some(b"c236e8573f8c4a48".to_vec()));
    assert_eq!(keys, vec![b"c236e8573f8c4a48".to_vec(), b"111-222".to_vec()]);
}

#[test]
fn forget_of_untracked_message_is_a_no_op() {
    let idx = index_key(111, 999);
    let keys = forget_keys(&idx, None);
    assert_eq!(keys, Vec::<Vec<u8>>::new());
}

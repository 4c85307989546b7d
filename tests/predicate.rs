use boundless_proving::predicate::{Predicate, PredicateKind};

#[test]
fn prefix_match() {
    let p = Predicate { kind: PredicateKind::PrefixMatch, data: b"hello".to_vec() };
    assert!(p.eval(b"hello world", &[0u8; 32]));
    assert!(p.eval(b"hello", &[0u8; 32]));
    assert!(!p.eval(b"hell", &[0u8; 32]));
    assert!(!p.eval(b"help me", &[0u8; 32]));
}

#[test]
fn empty_prefix_matches_any_journal() {
    let p = Predicate { kind: PredicateKind::PrefixMatch, data: vec![] };
    assert!(p.eval(b"", &[]));
    assert!(p.eval(b"abc", &[]));
}

#[test]
fn digest_match() {
    let digest = [7u8; 32];
    let p = Predicate { kind: PredicateKind::DigestMatch, data: digest.to_vec() };
    assert!(p.eval(b"journal", &digest));
    let mut other = digest;
    other[31] = 8;
    assert!(!p.eval(b"journal", &other));
    assert!(!p.eval(b"journal", &digest[..31]));
}

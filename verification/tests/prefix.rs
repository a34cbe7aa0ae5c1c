use staking_mock::length_prefix::{encode_length, to_length_prefixed};

#[test]
fn length_of_an_empty_namespace() {
    assert_eq!(encode_length(b""), [0, 0]);
    assert_eq!(to_length_prefixed(b""), b"\x00\x00".to_vec());
}

#[test]
fn length_of_a_short_namespace() {
    assert_eq!(encode_length(b"a"), [0, 1]);
    assert_eq!(encode_length(b"balance"), [0, 7]);
}

#[test]
fn length_takes_two_bytes() {
    assert_eq!(encode_length(&vec![1; 255]), [0x00, 0xff]);
    assert_eq!(encode_length(&vec![1; 256]), [0x01, 0x00]);
    assert_eq!(encode_length(&vec![1; 12345]), [0x30, 0x39]);
    assert_eq!(encode_length(&vec![1; 0xffff]), [0xff, 0xff]);
}

#[test]
fn namespace_follows_its_length() {
    assert_eq!(to_length_prefixed(b"balance"), b"\x00\x07balance".to_vec());
    assert_eq!(to_length_prefixed(b"token_info"), b"\x00\x0atoken_info".to_vec());
}

#[test]
fn longest_namespace() {
    let key = to_length_prefixed(&vec![7; 0xffff]);
    assert_eq!(key.len(), 0xffff + 2);
    assert_eq!(key[..3].to_vec(), vec![0xff, 0xff, 7]);
}

#[test]
fn keys_of_different_namespaces_do_not_collide() {
    let mut a = to_length_prefixed(b"ab");
    a.extend_from_slice(b"c");
    let mut b = to_length_prefixed(b"a");
    b.extend_from_slice(b"bc");
    assert_ne!(a, b);
}

use opendht::info_hash::{InfoHash, ID_LEN};

fn hex(bytes: &[u8]) -> String {
    bytes.iter().map(|b| format!("{:02x}", b)).collect()
}

#[test]
fn id_is_sha1_of_key() {
    let id = InfoHash::new(b"abc");
    assert_eq!(hex(id.as_bytes()), "a9993e364706816aba3e25717850c26c9cd0d89d");
}

#[test]
fn id_of_empty_key() {
    let id = InfoHash::new(b"");
    assert_eq!(hex(id.as_bytes()), "da39a3ee5e6b4b0d3255bfef95601890afd80709");
    assert_eq!(id.len(), 20);
}

#[test]
fn id_has_fixed_length() {
    let short = InfoHash::new(b"foo");
    let long = InfoHash::new(&[7u8; 4096]);
    assert_eq!(short.len(), ID_LEN);
    assert_eq!(long.len(), ID_LEN);
    assert_eq!(short.as_bytes().len(), 20);
    assert!(!short.is_empty());
    assert!(!long.is_empty());
}

#[test]
fn equal_keys_give_equal_ids() {
    let a = InfoHash::new(b"foo");
    let b = InfoHash::new(&b"foo".to_vec());
    assert_eq!(a.as_bytes(), b.as_bytes());
}

#[test]
fn different_keys_give_different_ids() {
    let a = InfoHash::new(b"foo");
    let b = InfoHash::new(b"fop");
    let c = InfoHash::new(b"foo ");
    assert_ne!(a.as_bytes(), b.as_bytes());
    assert_ne!(a.as_bytes(), c.as_bytes());
    assert_ne!(b.as_bytes(), c.as_bytes());
}

use flota::checksum::{checksum, compare_md5};

fn ok_content() -> Vec<u8> {
    (0..1000).map(|_| "ok").collect::<String>().into_bytes()
}

#[test]
fn test_compare_md5() {
    assert!(compare_md5(&ok_content(), "1475d0fe0bbf3f58901703267deb7560"));
}

#[test]
fn compare_md5_rejects_others() {
    assert!(!compare_md5(&ok_content(), "1475d0fe0bbf3f58901703267deb7561"));
    assert!(!compare_md5(&ok_content(), "1475D0FE0BBF3F58901703267DEB7560"));
    assert!(!compare_md5(&ok_content(), ""));
    assert!(compare_md5(&Vec::new(), "d41d8cd98f00b204e9800998ecf8427e"));
}

#[test]
fn checksum_is_the_digest() {
    let d = checksum(&b"abc".to_vec());
    assert_eq!(d.len(), 16);
    assert_eq!(d[0], 0x90);
    assert_eq!(d[15], 0x72);
    assert_ne!(d, b"abc".to_vec());
}

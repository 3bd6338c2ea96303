use feed::identity::{Identity, MAX_IDENTITY_BYTES};

#[test]
fn text_of_known_identities() {
    assert_eq!(Identity::from_bytes(vec![]).unwrap().to_text(), "aaaaa-aa");
    assert_eq!(Identity::anonymous().to_text(), "2vxsx-fae");
    assert_eq!(Identity::anonymous().to_bytes(), vec![4]);
    let id = Identity::from_bytes(vec![0xef, 0xcd, 0xab, 0, 0, 0, 0, 0, 1]).unwrap();
    assert_eq!(id.to_text(), "2chl6-4hpzw-vqaaa-aaaaa-c");
}

#[test]
fn text_agrees_with_candid() {
    for len in 0..=MAX_IDENTITY_BYTES {
        let bytes: Vec<u8> = (0..len).map(|k| (k * 37 + len) as u8).collect();
        let id = Identity::from_bytes(bytes.clone()).unwrap();
        let principal = candid::Principal::from_slice(&bytes);
        assert_eq!(id.to_text(), principal.to_text());
        let back = Identity::from_text(&principal.to_text()).unwrap();
        assert_eq!(back.to_bytes(), bytes);
        assert_eq!(back, id);
        assert!(!id.to_text().contains('#'));
    }
}

#[test]
fn too_many_bytes_are_no_identity() {
    assert!(Identity::from_bytes(vec![1; 29]).is_some());
    assert!(Identity::from_bytes(vec![1; 30]).is_none());
    assert!(Identity::from_bytes(vec![0; 1000]).is_none());
}

#[test]
fn malformed_text_is_no_identity() {
    assert!(Identity::from_text("").is_none());
    assert!(Identity::from_text("aaaaa-ab").is_none());
    assert!(Identity::from_text("2vxsxfae").is_none());
    assert!(Identity::from_text("2vxsx-fae#").is_none());
    assert!(Identity::from_text("not a principal").is_none());
    assert!(Identity::from_text("π").is_none());
}

#[test]
fn text_is_read_without_regard_to_case() {
    let lower = Identity::from_text("2vxsx-fae").unwrap();
    let upper = Identity::from_text("2VXSX-FAE").unwrap();
    assert_eq!(lower, upper);
    assert_eq!(upper.to_text(), "2vxsx-fae");
}

#[test]
fn identities_are_equal_when_their_bytes_are() {
    let a = Identity::from_bytes(vec![1, 2, 3]).unwrap();
    let b = Identity::from_bytes(vec![1, 2, 3]).unwrap();
    let c = Identity::from_bytes(vec![1, 2, 4]).unwrap();
    let d = Identity::from_bytes(vec![1, 2]).unwrap();
    assert_eq!(a, b);
    assert_eq!(a, a.clone());
    assert_ne!(a, c);
    assert_ne!(a, d);
    assert_ne!(d, a);
}

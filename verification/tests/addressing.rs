use feed::address::{check_post_id, get_post_id, ParseError};
use feed::identity::Identity;

fn identity(bytes: &[u8]) -> Identity {
    Identity::from_bytes(bytes.to_vec()).unwrap()
}

#[test]
fn post_id_is_shard_author_sequence() {
    let shard = Identity::from_text("aaaaa-aa").unwrap();
    let author = Identity::anonymous();
    assert_eq!(get_post_id(&shard, &author, 0), "aaaaa-aa#2vxsx-fae#0");
    assert_eq!(get_post_id(&shard, &author, 1234567890), "aaaaa-aa#2vxsx-fae#1234567890");
    assert_eq!(
        get_post_id(&author, &shard, u64::MAX),
        "2vxsx-fae#aaaaa-aa#18446744073709551615"
    );
}

#[test]
fn parsing_inverts_formatting() {
    let shard = identity(&[0, 0, 0, 0, 0, 0, 0, 1, 1, 1]);
    let author = identity(&[9, 8, 7, 6, 5, 4, 3, 2, 1, 0, 11, 12, 13, 14, 15, 16, 17, 18, 19, 20]);
    for index in [0u64, 1, 9, 10, 99, 100, 4294967296, u64::MAX] {
        let id = get_post_id(&shard, &author, index);
        let address = check_post_id(&id).unwrap();
        assert_eq!(address.shard, shard);
        assert_eq!(address.author, author);
        assert_eq!(address.index, index);
    }
}

#[test]
fn wrong_segment_counts_are_rejected() {
    assert_eq!(check_post_id("").unwrap_err(), ParseError::SegmentCount);
    assert_eq!(check_post_id("aaaaa-aa").unwrap_err(), ParseError::SegmentCount);
    assert_eq!(check_post_id("aaaaa-aa#2vxsx-fae").unwrap_err(), ParseError::SegmentCount);
    assert_eq!(
        check_post_id("aaaaa-aa#2vxsx-fae#0#1").unwrap_err(),
        ParseError::SegmentCount
    );
    assert_eq!(check_post_id("aaaaa-aa#2vxsx-fae#0#").unwrap_err(), ParseError::SegmentCount);
}

#[test]
fn bad_identities_are_rejected() {
    assert_eq!(check_post_id("nobody#2vxsx-fae#0").unwrap_err(), ParseError::InvalidIdentity);
    assert_eq!(check_post_id("aaaaa-aa#2vxsx-faf#0").unwrap_err(), ParseError::InvalidIdentity);
    assert_eq!(check_post_id("#2vxsx-fae#0").unwrap_err(), ParseError::InvalidIdentity);
    assert_eq!(check_post_id("aaaaa-aa##0").unwrap_err(), ParseError::InvalidIdentity);
    // The identities are tested before the number.
    assert_eq!(check_post_id("nobody#2vxsx-fae#x").unwrap_err(), ParseError::InvalidIdentity);
}

#[test]
fn bad_sequence_numbers_are_rejected() {
    for text in ["", "x", "-1", "1.5", " 1", "1 ", "+", "++1", "18446744073709551616", "１"] {
        let id = format!("aaaaa-aa#2vxsx-fae#{}", text);
        assert_eq!(check_post_id(&id).unwrap_err(), ParseError::InvalidSequence, "{}", id);
    }
}

#[test]
fn sequence_numbers_may_have_a_plus_sign_or_leading_zeros() {
    assert_eq!(check_post_id("aaaaa-aa#2vxsx-fae#+7").unwrap().index, 7);
    assert_eq!(check_post_id("aaaaa-aa#2vxsx-fae#007").unwrap().index, 7);
    assert_eq!(
        check_post_id("aaaaa-aa#2vxsx-fae#18446744073709551615").unwrap().index,
        u64::MAX
    );
}

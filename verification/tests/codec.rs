use timesheettool::codec::{desqid, sqid, sqid_roundtrip};

#[test]
fn encoding_then_decoding_returns_the_original_id() {
    for id in [0, 1, 2, 42, 12345, 1000000, i32::MAX, -1, i32::MIN] {
        let encoded = sqid(id).unwrap();
        assert_eq!(desqid(&encoded), Some(id));
        assert_eq!(sqid_roundtrip(id), Some(id));
    }
}

#[test]
fn encoded_ids_are_short_lowercase_words() {
    for id in [0, 7, 99999] {
        let encoded = sqid(id).unwrap();
        assert!(encoded.len() >= 5);
        assert!(encoded.chars().all(|c| c.is_ascii_lowercase()));
    }
}

#[test]
fn encoding_is_not_the_identity_on_digits() {
    let encoded = sqid(12345).unwrap();
    assert_ne!(encoded, "12345");
}

#[test]
fn decoding_a_string_the_codec_did_not_produce_fails() {
    // Digits are not in the codec's alphabet.
    assert_eq!(desqid("12345"), None);
    assert_eq!(desqid(""), None);
    assert_eq!(desqid("ABCDE"), None);
}

#[test]
fn decoding_is_stable_across_calls() {
    let encoded = sqid(77).unwrap();
    assert_eq!(desqid(&encoded), desqid(&encoded));
}

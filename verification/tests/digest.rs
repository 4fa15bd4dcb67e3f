use l2tp_handshake::digest::{build_response_input, compute_response};

#[test]
fn response_matches_known_digests() {
    assert_eq!(
        compute_response(42, b"secret", &[1, 2, 3]),
        [
            0x0a, 0xfc, 0xb1, 0x48, 0x4c, 0xfa, 0x8c, 0x35, 0x6c, 0x50, 0xff, 0x34, 0x46, 0xb3,
            0x23, 0x2a
        ]
    );
    assert_eq!(
        compute_response(0x1234, b"hunter2", &[]),
        [
            0x2e, 0xe1, 0xbc, 0xe1, 0x8f, 0x60, 0xe6, 0xae, 0x72, 0xa4, 0xef, 0x4c, 0xd0, 0x07,
            0x7c, 0x99
        ]
    );
}

#[test]
fn empty_secret_and_empty_challenge_are_allowed() {
    assert_eq!(
        compute_response(0, &[], &[]),
        [
            0xc4, 0x10, 0x3f, 0x12, 0x2d, 0x27, 0x67, 0x7c, 0x9d, 0xb1, 0x44, 0xca, 0xe1, 0x39,
            0x4a, 0x66
        ]
    );
}

#[test]
fn response_input_is_id_then_secret_then_challenge() {
    assert_eq!(
        build_response_input(0x0102, &[0xaa, 0xbb], &[0xcc]),
        vec![0x01, 0x02, 0xaa, 0xbb, 0xcc]
    );
    assert_eq!(build_response_input(42, &[], &[]), vec![0x00, 0x2a]);
}

#[test]
fn response_is_the_digest_of_the_input() {
    let secret = b"a longer shared secret";
    let challenge: Vec<u8> = (0u8..200).collect();
    let input = build_response_input(513, secret, &challenge);
    assert_eq!(compute_response(513, secret, &challenge), md5::compute(&input).0);
}

#[test]
fn same_arguments_give_the_same_response() {
    let first = compute_response(42, b"secret", &[1, 2, 3]);
    let second = compute_response(42, b"secret", &[1, 2, 3]);
    assert_eq!(first, second);
}

#[test]
fn changing_one_byte_changes_the_response() {
    let base = compute_response(42, b"secret", &[1, 2, 3]);
    let other_challenge = compute_response(42, b"secret", &[1, 2, 4]);
    let other_id = compute_response(43, b"secret", &[1, 2, 3]);
    let other_secret = compute_response(42, b"secreu", &[1, 2, 3]);
    assert_eq!(
        other_challenge,
        [
            0x34, 0x2b, 0x96, 0x2e, 0x1c, 0xf4, 0x89, 0x15, 0x82, 0x6a, 0x32, 0xaf, 0xa7, 0xde,
            0x6b, 0xb2
        ]
    );
    assert_eq!(
        other_id,
        [
            0x6b, 0x62, 0x2d, 0x5c, 0xe4, 0xf1, 0xd7, 0xc5, 0x0c, 0x7f, 0xd8, 0xc3, 0xc1, 0x34,
            0xed, 0x66
        ]
    );
    assert_eq!(
        other_secret,
        [
            0xca, 0xe2, 0x69, 0x58, 0xa7, 0xbc, 0xba, 0xfc, 0x14, 0x35, 0x50, 0x30, 0x8f, 0xba,
            0x04, 0x53
        ]
    );
    assert_ne!(base, other_challenge);
    assert_ne!(base, other_id);
    assert_ne!(base, other_secret);
}

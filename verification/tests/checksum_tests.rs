use vedirect::checksum::append;
use vedirect::checksum::compute;
use vedirect::checksum::verify;

#[test]
fn round_trip_verifies() {
    let cases: Vec<Vec<u8>> = vec![
        vec![],
        vec![0],
        vec![255],
        vec![1, 2, 3],
        (0u16..=255).map(|b| b as u8).collect(),
        "\r\nfield1\tvalue1\r\nfield2\tvalue2\r\nChecksum\t".as_bytes().to_vec(),
    ];
    for payload in cases {
        let c = compute(&payload);
        assert!(verify(&append(&payload, c)));
    }
}

#[test]
fn compute_exact_values() {
    assert_eq!(compute(&[]), 0);
    assert_eq!(compute(&[1]), 255);
    assert_eq!(compute(&[255]), 1);
    assert_eq!(compute(&[128, 128]), 0);
    assert_eq!(compute(&[100, 100, 100]), 212);
}

#[test]
fn verify_is_the_zero_sum_test() {
    assert!(verify(&[]));
    assert!(verify(&[0, 0]));
    assert!(verify(&[1, 255]));
    assert!(!verify(&[1]));
    assert!(!verify(&[1, 254]));
}

#[test]
fn wrong_byte_never_verifies() {
    let payload = b"some payload".to_vec();
    let c = compute(&payload);
    for wrong in 0u16..=255 {
        let wrong = wrong as u8;
        if wrong != c {
            assert!(!verify(&append(&payload, wrong)));
        }
    }
}

#[test]
fn chunked_sum_equals_whole_sum() {
    // Computing over a concatenation equals computing over the whole:
    // the checksum depends only on the byte values, not the grouping.
    let a = b"first half ".to_vec();
    let b = b"second half".to_vec();
    let mut whole = a.clone();
    whole.extend_from_slice(&b);
    let c = compute(&whole);
    // Feed the same bytes through `append` piecewise and verify once.
    let mut framed = a.clone();
    framed.extend_from_slice(&b);
    framed.push(c);
    assert!(verify(&framed));
    // Any reordering-preserving regrouping gives the same checksum.
    let regrouped: Vec<u8> = a.iter().chain(b.iter()).copied().collect();
    assert_eq!(compute(&regrouped), c);
}

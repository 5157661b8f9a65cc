use hash::digest::{HashAlgorithm, HashImpl};

const ALGORITHMS: [HashAlgorithm; 3] = [
    HashAlgorithm::MD5,
    HashAlgorithm::SHA256,
    HashAlgorithm::BLAKE3,
];

#[test]
fn default_algorithm_is_sha256() {
    assert_eq!(HashAlgorithm::default(), HashAlgorithm::SHA256);
}

#[test]
fn flags_select_the_algorithm() {
    assert_eq!(HashAlgorithm::from_flags(false, false), HashAlgorithm::SHA256);
    assert_eq!(HashAlgorithm::from_flags(true, false), HashAlgorithm::MD5);
    assert_eq!(HashAlgorithm::from_flags(false, true), HashAlgorithm::BLAKE3);
    assert_eq!(HashAlgorithm::from_flags(true, true), HashAlgorithm::MD5);
}

#[test]
fn algorithm_names() {
    assert_eq!(HashAlgorithm::MD5.name(), "MD5");
    assert_eq!(HashAlgorithm::SHA256.name(), "SHA256");
    assert_eq!(HashAlgorithm::BLAKE3.name(), "BLAKE3");
}

#[test]
fn md5_vectors() {
    assert_eq!(
        HashImpl::hex_digest_input(b"", HashAlgorithm::MD5),
        "d41d8cd98f00b204e9800998ecf8427e"
    );
    assert_eq!(
        HashImpl::hex_digest_input(b"abc", HashAlgorithm::MD5),
        "900150983cd24fb0d6963f7d28e17f72"
    );
    assert_eq!(
        HashImpl::hex_digest_input(b"hello world", HashAlgorithm::MD5),
        "5eb63bbbe01eeed093cb22bb8f5acdc3"
    );
}

#[test]
fn sha256_vectors() {
    assert_eq!(
        HashImpl::hex_digest_input(b"", HashAlgorithm::SHA256),
        "e3b0c44298fc1c149afbf4c8996fb92427ae41e4649b934ca495991b7852b855"
    );
    assert_eq!(
        HashImpl::hex_digest_input(b"abc", HashAlgorithm::SHA256),
        "ba7816bf8f01cfea414140de5dae2223b00361a396177a9cb410ff61f20015ad"
    );
}

#[test]
fn blake3_vectors() {
    assert_eq!(
        HashImpl::hex_digest_input(b"", HashAlgorithm::BLAKE3),
        "af1349b9f5f9a1a6a0404dea36dcc9499bcb25c9adc112b7cc9a93cae41f3262"
    );
    assert_eq!(
        HashImpl::hex_digest_input(b"abc", HashAlgorithm::BLAKE3),
        "6437b3ac38465133ffb63b75273a8db548c558465d79db03fd359c6cd5bd9d85"
    );
}

#[test]
fn digest_widths() {
    for input in [&b""[..], &b"abc"[..], &[0u8; 200][..]] {
        assert_eq!(HashImpl::digest(input, HashAlgorithm::MD5).len(), 16);
        assert_eq!(HashImpl::digest(input, HashAlgorithm::SHA256).len(), 32);
        assert_eq!(HashImpl::digest(input, HashAlgorithm::BLAKE3).len(), 32);
        assert_eq!(HashImpl::hex_digest_input(input, HashAlgorithm::MD5).len(), 32);
        assert_eq!(HashImpl::hex_digest_input(input, HashAlgorithm::SHA256).len(), 64);
        assert_eq!(HashImpl::hex_digest_input(input, HashAlgorithm::BLAKE3).len(), 64);
    }
}

#[test]
fn digest_bytes_of_md5_abc() {
    assert_eq!(
        HashImpl::digest(b"abc", HashAlgorithm::MD5),
        vec![
            0x90, 0x01, 0x50, 0x98, 0x3c, 0xd2, 0x4f, 0xb0, 0xd6, 0x96, 0x3f, 0x7d, 0x28, 0xe1,
            0x7f, 0x72
        ]
    );
}

#[test]
fn digests_differ_from_their_input_and_from_each_other() {
    let input = [7u8; 32];
    let sha = HashImpl::digest(&input, HashAlgorithm::SHA256);
    let blake = HashImpl::digest(&input, HashAlgorithm::BLAKE3);
    let md5 = HashImpl::digest(&[7u8; 16], HashAlgorithm::MD5);
    assert_ne!(sha, input.to_vec());
    assert_ne!(blake, input.to_vec());
    assert_ne!(md5, vec![7u8; 16]);
    assert_ne!(sha, blake);
}

#[test]
fn same_input_same_digest() {
    for algo in ALGORITHMS {
        let a = HashImpl::hex_digest_input(b"the same bytes", algo);
        let b = HashImpl::hex_digest_input(b"the same bytes", algo);
        assert_eq!(a, b);
        assert_ne!(a, HashImpl::hex_digest_input(b"other bytes", algo));
    }
}

#[test]
fn fresh_state_is_empty() {
    let h = HashImpl::new();
    assert!(h.bytes.is_empty());
    for algo in ALGORITHMS {
        assert_eq!(h.hex_digest(algo), HashImpl::hex_digest_input(b"", algo));
    }
}

#[test]
fn update_appends() {
    let mut h = HashImpl::new();
    h.update(b"ab");
    h.update(b"");
    h.update(b"c");
    assert_eq!(h.bytes, b"abc".to_vec());
}

#[test]
fn two_updates_equal_one_shot_of_the_concatenation() {
    let cases: [(&[u8], &[u8]); 4] = [
        (b"", b""),
        (b"hello ", b"world"),
        (b"", b"abc"),
        (&[0, 255, 1], &[254, 2]),
    ];
    for (x, y) in cases {
        for algo in ALGORITHMS {
            let mut h = HashImpl::new();
            h.update(x);
            h.update(y);
            let whole = [x, y].concat();
            assert_eq!(h.hex_digest(algo), HashImpl::hex_digest_input(&whole, algo));
        }
    }
    let mut h = HashImpl::new();
    h.update(b"hello ");
    h.update(b"world");
    assert_eq!(
        h.hex_digest(HashAlgorithm::MD5),
        "5eb63bbbe01eeed093cb22bb8f5acdc3"
    );
}

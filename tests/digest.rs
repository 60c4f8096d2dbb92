use ykchalresp::codec::to_hex;
use ykchalresp::hmac::hmac_sha1;
use ykchalresp::sha1::sha1;

#[test]
fn sha1_known_vector() {
    let d = sha1(b"The quick brown fox jumps over the lazy dog");
    assert_eq!(to_hex(&d), "2fd4e1c67a2d28fced849ee1bb76e7391b93eb12");
}

#[test]
fn hmac_sha1_known_vector() {
    let d = hmac_sha1(b"key", b"The quick brown fox jumps over the lazy dog");
    assert_eq!(to_hex(&d), "de7c9b85b8b78aa6bc8a7a36f70a90701c9db4d9");
}

#[test]
fn sha1_empty_message() {
    assert_eq!(to_hex(&sha1(b"")), "da39a3ee5e6b4b0d3255bfef95601890afd80709");
}

#[test]
fn sha1_abc() {
    assert_eq!(to_hex(&sha1(b"abc")), "a9993e364706816aba3e25717850c26c9cd0d89d");
}

#[test]
fn sha1_two_block_message() {
    let m = b"abcdbcdecdefdefgefghfghighijhijkijkljklmklmnlmnomnopnopq";
    assert_eq!(to_hex(&sha1(m)), "84983e441c3bd26ebaae4aa1f95129e5e54670f1");
}

#[test]
fn sha1_length_on_block_boundaries() {
    let m55 = vec![b'a'; 55];
    let m56 = vec![b'a'; 56];
    let m64 = vec![b'a'; 64];
    assert_eq!(to_hex(&sha1(&m55)), "c1c8bbdc22796e28c0e15163d20899b65621d65a");
    assert_eq!(to_hex(&sha1(&m56)), "c2db330f6083854c99d4b5bfb6e8f29f201be699");
    assert_eq!(to_hex(&sha1(&m64)), "0098ba824b5c16427bd7a1122a5a442a25ec644d");
}

#[test]
fn hmac_sha1_empty_inputs() {
    assert_eq!(to_hex(&hmac_sha1(b"", b"")), "fbdb1d1b18aa6c08324b7d64b71fb76370690e1d");
}

#[test]
fn hmac_sha1_long_key_equals_prehashed_key() {
    let key: Vec<u8> = (0..100u32).map(|i| (i * 7 + 3) as u8).collect();
    let message = b"challenge";
    let mut pre = sha1(&key).to_vec();
    pre.resize(64, 0);
    assert_eq!(hmac_sha1(&key, message), hmac_sha1(&pre, message));
    let mut short = sha1(&key).to_vec();
    short.resize(20, 0);
    assert_eq!(hmac_sha1(&key, message), hmac_sha1(&short, message));
}

#[test]
fn hmac_sha1_key_of_exactly_one_block() {
    let key = vec![0x0bu8; 64];
    let mut longer = key.clone();
    longer.push(0);
    assert_eq!(hmac_sha1(&key, b"x"), hmac_sha1(&key[..], b"x"));
    assert_ne!(hmac_sha1(&key, b"x"), hmac_sha1(&longer, b"x"));
}

#[test]
fn hmac_sha1_rfc2202_case_one() {
    let key = vec![0x0bu8; 20];
    assert_eq!(to_hex(&hmac_sha1(&key, b"Hi There")), "b617318655057264e28bc0b6fb378c8ef146be00");
}

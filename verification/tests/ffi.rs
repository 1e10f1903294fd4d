//! The hash primitives are reachable and behave as digests.

use xmr_db::crypto::cn_fast_hash;
use xmr_db::crypto::cn_slow_hash;
use xmr_db::crypto::HASH_SIZE;

fn f<T>(_t: T) {}

#[test]
fn link() {
    f(cn_fast_hash);
    f(cn_slow_hash);
}

#[test]
fn fast_hash_is_keccak_256() {
    let digest = cn_fast_hash(b"");
    let expected: [u8; 32] = [
        0xc5, 0xd2, 0x46, 0x01, 0x86, 0xf7, 0x23, 0x3c, 0x92, 0x7e, 0x7d, 0xb2, 0xdc, 0xc7, 0x03,
        0xc0, 0xe5, 0x00, 0xb6, 0x53, 0xca, 0x82, 0x27, 0x3b, 0x7b, 0xfa, 0xd8, 0x04, 0x5d, 0x85,
        0xa4, 0x70,
    ];
    assert_eq!(digest.as_slice(), expected.as_slice());
    assert_eq!(digest.len(), HASH_SIZE);
}

#[test]
fn slow_hash_shape() {
    let data = vec![0x61u8, 0x62, 0x63];
    let digest = cn_slow_hash(&data);
    assert_eq!(digest.len(), HASH_SIZE);
    assert_ne!(digest, data);
    let again = cn_slow_hash(&data);
    assert_eq!(digest, again);
    assert_ne!(digest, cn_slow_hash(b"abd"));
}

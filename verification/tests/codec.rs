//! Round trips, exact bytes, tag rejection and signature sizes of the
//! transaction-input codec.

use xmr_db::codec::DeserializerStream;
use xmr_db::codec::Error;
use xmr_db::codec::SerializerStream;
use xmr_db::tx_in::TxIn;
use xmr_db::tx_in::TxInGen;
use xmr_db::tx_in::TxInToKey;
use xmr_db::tx_in::TxInToScript;
use xmr_db::tx_in::TxInToScriptHash;

fn round_trip(v: TxIn) {
    let mut s = SerializerStream::new();
    v.serialize(&mut s);
    let bytes = s.into_bytes();
    let mut d = DeserializerStream::new(bytes);
    let back = TxIn::deserialize(&mut d).expect("a serialized input must decode");
    assert_eq!(back, v);
    assert_eq!(d.remaining(), 0);
}

#[test]
fn round_trip_gen() {
    round_trip(TxIn::Gen(TxInGen { height: 0 }));
    round_trip(TxIn::Gen(TxInGen { height: u64::MAX }));
}

#[test]
fn round_trip_to_key() {
    round_trip(TxIn::ToKey(TxInToKey {
        amount: 77,
        key_offsets: vec![1, 2, 300, u64::MAX],
        key_image: vec![9u8; 32],
    }));
}

#[test]
fn round_trip_to_key_empty_offsets() {
    round_trip(TxIn::ToKey(TxInToKey {
        amount: 0,
        key_offsets: vec![],
        key_image: vec![],
    }));
}

#[test]
fn round_trip_scripts() {
    round_trip(TxIn::ToScript(TxInToScript {
        prev: vec![3u8; 32],
        prevout: 11,
        sigset: vec![1, 2, 3],
    }));
    round_trip(TxIn::ToScriptHash(TxInToScriptHash {
        prev: vec![4u8; 32],
        prevout: 0,
        sigset: vec![],
    }));
}

#[test]
fn gen_encodes_canonically() {
    let mut s = SerializerStream::new();
    TxIn::Gen(TxInGen { height: 1 }).serialize(&mut s);
    let bytes = s.into_bytes();
    assert_eq!(bytes, vec![0xff, 1, 0, 0, 0, 0, 0, 0, 0]);
}

#[test]
fn tags_are_the_protocol_constants() {
    let cases: Vec<(TxIn, u8)> = vec![
        (TxIn::Gen(TxInGen { height: 5 }), 0xff),
        (
            TxIn::ToKey(TxInToKey { amount: 1, key_offsets: vec![], key_image: vec![] }),
            0x02,
        ),
        (
            TxIn::ToScript(TxInToScript { prev: vec![], prevout: 1, sigset: vec![] }),
            0x00,
        ),
        (
            TxIn::ToScriptHash(TxInToScriptHash { prev: vec![], prevout: 1, sigset: vec![] }),
            0x01,
        ),
    ];
    for (v, tag) in cases {
        let mut s = SerializerStream::new();
        v.serialize(&mut s);
        let bytes = s.into_bytes();
        assert_eq!(bytes[0], tag);
    }
}

#[test]
fn unknown_tag_is_rejected_with_the_byte() {
    let mut d = DeserializerStream::new(vec![0x7f, 0, 0, 0]);
    assert_eq!(TxIn::deserialize(&mut d), Err(Error::UnknownTag(0x7f)));
    let mut d2 = DeserializerStream::new(vec![0x03]);
    assert_eq!(TxIn::deserialize(&mut d2), Err(Error::UnknownTag(0x03)));
}

#[test]
fn truncated_input_is_rejected() {
    let mut d = DeserializerStream::new(vec![]);
    assert_eq!(TxIn::deserialize(&mut d), Err(Error::Truncated));
    let mut d2 = DeserializerStream::new(vec![0xff, 1, 2]);
    assert_eq!(TxIn::deserialize(&mut d2), Err(Error::Truncated));
}

#[test]
fn signature_sizes() {
    assert_eq!(TxIn::Gen(TxInGen { height: 3 }).signature_size(), 0);
    assert_eq!(
        TxIn::ToScript(TxInToScript { prev: vec![], prevout: 0, sigset: vec![] })
            .signature_size(),
        0
    );
    assert_eq!(
        TxIn::ToScriptHash(TxInToScriptHash { prev: vec![], prevout: 0, sigset: vec![] })
            .signature_size(),
        0
    );
    assert_eq!(
        TxIn::ToKey(TxInToKey { amount: 9, key_offsets: vec![4, 5, 6], key_image: vec![] })
            .signature_size(),
        3
    );
    assert_eq!(
        TxIn::ToKey(TxInToKey { amount: 9, key_offsets: vec![], key_image: vec![] })
            .signature_size(),
        0
    );
}

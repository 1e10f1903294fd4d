//! Transaction inputs: a closed, tag-dispatched sum type with a
//! canonical binary encoding. One discriminant byte leads, then the
//! variant's payload; the discriminants are a fixed protocol contract
//! and may never be reused once published.

use crate::codec::dec_bytes;
use crate::codec::dec_u64;
use crate::codec::dec_u64_list;
use crate::codec::dec_u8;
use crate::codec::enc_bytes;
use crate::codec::enc_u64;
use crate::codec::enc_u64_list;
use crate::codec::lemma_dec_enc_bytes;
use crate::codec::lemma_dec_enc_u64;
use crate::codec::lemma_dec_enc_u64_list;
use crate::codec::DeserializerStream;
use crate::codec::Error;
use crate::codec::SerializerStream;
use vstd::prelude::*;

verus! {

/// Discriminant of a generation input.
pub const GEN: u8 = 0xff;

/// Discriminant of a keyed input.
pub const TO_KEY: u8 = 2;

/// Discriminant of a script-reference input.
pub const TO_SCRIPT: u8 = 0;

/// Discriminant of a script-hash-reference input.
pub const TO_SCRIPT_HASH: u8 = 1;

/// Generation (coinbase) input: carries only the block height and no
/// signature material.
#[derive(Debug, Clone, PartialEq, Eq)]
pub struct TxInGen {
    pub height: u64,
}

/// Keyed input: an amount, the key offsets (one required signature
/// share per offset) and a key image.
#[derive(Debug, Clone, PartialEq, Eq)]
pub struct TxInToKey {
    pub amount: u64,
    pub key_offsets: Vec<u64>,
    pub key_image: Vec<u8>,
}

/// Script-reference input: the referenced output and a signature set
/// that the script itself interprets.
#[derive(Debug, Clone, PartialEq, Eq)]
pub struct TxInToScript {
    pub prev: Vec<u8>,
    pub prevout: u64,
    pub sigset: Vec<u8>,
}

/// Script-hash-reference input: like the script reference, but the
/// referenced output is identified by a script hash.
#[derive(Debug, Clone, PartialEq, Eq)]
pub struct TxInToScriptHash {
    pub prev: Vec<u8>,
    pub prevout: u64,
    pub sigset: Vec<u8>,
}

/// Mathematical image of a generation input.
pub struct TxInGenV {
    pub height: u64,
}

/// Mathematical image of a keyed input.
pub struct TxInToKeyV {
    pub amount: u64,
    pub key_offsets: Seq<u64>,
    pub key_image: Seq<u8>,
}

/// Mathematical image of a script-reference input.
pub struct TxInToScriptV {
    pub prev: Seq<u8>,
    pub prevout: u64,
    pub sigset: Seq<u8>,
}

/// Mathematical image of a script-hash-reference input.
pub struct TxInToScriptHashV {
    pub prev: Seq<u8>,
    pub prevout: u64,
    pub sigset: Seq<u8>,
}

/// Transaction input.
#[derive(Debug, Clone, PartialEq, Eq)]
pub enum TxIn {
    Gen(TxInGen),
    ToKey(TxInToKey),
    ToScript(TxInToScript),
    ToScriptHash(TxInToScriptHash),
}

/// Mathematical image of a transaction input.
pub enum TxInV {
    Gen(TxInGenV),
    ToKey(TxInToKeyV),
    ToScript(TxInToScriptV),
    ToScriptHash(TxInToScriptHashV),
}

impl View for TxIn {
    type V = TxInV;

    open spec fn view(&self) -> TxInV {
        match self {
            TxIn::Gen(v) => TxInV::Gen(TxInGenV { height: v.height }),
            TxIn::ToKey(v) => TxInV::ToKey(
                TxInToKeyV {
                    amount: v.amount,
                    key_offsets: v.key_offsets@,
                    key_image: v.key_image@,
                },
            ),
            TxIn::ToScript(v) => TxInV::ToScript(
                TxInToScriptV { prev: v.prev@, prevout: v.prevout, sigset: v.sigset@ },
            ),
            TxIn::ToScriptHash(v) => TxInV::ToScriptHash(
                TxInToScriptHashV { prev: v.prev@, prevout: v.prevout, sigset: v.sigset@ },
            ),
        }
    }
}

/// The number of signature shares required to authorize an input:
/// one per key offset of a keyed input, none for the others.
pub open spec fn spec_signature_size(v: TxInV) -> nat {
    match v {
        TxInV::ToKey(t) => t.key_offsets.len(),
        _ => 0,
    }
}

/// What a transaction input encodes to: its discriminant byte, then
/// its payload fields in declaration order.
pub open spec fn enc_tx_in(v: TxInV) -> Seq<u8> {
    match v {
        TxInV::Gen(t) => seq![GEN] + enc_u64(t.height),
        TxInV::ToKey(t) => seq![TO_KEY] + enc_u64(t.amount) + enc_u64_list(t.key_offsets)
            + enc_bytes(t.key_image),
        TxInV::ToScript(t) => seq![TO_SCRIPT] + enc_bytes(t.prev) + enc_u64(t.prevout)
            + enc_bytes(t.sigset),
        TxInV::ToScriptHash(t) => seq![TO_SCRIPT_HASH] + enc_bytes(t.prev) + enc_u64(t.prevout)
            + enc_bytes(t.sigset),
    }
}

/// Whether a byte is one of the registered discriminants.
pub open spec fn known_tag(t: u8) -> bool {
    t == GEN || t == TO_KEY || t == TO_SCRIPT || t == TO_SCRIPT_HASH
}

/// Reading one transaction input from the front of the input: the
/// discriminant byte dispatches to the variant's payload.
pub open spec fn dec_tx_in(s: Seq<u8>) -> Option<(TxInV, Seq<u8>)> {
    match dec_u8(s) {
        Some((tag, r)) => if tag == GEN {
            match dec_u64(r) {
                Some((height, r2)) => Some((TxInV::Gen(TxInGenV { height }), r2)),
                None => None,
            }
        } else if tag == TO_KEY {
            match dec_u64(r) {
                Some((amount, r2)) => match dec_u64_list(r2) {
                    Some((key_offsets, r3)) => match dec_bytes(r3) {
                        Some((key_image, r4)) => Some(
                            (TxInV::ToKey(TxInToKeyV { amount, key_offsets, key_image }), r4),
                        ),
                        None => None,
                    },
                    None => None,
                },
                None => None,
            }
        } else if tag == TO_SCRIPT {
            match dec_script_body(r) {
                Some(((prev, prevout, sigset), r2)) => Some(
                    (TxInV::ToScript(TxInToScriptV { prev, prevout, sigset }), r2),
                ),
                None => None,
            }
        } else if tag == TO_SCRIPT_HASH {
            match dec_script_body(r) {
                Some(((prev, prevout, sigset), r2)) => Some(
                    (TxInV::ToScriptHash(TxInToScriptHashV { prev, prevout, sigset }), r2),
                ),
                None => None,
            }
        } else {
            None
        },
        None => None,
    }
}

/// Reading the shared payload shape of the two script variants.
pub open spec fn dec_script_body(s: Seq<u8>) -> Option<((Seq<u8>, u64, Seq<u8>), Seq<u8>)> {
    match dec_bytes(s) {
        Some((prev, r)) => match dec_u64(r) {
            Some((prevout, r2)) => match dec_bytes(r2) {
                Some((sigset, r3)) => Some(((prev, prevout, sigset), r3)),
                None => None,
            },
            None => None,
        },
        None => None,
    }
}

/// Whether a value's sequences are small enough to carry a length
/// prefix; every value built from executable vectors satisfies this.
pub open spec fn wf_tx_in(v: TxInV) -> bool {
    match v {
        TxInV::Gen(_) => true,
        TxInV::ToKey(t) => t.key_offsets.len() <= u64::MAX && t.key_image.len() <= u64::MAX,
        TxInV::ToScript(t) => t.prev.len() <= u64::MAX && t.sigset.len() <= u64::MAX,
        TxInV::ToScriptHash(t) => t.prev.len() <= u64::MAX && t.sigset.len() <= u64::MAX,
    }
}

impl TxIn {
    /// The number of signature shares required to authorize this input:
    /// zero for a generation input and for both script variants, and the
    /// count of key offsets for a keyed input.
    pub fn signature_size(&self) -> (n: usize)
        ensures
            n == spec_signature_size(self@),
    {
        match *self {
            TxIn::Gen(_) => 0,
            TxIn::ToKey(ref tx) => tx.key_offsets.len(),
            TxIn::ToScript(_) => 0,
            TxIn::ToScriptHash(_) => 0,
        }
    }

    /// Appends this input's canonical encoding — one discriminant byte,
    /// then the payload — to the output stream. Never fails.
    pub fn serialize(&self, serializer: &mut SerializerStream)
        ensures
            final(serializer)@ == old(serializer)@ + enc_tx_in(self@),
    {
        match *self {
            TxIn::Gen(ref v) => {
                serializer.put_u8(GEN);
                serializer.put_u64(v.height);
                proof {
                    assert(final(serializer)@ =~= old(serializer)@ + enc_tx_in(self@));
                }
            },
            TxIn::ToKey(ref v) => {
                serializer.put_u8(TO_KEY);
                serializer.put_u64(v.amount);
                serializer.put_u64_list(&v.key_offsets);
                serializer.put_bytes(v.key_image.as_slice());
                proof {
                    assert(final(serializer)@ =~= old(serializer)@ + enc_tx_in(self@));
                }
            },
            TxIn::ToScript(ref v) => {
                serializer.put_u8(TO_SCRIPT);
                serializer.put_bytes(v.prev.as_slice());
                serializer.put_u64(v.prevout);
                serializer.put_bytes(v.sigset.as_slice());
                proof {
                    assert(final(serializer)@ =~= old(serializer)@ + enc_tx_in(self@));
                }
            },
            TxIn::ToScriptHash(ref v) => {
                serializer.put_u8(TO_SCRIPT_HASH);
                serializer.put_bytes(v.prev.as_slice());
                serializer.put_u64(v.prevout);
                serializer.put_bytes(v.sigset.as_slice());
                proof {
                    assert(final(serializer)@ =~= old(serializer)@ + enc_tx_in(self@));
                }
            },
        }
    }

    /// Reads one discriminant byte, dispatches to the matching variant's
    /// payload, and returns the reconstructed input. Fails with
    /// `Error::UnknownTag` carrying the offending byte when the
    /// discriminant matches no variant, and with `Error::Truncated` when
    /// the input ends before the payload is complete.
    pub fn deserialize(deserializer: &mut DeserializerStream) -> (r: Result<TxIn, Error>)
        ensures
            dec_tx_in(old(deserializer)@) matches Some((v, rest)) ==> {
                &&& r matches Ok(t) && t@ == v
                &&& final(deserializer)@ == rest
            },
            dec_tx_in(old(deserializer)@) is None ==> r is Err,
            old(deserializer)@.len() == 0 ==> r == Err::<TxIn, Error>(Error::Truncated),
            old(deserializer)@.len() > 0 && !known_tag(old(deserializer)@[0]) ==> r == Err::<
                TxIn,
                Error,
            >(Error::UnknownTag(old(deserializer)@[0])),
            r matches Err(e) ==> (e == Error::Truncated || (old(deserializer)@.len() > 0 && e
                == Error::UnknownTag(old(deserializer)@[0]) && !known_tag(
                old(deserializer)@[0],
            ))),
    {
        let tag = deserializer.get_u8()?;
        let target = if tag == GEN {
            let height = deserializer.get_u64()?;
            TxIn::Gen(TxInGen { height })
        } else if tag == TO_KEY {
            let amount = deserializer.get_u64()?;
            let key_offsets = deserializer.get_u64_list()?;
            let key_image = deserializer.get_bytes()?;
            TxIn::ToKey(TxInToKey { amount, key_offsets, key_image })
        } else if tag == TO_SCRIPT {
            let prev = deserializer.get_bytes()?;
            let prevout = deserializer.get_u64()?;
            let sigset = deserializer.get_bytes()?;
            TxIn::ToScript(TxInToScript { prev, prevout, sigset })
        } else if tag == TO_SCRIPT_HASH {
            let prev = deserializer.get_bytes()?;
            let prevout = deserializer.get_u64()?;
            let sigset = deserializer.get_bytes()?;
            TxIn::ToScriptHash(TxInToScriptHash { prev, prevout, sigset })
        } else {
            return Err(Error::UnknownTag(tag));
        };
        Ok(target)
    }
}

/// Round-trip law, compositional form: any well-formed input decodes
/// back from its own encoding, whatever bytes follow it.
pub proof fn lemma_round_trip_general(v: TxInV, rest: Seq<u8>)
    requires
        wf_tx_in(v),
    ensures
        dec_tx_in(enc_tx_in(v) + rest) == Some((v, rest)),
{
    match v {
        TxInV::Gen(t) => {
            assert(enc_tx_in(v) + rest =~= seq![GEN] + (enc_u64(t.height) + rest));
            assert(dec_u8(seq![GEN] + (enc_u64(t.height) + rest)) == Some(
                (GEN, enc_u64(t.height) + rest),
            )) by {
                assert((seq![GEN] + (enc_u64(t.height) + rest)).skip(1) =~= enc_u64(t.height)
                    + rest);
            }
            lemma_dec_enc_u64(t.height, rest);
        },
        TxInV::ToKey(t) => {
            let tail = enc_u64(t.amount) + enc_u64_list(t.key_offsets) + enc_bytes(t.key_image)
                + rest;
            assert(enc_tx_in(v) + rest =~= seq![TO_KEY] + tail);
            assert((seq![TO_KEY] + tail).skip(1) =~= tail);
            assert(tail =~= enc_u64(t.amount) + (enc_u64_list(t.key_offsets) + (enc_bytes(
                t.key_image,
            ) + rest)));
            lemma_dec_enc_u64(t.amount, enc_u64_list(t.key_offsets) + (enc_bytes(t.key_image)
                + rest));
            lemma_dec_enc_u64_list(t.key_offsets, enc_bytes(t.key_image) + rest);
            lemma_dec_enc_bytes(t.key_image, rest);
        },
        TxInV::ToScript(t) => {
            lemma_dec_enc_script_body(t.prev, t.prevout, t.sigset, rest);
            let tail = enc_bytes(t.prev) + enc_u64(t.prevout) + enc_bytes(t.sigset) + rest;
            assert(enc_tx_in(v) + rest =~= seq![TO_SCRIPT] + tail);
            assert((seq![TO_SCRIPT] + tail).skip(1) =~= tail);
        },
        TxInV::ToScriptHash(t) => {
            lemma_dec_enc_script_body(t.prev, t.prevout, t.sigset, rest);
            let tail = enc_bytes(t.prev) + enc_u64(t.prevout) + enc_bytes(t.sigset) + rest;
            assert(enc_tx_in(v) + rest =~= seq![TO_SCRIPT_HASH] + tail);
            assert((seq![TO_SCRIPT_HASH] + tail).skip(1) =~= tail);
        },
    }
}

/// The shared script payload decodes back from its own encoding.
proof fn lemma_dec_enc_script_body(prev: Seq<u8>, prevout: u64, sigset: Seq<u8>, rest: Seq<u8>)
    requires
        prev.len() <= u64::MAX,
        sigset.len() <= u64::MAX,
    ensures
        dec_script_body(enc_bytes(prev) + enc_u64(prevout) + enc_bytes(sigset) + rest) == Some(
            ((prev, prevout, sigset), rest),
        ),
{
    let tail = enc_bytes(prev) + enc_u64(prevout) + enc_bytes(sigset) + rest;
    assert(tail =~= enc_bytes(prev) + (enc_u64(prevout) + (enc_bytes(sigset) + rest)));
    lemma_dec_enc_bytes(prev, enc_u64(prevout) + (enc_bytes(sigset) + rest));
    lemma_dec_enc_u64(prevout, enc_bytes(sigset) + rest);
    lemma_dec_enc_bytes(sigset, rest);
}

/// Round-trip law: for every constructible input value, decoding its
/// encoding yields the value back and consumes every byte, for every
/// variant, nested and empty payloads included.
pub proof fn lemma_round_trip(v: TxInV)
    requires
        wf_tx_in(v),
    ensures
        dec_tx_in(enc_tx_in(v)) == Some((v, Seq::<u8>::empty())),
{
    lemma_round_trip_general(v, Seq::empty());
    assert(enc_tx_in(v) + Seq::<u8>::empty() =~= enc_tx_in(v));
}

/// Unknown-tag rejection: a buffer whose first byte is no registered
/// discriminant never decodes to a value.
pub proof fn lemma_unknown_tag_rejected(s: Seq<u8>)
    requires
        s.len() > 0,
        !known_tag(s[0]),
    ensures
        dec_tx_in(s) is None,
{
}

} // verus!

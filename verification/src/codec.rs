//! Canonical byte streams: an append-only output cursor and a consuming
//! input cursor, with deterministic little-endian encodings for the
//! primitive shapes (one byte, one word, a length-prefixed byte string,
//! a length-prefixed word list) that every tagged record is built from.

use vstd::bytes::lemma_auto_spec_u64_to_from_le_bytes;
use vstd::bytes::spec_u64_from_le_bytes;
use vstd::bytes::spec_u64_to_le_bytes;
use vstd::bytes::u64_from_le_bytes;
use vstd::bytes::u64_to_le_bytes;
use vstd::prelude::*;

verus! {

/// Failure while decoding canonical bytes. Never coerced to a default
/// value: an unrecognized discriminant or a short payload is a hard error.
#[derive(Debug, Clone, Copy, PartialEq, Eq, Structural)]
pub enum Error {
    /// The leading discriminant byte matches no registered variant;
    /// carries the offending byte.
    UnknownTag(u8),
    /// The input ended before the payload was complete, or a stored
    /// payload had the wrong shape.
    Truncated,
}

/// What one word encodes to: eight bytes, little-endian.
pub open spec fn enc_u64(x: u64) -> Seq<u8> {
    spec_u64_to_le_bytes(x)
}

/// What a byte string encodes to: its length as a word, then its bytes.
pub open spec fn enc_bytes(b: Seq<u8>) -> Seq<u8> {
    enc_u64(b.len() as u64) + b
}

/// The bodies of a word list, one encoded word after the other.
pub open spec fn enc_u64_seq(l: Seq<u64>) -> Seq<u8>
    decreases l.len(),
{
    if l.len() == 0 {
        Seq::empty()
    } else {
        enc_u64(l[0]) + enc_u64_seq(l.skip(1))
    }
}

/// What a word list encodes to: its count as a word, then the words.
pub open spec fn enc_u64_list(l: Seq<u64>) -> Seq<u8> {
    enc_u64(l.len() as u64) + enc_u64_seq(l)
}

/// Reading one byte from the front of the input.
pub open spec fn dec_u8(s: Seq<u8>) -> Option<(u8, Seq<u8>)> {
    if s.len() >= 1 {
        Some((s[0], s.skip(1)))
    } else {
        None
    }
}

/// Reading one little-endian word from the front of the input.
pub open spec fn dec_u64(s: Seq<u8>) -> Option<(u64, Seq<u8>)> {
    if s.len() >= 8 {
        Some((spec_u64_from_le_bytes(s.take(8)), s.skip(8)))
    } else {
        None
    }
}

/// Reading one length-prefixed byte string from the front of the input.
pub open spec fn dec_bytes(s: Seq<u8>) -> Option<(Seq<u8>, Seq<u8>)> {
    match dec_u64(s) {
        Some((n, rest)) => if n <= rest.len() {
            Some((rest.take(n as int), rest.skip(n as int)))
        } else {
            None
        },
        None => None,
    }
}

/// Reading exactly `n` words from the front of the input.
pub open spec fn dec_u64_seq(s: Seq<u8>, n: nat) -> Option<(Seq<u64>, Seq<u8>)>
    decreases n,
{
    if n == 0 {
        Some((Seq::empty(), s))
    } else {
        match dec_u64(s) {
            Some((x, rest)) => match dec_u64_seq(rest, (n - 1) as nat) {
                Some((xs, rest2)) => Some((seq![x] + xs, rest2)),
                None => None,
            },
            None => None,
        }
    }
}

/// Reading one count-prefixed word list from the front of the input.
pub open spec fn dec_u64_list(s: Seq<u8>) -> Option<(Seq<u64>, Seq<u8>)> {
    match dec_u64(s) {
        Some((n, rest)) => dec_u64_seq(rest, n as nat),
        None => None,
    }
}

/// A word decodes back from its own encoding, whatever follows it.
pub proof fn lemma_dec_enc_u64(x: u64, rest: Seq<u8>)
    ensures
        dec_u64(enc_u64(x) + rest) == Some((x, rest)),
{
    lemma_auto_spec_u64_to_from_le_bytes();
    assert((enc_u64(x) + rest).take(8) =~= enc_u64(x));
    assert((enc_u64(x) + rest).skip(8) =~= rest);
}

/// A byte string decodes back from its own encoding, whatever follows it.
pub proof fn lemma_dec_enc_bytes(b: Seq<u8>, rest: Seq<u8>)
    requires
        b.len() <= u64::MAX,
    ensures
        dec_bytes(enc_bytes(b) + rest) == Some((b, rest)),
{
    let n = b.len() as u64;
    assert(enc_bytes(b) + rest =~= enc_u64(n) + (b + rest));
    lemma_dec_enc_u64(n, b + rest);
    assert((b + rest).take(n as int) =~= b);
    assert((b + rest).skip(n as int) =~= rest);
}

/// A run of words decodes back from its own encoding, whatever follows it.
pub proof fn lemma_dec_enc_u64_seq(l: Seq<u64>, rest: Seq<u8>)
    ensures
        dec_u64_seq(enc_u64_seq(l) + rest, l.len()) == Some((l, rest)),
    decreases l.len(),
{
    if l.len() == 0 {
        assert(enc_u64_seq(l) + rest =~= rest);
    } else {
        assert(enc_u64_seq(l) + rest =~= enc_u64(l[0]) + (enc_u64_seq(l.skip(1)) + rest));
        lemma_dec_enc_u64(l[0], enc_u64_seq(l.skip(1)) + rest);
        lemma_dec_enc_u64_seq(l.skip(1), rest);
        assert(seq![l[0]] + l.skip(1) =~= l);
    }
}

/// A word list decodes back from its own encoding, whatever follows it.
pub proof fn lemma_dec_enc_u64_list(l: Seq<u64>, rest: Seq<u8>)
    requires
        l.len() <= u64::MAX,
    ensures
        dec_u64_list(enc_u64_list(l) + rest) == Some((l, rest)),
{
    let n = l.len() as u64;
    assert(enc_u64_list(l) + rest =~= enc_u64(n) + (enc_u64_seq(l) + rest));
    lemma_dec_enc_u64(n, enc_u64_seq(l) + rest);
    lemma_dec_enc_u64_seq(l, rest);
}

/// An append-only output cursor over a byte buffer. Its view is the
/// bytes written so far; every putter appends and never fails.
pub struct SerializerStream {
    buf: Vec<u8>,
}

impl View for SerializerStream {
    type V = Seq<u8>;

    closed spec fn view(&self) -> Seq<u8> {
        self.buf@
    }
}

impl SerializerStream {
    /// A fresh, empty output stream.
    pub fn new() -> (s: SerializerStream)
        ensures
            s@ == Seq::<u8>::empty(),
    {
        SerializerStream { buf: Vec::new() }
    }

    /// Appends one byte.
    pub fn put_u8(&mut self, b: u8)
        ensures
            final(self)@ == old(self)@.push(b),
    {
        self.buf.push(b);
    }

    /// Appends one word, little-endian.
    pub fn put_u64(&mut self, x: u64)
        ensures
            final(self)@ == old(self)@ + enc_u64(x),
    {
        let mut bytes = u64_to_le_bytes(x);
        self.buf.append(&mut bytes);
    }

    /// Appends a byte string behind its length.
    #[verifier::loop_isolation(false)]
    pub fn put_bytes(&mut self, data: &[u8])
        ensures
            final(self)@ == old(self)@ + enc_bytes(data@),
    {
        self.put_u64(data.len() as u64);
        let ghost mid = self@;
        let mut i: usize = 0;
        while i < data.len()
            invariant
                i <= data@.len(),
                self@ == mid + data@.take(i as int),
            decreases data@.len() - i,
        {
            self.buf.push(data[i]);
            i = i + 1;
            proof {
                assert(mid + data@.take(i - 1).push(data@[i - 1]) =~= mid + data@.take(i as int));
            }
        }
        proof {
            assert(mid + data@.take(data@.len() as int) =~= old(self)@ + enc_bytes(data@));
        }
    }

    /// Appends a word list behind its count.
    #[verifier::loop_isolation(false)]
    pub fn put_u64_list(&mut self, data: &Vec<u64>)
        ensures
            final(self)@ == old(self)@ + enc_u64_list(data@),
    {
        self.put_u64(data.len() as u64);
        let ghost mid = self@;
        let mut i: usize = 0;
        while i < data.len()
            invariant
                i <= data@.len(),
                self@ == mid + enc_u64_seq(data@.take(i as int)),
            decreases data@.len() - i,
        {
            self.put_u64(data[i]);
            i = i + 1;
            proof {
                lemma_enc_u64_seq_snoc(data@.take(i - 1), data@[i - 1]);
                assert(data@.take(i - 1).push(data@[i - 1]) =~= data@.take(i as int));
            }
        }
        proof {
            assert(data@.take(data@.len() as int) =~= data@);
            assert(mid + enc_u64_seq(data@) =~= old(self)@ + enc_u64_list(data@));
        }
    }

    /// Hands the written bytes out.
    pub fn into_bytes(self) -> (r: Vec<u8>)
        ensures
            r@ == self@,
    {
        self.buf
    }
}

/// Appending one word to a run extends its encoding at the back.
proof fn lemma_enc_u64_seq_snoc(l: Seq<u64>, x: u64)
    ensures
        enc_u64_seq(l.push(x)) == enc_u64_seq(l) + enc_u64(x),
    decreases l.len(),
{
    if l.len() == 0 {
        assert(l.push(x).skip(1) =~= Seq::<u64>::empty());
        assert(l.push(x)[0] == x);
        assert(enc_u64_seq(l.push(x)) == enc_u64(x) + enc_u64_seq(Seq::<u64>::empty()));
        assert(enc_u64(x) + Seq::<u8>::empty() =~= enc_u64(x));
        assert(Seq::<u8>::empty() + enc_u64(x) =~= enc_u64(x));
    } else {
        assert(l.push(x).skip(1) =~= l.skip(1).push(x));
        assert(l.push(x)[0] == l[0]);
        lemma_enc_u64_seq_snoc(l.skip(1), x);
        assert(enc_u64_seq(l.push(x)) == enc_u64(l[0]) + enc_u64_seq(l.skip(1).push(x)));
        assert(enc_u64_seq(l) == enc_u64(l[0]) + enc_u64_seq(l.skip(1)));
        assert(enc_u64(l[0]) + (enc_u64_seq(l.skip(1)) + enc_u64(x)) =~= (enc_u64(l[0])
            + enc_u64_seq(l.skip(1))) + enc_u64(x));
    }
}

/// A consuming input cursor over a byte buffer. Its view is the bytes
/// not yet read; every getter takes from the front or reports why not.
pub struct DeserializerStream {
    buf: Vec<u8>,
}

impl View for DeserializerStream {
    type V = Seq<u8>;

    closed spec fn view(&self) -> Seq<u8> {
        self.buf@
    }
}

impl DeserializerStream {
    /// An input stream over the given bytes.
    pub fn new(data: Vec<u8>) -> (s: DeserializerStream)
        ensures
            s@ == data@,
    {
        DeserializerStream { buf: data }
    }

    /// How many bytes are left to read.
    pub fn remaining(&self) -> (n: usize)
        ensures
            n == self@.len(),
    {
        self.buf.len()
    }

    /// Takes one byte from the front; fails on an empty input.
    pub fn get_u8(&mut self) -> (r: Result<u8, Error>)
        ensures
            match dec_u8(old(self)@) {
                Some((b, rest)) => r == Ok::<u8, Error>(b) && final(self)@ == rest,
                None => r == Err::<u8, Error>(Error::Truncated) && final(self)@ == old(self)@,
            },
    {
        if self.buf.len() >= 1 {
            let b = self.buf.remove(0);
            proof {
                assert(old(self)@.remove(0) =~= old(self)@.skip(1));
            }
            Ok(b)
        } else {
            Err(Error::Truncated)
        }
    }

    /// Takes one little-endian word from the front; fails if fewer than
    /// eight bytes are left, leaving the input as it was.
    #[verifier::loop_isolation(false)]
    pub fn get_u64(&mut self) -> (r: Result<u64, Error>)
        ensures
            match dec_u64(old(self)@) {
                Some((x, rest)) => r == Ok::<u64, Error>(x) && final(self)@ == rest,
                None => r == Err::<u64, Error>(Error::Truncated) && final(self)@ == old(self)@,
            },
    {
        if self.buf.len() < 8 {
            return Err(Error::Truncated);
        }
        let mut bytes: Vec<u8> = Vec::new();
        let mut i: usize = 0;
        while i < 8
            invariant
                i <= 8,
                old(self)@.len() >= 8,
                bytes@ == old(self)@.take(i as int),
                self@ == old(self)@.skip(i as int),
            decreases 8 - i,
        {
            let b = self.buf.remove(0);
            bytes.push(b);
            i = i + 1;
            proof {
                assert(old(self)@.skip(i - 1).remove(0) =~= old(self)@.skip(i as int));
                assert(old(self)@.take(i - 1).push(old(self)@.skip(i - 1)[0]) =~= old(self)@.take(
                    i as int,
                ));
            }
        }
        let x = u64_from_le_bytes(bytes.as_slice());
        Ok(x)
    }

    /// Takes one length-prefixed byte string from the front; fails if
    /// the input holds fewer bytes than the length announces.
    #[verifier::loop_isolation(false)]
    pub fn get_bytes(&mut self) -> (r: Result<Vec<u8>, Error>)
        ensures
            match dec_bytes(old(self)@) {
                Some((b, rest)) => {
                    &&& r matches Ok(v) && v@ == b
                    &&& final(self)@ == rest
                },
                None => r == Err::<Vec<u8>, Error>(Error::Truncated),
            },
    {
        let n = self.get_u64()?;
        let ghost mid = self@;
        if n > self.buf.len() as u64 {
            return Err(Error::Truncated);
        }
        let count = n as usize;
        let mut out: Vec<u8> = Vec::new();
        let mut i: usize = 0;
        while i < count
            invariant
                i <= count,
                count <= mid.len(),
                out@ == mid.take(i as int),
                self@ == mid.skip(i as int),
            decreases count - i,
        {
            let b = self.buf.remove(0);
            out.push(b);
            i = i + 1;
            proof {
                assert(mid.skip(i - 1).remove(0) =~= mid.skip(i as int));
                assert(mid.take(i - 1).push(mid.skip(i - 1)[0]) =~= mid.take(i as int));
            }
        }
        Ok(out)
    }

    /// Takes one count-prefixed word list from the front; fails if the
    /// input runs out before the announced count is read.
    #[verifier::loop_isolation(false)]
    pub fn get_u64_list(&mut self) -> (r: Result<Vec<u64>, Error>)
        ensures
            match dec_u64_list(old(self)@) {
                Some((l, rest)) => {
                    &&& r matches Ok(v) && v@ == l
                    &&& final(self)@ == rest
                },
                None => r == Err::<Vec<u64>, Error>(Error::Truncated),
            },
    {
        let n = self.get_u64()?;
        let ghost mid = self@;
        let mut out: Vec<u64> = Vec::new();
        let mut i: u64 = 0;
        while i < n
            invariant
                i <= n,
                dec_u64_seq(mid, n as nat) matches Some((l, rest)) ==> {
                    &&& dec_u64_seq(self@, (n - i) as nat) matches Some((l2, rest2))
                    &&& out@ + l2 == l
                    &&& rest2 == rest
                },
                dec_u64_seq(mid, n as nat) is None ==> dec_u64_seq(
                    self@,
                    (n - i) as nat,
                ) is None,
            decreases n - i,
        {
            let ghost pre = self@;
            let ghost out_pre = out@;
            let x = match self.get_u64() {
                Ok(x) => x,
                Err(_) => {
                    proof {
                        assert(dec_u64_seq(pre, (n - i) as nat) is None);
                        assert(dec_u64_seq(mid, n as nat) is None);
                        assert(dec_u64(old(self)@) == Some((n, mid)));
                        assert(dec_u64_list(old(self)@) == dec_u64_seq(mid, n as nat));
                    }
                    return Err(Error::Truncated);
                },
            };
            out.push(x);
            i = i + 1;
            proof {
                if dec_u64_seq(mid, n as nat) matches Some((l, rest)) {
                    let tail = dec_u64_seq(self@, (n - i) as nat).unwrap().0;
                    assert(dec_u64_seq(pre, (n - i + 1) as nat).unwrap().0 == seq![x] + tail);
                    assert(out_pre.push(x) + tail =~= out_pre + (seq![x] + tail));
                }
            }
        }
        proof {
            if dec_u64_seq(mid, n as nat) matches Some((l, rest)) {
                assert(out@ + Seq::<u64>::empty() =~= out@);
            }
        }
        Ok(out)
    }
}

} // verus!

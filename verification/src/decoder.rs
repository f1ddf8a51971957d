//! encoding_rs's streaming text decoders, each kept with its kind and the
//! bytes fed to it so far, so that what it returns can be stated as a
//! function of the whole stream.
use vstd::prelude::*;

verus! {

#[verifier::external_type_specification]
#[verifier::external_body]
pub struct ExDecoder(encoding_rs::Decoder);

/// The text decoders the serial stream can be decoded with.
#[derive(Debug, Clone, Copy, PartialEq, Eq, Structural)]
pub enum DecoderKind {
    Utf8,
    Gbk,
    Utf16Le,
    Utf16Be,
}

/// The text that a fresh encoding_rs decoder of `kind` (made by
/// `Encoding::new_decoder`, with BOM sniffing) has produced once `bytes` were
/// fed to it with `last == false`, with malformed sequences replaced; a
/// function of the kind and the bytes alone.
pub uninterp spec fn decoded_stream(kind: DecoderKind, bytes: Seq<u8>) -> Seq<char>;

/// What encoding_rs's `Decoder::max_utf8_buffer_length` reports for `len`
/// more bytes, for a decoder of `kind` that was fed `bytes`; a function of
/// the kind, the bytes and the length alone.
pub uninterp spec fn utf8_room(kind: DecoderKind, bytes: Seq<u8>, len: usize) -> Option<usize>;

/// An encoding_rs decoder with its kind and the bytes fed to it so far.
/// Only the functions of this module make or feed one, so `fed` is always
/// the decoder's whole input.
pub struct FedDecoder {
    dec: encoding_rs::Decoder,
    kind: DecoderKind,
    fed: Ghost<Seq<u8>>,
}

impl FedDecoder {
    /// The encoding the decoder decodes.
    pub closed spec fn kind(self) -> DecoderKind {
        self.kind
    }

    /// The bytes fed to the decoder since it was made.
    pub closed spec fn fed(self) -> Seq<u8> {
        self.fed@
    }
}

/// A fresh streaming decoder with BOM sniffing (encoding_rs
/// `Encoding::new_decoder` on `UTF_8`, `GBK`, `UTF_16LE` or `UTF_16BE`): it
/// has been fed nothing and has produced no text.
#[verifier::external_body]
pub(crate) fn new_decoder(kind: DecoderKind) -> (d: FedDecoder)
    ensures
        d.kind() == kind,
        d.fed() == Seq::<u8>::empty(),
        decoded_stream(kind, d.fed()) == Seq::<char>::empty(),
{
    let dec = match kind {
        DecoderKind::Utf8 => encoding_rs::UTF_8.new_decoder(),
        DecoderKind::Gbk => encoding_rs::GBK.new_decoder(),
        DecoderKind::Utf16Le => encoding_rs::UTF_16LE.new_decoder(),
        DecoderKind::Utf16Be => encoding_rs::UTF_16BE.new_decoder(),
    };
    FedDecoder { dec, kind, fed: Ghost(Seq::empty()) }
}

/// The worst-case UTF-8 output size for `len` more input bytes (encoding_rs
/// `Decoder::max_utf8_buffer_length`; `None` when it overflows `usize`).
/// Its source computes, for UTF-8, GBK and UTF-16 decoders in any state, at
/// most three bytes for each of `len` plus eight pending bytes, plus three,
/// with checked arithmetic: so at most `3 * len + 27`, and a value whenever
/// that does not overflow.
#[verifier::external_body]
pub(crate) fn max_utf8_buffer_length(d: &FedDecoder, len: usize) -> (r: Option<usize>)
    ensures
        r == utf8_room(d.kind(), d.fed(), len),
        r matches Some(n) ==> n <= 3 * len + 27,
        len <= (usize::MAX - 27) / 3 ==> r is Some,
{
    d.dec.max_utf8_buffer_length(len)
}

/// Decodes `src` into a new string with room for `room` bytes (encoding_rs
/// `Decoder::decode_to_string` with `last == false`, into
/// `String::with_capacity(room)`, which it never grows), and returns the text
/// and the number of bytes consumed. The decoder streams: the text produced
/// so far only grows, and a call adds what its consumed bytes add to the
/// stream's text. With room at least what `max_utf8_buffer_length` reported,
/// every byte of `src` is consumed. encoding_rs needs at least four bytes of
/// output space, and `String::with_capacity` panics beyond `isize::MAX`
/// bytes; `requires` keeps to both.
#[verifier::external_body]
pub(crate) fn decode_to_string(d: &mut FedDecoder, src: &[u8], room: usize) -> (r: (String, usize))
    requires
        4 <= room <= usize::MAX / 2,
    ensures
        decoded_chunk(*old(d), *final(d), src@, r.0@),
        r.1 == final(d).fed().len() - old(d).fed().len(),
        (utf8_room(old(d).kind(), old(d).fed(), src@.len() as usize) matches Some(n) && room >= n)
            ==> final(d).fed() == old(d).fed() + src@,
{
    let mut dst = String::with_capacity(room);
    let (_, read, _) = d.dec.decode_to_string(src, &mut dst, false);
    d.fed = Ghost(d.fed@ + src@.take(read as int));
    (dst, read)
}

/// The text added to the stream's text when the bytes fed grow from `f0` to `f1`.
pub open spec fn decoded_step(kind: DecoderKind, f0: Seq<u8>, f1: Seq<u8>) -> Seq<char> {
    decoded_stream(kind, f1).skip(decoded_stream(kind, f0).len() as int)
}

/// Feeding `bytes` took decoder `d0` to `d1` and produced `s`: some first
/// part of `bytes` was consumed, the stream's text only grew, and `s` is
/// what it grew by.
pub open spec fn decoded_chunk(d0: FedDecoder, d1: FedDecoder, bytes: Seq<u8>, s: Seq<char>) -> bool {
    let k = d0.kind();
    let f0 = d0.fed();
    let f1 = d1.fed();
    &&& d1.kind() == k
    &&& f0.len() <= f1.len() <= f0.len() + bytes.len()
    &&& f1 == f0 + bytes.take(f1.len() - f0.len())
    &&& decoded_stream(k, f0).is_prefix_of(decoded_stream(k, f1))
    &&& s == decoded_step(k, f0, f1)
}

/// Decoding in chunks gives the text that decoding everything at once gives:
/// the texts added by feeding `a` and then `b` make up the text added by
/// feeding `a + b`, given that each feeding only grew the stream's text.
pub proof fn law_decoded_chunks_concatenate(k: DecoderKind, f: Seq<u8>, a: Seq<u8>, b: Seq<u8>)
    requires
        decoded_stream(k, f).is_prefix_of(decoded_stream(k, f + a)),
        decoded_stream(k, f + a).is_prefix_of(decoded_stream(k, f + a + b)),
    ensures
        decoded_step(k, f, f + a) + decoded_step(k, f + a, f + a + b) == decoded_step(k, f, f + a + b),
{
    let t0 = decoded_stream(k, f);
    let t1 = decoded_stream(k, f + a);
    let t2 = decoded_stream(k, f + a + b);
    assert(t1.skip(t0.len() as int) + t2.skip(t1.len() as int) =~= t2.skip(t0.len() as int)) by {
        assert forall|i: int| 0 <= i < t2.len() - t0.len() implies
            (t1.skip(t0.len() as int) + t2.skip(t1.len() as int))[i] == t2.skip(t0.len() as int)[i] by {
            if i < t1.len() - t0.len() {
                assert(t1[t0.len() + i] == t2[t0.len() + i]);
            }
        }
    }
}

} // verus!

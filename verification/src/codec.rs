//! Character encodings on the serial line: decoding received bytes into text
//! and encoding text to send.
use vstd::prelude::*;
use crate::decoder::{
    DecoderKind, FedDecoder, decode_to_string, decoded_step, decoded_stream, law_decoded_chunks_concatenate,
    max_utf8_buffer_length, new_decoder,
};
use crate::text::push_str;
use crate::text::{owned, push_char, str_eq};

verus! {

broadcast use vstd::string::group_string_axioms;

/// Serial encoding mode.
#[derive(Debug, Clone, Copy, PartialEq, Eq, Structural)]
pub enum Encoding {
    Utf8,
    Gbk,
    Auto,
    Raw,
}

impl Encoding {
    /// The encoding named `s`; any name but `gbk`, `auto` and `raw` means UTF-8.
    pub fn from_str_name(s: &str) -> (e: Encoding)
        ensures
            e == encoding_named(s@),
    {
        if str_eq(s, "gbk") {
            Encoding::Gbk
        } else if str_eq(s, "auto") {
            Encoding::Auto
        } else if str_eq(s, "raw") {
            Encoding::Raw
        } else {
            Encoding::Utf8
        }
    }

    /// The name under which the encoding is configured and persisted.
    pub fn as_str_name(self) -> (s: &'static str)
        ensures
            s@ == self.spec_name(),
    {
        match self {
            Encoding::Utf8 => "utf8",
            Encoding::Gbk => "gbk",
            Encoding::Auto => "auto",
            Encoding::Raw => "raw",
        }
    }

    /// The label shown in the status bar.
    pub fn label(self) -> (s: &'static str)
        ensures
            s@ == self.spec_label(),
    {
        match self {
            Encoding::Utf8 => "UTF-8",
            Encoding::Gbk => "GBK",
            Encoding::Auto => "AUTO",
            Encoding::Raw => "HEX",
        }
    }

    pub open spec fn spec_name(self) -> Seq<char> {
        match self {
            Encoding::Utf8 => "utf8"@,
            Encoding::Gbk => "gbk"@,
            Encoding::Auto => "auto"@,
            Encoding::Raw => "raw"@,
        }
    }

    pub open spec fn spec_label(self) -> Seq<char> {
        match self {
            Encoding::Utf8 => "UTF-8"@,
            Encoding::Gbk => "GBK"@,
            Encoding::Auto => "AUTO"@,
            Encoding::Raw => "HEX"@,
        }
    }
}

/// The encoding selected by the name `s`.
pub open spec fn encoding_named(s: Seq<char>) -> Encoding {
    if s == "gbk"@ {
        Encoding::Gbk
    } else if s == "auto"@ {
        Encoding::Auto
    } else if s == "raw"@ {
        Encoding::Raw
    } else {
        Encoding::Utf8
    }
}

/// Reading back a persisted encoding name gives the same encoding.
pub proof fn law_encoding_name_round_trip(e: Encoding)
    ensures
        encoding_named(e.spec_name()) == e,
{
    reveal_strlit("utf8");
    reveal_strlit("gbk");
    reveal_strlit("auto");
    reveal_strlit("raw");
    assert("utf8"@.len() == 4);
    assert("auto"@.len() == 4);
    assert("gbk"@.len() == 3);
    assert("raw"@.len() == 3);
    assert("utf8"@[0] != "auto"@[0]);
    assert("gbk"@[0] != "raw"@[0]);
}

} // verus!

verus! {

/// Bytes buffered in detection mode before the encoding is guessed.
pub const AUTO_DETECT_BYTES: usize = 4096;

/// The name of the encoding that chardetng guesses for `bytes` taken as a
/// whole stream, with no top-level domain hint and UTF-8 allowed.
pub uninterp spec fn guessed_encoding_name(bytes: Seq<u8>) -> Seq<char>;

/// Guesses the encoding of a complete byte sample (chardetng
/// `EncodingDetector::new`, `feed(bytes, true)`, `guess(None, true)`, and
/// encoding_rs `Encoding::name` on the guess). The guess is a function of the
/// bytes and is named, not stated.
#[verifier::external_body]
fn guess_encoding_name(bytes: &[u8]) -> (name: &'static str)
    ensures
        name@ == guessed_encoding_name(bytes@),
{
    let mut det = chardetng::EncodingDetector::new();
    det.feed(bytes, true);
    det.guess(None, true).name()
}

/// The bytes that encoding_rs's GBK encoder produces for `text` (unmappable
/// characters become HTML numeric character references).
pub uninterp spec fn gbk_encoded(text: Seq<char>) -> Seq<u8>;

/// Inputs longer than this many UTF-8 bytes are not encoded as GBK.
/// encoding_rs's `encode` panics when its buffer size overflows: it sizes the
/// buffer as the next power of two of twice the input plus ten and, for
/// numeric character references (at most three and a half bytes per input
/// byte), grows it the same way, which stays below `isize::MAX` for inputs
/// up to this bound.
pub const MAX_ENCODE_BYTES: usize = usize::MAX / 64;

/// Encodes a complete text as GBK (encoding_rs `GBK.encode`). Its output for
/// ASCII-only text is the input's own bytes, as its documentation says.
#[verifier::external_body]
fn gbk_encode(text: &str) -> (out: Vec<u8>)
    requires
        vstd::utf8::encode_utf8(text@).len() <= MAX_ENCODE_BYTES,
    ensures
        out@ == gbk_encoded(text@),
        vstd::utf8::is_ascii_chars(text@) ==> out@ == vstd::utf8::encode_utf8(text@),
{
    encoding_rs::GBK.encode(text).0.into_owned()
}

/// The decoder the detector settles on for a guessed encoding name.
pub open spec fn kind_for_name(name: Seq<char>) -> DecoderKind {
    if name == "GBK"@ || name == "GB18030"@ {
        DecoderKind::Gbk
    } else if name == "UTF-16LE"@ {
        DecoderKind::Utf16Le
    } else if name == "UTF-16BE"@ {
        DecoderKind::Utf16Be
    } else {
        DecoderKind::Utf8
    }
}

/// Maps a guessed encoding name to the decoder to use: GBK (also for
/// GB18030), UTF-16LE, UTF-16BE, otherwise UTF-8.
pub fn decoder_kind_for(name: &str) -> (k: DecoderKind)
    ensures
        k == kind_for_name(name@),
{
    if str_eq(name, "GBK") || str_eq(name, "GB18030") {
        DecoderKind::Gbk
    } else if str_eq(name, "UTF-16LE") {
        DecoderKind::Utf16Le
    } else if str_eq(name, "UTF-16BE") {
        DecoderKind::Utf16Be
    } else {
        DecoderKind::Utf8
    }
}

/// Bytes handed to a decoder at once; the output room for that many always
/// fits in memory.
const DECODE_PIECE: usize = 0x10000;

/// Incremental decoding of a chunk: fed to the decoder in pieces, each with
/// the output room encoding_rs asks for, so every byte is consumed and the
/// result is what the chunk adds to the stream's text.
fn decode_stream(dec: &mut FedDecoder, bytes: &[u8]) -> (s: String)
    ensures
        final(dec).kind() == old(dec).kind(),
        final(dec).fed() == old(dec).fed() + bytes@,
        decoded_stream(old(dec).kind(), old(dec).fed()).is_prefix_of(decoded_stream(old(dec).kind(), final(dec).fed())),
        s@ == decoded_step(old(dec).kind(), old(dec).fed(), final(dec).fed()),
{
    let ghost k = dec.kind();
    let ghost f0 = dec.fed();
    let mut out = String::new();
    let mut i: usize = 0;
    proof {
        assert(f0 + bytes@.take(0) =~= f0);
        assert(decoded_step(k, f0, f0) =~= Seq::<char>::empty());
        assert(decoded_stream(k, f0).subrange(0, decoded_stream(k, f0).len() as int) =~= decoded_stream(k, f0));
    }
    while i < bytes.len()
        invariant
            0 <= i <= bytes@.len(),
            dec.kind() == k,
            dec.fed() == f0 + bytes@.take(i as int),
            decoded_stream(k, f0).is_prefix_of(decoded_stream(k, dec.fed())),
            out@ == decoded_step(k, f0, dec.fed()),
        decreases bytes@.len() - i,
    {
        let end = if bytes.len() - i > DECODE_PIECE { i + DECODE_PIECE } else { bytes.len() };
        let piece = vstd::slice::slice_subrange(bytes, i, end);
        let room = match max_utf8_buffer_length(dec, piece.len()) {
            Some(n) => if n < 4 { 4 } else { n },
            None => 4,
        };
        let ghost fi = dec.fed();
        let (text, _read) = decode_to_string(dec, piece, room);
        proof {
            let a = bytes@.take(i as int);
            let b = piece@;
            assert(fi == f0 + a);
            assert(dec.fed() == fi + b);
            assert(f0 + bytes@.take(end as int) =~= f0 + a + b);
            law_decoded_chunks_concatenate(k, f0, a, b);
            let t0 = decoded_stream(k, f0);
            let t1 = decoded_stream(k, fi);
            let t2 = decoded_stream(k, dec.fed());
            assert(t0 =~= t2.subrange(0, t0.len() as int)) by {
                assert forall|x: int| 0 <= x < t0.len() implies t0[x] == t2[x] by {
                    assert(t0[x] == t1[x]);
                    assert(t1[x] == t2[x]);
                }
            }
        }
        push_str(&mut out, text.as_str());
        i = end;
    }
    proof {
        assert(bytes@.take(bytes@.len() as int) =~= bytes@);
    }
    out
}

/// Hexadecimal view of bytes: each byte as `[XX]`.
pub open spec fn hex_view(bytes: Seq<u8>) -> Seq<char>
    decreases bytes.len(),
{
    if bytes.len() == 0 {
        Seq::empty()
    } else {
        hex_view(bytes.drop_last()) + seq!['['] + crate::text::hex2(bytes.last()) + seq![']']
    }
}

/// In the hexadecimal view, how the byte stream is cut into chunks does not
/// matter: the views of two consecutive chunks are the view of both together.
pub proof fn law_hex_chunking_is_invisible(a: Seq<u8>, b: Seq<u8>)
    ensures
        hex_view(a + b) == hex_view(a) + hex_view(b),
    decreases b.len(),
{
    if b.len() == 0 {
        assert(a + b =~= a);
        assert(hex_view(a) + hex_view(b) =~= hex_view(a));
    } else {
        law_hex_chunking_is_invisible(a, b.drop_last());
        assert((a + b).drop_last() =~= a + b.drop_last());
        assert((a + b).last() == b.last());
        assert(hex_view(a) + hex_view(b) =~= hex_view(a) + hex_view(b.drop_last())
            + seq!['['] + crate::text::hex2(b.last()) + seq![']']);
    }
}

/// Renders bytes as `[XX][YY]...` with upper-case hexadecimal digits.
pub fn hex_render(bytes: &[u8]) -> (s: String)
    ensures
        s@ == hex_view(bytes@),
{
    let mut s = String::new();
    let mut i: usize = 0;
    while i < bytes.len()
        invariant
            0 <= i <= bytes@.len(),
            s@ == hex_view(bytes@.take(i as int)),
        decreases bytes@.len() - i,
    {
        push_char(&mut s, '[');
        crate::text::push_hex2(&mut s, bytes[i]);
        push_char(&mut s, ']');
        proof {
            assert(bytes@.take(i + 1).drop_last() =~= bytes@.take(i as int));
        }
        i += 1;
    }
    proof {
        assert(bytes@.take(bytes@.len() as int) =~= bytes@);
    }
    s
}

/// Streaming decoder: handles any cut of the byte stream into chunks; a
/// character split across chunks is held inside the decoder until complete.
pub struct StreamDecoder {
    enc: Encoding,
    utf8: FedDecoder,
    gbk: FedDecoder,
    /// Detection mode: bytes buffered until the encoding is guessed.
    auto_buf: Vec<u8>,
    /// The decoder detection settled on.
    auto_dec: Option<FedDecoder>,
}

/// The decoder a text encoding uses, fed nothing yet; none for the hex view
/// and for detection, which has not settled.
pub open spec fn fresh_stream(enc: Encoding) -> Option<(DecoderKind, Seq<u8>)> {
    match enc {
        Encoding::Utf8 => Some((DecoderKind::Utf8, Seq::empty())),
        Encoding::Gbk => Some((DecoderKind::Gbk, Seq::empty())),
        _ => None,
    }
}

/// Pushing `bytes` took a decoder in use with kind `k` and input `f0` to
/// input `f1` and returned `s`: every byte was consumed, the stream's text
/// only grew, and `s` is what it grew by.
pub open spec fn pushed_text(k: DecoderKind, f0: Seq<u8>, f1: Seq<u8>, bytes: Seq<u8>, s: Seq<char>) -> bool {
    &&& f1 == f0 + bytes
    &&& decoded_stream(k, f0).is_prefix_of(decoded_stream(k, f1))
    &&& s == decoded_step(k, f0, f1)
}

/// Pushing `bytes` took decoder `d0` to `d1` and returned `s`. The encoding
/// stays. In the hex view `s` is the bytes' hexadecimal view. With a decoder
/// in use (UTF-8, GBK, or detection settled) `s` is what the bytes add to
/// the decoded text of the whole stream. In detection mode the bytes are
/// held back until enough have come; then the encoding is guessed from all
/// of them and `s` is their decoded text.
pub open spec fn pushed(d0: StreamDecoder, d1: StreamDecoder, bytes: Seq<u8>, s: Seq<char>) -> bool {
    &&& d1.encoding() == d0.encoding()
    &&& d0.encoding() == Encoding::Raw ==> s == hex_view(bytes) && d1 == d0
    &&& d0.encoding() != Encoding::Auto ==> d1.undetected() == d0.undetected() && d1.detected() == d0.detected()
    &&& d0.stream() matches Some((k, f0)) ==> (d1.stream() matches Some((k1, f1)) && k1 == k
        && pushed_text(k, f0, f1, bytes, s))
    &&& d0.encoding() == Encoding::Auto ==> (
        if d0.detected() is Some {
            d1.detected() == d0.detected() && d1.undetected().len() == 0
        } else if d0.undetected().len() + bytes.len() < AUTO_DETECT_BYTES {
            s.len() == 0 && d1.detected() is None && d1.undetected() == d0.undetected() + bytes
        } else {
            let all = d0.undetected() + bytes;
            let k = kind_for_name(guessed_encoding_name(all));
            &&& d1.detected() == Some(k)
            &&& d1.undetected().len() == 0
            &&& d1.stream() matches Some((k1, f1))
            &&& k1 == k
            &&& pushed_text(k, Seq::empty(), f1, all, s)
            &&& s == decoded_stream(k, f1)
        })
}

/// In the hex view and with a decoder in use (UTF-8, GBK, or detection
/// settled), how the byte stream is cut into chunks does not matter: the
/// texts of two pushes make up the text of one push of both chunks, which
/// leaves the decoder in the same state. A character split across the
/// chunks comes out once, intact.
pub proof fn law_decoded_chunking_is_invisible(
    d0: StreamDecoder, d1: StreamDecoder, d2: StreamDecoder, d3: StreamDecoder,
    a: Seq<u8>, b: Seq<u8>, s1: Seq<char>, s2: Seq<char>, s: Seq<char>,
)
    requires
        d0.stream() is Some || d0.encoding() == Encoding::Raw,
        pushed(d0, d1, a, s1),
        pushed(d1, d2, b, s2),
        pushed(d0, d3, a + b, s),
    ensures
        s1 + s2 == s,
        d2.stream() == d3.stream(),
{
    if d0.encoding() == Encoding::Raw {
        law_hex_chunking_is_invisible(a, b);
    } else {
        let (k, f0) = d0.stream()->0;
        assert(f0 + (a + b) =~= f0 + a + b);
        law_decoded_chunks_concatenate(k, f0, a, b);
    }
}

impl StreamDecoder {
    /// Each text decoder is of its kind, and detection has settled exactly
    /// when a detected decoder is held, and then nothing waits in the
    /// detection buffer.
    pub closed spec fn wf(self) -> bool {
        &&& self.auto_buf@.len() < AUTO_DETECT_BYTES
        &&& self.utf8.kind() == DecoderKind::Utf8
        &&& self.gbk.kind() == DecoderKind::Gbk
        &&& (self.auto_dec is Some ==> self.auto_buf@.len() == 0)
    }

    pub closed spec fn encoding(self) -> Encoding {
        self.enc
    }

    /// Bytes waiting for encoding detection.
    pub closed spec fn undetected(self) -> Seq<u8> {
        self.auto_buf@
    }

    /// The decoder detection settled on, once it has.
    pub closed spec fn detected(self) -> Option<DecoderKind> {
        match self.auto_dec {
            Some(d) => Some(d.kind()),
            None => None,
        }
    }

    /// The decoder in use, as its kind and the bytes fed to it: UTF-8 or
    /// GBK in those encodings, the detected one once detection settled, none
    /// otherwise.
    pub closed spec fn stream(self) -> Option<(DecoderKind, Seq<u8>)> {
        match self.enc {
            Encoding::Utf8 => Some((DecoderKind::Utf8, self.utf8.fed())),
            Encoding::Gbk => Some((DecoderKind::Gbk, self.gbk.fed())),
            Encoding::Auto => match self.auto_dec {
                Some(d) => Some((d.kind(), d.fed())),
                None => None,
            },
            Encoding::Raw => None,
        }
    }

    pub fn new(enc: Encoding) -> (d: Self)
        ensures
            d.wf(),
            d.encoding() == enc,
            d.undetected() == Seq::<u8>::empty(),
            d.detected() is None,
            d.stream() == fresh_stream(enc),
    {
        StreamDecoder {
            enc,
            utf8: new_decoder(DecoderKind::Utf8),
            gbk: new_decoder(DecoderKind::Gbk),
            auto_buf: Vec::new(),
            auto_dec: None,
        }
    }

    /// Feeds a chunk of serial bytes; returns the text that is now complete.
    /// In the hex view that is the bytes' hexadecimal view. With a decoder in
    /// use it is what the chunk adds to the decoded text of the whole stream.
    /// In detection mode bytes are held back until enough have come; then the
    /// encoding is guessed from all of them and their decoded text returned.
    pub fn push(&mut self, bytes: &[u8]) -> (s: String)
        requires
            old(self).wf(),
        ensures
            final(self).wf(),
            pushed(*old(self), *final(self), bytes@, s@),
    {
        match self.enc {
            Encoding::Raw => hex_render(bytes),
            Encoding::Utf8 => decode_stream(&mut self.utf8, bytes),
            Encoding::Gbk => decode_stream(&mut self.gbk, bytes),
            Encoding::Auto => self.push_auto(bytes),
        }
    }

    fn push_auto(&mut self, bytes: &[u8]) -> (s: String)
        requires
            old(self).enc == Encoding::Auto,
            old(self).wf(),
        ensures
            final(self).wf(),
            final(self).enc == Encoding::Auto,
            final(self).utf8 == old(self).utf8,
            final(self).gbk == old(self).gbk,
            match old(self).auto_dec {
                Some(d0) => final(self).auto_buf@.len() == 0 && (final(self).auto_dec matches Some(d1)
                    && d1.kind() == d0.kind() && pushed_text(d0.kind(), d0.fed(), d1.fed(), bytes@, s@)),
                None => if old(self).auto_buf@.len() + bytes@.len() < AUTO_DETECT_BYTES {
                    s@.len() == 0 && final(self).auto_dec is None
                        && final(self).auto_buf@ == old(self).auto_buf@ + bytes@
                } else {
                    let all = old(self).auto_buf@ + bytes@;
                    &&& final(self).auto_buf@.len() == 0
                    &&& final(self).auto_dec matches Some(d1)
                    &&& d1.kind() == kind_for_name(guessed_encoding_name(all))
                    &&& pushed_text(d1.kind(), Seq::empty(), d1.fed(), all, s@)
                    &&& s@ == decoded_stream(d1.kind(), d1.fed())
                },
            },
    {
        match &mut self.auto_dec {
            Some(dec) => {
                return decode_stream(dec, bytes);
            },
            None => {},
        }
        if bytes.len() < AUTO_DETECT_BYTES - self.auto_buf.len() {
            let mut i: usize = 0;
            let ghost b0 = self.auto_buf@;
            let mut buf: Vec<u8> = Vec::new();
            std::mem::swap(&mut buf, &mut self.auto_buf);
            while i < bytes.len()
                invariant
                    0 <= i <= bytes@.len(),
                    buf@ == b0 + bytes@.take(i as int),
                    b0.len() + bytes@.len() < AUTO_DETECT_BYTES,
                decreases bytes@.len() - i,
            {
                buf.push(bytes[i]);
                proof {
                    assert(bytes@.take(i + 1) =~= bytes@.take(i as int).push(bytes@[i as int]));
                }
                i += 1;
            }
            proof {
                assert(bytes@.take(bytes@.len() as int) =~= bytes@);
            }
            self.auto_buf = buf;
            String::new()
        } else {
            let mut all: Vec<u8> = Vec::new();
            std::mem::swap(&mut all, &mut self.auto_buf);
            let ghost b0 = all@;
            let mut i: usize = 0;
            while i < bytes.len()
                invariant
                    0 <= i <= bytes@.len(),
                    all@ == b0 + bytes@.take(i as int),
                decreases bytes@.len() - i,
            {
                all.push(bytes[i]);
                proof {
                    assert(bytes@.take(i + 1) =~= bytes@.take(i as int).push(bytes@[i as int]));
                }
                i += 1;
            }
            proof {
                assert(bytes@.take(bytes@.len() as int) =~= bytes@);
            }
            let name = guess_encoding_name(all.as_slice());
            let kind = decoder_kind_for(name);
            let mut dec = new_decoder(kind);
            let out = decode_stream(&mut dec, all.as_slice());
            proof {
                assert(decoded_stream(kind, dec.fed()).skip(0) =~= decoded_stream(kind, dec.fed()));
            }
            self.auto_dec = Some(dec);
            out
        }
    }
}

/// Sending-side encoder: text to the bytes the device expects.
pub struct StreamEncoder {
    enc: Encoding,
}

impl StreamEncoder {
    pub closed spec fn encoding(self) -> Encoding {
        self.enc
    }

    pub fn new(enc: Encoding) -> (e: Self)
        ensures
            e.encoding() == enc,
    {
        Self { enc }
    }

    /// Whether the encoder encodes to GBK.
    pub(crate) fn is_gbk(&self) -> (r: bool)
        ensures
            r == (self.encoding() == Encoding::Gbk),
    {
        self.enc == Encoding::Gbk
    }

    /// GBK mode encodes to GBK; every other mode sends the text's UTF-8 bytes.
    /// ASCII text is sent as its own bytes in every mode.
    pub fn encode(&mut self, text: &str) -> (out: Vec<u8>)
        requires
            old(self).encoding() == Encoding::Gbk ==> vstd::utf8::encode_utf8(text@).len() <= MAX_ENCODE_BYTES,
        ensures
            *final(self) == *old(self),
            out@ == if old(self).encoding() == Encoding::Gbk {
                gbk_encoded(text@)
            } else {
                vstd::utf8::encode_utf8(text@)
            },
            vstd::utf8::is_ascii_chars(text@) ==> out@ == vstd::utf8::encode_utf8(text@),
    {
        match self.enc {
            Encoding::Gbk => gbk_encode(text),
            _ => crate::text::bytes_of(text),
        }
    }
}

} // verus!

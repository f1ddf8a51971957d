use serial_term::codec::{Encoding, StreamDecoder, StreamEncoder};

#[test]
fn gbk_split_chunk() {
    let mut dec = StreamDecoder::new(Encoding::Gbk);
    let first = dec.push(&[0xC4]);
    let second = dec.push(&[0xE3]);
    assert_eq!(first + &second, "你");
}

#[test]
fn utf8_split_4byte() {
    let mut dec = StreamDecoder::new(Encoding::Utf8);
    let mut out = String::new();
    for b in [0xF0u8, 0x9F, 0x99, 0x82] {
        out.push_str(&dec.push(&[b]));
    }
    assert_eq!(out, "🙂");
}

#[test]
fn gbk_encode() {
    let mut enc = StreamEncoder::new(Encoding::Gbk);
    assert_eq!(enc.encode("你"), vec![0xC4, 0xE3]);
}

#[test]
fn auto_detect_gbk() {
    let mut dec = StreamDecoder::new(Encoding::Auto);
    let mut bytes = Vec::new();
    let text = "你好，串口终端。";
    let encoded = encoding_rs::GBK.encode(text).0.into_owned();
    while bytes.len() < 4096 {
        bytes.extend_from_slice(&encoded);
    }
    let out = dec.push(&bytes);
    assert!(!out.is_empty());
    assert!(out.contains("你好"));
}

#[test]
fn encoding_names_round_trip() {
    for e in [Encoding::Utf8, Encoding::Gbk, Encoding::Auto, Encoding::Raw] {
        assert_eq!(Encoding::from_str_name(e.as_str_name()), e);
    }
    assert_eq!(Encoding::from_str_name("nonsense"), Encoding::Utf8);
    assert_eq!(Encoding::Raw.label(), "HEX");
    assert_eq!(Encoding::Gbk.label(), "GBK");
}

#[test]
fn hex_view_renders_each_byte_in_brackets() {
    let mut dec = StreamDecoder::new(Encoding::Raw);
    assert_eq!(dec.push(&[0x41, 0x0A, 0xFF]), "[41][0A][FF]");
}

#[test]
fn utf8_encoder_sends_utf8_bytes() {
    let mut enc = StreamEncoder::new(Encoding::Utf8);
    assert_eq!(enc.encode("你"), vec![0xE4, 0xBD, 0xA0]);
    let mut raw = StreamEncoder::new(Encoding::Raw);
    assert_eq!(raw.encode("AB"), vec![0x41, 0x42]);
}

#[test]
fn auto_waits_for_enough_bytes_before_guessing() {
    let mut dec = StreamDecoder::new(Encoding::Auto);
    assert_eq!(dec.push(b"hello"), "");
}

#[test]
fn hex_view_ignores_chunk_boundaries() {
    let mut whole = StreamDecoder::new(Encoding::Raw);
    let mut split = StreamDecoder::new(Encoding::Raw);
    let all = whole.push(&[0x01, 0xAB, 0x7F, 0x30]);
    let first = split.push(&[0x01, 0xAB]);
    let second = split.push(&[0x7F, 0x30]);
    assert_eq!(first + &second, all);
}

#[test]
fn ascii_text_is_sent_as_is_in_every_mode() {
    for e in [Encoding::Utf8, Encoding::Gbk, Encoding::Auto, Encoding::Raw] {
        let mut enc = StreamEncoder::new(e);
        assert_eq!(enc.encode("AT+RST\r\n"), b"AT+RST\r\n".to_vec());
    }
}

#[test]
fn decoded_text_ignores_chunk_boundaries() {
    let text = "串口 serial 终端🙂";
    for (e, bytes) in [
        (Encoding::Utf8, text.as_bytes().to_vec()),
        (Encoding::Gbk, encoding_rs::GBK.encode("串口 serial 终端").0.into_owned()),
    ] {
        let mut whole = StreamDecoder::new(e);
        let all = whole.push(&bytes);
        for cut in 0..=bytes.len() {
            let mut split = StreamDecoder::new(e);
            let first = split.push(&bytes[..cut]);
            let second = split.push(&bytes[cut..]);
            assert_eq!(first + &second, all);
        }
    }
}

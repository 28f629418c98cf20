use baichuan::body::{bc_legacy_login_msg, BodyFrame, LegacyMsg, ModernFrame};
use baichuan::error::{Error, Parsed};
use baichuan::header::{bc_header, has_payload_offset, Header, MAGIC_HEADER};
use baichuan::message::{bc_msg, modern_msg, payload_of, Decoder, Frame, Payload};

fn header_bytes(
    msg_id: u32,
    body_len: u32,
    enc_offset: u32,
    response_code: u8,
    class: u16,
    payload_offset: Option<u32>,
) -> Vec<u8> {
    let mut v = Vec::new();
    v.extend_from_slice(&MAGIC_HEADER.to_le_bytes());
    v.extend_from_slice(&msg_id.to_le_bytes());
    v.extend_from_slice(&body_len.to_le_bytes());
    v.extend_from_slice(&enc_offset.to_le_bytes());
    v.push(response_code);
    v.push(0);
    v.extend_from_slice(&class.to_le_bytes());
    if let Some(off) = payload_offset {
        v.extend_from_slice(&off.to_le_bytes());
    }
    v
}

// A stand-in for the device's obfuscation: symmetric and keyed by the offset.
fn obfuscate(offset: u32, bytes: &[u8]) -> Vec<u8> {
    bytes
        .iter()
        .enumerate()
        .map(|(i, b)| b ^ (offset.wrapping_add(i as u32) as u8) ^ 0x5a)
        .collect()
}

// A stand-in for the XML codec: accepts text that starts with '<' and returns it.
fn parse_doc(bytes: &[u8]) -> Option<String> {
    match std::str::from_utf8(bytes) {
        Ok(t) if t.starts_with('<') => Some(t.to_string()),
        _ => None,
    }
}

fn decode_all(bytes: &[u8], chunk: usize) -> Parsed<Frame> {
    let mut d = Decoder::new();
    let mut pos = 0;
    loop {
        match d.step() {
            Parsed::Incomplete(n) => {
                let take = n.min(chunk).min(bytes.len() - pos);
                if let Err(e) = d.feed(&bytes[pos..pos + take]) {
                    return Parsed::Failed(e);
                }
                pos += take;
            }
            other => return other,
        }
    }
}

fn modern_segments(p: Parsed<Frame>) -> (Header, ModernFrame, usize) {
    match p {
        Parsed::Done(Frame { header, body: BodyFrame::Modern(m) }, n) => (header, m, n),
        other => panic!("not a modern frame: {:?}", other),
    }
}

#[test]
fn test_bc_modern_login() {
    let plain = format!(
        "<?xml version=\"1.0\" encoding=\"UTF-8\" ?><body><Encryption version=\"1.1\"><type>md5</type><nonce>{}</nonce></Encryption></body>",
        "9E6D1FCB9E69846D"
    );
    let mut plain = plain.into_bytes();
    plain.resize(145, b' ');
    let mut sample = header_bytes(1, 145, 0x1000000, 1, 0x6614, None);
    sample.extend_from_slice(&obfuscate(0x1000000, &plain));

    let (header, n) = match bc_header(&sample) {
        Parsed::Done(h, n) => (h, n),
        other => panic!("{:?}", other),
    };
    assert_eq!(n, 20);
    assert_eq!(header.msg_id, 1);
    assert_eq!(header.body_len, 145);
    assert_eq!(header.enc_offset, 0x1000000);
    assert_eq!(header.encrypted, true);
    assert_eq!(header.class, 0x6614);
    let (_, frame, used) = modern_segments(bc_msg(&sample));
    assert_eq!(used, 165);
    assert!(header.is_encrypted());
    let xml = obfuscate(header.enc_offset, &frame.xml);
    let payload = obfuscate(header.enc_offset, &frame.payload);
    let doc = parse_doc(&xml);
    let msg = modern_msg(&xml, doc, payload, None).unwrap();
    assert!(msg.payload.is_none());
    let text = msg.xml.unwrap();
    let start = text.find("<nonce>").unwrap() + "<nonce>".len();
    let end = text.find("</nonce>").unwrap();
    assert_eq!(&text[start..end], "9E6D1FCB9E69846D");
}

#[test]
fn test_bc_legacy_login() {
    let mut sample = header_bytes(1, 1836, 0x1000000, 1, 0x6514, None);
    sample.extend_from_slice(b"21232F297A57A5A743894A0E4A801FC\0");
    sample.extend_from_slice(&[0u8; 32]);
    sample.extend_from_slice(&vec![7u8; 1836 - 64]);

    match bc_msg(&sample) {
        Parsed::Done(Frame { header, body: BodyFrame::Legacy(LegacyMsg::LoginMsg { username, password }) }, n) => {
            assert_eq!(n, 84);
            assert_eq!(header.msg_id, 1);
            assert_eq!(header.body_len, 1836);
            assert_eq!(header.enc_offset, 0x1000000);
            assert_eq!(header.encrypted, true);
            assert_eq!(header.class, 0x6514);
            assert_eq!(header.payload_offset, None);
            assert_eq!(username, "21232F297A57A5A743894A0E4A801FC\0");
            assert_eq!(password, "\0".repeat(32));
        }
        other => panic!("{:?}", other),
    }
}

#[test]
fn test_bc_modern_login_failed() {
    for rc in [0u8, 1u8] {
        let sample = header_bytes(1, 0, 0, rc, 0x0000, Some(0));
        let (header, frame, used) = modern_segments(bc_msg(&sample));
        assert_eq!(used, 24);
        assert_eq!(header.msg_id, 1);
        assert_eq!(header.body_len, 0);
        assert_eq!(header.enc_offset, 0x0);
        assert_eq!(header.encrypted, rc != 0);
        assert_eq!(header.class, 0x0000);
        let msg = modern_msg::<String>(&frame.xml, None, frame.payload, None).unwrap();
        assert!(msg.xml.is_none());
        assert!(msg.payload.is_none());
    }
}

#[test]
fn test_bc_modern_login_success() {
    let mut plain = b"<body><DeviceInfo/></body>".to_vec();
    plain.resize(2949, b' ');
    let mut sample = header_bytes(1, 2949, 0, 0, 0x0000, Some(2949));
    sample.extend_from_slice(&plain);
    let (header, frame, _) = modern_segments(bc_msg(&sample));
    assert_eq!(header.msg_id, 1);
    assert_eq!(header.body_len, 2949);
    assert_eq!(header.enc_offset, 0x0);
    assert_eq!(header.encrypted, false);
    assert_eq!(header.class, 0x0000);
    assert_eq!(frame.xml.len(), 2949);
    assert!(frame.payload.is_empty());
    let doc = parse_doc(&frame.xml);
    let msg = modern_msg(&frame.xml, doc, frame.payload, None).unwrap();
    assert!(msg.xml.is_some());
    assert!(msg.payload.is_none());
}

#[test]
fn test_bc_binary_mode() {
    for (len, chunk) in [(32usize, 5usize), (30344, 4096)] {
        let raw: Vec<u8> = (0..len).map(|i| (i * 7 + 3) as u8 | 0x80).collect();
        let mut sample = header_bytes(3, len as u32, 9, 1, 0x0000, Some(0));
        sample.extend_from_slice(&raw);
        let (header, frame, used) = modern_segments(decode_all(&sample, chunk));
        assert_eq!(used, 24 + len);
        let xml = obfuscate(header.enc_offset, &frame.xml);
        let payload = obfuscate(header.enc_offset, &frame.payload);
        let doc = parse_doc(&payload);
        let msg = modern_msg(&xml, None, payload.clone(), doc).unwrap();
        assert!(msg.xml.is_none());
        match msg.payload {
            Some(Payload::Binary(bin)) => {
                assert_eq!(bin.len(), len);
                assert_eq!(bin, payload);
            }
            other => panic!("{:?}", other),
        }
    }
}

#[test]
fn bad_magic_is_an_error_at_every_length() {
    let mut good = header_bytes(1, 0, 0, 0, 0x6614, None);
    good[0] ^= 0xff;
    for len in 4..=good.len() {
        assert_eq!(bc_msg(&good[..len]), Parsed::Failed(Error::BadMagic));
    }
    assert_eq!(bc_msg(&[0, 0, 0, 0]), Parsed::Failed(Error::BadMagic));
}

#[test]
fn short_buffer_asks_for_the_rest_of_the_header() {
    let good = header_bytes(1, 0, 0, 0, 0x6614, None);
    for len in 0..20 {
        assert_eq!(bc_msg(&good[..len]), Parsed::Incomplete(20 - len));
    }
    let ext = header_bytes(1, 0, 0, 0, 0x6414, Some(0));
    for len in 20..24 {
        assert_eq!(bc_header(&ext[..len]), Parsed::Incomplete(24 - len));
    }
}

#[test]
fn payload_offset_classes_form_a_table() {
    assert!(has_payload_offset(0x0000));
    assert!(has_payload_offset(0x6414));
    assert!(!has_payload_offset(0x6514));
    assert!(!has_payload_offset(0x6614));
}

#[test]
fn segments_split_at_the_payload_offset_and_round_trip() {
    let body: Vec<u8> = (0u8..25).collect();
    let mut sample = header_bytes(7, 25, 0, 0, 0x6414, Some(10));
    sample.extend_from_slice(&body);
    sample.extend_from_slice(&[0xee; 3]);
    let (header, frame, used) = modern_segments(bc_msg(&sample));
    assert_eq!(header.payload_offset, Some(10));
    assert_eq!(used, 49);
    assert_eq!(frame.xml, body[..10].to_vec());
    assert_eq!(frame.payload, body[10..].to_vec());
    let mut joined = sample[..24].to_vec();
    joined.extend_from_slice(&frame.xml);
    joined.extend_from_slice(&frame.payload);
    assert_eq!(joined, sample[..used].to_vec());
}

#[test]
fn legacy_login_keeps_padding() {
    let mut body = b"admin".to_vec();
    body.resize(32, 0);
    body.extend_from_slice(b"pass\0\0\0\0word");
    body.resize(64, b' ');
    match bc_legacy_login_msg(&body) {
        Parsed::Done(LegacyMsg::LoginMsg { username, password }, 64) => {
            assert_eq!(username.as_bytes(), &body[..32]);
            assert_eq!(password.as_bytes(), &body[32..]);
            assert_eq!(username.len(), 32);
        }
        other => panic!("{:?}", other),
    }
}

#[test]
fn legacy_login_decodes_utf8_text() {
    let mut body = "é".repeat(16).into_bytes();
    body.extend_from_slice(&[b'x'; 32]);
    match bc_legacy_login_msg(&body) {
        Parsed::Done(LegacyMsg::LoginMsg { username, password }, 64) => {
            assert_eq!(username, "é".repeat(16));
            assert_eq!(username.chars().count(), 16);
            assert_eq!(password, "x".repeat(32));
        }
        other => panic!("{:?}", other),
    }
}

#[test]
fn legacy_login_rejects_invalid_text() {
    let mut body = vec![0xffu8; 32];
    assert_eq!(bc_legacy_login_msg(&body), Parsed::Failed(Error::BadText));
    body = vec![b'a'; 32];
    assert_eq!(bc_legacy_login_msg(&body), Parsed::Incomplete(32));
    body.extend_from_slice(&[0xc3u8; 32]);
    assert_eq!(bc_legacy_login_msg(&body), Parsed::Failed(Error::BadText));
    assert_eq!(bc_legacy_login_msg(&body[..10]), Parsed::Incomplete(22));
}

#[test]
fn unknown_legacy_message_takes_no_body() {
    let mut sample = header_bytes(42, 100, 0, 0, 0x6514, None);
    sample.extend_from_slice(&[1u8; 5]);
    assert!(matches!(
        bc_msg(&sample),
        Parsed::Done(Frame { body: BodyFrame::Legacy(LegacyMsg::UnknownMsg), .. }, 20)
    ));
}

#[test]
fn payload_offset_past_body_underflows() {
    let sample = header_bytes(1, 10, 0, 0, 0x0000, Some(11));
    assert_eq!(bc_msg(&sample), Parsed::Failed(Error::LengthUnderflow));
}

#[test]
fn short_body_asks_for_the_rest() {
    let mut sample = header_bytes(1, 50, 0, 0, 0x0000, Some(20));
    sample.extend_from_slice(&[b'<'; 30]);
    assert_eq!(bc_msg(&sample), Parsed::Incomplete(20));
}

#[test]
fn unparsable_xml_segment_is_an_error() {
    let r = modern_msg::<String>(b"not xml", None, Vec::new(), None);
    assert_eq!(r.unwrap_err(), Error::BadXml);
}

#[test]
fn xml_payload_is_kept_as_document() {
    let p = payload_of(b"<x/>".to_vec(), parse_doc(b"<x/>"));
    assert_eq!(p, Payload::BcXml("<x/>".to_string()));
    let msg = modern_msg(b"<a/>", Some("a".to_string()), b"<x/>".to_vec(), Some("x".to_string())).unwrap();
    assert_eq!(msg.xml, Some("a".to_string()));
    assert_eq!(msg.payload, Some(Payload::BcXml("x".to_string())));
}

#[test]
fn end_of_stream_is_an_error() {
    let mut d = Decoder::new();
    assert_eq!(d.feed(&[]), Err(Error::UnexpectedEof));
    assert_eq!(d.step(), Parsed::Incomplete(20));
    assert_eq!(d.feed(&MAGIC_HEADER.to_le_bytes()), Ok(()));
    assert_eq!(d.step(), Parsed::Incomplete(16));
}

#[test]
fn decoding_twice_gives_equal_messages() {
    let mut sample = header_bytes(5, 12, 3, 1, 0x0000, Some(4));
    sample.extend_from_slice(b"<ab>12345678");
    let a = decode_all(&sample, 3);
    let b = decode_all(&sample, 100);
    assert_eq!(a, b);
    assert!(matches!(a, Parsed::Done(_, 36)));
}

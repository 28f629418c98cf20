use vstd::prelude::*;
use crate::error::{Error, Parsed};
use crate::body::{spec_body, spec_legacy_login, ModernFrameModel, MSG_ID_LOGIN};
use crate::header::{
    class_of, extended_class, header_of, le_u32, spec_header, Header, MAGIC_HEADER,
};
use crate::message::{spec_msg, Decoder, FrameModel};

verus! {

/// The frame that `s` decodes to, when it decodes to one.
pub open spec fn frame_of(s: Seq<u8>) -> FrameModel {
    spec_msg(s)->Done_0
}

/// The segments of the modern body that `s` decodes to, when it decodes to one.
pub open spec fn segments_of(s: Seq<u8>) -> ModernFrameModel {
    frame_of(s).body->Modern_0
}

/// A buffer that decodes to a message with a modern body.
pub open spec fn decodes_modern(s: Seq<u8>) -> bool {
    spec_msg(s) is Done && frame_of(s).body is Modern
}

/// A buffer of at least four bytes that does not start with the magic number is a
/// hard error, never a request for more bytes.
pub proof fn lemma_bad_magic_fails(s: Seq<u8>)
    requires
        s.len() >= 4,
        le_u32(s, 0) != MAGIC_HEADER,
    ensures
        spec_msg(s) == Parsed::<FrameModel>::Failed(Error::BadMagic),
{
}

/// A buffer shorter than the fixed header, whose magic number is not yet known to
/// be wrong, asks for exactly the bytes that the fixed header lacks.
pub proof fn lemma_short_buffer_incomplete(s: Seq<u8>)
    requires
        s.len() < 20,
        s.len() < 4 || le_u32(s, 0) == MAGIC_HEADER,
    ensures
        spec_msg(s) == Parsed::<FrameModel>::Incomplete((20 - s.len()) as usize),
{
}

/// A modern message whose payload segment is empty and XML segment is not has an
/// XML segment as long as the whole body.
pub proof fn lemma_xml_only_body(s: Seq<u8>)
    requires
        decodes_modern(s),
        segments_of(s).payload.len() == 0,
    ensures
        segments_of(s).xml.len() == frame_of(s).header.body_len,
{
}

/// A modern message with an empty body has two empty segments, whether or not it
/// is marked encrypted.
pub proof fn lemma_empty_body(s: Seq<u8>)
    requires
        decodes_modern(s),
        frame_of(s).header.body_len == 0,
    ensures
        segments_of(s).xml.len() == 0,
        segments_of(s).payload.len() == 0,
{
}

/// In a message whose class carries a payload offset `p` below the body length, the
/// XML segment is `p` bytes and the payload segment the rest of the body; the header
/// bytes and the two segments, laid end to end, are exactly the bytes taken.
pub proof fn lemma_segments_round_trip(s: Seq<u8>)
    requires
        s.len() <= usize::MAX,
        decodes_modern(s),
        extended_class(frame_of(s).header.class),
        frame_of(s).header.payload_offset->Some_0 < frame_of(s).header.body_len,
    ensures
        segments_of(s).xml.len() == frame_of(s).header.payload_offset->Some_0,
        segments_of(s).payload.len() == frame_of(s).header.body_len - frame_of(
            s,
        ).header.payload_offset->Some_0,
        s.subrange(0, 24) + segments_of(s).xml + segments_of(s).payload == s.subrange(
            0,
            spec_msg(s)->Done_1 as int,
        ),
{
    let h = frame_of(s).header;
    let rest = s.subrange(24, s.len() as int);
    let p = h.payload_offset->Some_0 as int;
    let b = h.body_len as int;
    assert(spec_header(s) == Parsed::Done(h, 24usize));
    assert(spec_body(h, rest) == Parsed::Done(frame_of(s).body, h.body_len as usize));
    assert(rest.len() >= b);
    assert(spec_msg(s)->Done_1 == 24 + b);
    assert(segments_of(s).xml == rest.subrange(0, p));
    assert(segments_of(s).payload == rest.subrange(p, b));
    assert(s.subrange(0, 24) + rest.subrange(0, p) + rest.subrange(p, b) =~= s.subrange(
        0,
        24 + b,
    ));
}

/// Two decoders that hold the same bytes decode them to the same result: decoding
/// depends on the bytes alone, not on how they arrived.
pub proof fn lemma_decoding_deterministic(a: Decoder, b: Decoder)
    requires
        a.buffered() == b.buffered(),
    ensures
        spec_msg(a.buffered()) == spec_msg(b.buffered()),
{
}

/// A request for more bytes always asks for at least one, so feeding what it asks
/// for makes progress.
pub proof fn lemma_deficit_positive(s: Seq<u8>)
    requires
        spec_msg(s) is Incomplete,
    ensures
        spec_msg(s)->Incomplete_0 > 0,
{
    match spec_header(s) {
        Parsed::Done(h, n) => {
            let rest = s.subrange(n as int, s.len() as int);
            if h.spec_is_modern() {
            } else if h.msg_id == MSG_ID_LOGIN {
                assert(spec_legacy_login(rest) is Incomplete);
            }
        },
        _ => {},
    }
}

proof fn lemma_le_prefix(s: Seq<u8>, t: Seq<u8>, i: int)
    requires
        0 <= i,
        i + 4 <= s.len(),
    ensures
        le_u32(s + t, i) == le_u32(s, i),
{
    assert((s + t)[i] == s[i]);
    assert((s + t)[i + 1] == s[i + 1]);
    assert((s + t)[i + 2] == s[i + 2]);
    assert((s + t)[i + 3] == s[i + 3]);
}

proof fn lemma_header_stable(s: Seq<u8>, t: Seq<u8>)
    requires
        !(spec_header(s) is Incomplete),
    ensures
        spec_header(s + t) == spec_header(s),
{
    lemma_le_prefix(s, t, 0);
    if le_u32(s, 0) == MAGIC_HEADER {
        lemma_le_prefix(s, t, 4);
        lemma_le_prefix(s, t, 8);
        lemma_le_prefix(s, t, 12);
        lemma_le_prefix(s, t, 16);
        assert((s + t)[16] == s[16]);
        assert((s + t)[18] == s[18]);
        assert((s + t)[19] == s[19]);
        assert(class_of(s + t) == class_of(s));
        if extended_class(class_of(s)) {
            lemma_le_prefix(s, t, 20);
        }
        assert(header_of(s + t) == header_of(s));
    }
}

proof fn lemma_body_stable(h: Header, s: Seq<u8>, t: Seq<u8>)
    requires
        !(spec_body(h, s) is Incomplete),
    ensures
        spec_body(h, s + t) == spec_body(h, s),
{
    let st = s + t;
    if h.spec_is_modern() {
        if h.body_len >= h.spec_xml_len() {
            assert(st.subrange(0, h.spec_xml_len() as int) == s.subrange(0, h.spec_xml_len() as int));
            assert(st.subrange(h.spec_xml_len() as int, h.body_len as int) == s.subrange(
                h.spec_xml_len() as int,
                h.body_len as int,
            ));
        }
    } else if h.msg_id == MSG_ID_LOGIN {
        if s.len() >= 32 {
            assert(st.subrange(0, 32) == s.subrange(0, 32));
        }
        if s.len() >= 64 {
            assert(st.subrange(32, 64) == s.subrange(32, 64));
        }
    }
}

/// Once a buffer decodes to a message or to a hard error, bytes appended after it
/// change nothing: a message is decided by its own bytes alone, so parsing the
/// whole buffer again after each read is sound.
pub proof fn lemma_decided_is_stable(s: Seq<u8>, t: Seq<u8>)
    requires
        !(spec_msg(s) is Incomplete),
    ensures
        spec_msg(s + t) == spec_msg(s),
{
    if !(spec_header(s) is Incomplete) {
        lemma_header_stable(s, t);
        if let Parsed::Done(h, n) = spec_header(s) {
            let rest = s.subrange(n as int, s.len() as int);
            assert((s + t).subrange(n as int, (s + t).len() as int) == rest + t);
            lemma_body_stable(h, rest, t);
        }
    }
}

} // verus!

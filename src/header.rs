use vstd::prelude::*;
use crate::error::{Error, Parsed};

verus! {

/// The number every message header starts with, little-endian on the wire.
pub const MAGIC_HEADER: u32 = 0x0abcdef0;

/// The length of a header without a payload offset.
pub const HEADER_LEN: usize = 20;

/// The length of a header that carries a payload offset.
pub const EXTENDED_HEADER_LEN: usize = 24;

/// The class of the legacy login exchange, the one class of the legacy era.
pub const CLASS_LEGACY: u16 = 0x6514;

/// The header of one message.
#[derive(Clone, Copy, Debug, PartialEq, Eq, Structural)]
pub struct Header {
    pub msg_id: u32,
    pub body_len: u32,
    pub enc_offset: u32,
    pub encrypted: bool,
    pub class: u16,
    pub payload_offset: Option<u32>,
}

impl View for Header {
    type V = Header;

    open spec fn view(&self) -> Header {
        *self
    }
}

/// The classes whose header carries a payload offset, as a table.
pub open spec fn extended_class(class: u16) -> bool {
    class == 0x6414u16 || class == 0x0000u16
}

/// True when `class` is one of the header classes that carry a payload offset.
pub fn has_payload_offset(class: u16) -> (r: bool)
    ensures
        r == extended_class(class),
{
    match class {
        0x6414 | 0x0000 => true,
        _ => false,
    }
}

/// Whether a response code marks the body as obfuscated. Every modern message is,
/// and devices appear to look at this field for some others; the rule is empirical.
pub open spec fn response_encrypts(response_code: u8) -> bool {
    response_code != 0
}

/// The little-endian `u16` at `i`.
pub open spec fn le_u16(s: Seq<u8>, i: int) -> u16 {
    (s[i] as int + s[i + 1] as int * 256) as u16
}

/// The little-endian `u32` at `i`.
pub open spec fn le_u32(s: Seq<u8>, i: int) -> u32 {
    (s[i] as int + s[i + 1] as int * 256 + s[i + 2] as int * 65536 + s[i + 3] as int
        * 16777216) as u32
}

/// The class field of a buffer that holds at least the fixed part of a header.
pub open spec fn class_of(s: Seq<u8>) -> u16 {
    le_u16(s, 18)
}

/// The length of the header whose fixed part starts `s`.
pub open spec fn header_len_of(s: Seq<u8>) -> nat {
    if extended_class(class_of(s)) {
        24
    } else {
        20
    }
}

/// The header whose bytes start `s`.
pub open spec fn header_of(s: Seq<u8>) -> Header {
    Header {
        msg_id: le_u32(s, 4),
        body_len: le_u32(s, 8),
        enc_offset: le_u32(s, 12),
        encrypted: response_encrypts(s[16]),
        class: class_of(s),
        payload_offset: if extended_class(class_of(s)) {
            Some(le_u32(s, 20))
        } else {
            None
        },
    }
}

/// What parsing a header from the start of `s` gives. A short buffer asks for the
/// rest of the header; the magic number is checked as soon as it is there.
pub open spec fn spec_header(s: Seq<u8>) -> Parsed<Header> {
    if s.len() < 4 {
        Parsed::Incomplete((20 - s.len()) as usize)
    } else if le_u32(s, 0) != MAGIC_HEADER {
        Parsed::Failed(Error::BadMagic)
    } else if s.len() < 20 {
        Parsed::Incomplete((20 - s.len()) as usize)
    } else if s.len() < header_len_of(s) {
        Parsed::Incomplete((header_len_of(s) - s.len()) as usize)
    } else {
        Parsed::Done(header_of(s), header_len_of(s) as usize)
    }
}

fn read_le_u16(buf: &[u8], i: usize) -> (r: u16)
    requires
        i + 2 <= buf@.len(),
    ensures
        r == le_u16(buf@, i as int),
{
    buf[i] as u16 + (buf[i + 1] as u16) * 256
}

fn read_le_u32(buf: &[u8], i: usize) -> (r: u32)
    requires
        i + 4 <= buf@.len(),
    ensures
        r == le_u32(buf@, i as int),
{
    buf[i] as u32 + (buf[i + 1] as u32) * 256 + (buf[i + 2] as u32) * 65536 + (buf[i + 3] as u32)
        * 16777216
}

impl Header {
    /// Whether the body is obfuscated and must go through the decryption transform.
    pub fn is_encrypted(&self) -> (r: bool)
        ensures
            r == self.encrypted,
    {
        self.encrypted
    }

    /// Whether the body follows the modern layout (XML and payload) rather than
    /// the legacy fixed layout.
    pub fn is_modern(&self) -> (r: bool)
        ensures
            r == self.spec_is_modern(),
    {
        self.class != CLASS_LEGACY
    }

    pub open spec fn spec_is_modern(&self) -> bool {
        self.class != CLASS_LEGACY
    }

    /// The length of the XML segment: the payload offset if there is one, else the
    /// whole body.
    pub open spec fn spec_xml_len(&self) -> u32 {
        match self.payload_offset {
            Some(off) => off,
            None => self.body_len,
        }
    }

    pub fn xml_len(&self) -> (r: u32)
        ensures
            r == self.spec_xml_len(),
    {
        match self.payload_offset {
            Some(off) => off,
            None => self.body_len,
        }
    }
}

/// Parses the header at the start of `buf`.
pub fn bc_header(buf: &[u8]) -> (r: Parsed<Header>)
    ensures
        r@ == spec_header(buf@),
{
    let len = buf.len();
    if len < 4 {
        return Parsed::Incomplete(HEADER_LEN - len);
    }
    if read_le_u32(buf, 0) != MAGIC_HEADER {
        return Parsed::Failed(Error::BadMagic);
    }
    if len < HEADER_LEN {
        return Parsed::Incomplete(HEADER_LEN - len);
    }
    let msg_id = read_le_u32(buf, 4);
    let body_len = read_le_u32(buf, 8);
    let enc_offset = read_le_u32(buf, 12);
    let response_code = buf[16];
    let class = read_le_u16(buf, 18);
    let encrypted = response_code != 0;
    let extended = has_payload_offset(class);
    let hlen: usize = if extended { EXTENDED_HEADER_LEN } else { HEADER_LEN };
    if len < hlen {
        return Parsed::Incomplete(hlen - len);
    }
    let payload_offset = if extended { Some(read_le_u32(buf, 20)) } else { None };
    Parsed::Done(Header { msg_id, body_len, enc_offset, encrypted, class, payload_offset }, hlen)
}

} // verus!

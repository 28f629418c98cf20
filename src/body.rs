use vstd::prelude::*;
use vstd::utf8::{decode_utf8, valid_utf8};
use crate::error::{Error, Parsed};
use crate::header::Header;
use crate::text::{is_ascii, lemma_ascii_decodes, spells, text_from_utf8};

verus! {

/// The message id of the login exchange.
pub const MSG_ID_LOGIN: u32 = 1;

/// The width of each text field of a legacy login body.
pub const LOGIN_FIELD_LEN: usize = 32;

/// The body of a legacy message.
#[derive(Clone, Debug, PartialEq, Eq)]
pub enum LegacyMsg {
    LoginMsg { username: String, password: String },
    UnknownMsg,
}

/// The body of a legacy message, as characters.
pub enum LegacyModel {
    LoginMsg { username: Seq<char>, password: Seq<char> },
    UnknownMsg,
}

impl View for LegacyMsg {
    type V = LegacyModel;

    open spec fn view(&self) -> LegacyModel {
        match self {
            LegacyMsg::LoginMsg { username, password } => LegacyModel::LoginMsg {
                username: username@,
                password: password@,
            },
            LegacyMsg::UnknownMsg => LegacyModel::UnknownMsg,
        }
    }
}

/// The two segments of a modern body, as they stand on the wire.
#[derive(Clone, Debug, PartialEq, Eq)]
pub struct ModernFrame {
    pub xml: Vec<u8>,
    pub payload: Vec<u8>,
}

/// The two segments of a modern body, as byte sequences.
pub struct ModernFrameModel {
    pub xml: Seq<u8>,
    pub payload: Seq<u8>,
}

impl View for ModernFrame {
    type V = ModernFrameModel;

    open spec fn view(&self) -> ModernFrameModel {
        ModernFrameModel { xml: self.xml@, payload: self.payload@ }
    }
}

/// A body cut out of the buffer: a decoded legacy message, or the raw segments of a
/// modern one.
#[derive(Clone, Debug, PartialEq, Eq)]
pub enum BodyFrame {
    Legacy(LegacyMsg),
    Modern(ModernFrame),
}

pub enum BodyModel {
    Legacy(LegacyModel),
    Modern(ModernFrameModel),
}

impl View for BodyFrame {
    type V = BodyModel;

    open spec fn view(&self) -> BodyModel {
        match self {
            BodyFrame::Legacy(m) => BodyModel::Legacy(m@),
            BodyFrame::Modern(f) => BodyModel::Modern(f@),
        }
    }
}

/// What reading the login fields from the start of `s` gives: each field is checked
/// as text as soon as its bytes are there.
pub open spec fn spec_legacy_login(s: Seq<u8>) -> Parsed<LegacyModel> {
    let user = s.subrange(0, 32);
    let pass = s.subrange(32, 64);
    if s.len() < 32 {
        Parsed::Incomplete((32 - s.len()) as usize)
    } else if !valid_utf8(user) {
        Parsed::Failed(Error::BadText)
    } else if s.len() < 64 {
        Parsed::Incomplete((64 - s.len()) as usize)
    } else if !valid_utf8(pass) {
        Parsed::Failed(Error::BadText)
    } else {
        Parsed::Done(
            LegacyModel::LoginMsg { username: decode_utf8(user), password: decode_utf8(pass) },
            64,
        )
    }
}

/// Reads the two fixed-width text fields of a legacy login body, username then
/// password. Padding stays in the strings as it stands.
pub fn bc_legacy_login_msg(buf: &[u8]) -> (r: Parsed<LegacyMsg>)
    ensures
        r@ == spec_legacy_login(buf@),
        buf@.len() >= 64 && is_ascii(buf@.subrange(0, 64)) ==> (r matches Parsed::Done(
            LegacyMsg::LoginMsg { username, password },
            n,
        ) && n == 64 && spells(username@, buf@.subrange(0, 32)) && spells(
            password@,
            buf@.subrange(32, 64),
        )),
{
    proof {
        let s = buf@;
        if s.len() >= 64 && is_ascii(s.subrange(0, 64)) {
            assert(is_ascii(s.subrange(0, 32)));
            assert(is_ascii(s.subrange(32, 64))) by {
                assert forall|i: int| 0 <= i < 32 implies s.subrange(32, 64)[i] <= 0x7f by {
                    assert(s.subrange(32, 64)[i] == s.subrange(0, 64)[i + 32]);
                }
            }
            lemma_ascii_decodes(s.subrange(0, 32));
            lemma_ascii_decodes(s.subrange(32, 64));
        }
    }
    let len = buf.len();
    if len < LOGIN_FIELD_LEN {
        return Parsed::Incomplete(LOGIN_FIELD_LEN - len);
    }
    let username = match text_from_utf8(&buf[0..LOGIN_FIELD_LEN]) {
        Some(t) => t,
        None => return Parsed::Failed(Error::BadText),
    };
    if len < 2 * LOGIN_FIELD_LEN {
        return Parsed::Incomplete(2 * LOGIN_FIELD_LEN - len);
    }
    let password = match text_from_utf8(&buf[LOGIN_FIELD_LEN..2 * LOGIN_FIELD_LEN]) {
        Some(t) => t,
        None => return Parsed::Failed(Error::BadText),
    };
    Parsed::Done(LegacyMsg::LoginMsg { username, password }, 2 * LOGIN_FIELD_LEN)
}

/// What cutting the body of a message with header `h` from the start of `s` gives.
/// A modern body is its XML segment followed by its payload segment; a legacy one
/// is read by message id, and an unknown id takes no bytes.
pub open spec fn spec_body(h: Header, s: Seq<u8>) -> Parsed<BodyModel> {
    if h.spec_is_modern() {
        let l = h.spec_xml_len();
        if h.body_len < l {
            Parsed::Failed(Error::LengthUnderflow)
        } else if s.len() < h.body_len {
            Parsed::Incomplete((h.body_len - s.len()) as usize)
        } else {
            Parsed::Done(
                BodyModel::Modern(
                    ModernFrameModel {
                        xml: s.subrange(0, l as int),
                        payload: s.subrange(l as int, h.body_len as int),
                    },
                ),
                h.body_len as usize,
            )
        }
    } else if h.msg_id == MSG_ID_LOGIN {
        match spec_legacy_login(s) {
            Parsed::Done(m, n) => Parsed::Done(BodyModel::Legacy(m), n),
            Parsed::Incomplete(n) => Parsed::Incomplete(n),
            Parsed::Failed(e) => Parsed::Failed(e),
        }
    } else {
        Parsed::Done(BodyModel::Legacy(LegacyModel::UnknownMsg), 0)
    }
}

fn copy_bytes(buf: &[u8], start: usize, end: usize) -> (r: Vec<u8>)
    requires
        start <= end <= buf@.len(),
    ensures
        r@ == buf@.subrange(start as int, end as int),
{
    let mut r: Vec<u8> = Vec::with_capacity(end - start);
    let mut i: usize = start;
    while i < end
        invariant
            start <= i <= end <= buf@.len(),
            r@ == buf@.subrange(start as int, i as int),
        decreases end - i,
    {
        r.push(buf[i]);
        i += 1;
    }
    r
}

/// Cuts the body of a message with header `h` from the start of `buf`.
pub fn bc_body(h: &Header, buf: &[u8]) -> (r: Parsed<BodyFrame>)
    ensures
        r@ == spec_body(*h, buf@),
{
    if h.is_modern() {
        let xml_len = h.xml_len();
        if h.body_len < xml_len {
            return Parsed::Failed(Error::LengthUnderflow);
        }
        let body_len = h.body_len as usize;
        if buf.len() < body_len {
            return Parsed::Incomplete(body_len - buf.len());
        }
        let xml = copy_bytes(buf, 0, xml_len as usize);
        let payload = copy_bytes(buf, xml_len as usize, body_len);
        Parsed::Done(BodyFrame::Modern(ModernFrame { xml, payload }), body_len)
    } else if h.msg_id == MSG_ID_LOGIN {
        match bc_legacy_login_msg(buf) {
            Parsed::Done(m, n) => Parsed::Done(BodyFrame::Legacy(m), n),
            Parsed::Incomplete(n) => Parsed::Incomplete(n),
            Parsed::Failed(e) => Parsed::Failed(e),
        }
    } else {
        Parsed::Done(BodyFrame::Legacy(LegacyMsg::UnknownMsg), 0)
    }
}

} // verus!

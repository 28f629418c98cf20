use vstd::prelude::*;
use crate::body::{bc_body, spec_body, BodyFrame, BodyModel, LegacyMsg};
use crate::error::{Error, Parsed};
use crate::header::{bc_header, spec_header, Header};

verus! {

/// A message cut out of a buffer: its header and its body.
#[derive(Clone, Debug, PartialEq, Eq)]
pub struct Frame {
    pub header: Header,
    pub body: BodyFrame,
}

pub struct FrameModel {
    pub header: Header,
    pub body: BodyModel,
}

impl View for Frame {
    type V = FrameModel;

    open spec fn view(&self) -> FrameModel {
        FrameModel { header: self.header, body: self.body@ }
    }
}

/// What parsing one whole message from the start of `s` gives: the header, then
/// the body that follows it.
pub open spec fn spec_msg(s: Seq<u8>) -> Parsed<FrameModel> {
    match spec_header(s) {
        Parsed::Done(h, n) => match spec_body(h, s.subrange(n as int, s.len() as int)) {
            Parsed::Done(b, m) => Parsed::Done(FrameModel { header: h, body: b }, (n + m) as usize),
            Parsed::Incomplete(k) => Parsed::Incomplete(k),
            Parsed::Failed(e) => Parsed::Failed(e),
        },
        Parsed::Incomplete(k) => Parsed::Incomplete(k),
        Parsed::Failed(e) => Parsed::Failed(e),
    }
}

/// Parses one whole message from the start of `buf`.
pub fn bc_msg(buf: &[u8]) -> (r: Parsed<Frame>)
    ensures
        r@ == spec_msg(buf@),
{
    match bc_header(buf) {
        Parsed::Done(header, n) => {
            let rest = &buf[n..buf.len()];
            match bc_body(&header, rest) {
                Parsed::Done(body, m) => Parsed::Done(Frame { header, body }, n + m),
                Parsed::Incomplete(k) => Parsed::Incomplete(k),
                Parsed::Failed(e) => Parsed::Failed(e),
            }
        },
        Parsed::Incomplete(k) => Parsed::Incomplete(k),
        Parsed::Failed(e) => Parsed::Failed(e),
    }
}

/// The payload segment of a modern message, once interpreted.
#[derive(Clone, Debug, PartialEq, Eq)]
pub enum Payload<X> {
    /// The segment parsed as an XML document.
    BcXml(X),
    /// The segment was not XML: its plain bytes, as they stand.
    Binary(Vec<u8>),
}

/// The body of a modern message, once interpreted.
#[derive(Clone, Debug, PartialEq, Eq)]
pub struct ModernMsg<X> {
    pub xml: Option<X>,
    pub payload: Option<Payload<X>>,
}

/// The body of a message.
#[derive(Clone, Debug, PartialEq, Eq)]
pub enum BcBody<X> {
    LegacyMsg(LegacyMsg),
    ModernMsg(ModernMsg<X>),
}

/// One decoded message.
#[derive(Clone, Debug, PartialEq, Eq)]
pub struct Bc<X> {
    pub meta: Header,
    pub body: BcBody<X>,
}

/// Classifies a non-empty payload segment by one attempt of the XML codec on its
/// plain bytes: a document if it parsed, else the bytes themselves.
pub fn payload_of<X>(plain: Vec<u8>, doc: Option<X>) -> (r: Payload<X>)
    ensures
        doc matches Some(d) ==> r == Payload::BcXml(d),
        doc is None ==> (r matches Payload::Binary(b) && b@ == plain@),
{
    match doc {
        Some(d) => Payload::BcXml(d),
        None => Payload::Binary(plain),
    }
}

/// Interprets the segments of a modern body. `xml` and `payload` are the plain bytes
/// of the two segments (after the decryption transform, when the header asks for
/// it); `xml_doc` and `payload_doc` are what the XML codec made of each, `None`
/// where it failed. An empty segment is absent. A present XML segment must parse;
/// a payload that does not parse is kept as bytes.
pub fn modern_msg<X>(xml: &[u8], xml_doc: Option<X>, payload: Vec<u8>, payload_doc: Option<X>) -> (r:
    Result<ModernMsg<X>, Error>)
    ensures
        r is Err <==> (xml@.len() > 0 && xml_doc is None),
        r is Err ==> r->Err_0 == Error::BadXml,
        r is Ok ==> r->Ok_0.xml == (if xml@.len() == 0 {
            None
        } else {
            xml_doc
        }),
        r is Ok && payload@.len() == 0 ==> r->Ok_0.payload is None,
        r is Ok && payload@.len() > 0 ==> (payload_doc matches Some(d) ==> r->Ok_0.payload
            == Some(Payload::BcXml(d))),
        r is Ok && payload@.len() > 0 ==> (payload_doc is None ==> (r->Ok_0.payload matches Some(
            Payload::Binary(b),
        ) && b@ == payload@)),
{
    let xml_part = if xml.len() == 0 {
        None
    } else {
        match xml_doc {
            Some(d) => Some(d),
            None => return Err(Error::BadXml),
        }
    };
    let payload_part = if payload.len() == 0 {
        None
    } else {
        Some(payload_of(payload, payload_doc))
    };
    Ok(ModernMsg { xml: xml_part, payload: payload_part })
}

/// The accumulation buffer of one byte stream. Each attempt parses the whole buffer
/// from its start; a byte deficit is met by appending what the stream gives next.
pub struct Decoder {
    buf: Vec<u8>,
}

impl Decoder {
    /// The bytes gathered so far.
    pub closed spec fn buffered(&self) -> Seq<u8> {
        self.buf@
    }

    pub fn new() -> (r: Decoder)
        ensures
            r.buffered() == Seq::<u8>::empty(),
    {
        Decoder { buf: Vec::new() }
    }

    /// Tries to parse one message from what has been gathered. `Incomplete(n)` asks
    /// the caller to read up to `n` more bytes and `feed` them.
    pub fn step(&self) -> (r: Parsed<Frame>)
        ensures
            r@ == spec_msg(self.buffered()),
    {
        bc_msg(self.buf.as_slice())
    }

    /// Appends what one read of the stream gave. Nothing at all means the stream
    /// ended while a message still needed bytes.
    pub fn feed(&mut self, bytes: &[u8]) -> (r: Result<(), Error>)
        ensures
            bytes@.len() == 0 ==> r == Err::<(), Error>(Error::UnexpectedEof),
            bytes@.len() == 0 ==> final(self).buffered() == old(self).buffered(),
            bytes@.len() > 0 ==> r == Ok::<(), Error>(()),
            bytes@.len() > 0 ==> final(self).buffered() == old(self).buffered() + bytes@,
    {
        if bytes.len() == 0 {
            return Err(Error::UnexpectedEof);
        }
        let ghost start = self.buf@;
        let mut i: usize = 0;
        while i < bytes.len()
            invariant
                i <= bytes@.len(),
                self.buf@ == start + bytes@.subrange(0, i as int),
            decreases bytes@.len() - i,
        {
            self.buf.push(bytes[i]);
            i += 1;
            assert(self.buf@ == start + bytes@.subrange(0, i as int));
        }
        assert(bytes@.subrange(0, bytes@.len() as int) == bytes@);
        Ok(())
    }
}

} // verus!

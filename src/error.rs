use vstd::prelude::*;

verus! {

/// A hard decoding error: the message can never be decoded, whatever bytes follow.
#[derive(Clone, Copy, Debug, PartialEq, Eq, Structural)]
pub enum Error {
    /// The first four bytes are not the protocol's magic number.
    BadMagic,
    /// A fixed-width text field of a legacy message is not valid UTF-8.
    BadText,
    /// The declared payload offset lies beyond the declared body length.
    LengthUnderflow,
    /// The XML segment of a modern message is present but could not be parsed.
    BadXml,
    /// The byte source ended while a message still needed bytes.
    UnexpectedEof,
}

/// The outcome of running a parser over a buffer.
#[derive(Clone, Debug, PartialEq, Eq)]
pub enum Parsed<T> {
    /// The value, and the number of bytes of the buffer that it took.
    Done(T, usize),
    /// The buffer is a prefix of a message: at least this many more bytes are needed.
    Incomplete(usize),
    /// The buffer can never start a valid message.
    Failed(Error),
}

impl<T: View> View for Parsed<T> {
    type V = Parsed<T::V>;

    open spec fn view(&self) -> Parsed<T::V> {
        match self {
            Parsed::Done(v, n) => Parsed::Done(v@, *n),
            Parsed::Incomplete(n) => Parsed::Incomplete(*n),
            Parsed::Failed(e) => Parsed::Failed(*e),
        }
    }
}

} // verus!

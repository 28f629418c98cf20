use vstd::prelude::*;
use vstd::utf8::{decode_utf8, valid_utf8};

verus! {

/// Every byte of `b` is ASCII.
pub open spec fn is_ascii(b: Seq<u8>) -> bool {
    forall|i: int| 0 <= i < b.len() ==> b[i] <= 0x7f
}

/// `c` holds, character for character, the code points in `b`.
pub open spec fn spells(c: Seq<char>, b: Seq<u8>) -> bool {
    &&& c.len() == b.len()
    &&& forall|i: int| 0 <= i < b.len() ==> c[i] as u32 == b[i] as u32
}

proof fn lemma_ascii_byte(x: u8)
    requires
        x <= 0x7f,
    ensures
        (x & 0x7f) as u32 == x as u32,
{
    assert((x & 0x7f) == x) by (bit_vector)
        requires
            x <= 0x7f,
    ;
}

/// ASCII bytes are valid UTF-8 and decode one character per byte, unchanged.
pub proof fn lemma_ascii_decodes(b: Seq<u8>)
    requires
        is_ascii(b),
    ensures
        valid_utf8(b),
        spells(decode_utf8(b), b),
    decreases b.len(),
{
    if b.len() > 0 {
        lemma_ascii_byte(b[0]);
        let rest = b.subrange(1, b.len() as int);
        assert(is_ascii(rest));
        lemma_ascii_decodes(rest);
        let cp = (b[0] & 0x7f) as u32;
        let d = decode_utf8(b);
        assert(d == seq![cp as char] + decode_utf8(rest));
        assert forall|i: int| 0 <= i < b.len() implies d[i] as u32 == b[i] as u32 by {
            if i > 0 {
                assert(d[i] == decode_utf8(rest)[i - 1]);
                assert(rest[i - 1] == b[i]);
            }
        }
    }
}

/// Relies on `String::from_utf8`: it succeeds exactly on valid UTF-8, and the
/// string then holds the characters that the bytes encode.
#[verifier::external_body]
pub(crate) fn text_from_utf8(b: &[u8]) -> (r: Option<String>)
    ensures
        r is Some <==> valid_utf8(b@),
        r is Some ==> r->Some_0@ == decode_utf8(b@),
{
    String::from_utf8(b.to_vec()).ok()
}

} // verus!

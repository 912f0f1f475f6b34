use vstd::prelude::*;
use vstd::slice::slice_subrange;
use vstd::string::StringSliceAdditionalSpecFns;
use vstd::utf8::*;

verus! {

/// The UTF-8 encoding of one character: up to four bytes on the stack, and
/// how many of them are used.
pub struct EncodedChar {
    bytes: [u8; 4],
    len: usize,
}

impl View for EncodedChar {
    type V = Seq<u8>;

    closed spec fn view(&self) -> Seq<u8> {
        self.bytes@.subrange(0, self.len as int)
    }
}

impl EncodedChar {
    #[verifier::type_invariant]
    spec fn in_bounds(self) -> bool {
        1 <= self.len <= 4
    }

    /// Encodes `ch` as UTF-8.
    pub fn new(ch: char) -> (e: Self)
        ensures
            e@ == encode_utf8(seq![ch]),
            1 <= e@.len() <= 4,
    {
        let v = ch as u32;
        let mut bytes: [u8; 4] = [0; 4];
        let len: usize;
        if v <= 0x7F {
            assert(v & 0x7F <= 0x7F) by (bit_vector);
            bytes[0] = (v & 0x7F) as u8;
            len = 1;
        } else if v <= 0x7FF {
            assert((v >> 6) & 0x1F <= 0x1F) by (bit_vector);
            assert(v & 0x3F <= 0x3F) by (bit_vector);
            bytes[0] = 0xC0 | ((v >> 6) & 0x1F) as u8;
            bytes[1] = 0x80 | (v & 0x3F) as u8;
            len = 2;
        } else if v <= 0xFFFF {
            assert((v >> 12) & 0x0F <= 0x0F) by (bit_vector);
            assert((v >> 6) & 0x3F <= 0x3F) by (bit_vector);
            assert(v & 0x3F <= 0x3F) by (bit_vector);
            bytes[0] = 0xE0 | ((v >> 12) & 0x0F) as u8;
            bytes[1] = 0x80 | ((v >> 6) & 0x3F) as u8;
            bytes[2] = 0x80 | (v & 0x3F) as u8;
            len = 3;
        } else {
            assert((v >> 18) & 0x7 <= 0x7) by (bit_vector);
            assert((v >> 12) & 0x3F <= 0x3F) by (bit_vector);
            assert((v >> 6) & 0x3F <= 0x3F) by (bit_vector);
            assert(v & 0x3F <= 0x3F) by (bit_vector);
            bytes[0] = 0xF0 | ((v >> 18) & 0x7) as u8;
            bytes[1] = 0x80 | ((v >> 12) & 0x3F) as u8;
            bytes[2] = 0x80 | ((v >> 6) & 0x3F) as u8;
            bytes[3] = 0x80 | (v & 0x3F) as u8;
            len = 4;
        }
        let e = Self { bytes, len };
        proof {
            let chars = seq![ch];
            assert(chars.drop_first() =~= Seq::<char>::empty());
            assert(encode_utf8(chars) =~= encode_scalar(v)) by {
                reveal_with_fuel(encode_utf8, 2);
            }
            assert(e@ =~= encode_scalar(v));
        }
        e
    }

    /// The encoded bytes.
    pub fn as_bytes(&self) -> (b: &[u8])
        ensures
            b@ == self@,
    {
        proof {
            use_type_invariant(self);
        }
        slice_subrange(self.bytes.as_slice(), 0, self.len)
    }
}

/// A character takes one to four bytes.
pub proof fn lemma_encoded_char_len(ch: char)
    ensures
        1 <= encode_utf8(seq![ch]).len() <= 4,
{
    assert(seq![ch].drop_first() =~= Seq::<char>::empty());
    assert(encode_utf8(seq![ch]) =~= encode_scalar(ch as u32)) by {
        reveal_with_fuel(encode_utf8, 2);
    }
}

/// [`core::str::from_utf8`]: the bytes seen as text. The conversion succeeds
/// exactly on well-formed UTF-8, and the text it gives has those very bytes.
#[verifier::external_body]
pub(crate) fn str_from_utf8(bytes: &[u8]) -> (r: Option<&str>)
    ensures
        r is Some <==> valid_utf8(bytes@),
        r matches Some(s) ==> s.spec_bytes() == bytes@,
{
    core::str::from_utf8(bytes).ok()
}

/// [`String::push`]: `c` is appended to the end of `s`.
#[verifier::external_body]
pub(crate) fn push_char(s: &mut String, c: char)
    ensures
        final(s)@ == old(s)@.push(c),
{
    s.push(c)
}

/// `at` cuts `content` into two pieces that are each well-formed UTF-8.
pub open spec fn splits_text(content: Seq<u8>, at: int) -> bool {
    &&& 0 <= at <= content.len()
    &&& valid_utf8(content.subrange(0, at))
    &&& valid_utf8(content.subrange(at, content.len() as int))
}

/// Decoding two well-formed pieces one after the other decodes their
/// concatenation.
pub proof fn lemma_decode_concat(a: Seq<u8>, b: Seq<u8>)
    requires
        valid_utf8(a),
        valid_utf8(b),
    ensures
        valid_utf8(a + b),
        decode_utf8(a + b) == decode_utf8(a) + decode_utf8(b),
    decreases a.len(),
{
    valid_utf8_concat(a, b);
    if a.len() == 0 {
        assert(a + b =~= b);
        assert(decode_utf8(a) + decode_utf8(b) =~= decode_utf8(b));
    } else {
        let rest = pop_first_scalar(a);
        lemma_decode_concat(rest, b);
        assert(pop_first_scalar(a + b) =~= rest + b);
        assert(decode_first_scalar(a + b) == decode_first_scalar(a));
        assert(decode_utf8(a + b) =~= decode_utf8(a) + decode_utf8(b));
    }
}

} // verus!

use vstd::prelude::*;
use vstd::string::StringSliceAdditionalSpecFns;
use vstd::utf8::*;

verus! {

/// A payload that a styled segment can carry: text or raw bytes, borrowed or
/// owned. Whatever its kind, it is written out as bytes.
pub trait AnsiText {
    /// The bytes that stand for this payload in the output.
    spec fn text_bytes(&self) -> Seq<u8>;

    /// The payload's bytes.
    fn as_byte_slice(&self) -> (r: &[u8])
        ensures
            r@ == self.text_bytes(),
    ;
}

impl<'a> AnsiText for &'a str {
    open spec fn text_bytes(&self) -> Seq<u8> {
        (**self).spec_bytes()
    }

    fn as_byte_slice(&self) -> (r: &[u8]) {
        (**self).as_bytes()
    }
}

impl<'a> AnsiText for &'a [u8] {
    open spec fn text_bytes(&self) -> Seq<u8> {
        (**self)@
    }

    fn as_byte_slice(&self) -> (r: &[u8]) {
        *self
    }
}

impl AnsiText for String {
    open spec fn text_bytes(&self) -> Seq<u8> {
        vstd::utf8::encode_utf8(self@)
    }

    fn as_byte_slice(&self) -> (r: &[u8]) {
        self.as_str().as_bytes()
    }
}

impl AnsiText for Vec<u8> {
    open spec fn text_bytes(&self) -> Seq<u8> {
        self@
    }

    fn as_byte_slice(&self) -> (r: &[u8]) {
        self.as_slice()
    }
}

/// Appends every byte of `b`.
pub fn append_bytes(out: &mut Vec<u8>, b: &[u8])
    ensures
        final(out)@ == old(out)@ + b@,
{
    let mut i: usize = 0;
    while i < b.len()
        invariant
            0 <= i <= b@.len(),
            out@ == old(out)@ + b@.subrange(0, i as int),
        decreases b@.len() - i,
    {
        out.push(b[i]);
        i = i + 1;
        assert(b@.subrange(0, i as int) =~= b@.subrange(0, i - 1 as int).push(b@[i - 1]));
        assert(out@ =~= old(out)@ + b@.subrange(0, i as int));
    }
    assert(b@.subrange(0, i as int) =~= b@);
}

/// Whether every byte is below 128.
pub open spec fn ascii_bytes(x: Seq<u8>) -> bool {
    forall|i: int| 0 <= i < x.len() ==> x[i] < 128
}

/// Encoding two character sequences one after the other gives the two
/// encodings one after the other.
pub proof fn lemma_encode_utf8_concat(a: Seq<char>, b: Seq<char>)
    ensures
        encode_utf8(a + b) == encode_utf8(a) + encode_utf8(b),
    decreases a.len(),
{
    if a.len() == 0 {
        assert(a + b =~= b);
        assert(encode_utf8(a) + encode_utf8(b) =~= encode_utf8(b));
    } else {
        assert((a + b).drop_first() =~= a.drop_first() + b);
        assert((a + b)[0] == a[0]);
        lemma_encode_utf8_concat(a.drop_first(), b);
        assert(encode_utf8(a + b) =~= encode_utf8(a) + encode_utf8(b));
    }
}

/// Two valid UTF-8 byte sequences one after the other are valid UTF-8.
pub proof fn lemma_valid_utf8_concat(x: Seq<u8>, y: Seq<u8>)
    requires
        valid_utf8(x),
        valid_utf8(y),
    ensures
        valid_utf8(x + y),
{
    decode_utf8_encode_utf8(x);
    decode_utf8_encode_utf8(y);
    lemma_encode_utf8_concat(decode_utf8(x), decode_utf8(y));
    encode_utf8_valid_utf8(decode_utf8(x) + decode_utf8(y));
}

/// Bytes below 128 are valid UTF-8.
pub proof fn lemma_ascii_valid_utf8(x: Seq<u8>)
    requires
        ascii_bytes(x),
    ensures
        valid_utf8(x),
    decreases x.len(),
{
    if x.len() > 0 {
        let b = x[0];
        assert(b < 128);
        assert((b & 0x7f) as u32 <= 0x7f) by (bit_vector);
        assert(valid_first_scalar(x));
        assert(pop_first_scalar(x) =~= x.drop_first());
        lemma_ascii_valid_utf8(x.drop_first());
    }
}

/// The payloads of text: their bytes are valid UTF-8.
pub proof fn lemma_str_valid_utf8(s: &str)
    ensures
        valid_utf8(s.spec_bytes()),
{
    encode_utf8_valid_utf8(s@);
}

} // verus!

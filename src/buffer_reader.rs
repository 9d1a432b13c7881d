use vstd::prelude::*;
use vstd::slice::slice_subrange;
use vstd::string::StringSliceAdditionalSpecFns;
use vstd::utf8::{encode_utf8, encode_utf8_decode_utf8, encode_utf8_valid_utf8, valid_utf8};

use crate::variable_byte_integer::{decode_variable_byte_int, vbi_spec};

verus! {

/// Error kinds reported by every decoding step.
#[derive(Debug, Clone, Copy, PartialEq, Eq, Structural)]
pub enum ParseError {
    Utf8Error,
    IndexOutOfBounce,
    VariableByteIntegerError,
    IdNotFound,
    EncodingError,
    DecodingError,
}

/// Big-endian value of the two bytes at `p`.
pub open spec fn be_u16(b: Seq<u8>, p: int) -> u16 {
    (b[p] as int * 0x100 + b[p + 1] as int) as u16
}

/// Big-endian value of the four bytes at `p`.
pub open spec fn be_u32(b: Seq<u8>, p: int) -> u32 {
    (b[p] as int * 0x1000000 + b[p + 1] as int * 0x10000 + b[p + 2] as int * 0x100 + b[p + 3] as int) as u32
}

/// Outcome of reading a length-prefixed field from the start of `b`: the declared
/// length, once the prefix and the bytes it announces are all present.
pub open spec fn prefixed_spec(b: Seq<u8>) -> Result<u16, ParseError> {
    if b.len() < 2 || b.len() < 2 + be_u16(b, 0) {
        Err(ParseError::IndexOutOfBounce)
    } else {
        Ok(be_u16(b, 0))
    }
}

/// Outcome of reading a UTF-8 string field from the start of `b`: its declared length.
pub open spec fn string_spec(b: Seq<u8>) -> Result<u16, ParseError> {
    match prefixed_spec(b) {
        Err(e) => Err(e),
        Ok(n) => if valid_utf8(b.subrange(2, 2 + n)) {
            Ok(n)
        } else {
            Err(ParseError::Utf8Error)
        },
    }
}

/// Outcome of reading a string pair from the start of `b`: the two declared lengths.
pub open spec fn string_pair_spec(b: Seq<u8>) -> Result<(u16, u16), ParseError> {
    match string_spec(b) {
        Err(e) => Err(e),
        Ok(n) => match string_spec(b.skip(2 + n)) {
            Err(e) => Err(e),
            Ok(m) => Ok((n, m)),
        },
    }
}

/// Relies on core::str::from_utf8: it accepts exactly the well-formed UTF-8 byte
/// sequences, and the string it returns borrows those same bytes.
#[verifier::external_body]
fn utf8_view<'a>(b: &'a [u8]) -> (r: Option<&'a str>)
    ensures
        r is Some <==> valid_utf8(b@),
        r matches Some(s) ==> s.spec_bytes() == b@,
{
    core::str::from_utf8(b).ok()
}

/// A UTF-8 encoded string borrowed from the buffer, with its declared byte length.
#[derive(Debug, Clone, Copy)]
pub struct EncodedString<'a> {
    pub string: &'a str,
    pub len: u16,
}

impl<'a> EncodedString<'a> {
    /// The string's bytes agree with its declared length.
    pub open spec fn wf(&self) -> bool {
        self.string.spec_bytes().len() == self.len as nat
    }

    /// The string stands encoded at the start of `b`: a two-byte length, then its bytes.
    pub open spec fn encoded_at(&self, b: Seq<u8>) -> bool {
        &&& string_spec(b) == Ok::<u16, ParseError>(self.len)
        &&& self.string.spec_bytes() == b.subrange(2, 2 + self.len)
    }

    pub fn new() -> (r: Self)
        ensures
            r.len == 0,
            r.string@.len() == 0,
            r.wf(),
    {
        let s: &str = "";
        proof {
            reveal_strlit("");
        }
        Self { string: s, len: 0 }
    }

    /// Encoded size: the two-byte length prefix plus the string's bytes.
    pub fn len(&self) -> (r: u16)
        requires
            self.len <= u16::MAX - 2,
        ensures
            r == self.len + 2,
    {
        self.len + 2
    }
}

/// Binary data borrowed from the buffer, with its declared length.
#[derive(Debug, Clone, Copy)]
pub struct BinaryData<'a> {
    pub bin: &'a [u8],
    pub len: u16,
}

impl<'a> BinaryData<'a> {
    /// The bytes agree with the declared length.
    pub open spec fn wf(&self) -> bool {
        self.bin@.len() == self.len as nat
    }

    /// The data stands encoded at the start of `b`: a two-byte length, then its bytes.
    pub open spec fn encoded_at(&self, b: Seq<u8>) -> bool {
        &&& prefixed_spec(b) == Ok::<u16, ParseError>(self.len)
        &&& self.bin@ == b.subrange(2, 2 + self.len)
    }

    pub fn new() -> (r: Self)
        ensures
            r.len == 0,
            r.bin@.len() == 0,
            r.wf(),
    {
        let empty: &[u8] = &[];
        Self { bin: empty, len: 0 }
    }

    /// Encoded size: the two-byte length prefix plus the data.
    pub fn len(&self) -> (r: u16)
        requires
            self.len <= u16::MAX - 2,
        ensures
            r == self.len + 2,
    {
        self.len + 2
    }
}

/// A name-value pair of UTF-8 strings.
#[derive(Debug, Clone, Copy)]
pub struct StringPair<'a> {
    pub name: EncodedString<'a>,
    pub value: EncodedString<'a>,
}

impl<'a> StringPair<'a> {
    pub open spec fn wf(&self) -> bool {
        self.name.wf() && self.value.wf()
    }

    /// The pair stands encoded at the start of `b`: the name, then the value.
    pub open spec fn encoded_at(&self, b: Seq<u8>) -> bool {
        &&& self.name.encoded_at(b)
        &&& self.value.encoded_at(b.skip(2 + self.name.len))
    }

    /// Encoded size: the sum of both strings' encoded sizes.
    pub fn len(&self) -> (r: u16)
        requires
            self.name.len + self.value.len + 4 <= u16::MAX,
        ensures
            r == self.name.len + self.value.len + 4,
    {
        let ln = self.name.len() + self.value.len();
        ln
    }
}

/// A topic filter with its subscription options byte.
#[derive(Debug, Clone, Copy)]
pub struct TopicFilter<'a> {
    pub filter: EncodedString<'a>,
    pub sub_options: u8,
}

impl<'a> TopicFilter<'a> {
    pub fn new() -> (r: Self)
        ensures
            r.filter.len == 0,
            r.filter.string@.len() == 0,
            r.filter.wf(),
            r.sub_options == 0,
    {
        Self { filter: EncodedString::new(), sub_options: 0 }
    }

    /// Encoded size: the encoded filter plus the options byte.
    pub fn len(&self) -> (r: u16)
        requires
            self.filter.len <= u16::MAX - 3,
        ensures
            r == self.filter.len + 3,
    {
        self.filter.len + 3
    }
}

/// A cursor over a borrowed byte buffer.
pub struct BuffReader<'a> {
    pub buffer: &'a [u8],
    pub position: usize,
}

impl<'a> BuffReader<'a> {
    /// The bytes that the reader walks over.
    pub open spec fn bytes(&self) -> Seq<u8> {
        self.buffer@
    }

    /// The bytes from the cursor to the end; empty once the cursor is at or past the end.
    pub open spec fn rest(&self) -> Seq<u8> {
        if self.position <= self.bytes().len() {
            self.bytes().skip(self.position as int)
        } else {
            Seq::empty()
        }
    }

    /// The cursor lies within the buffer.
    pub open spec fn wf(&self) -> bool {
        self.position <= self.bytes().len()
    }

    /// The reader moved forward over `n` bytes of the same buffer.
    pub open spec fn advanced(&self, old: &Self, n: int) -> bool {
        &&& self.buffer == old.buffer
        &&& self.position == old.position + n
        &&& self.position <= self.bytes().len()
    }

    pub fn increment_position(&mut self, increment: usize)
        requires
            old(self).position + increment <= old(self).bytes().len(),
        ensures
            final(self).advanced(old(self), increment as int),
    {
        let _len = self.buffer.len();
        self.position = self.position + increment;
    }

    pub fn new(buffer: &'a [u8]) -> (r: Self)
        ensures
            r.bytes() == buffer@,
            r.position == 0,
    {
        BuffReader { buffer: buffer, position: 0 }
    }

    /// Number of bytes left after the cursor.
    fn remaining(&self) -> (r: usize)
        ensures
            r == self.rest().len(),
    {
        if self.position <= self.buffer.len() {
            self.buffer.len() - self.position
        } else {
            0
        }
    }

    /// Reads a variable-byte integer: up to four bytes of seven bits each, least
    /// significant first, the top bit of each byte announcing another.
    pub fn read_variable_byte_int(&mut self) -> (r: Result<u32, ParseError>)
        ensures
            match vbi_spec(old(self).rest()) {
                Ok((v, n)) => r == Ok::<u32, ParseError>(v) && final(self).advanced(old(self), n as int),
                Err(e) => r == Err::<u32, ParseError>(e) && *final(self) == *old(self),
            },
    {
        let rest = if self.position <= self.buffer.len() {
            slice_subrange(self.buffer, self.position, self.buffer.len())
        } else {
            slice_subrange(self.buffer, 0, 0)
        };
        assert(rest@ =~= self.rest());
        match decode_variable_byte_int(rest) {
            Ok((value, n)) => {
                self.increment_position(n);
                Ok(value)
            },
            Err(e) => Err(e),
        }
    }

    /// Reads four bytes as a big-endian integer.
    pub fn read_u32(&mut self) -> (r: Result<u32, ParseError>)
        ensures
            old(self).rest().len() >= 4 ==> r == Ok::<u32, ParseError>(be_u32(old(self).rest(), 0))
                && final(self).advanced(old(self), 4),
            old(self).rest().len() < 4 ==> r == Err::<u32, ParseError>(ParseError::IndexOutOfBounce)
                && *final(self) == *old(self),
    {
        if self.remaining() < 4 {
            return Err(ParseError::IndexOutOfBounce);
        }
        let p = self.position;
        let ret: u32 = (self.buffer[p] as u32) * 0x1000000 + (self.buffer[p + 1] as u32) * 0x10000
            + (self.buffer[p + 2] as u32) * 0x100 + (self.buffer[p + 3] as u32);
        self.increment_position(4);
        Ok(ret)
    }

    /// Reads two bytes as a big-endian integer.
    pub fn read_u16(&mut self) -> (r: Result<u16, ParseError>)
        ensures
            old(self).rest().len() >= 2 ==> r == Ok::<u16, ParseError>(be_u16(old(self).rest(), 0))
                && final(self).advanced(old(self), 2),
            old(self).rest().len() < 2 ==> r == Err::<u16, ParseError>(ParseError::IndexOutOfBounce)
                && *final(self) == *old(self),
    {
        if self.remaining() < 2 {
            return Err(ParseError::IndexOutOfBounce);
        }
        let p = self.position;
        let ret: u16 = (self.buffer[p] as u16) * 0x100 + (self.buffer[p + 1] as u16);
        self.increment_position(2);
        Ok(ret)
    }

    /// Reads one byte.
    pub fn read_u8(&mut self) -> (r: Result<u8, ParseError>)
        ensures
            old(self).rest().len() >= 1 ==> r == Ok::<u8, ParseError>(old(self).rest()[0])
                && final(self).advanced(old(self), 1),
            old(self).rest().len() < 1 ==> r == Err::<u8, ParseError>(ParseError::IndexOutOfBounce)
                && *final(self) == *old(self),
    {
        if self.remaining() < 1 {
            return Err(ParseError::IndexOutOfBounce);
        }
        let ret: u8 = self.buffer[self.position];
        self.increment_position(1);
        Ok(ret)
    }

    /// Reads a UTF-8 string: a two-byte big-endian length, then that many bytes, which
    /// the returned view borrows.
    pub fn read_string(&mut self) -> (r: Result<EncodedString<'a>, ParseError>)
        ensures
            match string_spec(old(self).rest()) {
                Ok(n) => r matches Ok(s) && s.len == n && s.encoded_at(old(self).rest()) && s.wf()
                    && final(self).advanced(old(self), 2 + n),
                Err(e) => r == Err::<EncodedString<'a>, ParseError>(e) && *final(self) == *old(self),
            },
    {
        let ghost b = self.rest();
        if self.remaining() < 2 {
            return Err(ParseError::IndexOutOfBounce);
        }
        let len = self.buffer[self.position] as u16 * 0x100 + self.buffer[self.position + 1] as u16;
        if self.remaining() - 2 < len as usize {
            return Err(ParseError::IndexOutOfBounce);
        }
        let start = self.position + 2;
        let bytes = slice_subrange(self.buffer, start, start + len as usize);
        assert(bytes@ == b.subrange(2, 2 + len));
        match utf8_view(bytes) {
            None => Err(ParseError::Utf8Error),
            Some(string) => {
                self.increment_position(2 + len as usize);
                Ok(EncodedString { string, len })
            },
        }
    }

    /// Reads binary data: a two-byte big-endian length, then that many bytes, which the
    /// returned view borrows.
    pub fn read_binary(&mut self) -> (r: Result<BinaryData<'a>, ParseError>)
        ensures
            match prefixed_spec(old(self).rest()) {
                Ok(n) => r matches Ok(d) && d.len == n && d.encoded_at(old(self).rest()) && d.wf()
                    && final(self).advanced(old(self), 2 + n),
                Err(e) => r == Err::<BinaryData<'a>, ParseError>(e) && *final(self) == *old(self),
            },
    {
        let ghost b = self.rest();
        if self.remaining() < 2 {
            return Err(ParseError::IndexOutOfBounce);
        }
        let len = self.buffer[self.position] as u16 * 0x100 + self.buffer[self.position + 1] as u16;
        if self.remaining() - 2 < len as usize {
            return Err(ParseError::IndexOutOfBounce);
        }
        let start = self.position + 2;
        let bin = slice_subrange(self.buffer, start, start + len as usize);
        assert(bin@ == b.subrange(2, 2 + len));
        self.increment_position(2 + len as usize);
        Ok(BinaryData { bin, len })
    }

    /// Reads a string pair: the name, then the value; the first failure ends the read.
    pub fn read_string_pair(&mut self) -> (r: Result<StringPair<'a>, ParseError>)
        ensures
            match string_pair_spec(old(self).rest()) {
                Ok((n, m)) => r matches Ok(sp) && sp.name.len == n && sp.value.len == m
                    && sp.encoded_at(old(self).rest()) && sp.wf()
                    && final(self).advanced(old(self), 4 + n + m),
                Err(e) => r == Err::<StringPair<'a>, ParseError>(e) && *final(self) == *old(self),
            },
    {
        let ghost b = self.rest();
        let saved = self.position;
        let name = match self.read_string() {
            Ok(s) => s,
            Err(e) => return Err(e),
        };
        assert(self.rest() =~= b.skip(2 + name.len));
        let value = match self.read_string() {
            Ok(s) => s,
            Err(e) => {
                self.position = saved;
                assert(string_pair_spec(b) == Err::<(u16, u16), ParseError>(e));
                return Err(e);
            },
        };
        Ok(StringPair { name, value })
    }

    /// The bytes from the cursor up to `total_len`.
    pub fn read_message(&mut self, total_len: usize) -> (r: &'a [u8])
        requires
            old(self).position <= total_len <= old(self).bytes().len(),
        ensures
            r@ == old(self).bytes().subrange(old(self).position as int, total_len as int),
            *final(self) == *old(self),
    {
        slice_subrange(self.buffer, self.position, total_len)
    }
}

/// The two-byte big-endian length prefix for `n` bytes.
pub open spec fn length_prefix(n: nat) -> Seq<u8> {
    seq![(n / 0x100) as u8, (n % 0x100) as u8]
}

/// A string's UTF-8 bytes behind their two-byte length read back as a string of that
/// length, and any view read from them holds exactly the original characters.
pub proof fn lemma_string_round_trip(chars: Seq<char>, tail: Seq<u8>, s: EncodedString)
    requires
        encode_utf8(chars).len() <= u16::MAX,
    ensures
        ({
            let body = encode_utf8(chars);
            let b = length_prefix(body.len()) + body + tail;
            &&& string_spec(b) == Ok::<u16, ParseError>(body.len() as u16)
            &&& s.encoded_at(b) ==> s.string@ == chars && s.len == body.len()
        }),
{
    let body = encode_utf8(chars);
    let n = body.len();
    let b = length_prefix(n) + body + tail;
    assert((n / 0x100) as u8 as int * 0x100 + (n % 0x100) as u8 as int == n);
    assert(be_u16(b, 0) == n as u16);
    assert(b.subrange(2, 2 + n as int) =~= body);
    encode_utf8_valid_utf8(chars);
    if s.encoded_at(b) {
        encode_utf8_decode_utf8(chars);
        encode_utf8_decode_utf8(s.string@);
    }
}

/// Reading any field from too few bytes gives `IndexOutOfBounce`: a length-prefixed field
/// whose prefix or announced bytes are cut short, and a variable-byte integer whose
/// continuation bits run past the end.
pub proof fn lemma_short_buffer(b: Seq<u8>)
    ensures
        b.len() < 2 ==> prefixed_spec(b) == Err::<u16, ParseError>(ParseError::IndexOutOfBounce)
            && string_spec(b) == Err::<u16, ParseError>(ParseError::IndexOutOfBounce),
        b.len() >= 2 && b.len() < 2 + be_u16(b, 0) ==> prefixed_spec(b) == Err::<u16, ParseError>(
            ParseError::IndexOutOfBounce,
        ) && string_spec(b) == Err::<u16, ParseError>(ParseError::IndexOutOfBounce),
        b.len() < 4 && (forall|i: int| 0 <= i < b.len() ==> b[i] >= 0x80) ==> vbi_spec(b) == Err::<
            (u32, nat),
            ParseError,
        >(ParseError::IndexOutOfBounce),
{
    if b.len() < 4 && (forall|i: int| 0 <= i < b.len() ==> b[i] >= 0x80) {
        if b.len() >= 1 { assert(b[0] >= 0x80); }
        if b.len() >= 2 { assert(b[1] >= 0x80); }
        if b.len() >= 3 { assert(b[2] >= 0x80); }
    }
}

} // verus!

use vstd::prelude::*;

use crate::buffer_reader::ParseError;

verus! {

/// Largest value that a variable-byte integer can carry.
pub const VBI_MAX: u32 = 268435455;

/// Outcome of reading a variable-byte integer from the start of `b`: the value and the
/// number of bytes it occupies, found by following the continuation bits.
pub open spec fn vbi_spec(b: Seq<u8>) -> Result<(u32, nat), ParseError> {
    if b.len() < 1 {
        Err(ParseError::IndexOutOfBounce)
    } else if b[0] < 0x80 {
        Ok((b[0] as u32, 1))
    } else if b.len() < 2 {
        Err(ParseError::IndexOutOfBounce)
    } else if b[1] < 0x80 {
        Ok((((b[0] - 0x80) + b[1] as int * 0x80) as u32, 2))
    } else if b.len() < 3 {
        Err(ParseError::IndexOutOfBounce)
    } else if b[2] < 0x80 {
        Ok((((b[0] - 0x80) + (b[1] - 0x80) * 0x80 + b[2] as int * 0x4000) as u32, 3))
    } else if b.len() < 4 {
        Err(ParseError::IndexOutOfBounce)
    } else if b[3] < 0x80 {
        Ok((
            ((b[0] - 0x80) + (b[1] - 0x80) * 0x80 + (b[2] - 0x80) * 0x4000 + b[3] as int
                * 0x200000) as u32,
            4,
        ))
    } else {
        Err(ParseError::VariableByteIntegerError)
    }
}

/// Number of bytes in the shortest encoding of `v`.
pub open spec fn vbi_size(v: nat) -> nat {
    if v < 0x80 {
        1
    } else if v < 0x4000 {
        2
    } else if v < 0x200000 {
        3
    } else {
        4
    }
}

/// Shortest encoding of `v`: seven-bit groups from the lowest, the continuation bit set
/// on every byte but the last.
pub open spec fn vbi_encode(v: nat) -> Seq<u8> {
    if v < 0x80 {
        seq![v as u8]
    } else if v < 0x4000 {
        seq![(v % 0x80 + 0x80) as u8, (v / 0x80) as u8]
    } else if v < 0x200000 {
        seq![(v % 0x80 + 0x80) as u8, ((v / 0x80) % 0x80 + 0x80) as u8, (v / 0x4000) as u8]
    } else {
        seq![
            (v % 0x80 + 0x80) as u8,
            ((v / 0x80) % 0x80 + 0x80) as u8,
            ((v / 0x4000) % 0x80 + 0x80) as u8,
            (v / 0x200000) as u8,
        ]
    }
}

/// Decodes the variable-byte integer at the start of `b`, giving its value and the
/// number of bytes it took.
pub fn decode_variable_byte_int(b: &[u8]) -> (r: Result<(u32, usize), ParseError>)
    ensures
        match vbi_spec(b@) {
            Ok((v, n)) => r == Ok::<(u32, usize), ParseError>((v, n as usize)),
            Err(e) => r == Err::<(u32, usize), ParseError>(e),
        },
{
    let avail = b.len();
    if avail < 1 {
        return Err(ParseError::IndexOutOfBounce);
    }
    let b0 = b[0];
    if b0 < 0x80 {
        return Ok((b0 as u32, 1));
    }
    if avail < 2 {
        return Err(ParseError::IndexOutOfBounce);
    }
    let b1 = b[1];
    let low: u32 = (b0 - 0x80) as u32;
    if b1 < 0x80 {
        return Ok((low + (b1 as u32) * 0x80, 2));
    }
    if avail < 3 {
        return Err(ParseError::IndexOutOfBounce);
    }
    let b2 = b[2];
    let low: u32 = low + ((b1 - 0x80) as u32) * 0x80;
    if b2 < 0x80 {
        return Ok((low + (b2 as u32) * 0x4000, 3));
    }
    if avail < 4 {
        return Err(ParseError::IndexOutOfBounce);
    }
    let b3 = b[3];
    let low: u32 = low + ((b2 - 0x80) as u32) * 0x4000;
    if b3 < 0x80 {
        return Ok((low + (b3 as u32) * 0x200000, 4));
    }
    Err(ParseError::VariableByteIntegerError)
}

/// Encodes `value` in the shortest form: the bytes, of which the first `n` count.
/// Values above the largest encodable one are refused.
pub fn encode_variable_byte_int(value: u32) -> (r: Result<([u8; 4], usize), ParseError>)
    ensures
        value > VBI_MAX ==> r == Err::<([u8; 4], usize), ParseError>(ParseError::EncodingError),
        value <= VBI_MAX ==> (r matches Ok((bytes, n)) && n == vbi_size(value as nat)
            && bytes@.subrange(0, n as int) == vbi_encode(value as nat)),
{
    if value > VBI_MAX {
        return Err(ParseError::EncodingError);
    }
    let v = value;
    let mut bytes: [u8; 4] = [0; 4];
    if v < 0x80 {
        bytes[0] = v as u8;
        assert(bytes@.subrange(0, 1) =~= vbi_encode(v as nat));
        return Ok((bytes, 1));
    }
    bytes[0] = (v % 0x80 + 0x80) as u8;
    if v < 0x4000 {
        bytes[1] = (v / 0x80) as u8;
        assert(bytes@.subrange(0, 2) =~= vbi_encode(v as nat));
        return Ok((bytes, 2));
    }
    bytes[1] = ((v / 0x80) % 0x80 + 0x80) as u8;
    if v < 0x200000 {
        bytes[2] = (v / 0x4000) as u8;
        assert(bytes@.subrange(0, 3) =~= vbi_encode(v as nat));
        return Ok((bytes, 3));
    }
    bytes[2] = ((v / 0x4000) % 0x80 + 0x80) as u8;
    bytes[3] = (v / 0x200000) as u8;
    assert(bytes@.subrange(0, 4) =~= vbi_encode(v as nat));
    Ok((bytes, 4))
}

/// Encoding a value and decoding it again gives the value back, and the decoder takes
/// exactly the encoded bytes, whatever follows them.
pub proof fn lemma_vbi_round_trip(v: u32, tail: Seq<u8>)
    requires
        v <= VBI_MAX,
    ensures
        vbi_spec(vbi_encode(v as nat) + tail) == Ok::<(u32, nat), ParseError>(
            (v, vbi_size(v as nat)),
        ),
        vbi_encode(v as nat).len() == vbi_size(v as nat),
{
    let x = v as nat;
    let b = vbi_encode(x) + tail;
    assert(x % 0x80 + 0x80 * (x / 0x80) == x) by (nonlinear_arith);
    assert((x / 0x80) % 0x80 + 0x80 * (x / 0x4000) == x / 0x80) by (nonlinear_arith);
    assert((x / 0x4000) % 0x80 + 0x80 * (x / 0x200000) == x / 0x4000) by (nonlinear_arith);
    assert(x < 0x10000000 ==> x / 0x200000 < 0x80) by (nonlinear_arith);
    assert(x < 0x200000 ==> x / 0x4000 < 0x80) by (nonlinear_arith);
    assert(x < 0x4000 ==> x / 0x80 < 0x80) by (nonlinear_arith);
    assert(x >= 0x4000 ==> x / 0x80 >= 0x80) by (nonlinear_arith);
    assert(x >= 0x200000 ==> x / 0x4000 >= 0x80) by (nonlinear_arith);
    if x < 0x80 {
    } else if x < 0x4000 {
        assert(b[0] == (x % 0x80 + 0x80) as u8);
        assert(b[1] == (x / 0x80) as u8);
    } else if x < 0x200000 {
        assert(b[0] == (x % 0x80 + 0x80) as u8);
        assert(b[1] == ((x / 0x80) % 0x80 + 0x80) as u8);
        assert(b[2] == (x / 0x4000) as u8);
    } else {
        assert(b[0] == (x % 0x80 + 0x80) as u8);
        assert(b[1] == ((x / 0x80) % 0x80 + 0x80) as u8);
        assert(b[2] == ((x / 0x4000) % 0x80 + 0x80) as u8);
        assert(b[3] == (x / 0x200000) as u8);
    }
}

} // verus!

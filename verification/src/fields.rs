//! FixedFieldReader: big-endian unsigned integers and verbatim byte
//! spans read at a position in the buffer. A read fails — rather than
//! returning a short or padded value — whenever fewer bytes remain
//! than requested.

use vstd::prelude::*;
use vstd::utf8::decode_utf8;
use vstd::utf8::valid_utf8;

verus! {

/// The big-endian 16-bit value stored at index `i`.
pub open spec fn be_u16_spec(b: Seq<u8>, i: int) -> int {
    b[i] * 0x100 + b[i + 1]
}

/// The big-endian 32-bit value stored at index `i`.
pub open spec fn be_u32_spec(b: Seq<u8>, i: int) -> int {
    b[i] * 0x1000000 + b[i + 1] * 0x10000 + b[i + 2] * 0x100 + b[i + 3]
}

/// Reads the byte at `base + off` without advancing past the buffer.
pub fn read_u8_off(buffer: &Vec<u8>, base: usize, off: usize) -> (r: Option<u8>)
    ensures
        match r {
            Some(v) => base + off < buffer@.len() && v == buffer@[base as int + off as int],
            None => base + off >= buffer@.len(),
        },
{
    let blen = buffer.len();
    if off < blen && base < blen - off {
        Some(buffer[base + off])
    } else {
        None
    }
}

/// Reads a big-endian 16-bit integer at `pos`.
pub fn read_u16_be(buffer: &Vec<u8>, pos: usize) -> (r: Option<u16>)
    ensures
        match r {
            Some(v) => pos + 2 <= buffer@.len() && v == be_u16_spec(buffer@, pos as int),
            None => pos + 2 > buffer@.len(),
        },
{
    let blen = buffer.len();
    if blen >= 2 && pos <= blen - 2 {
        let b0 = buffer[pos];
        let b1 = buffer[pos + 1];
        Some((b0 as u16) * 0x100 + (b1 as u16))
    } else {
        None
    }
}

/// Reads a big-endian 32-bit integer at `pos`.
pub fn read_u32_be(buffer: &Vec<u8>, pos: usize) -> (r: Option<u32>)
    ensures
        match r {
            Some(v) => pos + 4 <= buffer@.len() && v == be_u32_spec(buffer@, pos as int),
            None => pos + 4 > buffer@.len(),
        },
{
    let blen = buffer.len();
    if blen >= 4 && pos <= blen - 4 {
        let b0 = buffer[pos];
        let b1 = buffer[pos + 1];
        let b2 = buffer[pos + 2];
        let b3 = buffer[pos + 3];
        Some((b0 as u32) * 0x1000000 + (b1 as u32) * 0x10000 + (b2 as u32) * 0x100 + (b3 as u32))
    } else {
        None
    }
}

/// Reads a verbatim span of exactly `count` bytes starting at `pos`.
pub fn read_bytes(buffer: &Vec<u8>, pos: usize, count: usize) -> (r: Option<Vec<u8>>)
    ensures
        match r {
            Some(v) => pos + count <= buffer@.len() && v@ == buffer@.subrange(
                pos as int,
                pos as int + count as int,
            ),
            None => pos + count > buffer@.len(),
        },
{
    let blen = buffer.len();
    if count <= blen && pos <= blen - count {
        let mut v: Vec<u8> = Vec::new();
        let mut k: usize = 0;
        while k < count
            invariant
                blen == buffer@.len(),
                pos + count <= blen,
                k <= count,
                v@.len() == k,
                forall|j: int| 0 <= j < k ==> v@[j] == buffer@[pos as int + j],
            decreases count - k,
        {
            v.push(buffer[pos + k]);
            k = k + 1;
        }
        proof {
            assert(v@ =~= buffer@.subrange(pos as int, pos as int + count as int));
        }
        Some(v)
    } else {
        None
    }
}

/// Relies on `String::from_utf8`: it succeeds exactly on input that is
/// valid UTF-8, and then returns the string whose characters are the
/// decoding of those bytes.
#[verifier::external_body]
pub(crate) fn bytes_to_string(bytes: Vec<u8>) -> (r: Option<String>)
    ensures
        match r {
            Some(s) => valid_utf8(bytes@) && s@ == decode_utf8(bytes@),
            None => !valid_utf8(bytes@),
        },
{
    String::from_utf8(bytes).ok()
}

} // verus!

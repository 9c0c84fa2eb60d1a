//! Primitive fixed-width and variable-length decoders over a byte slice with
//! an explicit cursor. Every read is bounds-checked and yields `None` instead
//! of trapping.

use vstd::prelude::*;

verus! {

/// The byte at `pos`, or `None` past the end.
pub open spec fn spec_read_u8(data: Seq<u8>, pos: int) -> Option<u8> {
    if 0 <= pos < data.len() {
        Some(data[pos])
    } else {
        None
    }
}

/// The byte at `pos` reinterpreted as a signed byte.
pub open spec fn spec_read_i8(data: Seq<u8>, pos: int) -> Option<i8> {
    if 0 <= pos < data.len() {
        Some(data[pos] as i8)
    } else {
        None
    }
}

/// The two bytes at `pos` assembled little-endian.
pub open spec fn spec_read_u16_le(data: Seq<u8>, pos: int) -> Option<u16> {
    if 0 <= pos && pos + 2 <= data.len() {
        Some((data[pos] as u16) | ((data[pos + 1] as u16) << 8))
    } else {
        None
    }
}

/// The four bytes at `pos` assembled little-endian.
pub open spec fn spec_read_u32_le(data: Seq<u8>, pos: int) -> Option<u32> {
    if 0 <= pos && pos + 4 <= data.len() {
        Some(
            (data[pos] as u32) | ((data[pos + 1] as u32) << 8) | ((data[pos + 2] as u32) << 16) | (
            (data[pos + 3] as u32) << 24),
        )
    } else {
        None
    }
}

pub fn read_u8(data: &[u8], pos: usize) -> (r: Option<u8>)
    ensures
        r == spec_read_u8(data@, pos as int),
{
    if pos < data.len() {
        Some(data[pos])
    } else {
        None
    }
}

pub fn read_i8(data: &[u8], pos: usize) -> (r: Option<i8>)
    ensures
        r == spec_read_i8(data@, pos as int),
{
    if pos < data.len() {
        Some(#[verifier::truncate] (data[pos] as i8))
    } else {
        None
    }
}

pub fn read_u16_le(data: &[u8], pos: usize) -> (r: Option<u16>)
    ensures
        r == spec_read_u16_le(data@, pos as int),
{
    if pos < data.len() && data.len() - pos >= 2 {
        Some((data[pos] as u16) | ((data[pos + 1] as u16) << 8))
    } else {
        None
    }
}

pub fn read_u32_le(data: &[u8], pos: usize) -> (r: Option<u32>)
    ensures
        r == spec_read_u32_le(data@, pos as int),
{
    if pos < data.len() && data.len() - pos >= 4 {
        Some(
            (data[pos] as u32) | ((data[pos + 1] as u32) << 8) | ((data[pos + 2] as u32) << 16) | (
            (data[pos + 3] as u32) << 24),
        )
    } else {
        None
    }
}

/// Unsigned LEB128 decoding from `pos`, with `acc` and `shift` carrying the
/// groups already consumed. Fails past the end of `data` and when a
/// continuation would shift past 64 bits.
pub open spec fn uleb_from(data: Seq<u8>, pos: int, shift: u32, acc: u64) -> Option<(u64, int)>
    recommends
        shift <= 63,
    decreases 64 - shift,
{
    if pos < 0 || pos >= data.len() || shift > 63 {
        None
    } else {
        let byte = data[pos];
        let acc2 = acc | (((byte & 0x7f) as u64) << shift);
        if byte & 0x80 == 0 {
            Some((acc2, 1))
        } else if shift + 7 >= 64 {
            None
        } else {
            match uleb_from(data, pos + 1, (shift + 7) as u32, acc2) {
                None => None,
                Some((v, n)) => Some((v, n + 1)),
            }
        }
    }
}

/// The unsigned LEB128 value at `pos` and the number of bytes it occupies.
pub open spec fn spec_read_uleb128(data: Seq<u8>, pos: int) -> Option<(u64, int)> {
    uleb_from(data, pos, 0, 0)
}

/// Signed LEB128 decoding from `pos`; the sign bit of the final group is
/// extended only when fewer than 64 bits were consumed.
pub open spec fn sleb_from(data: Seq<u8>, pos: int, shift: u32, acc: i64) -> Option<(i64, int)>
    recommends
        shift <= 63,
    decreases 64 - shift,
{
    if pos < 0 || pos >= data.len() || shift > 63 {
        None
    } else {
        let byte = data[pos];
        let acc2 = acc | (((byte & 0x7f) as i64) << shift);
        if byte & 0x80 == 0 {
            if shift + 7 < 64 && byte & 0x40 != 0 {
                Some(((acc2 | ((!0i64) << ((shift + 7) as u32))), 1))
            } else {
                Some((acc2, 1))
            }
        } else if shift + 7 >= 64 {
            None
        } else {
            match sleb_from(data, pos + 1, (shift + 7) as u32, acc2) {
                None => None,
                Some((v, n)) => Some((v, n + 1)),
            }
        }
    }
}

/// The signed LEB128 value at `pos` and the number of bytes it occupies.
pub open spec fn spec_read_sleb128(data: Seq<u8>, pos: int) -> Option<(i64, int)> {
    sleb_from(data, pos, 0, 0)
}

pub fn read_uleb128(data: &[u8], pos: usize) -> (r: Option<(u64, usize)>)
    ensures
        match r {
            None => spec_read_uleb128(data@, pos as int) is None,
            Some((v, n)) => spec_read_uleb128(data@, pos as int) == Some((v, n as int)),
        },
{
    let mut result: u64 = 0;
    let mut shift: u32 = 0;
    let mut consumed: usize = 0;
    loop
        invariant
            shift == 7 * consumed,
            shift <= 63,
            match uleb_from(data@, pos + consumed, shift, result) {
                None => spec_read_uleb128(data@, pos as int) is None,
                Some((v, n)) => spec_read_uleb128(data@, pos as int) == Some(
                    (v, n + consumed as int),
                ),
            },
        decreases 64 - shift,
    {
        if pos >= data.len() || consumed >= data.len() - pos {
            return None;
        }
        let byte = data[pos + consumed];
        let acc2 = result | (((byte & 0x7f) as u64) << shift);
        if byte & 0x80 == 0 {
            return Some((acc2, consumed + 1));
        }
        if shift + 7 >= 64 {
            return None;
        }
        result = acc2;
        shift = shift + 7;
        consumed = consumed + 1;
    }
}

pub fn read_sleb128(data: &[u8], pos: usize) -> (r: Option<(i64, usize)>)
    ensures
        match r {
            None => spec_read_sleb128(data@, pos as int) is None,
            Some((v, n)) => spec_read_sleb128(data@, pos as int) == Some((v, n as int)),
        },
{
    let mut result: i64 = 0;
    let mut shift: u32 = 0;
    let mut consumed: usize = 0;
    loop
        invariant
            shift == 7 * consumed,
            shift <= 63,
            match sleb_from(data@, pos + consumed, shift, result) {
                None => spec_read_sleb128(data@, pos as int) is None,
                Some((v, n)) => spec_read_sleb128(data@, pos as int) == Some(
                    (v, n + consumed as int),
                ),
            },
        decreases 64 - shift,
    {
        if pos >= data.len() || consumed >= data.len() - pos {
            return None;
        }
        let byte = data[pos + consumed];
        let acc2 = result | (((byte & 0x7f) as i64) << shift);
        if byte & 0x80 == 0 {
            if shift + 7 < 64 && byte & 0x40 != 0 {
                return Some((acc2 | ((!0i64) << (shift + 7)), consumed + 1));
            }
            return Some((acc2, consumed + 1));
        }
        if shift + 7 >= 64 {
            return None;
        }
        result = acc2;
        shift = shift + 7;
        consumed = consumed + 1;
    }
}

/// Position of the first zero byte at or after `pos`.
pub open spec fn spec_first_nul(data: Seq<u8>, pos: int) -> Option<int>
    decreases data.len() - pos,
{
    if pos < 0 || pos >= data.len() {
        None
    } else if data[pos] == 0 {
        Some(pos)
    } else {
        spec_first_nul(data, pos + 1)
    }
}

/// The null-terminated string starting at `pos` and the number of bytes
/// consumed, terminator included. Fails when no terminator follows or the
/// bytes before it are not valid UTF-8.
pub open spec fn spec_read_cstr(data: Seq<u8>, pos: int) -> Option<(Seq<char>, int)> {
    match spec_first_nul(data, pos) {
        None => None,
        Some(k) => {
            let bytes = data.subrange(pos, k);
            if vstd::utf8::valid_utf8(bytes) {
                Some((vstd::utf8::decode_utf8(bytes), k + 1 - pos))
            } else {
                None
            }
        },
    }
}

/// Relies on str::from_utf8: succeeds exactly on valid UTF-8 and returns the
/// decoded character sequence.
#[verifier::external_body]
pub(crate) fn bytes_to_string(bytes: &[u8]) -> (r: Option<String>)
    ensures
        (r is Some) == vstd::utf8::valid_utf8(bytes@),
        r matches Some(s) ==> s@ == vstd::utf8::decode_utf8(bytes@),
{
    match core::str::from_utf8(bytes) {
        Ok(s) => Some(s.to_string()),
        Err(_) => None,
    }
}

pub fn read_cstr(data: &[u8], pos: usize) -> (r: Option<(String, usize)>)
    ensures
        match r {
            None => spec_read_cstr(data@, pos as int) is None,
            Some((s, n)) => spec_read_cstr(data@, pos as int) matches Some((sp, np)) && sp == s@
                && np == n as int,
        },
{
    match find_nul(data, pos) {
        None => None,
        Some(k) => {
            let len = data.len();
            assert(k < len);
            let bytes = vstd::slice::slice_subrange(data, pos, k);
            match bytes_to_string(bytes) {
                None => None,
                Some(s) => Some((s, k + 1 - pos)),
            }
        },
    }
}

fn find_nul(data: &[u8], pos: usize) -> (r: Option<usize>)
    ensures
        match r {
            None => spec_first_nul(data@, pos as int) is None,
            Some(k) => spec_first_nul(data@, pos as int) == Some(k as int) && pos <= k < data@.len()
                && data@[k as int] == 0,
        },
{
    let mut k = pos;
    loop
        invariant
            pos <= k,
            spec_first_nul(data@, pos as int) == spec_first_nul(data@, k as int),
        decreases data@.len() - k,
    {
        if k >= data.len() {
            return None;
        }
        if data[k] == 0 {
            return Some(k);
        }
        k = k + 1;
    }
}

} // verus!

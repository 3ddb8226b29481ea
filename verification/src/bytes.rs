//! Little-endian integer reads from byte buffers.

use vstd::prelude::*;
use vstd::slice::slice_index_get;

use crate::error::BuildError;

verus! {

/// The little-endian 16-bit value held at `s[i]..s[i+2]`.
pub open spec fn spec_le_u16(s: Seq<u8>, i: int) -> int
    recommends
        0 <= i,
        i + 2 <= s.len(),
{
    s[i] as int + s[i + 1] as int * 0x100
}

/// The little-endian 32-bit value held at `s[i]..s[i+4]`.
pub open spec fn spec_le_u32(s: Seq<u8>, i: int) -> int
    recommends
        0 <= i,
        i + 4 <= s.len(),
{
    s[i] as int + s[i + 1] as int * 0x100 + s[i + 2] as int * 0x10000 + s[i + 3] as int
        * 0x1000000
}

/// Reads the little-endian 32-bit value at the start of `data`; fails when
/// fewer than four bytes are supplied.
pub fn read_u32(data: &[u8]) -> (r: Result<u32, BuildError>)
    ensures
        data@.len() >= 4 ==> r == Ok::<u32, BuildError>((spec_le_u32(data@, 0) as u32)),
        data@.len() < 4 ==> r == Err::<u32, BuildError>(BuildError::MalformedTable),
        r matches Ok(v) ==> v == spec_le_u32(data@, 0),
{
    if data.len() < 4 {
        Err(BuildError::MalformedTable)
    } else {
        let b0 = *slice_index_get(data, 0);
        let b1 = *slice_index_get(data, 1);
        let b2 = *slice_index_get(data, 2);
        let b3 = *slice_index_get(data, 3);
        Ok(b0 as u32 + b1 as u32 * 0x100 + b2 as u32 * 0x10000 + b3 as u32 * 0x1000000)
    }
}

/// Reads the little-endian 16-bit value at the start of `data`; fails when
/// fewer than two bytes are supplied.
pub fn read_u16(data: &[u8]) -> (r: Result<u16, BuildError>)
    ensures
        data@.len() >= 2 ==> r == Ok::<u16, BuildError>((spec_le_u16(data@, 0) as u16)),
        data@.len() < 2 ==> r == Err::<u16, BuildError>(BuildError::MalformedTable),
        r matches Ok(v) ==> v == spec_le_u16(data@, 0),
{
    if data.len() < 2 {
        Err(BuildError::MalformedTable)
    } else {
        let b0 = *slice_index_get(data, 0);
        let b1 = *slice_index_get(data, 1);
        Ok(b0 as u16 + b1 as u16 * 0x100)
    }
}

} // verus!

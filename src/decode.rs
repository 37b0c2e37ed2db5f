//! Reading little-endian 16-bit samples out of raw chunk bytes.

use vstd::prelude::*;
use crate::tempo::AnalysisError;

verus! {

/// The unsigned sample stored little-endian at bytes `2 * i` and `2 * i + 1`.
pub open spec fn le16_at(b: Seq<u8>, i: int) -> u16 {
    (b[2 * i] as int + 256 * b[2 * i + 1] as int) as u16
}

/// Decodes a chunk into 16-bit unsigned samples, two bytes each, low byte first.
/// A chunk of odd length holds no whole number of samples and is refused.
pub fn decode_le16(bytes: &Vec<u8>) -> (r: Result<Vec<u16>, AnalysisError>)
    ensures
        bytes@.len() % 2 == 1 ==> r == Err::<Vec<u16>, AnalysisError>(AnalysisError::MalformedChunk),
        bytes@.len() % 2 == 0 ==> r is Ok,
        r is Ok ==> {
            let s = r->Ok_0@;
            &&& s.len() * 2 == bytes@.len()
            &&& forall|i: int| 0 <= i < s.len() ==> s[i] == le16_at(bytes@, i)
        },
{
    if bytes.len() % 2 == 1 {
        return Err(AnalysisError::MalformedChunk);
    }
    let n = bytes.len() / 2;
    let mut out: Vec<u16> = Vec::with_capacity(n);
    let mut i: usize = 0;
    while i < n
        invariant
            n * 2 == bytes@.len(),
            bytes@.len() <= usize::MAX,
            i <= n,
            out@.len() == i,
            forall|k: int| 0 <= k < i ==> out@[k] == le16_at(bytes@, k),
        decreases n - i,
    {
        let lo = bytes[2 * i] as u16;
        let hi = bytes[2 * i + 1] as u16;
        out.push(lo + 256 * hi);
        i = i + 1;
    }
    Ok(out)
}

} // verus!

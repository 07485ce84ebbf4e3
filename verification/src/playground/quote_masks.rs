use vstd::prelude::*;

verus! {

/// Sixteen copies of each byte that forces quoting, one block per byte.
#[derive(Debug, Clone, Copy)]
pub struct QuoteMasks {
    pub dq: [u8; 16],
    pub delim: [u8; 16],
    pub nl: [u8; 16],
    pub cr: [u8; 16],
}

/// Whether every byte of `block` is `b`.
pub open spec fn is_splat(block: Seq<u8>, b: u8) -> bool {
    block.len() == 16 && forall|i: int| 0 <= i < 16 ==> block[i] == b
}

impl QuoteMasks {
    /// The masks for `delimiter`, whose block holds the low byte of its code.
    pub fn new(delimiter: char) -> (r: Self)
        ensures
            is_splat(r.dq@, 34),
            is_splat(r.delim@, (delimiter as u32) as u8),
            is_splat(r.nl@, 10),
            is_splat(r.cr@, 13),
    {
        let code: u32 = delimiter as u32;
        let low: u8 = code as u8;
        Self { dq: [34u8; 16], delim: [low; 16], nl: [10u8; 16], cr: [13u8; 16] }
    }
}

} // verus!

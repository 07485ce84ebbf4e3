use rand::Rng;
use vstd::prelude::*;

verus! {

#[verifier::external_type_specification]
#[verifier::external_body]
pub struct ExPcg64Mcg(rand_pcg::Mcg128Xsl64);

/// Trusted: `char::from_u32`, whose documentation says it gives the character with
/// the given code when the code is a Unicode scalar value (at most U+10FFFF and not a
/// surrogate) and `None` otherwise.
pub assume_specification[ char::from_u32 ](i: u32) -> (r: Option<char>)
    ensures
        r is Some <==> vstd::utf8::is_scalar(i),
        r is Some ==> r->0 as u32 == i,
;

/// The number of characters that sample fields are made of.
pub const CANDIDATE_COUNT: usize = 270;

/// The code of the `i`-th sample character: the printable ASCII characters but the
/// double quote, then the hiragana from U+3041 to U+3096, then the katakana from
/// U+30A1 to U+30FA.
pub open spec fn candidate_code(i: int) -> int {
    if i < 2 {
        0x20 + i
    } else if i < 94 {
        0x21 + i
    } else if i < 180 {
        0x3041 + (i - 94)
    } else {
        0x30A1 + (i - 180)
    }
}

/// Distinct indices give distinct sample characters, none of them a double quote, so
/// the 270 indices name 270 different characters.
pub proof fn lemma_candidates_distinct(i: int, j: int)
    requires
        0 <= i < CANDIDATE_COUNT,
        0 <= j < CANDIDATE_COUNT,
    ensures
        i != j ==> candidate_code(i) != candidate_code(j),
        candidate_code(i) != 0x22,
{
}

/// The `i`-th sample character.
pub fn candidate(i: usize) -> (r: char)
    requires
        i < CANDIDATE_COUNT,
    ensures
        (r as u32) as int == candidate_code(i as int),
{
    let code: u32 = if i < 2 {
        0x20 + i as u32
    } else if i < 94 {
        0x21 + i as u32
    } else if i < 180 {
        0x3041 + (i as u32 - 94)
    } else {
        0x30A1 + (i as u32 - 180)
    };
    assert(code as int == candidate_code(i as int));
    assert(vstd::utf8::is_scalar(code));
    let c = char::from_u32(code).unwrap();
    assert(c as u32 == code);
    c
}

/// A random index below `n`.
///
/// Trusted: calls `rand::Rng::random_range` with the range `0..n`, which its
/// documentation says samples a value in the half-open range and panics only on an
/// empty range; the contract claims only that the index lies below `n`.
#[verifier::external_body]
fn random_index(rng: &mut rand_pcg::Mcg128Xsl64, n: usize) -> (r: usize)
    requires
        n > 0,
    ensures
        r < n,
{
    rng.random_range(0..n)
}

/// A random character among the sample characters.
pub fn get_char(rng: &mut rand_pcg::Mcg128Xsl64) -> (r: char)
    ensures
        exists|i: int| 0 <= i < CANDIDATE_COUNT && (r as u32) as int == candidate_code(i),
{
    let i = random_index(rng, CANDIDATE_COUNT);
    candidate(i)
}

} // verus!

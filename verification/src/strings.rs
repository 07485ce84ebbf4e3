use vstd::prelude::*;

verus! {

/// Appends one character to a `String`.
///
/// Trusted: calls `String::push`, whose documentation says it appends the given
/// `char` to the end of the string; the contract claims exactly that of the
/// character view.
#[verifier::external_body]
pub fn push_char(s: &mut String, c: char)
    ensures
        final(s)@ == old(s)@.push(c),
{
    s.push(c);
}

/// Appends a string slice to a `String`.
///
/// Trusted: calls `String::push_str`, whose documentation says it appends the
/// given slice to the end of the string; the contract claims exactly that of the
/// character view.
#[verifier::external_body]
pub fn push_str(s: &mut String, t: &str)
    ensures
        final(s)@ == old(s)@ + t@,
{
    s.push_str(t);
}

/// A `String` holding exactly the characters of `t`.
pub fn to_owned_string(t: &str) -> (r: String)
    ensures
        r@ == t@,
{
    t.to_owned()
}

/// The UTF-8 bytes of one character, computed by the standard bit layout.
pub fn encode_char(c: char) -> (r: Vec<u8>)
    ensures
        r@ == vstd::utf8::encode_scalar(c as u32),
        r@ == vstd::utf8::encode_utf8(seq![c]),
{
    let v: u32 = c as u32;
    let mut r: Vec<u8> = Vec::new();
    if v <= 0x7F {
        r.push((v & 0x7F) as u8);
    } else if v <= 0x7FF {
        r.push(0xC0 | ((v >> 6) & 0x1F) as u8);
        r.push(0x80 | (v & 0x3F) as u8);
    } else if v <= 0xFFFF {
        r.push(0xE0 | ((v >> 12) & 0x0F) as u8);
        r.push(0x80 | ((v >> 6) & 0x3F) as u8);
        r.push(0x80 | (v & 0x3F) as u8);
    } else {
        r.push(0xF0 | ((v >> 18) & 0x7) as u8);
        r.push(0x80 | ((v >> 12) & 0x3F) as u8);
        r.push(0x80 | ((v >> 6) & 0x3F) as u8);
        r.push(0x80 | (v & 0x3F) as u8);
    }
    proof {
        broadcast use vstd::utf8::char_is_scalar;
        let s = seq![c];
        assert(s.drop_first() =~= Seq::<char>::empty());
        assert(vstd::utf8::encode_utf8(s) =~= vstd::utf8::encode_scalar(c as u32) + vstd::utf8::encode_utf8(s.drop_first()));
        assert(r@ =~= vstd::utf8::encode_scalar(c as u32));
    }
    r
}

/// The UTF-8 form of two texts put together is their UTF-8 forms put together.
pub proof fn lemma_encode_utf8_concat(a: Seq<char>, b: Seq<char>)
    ensures
        vstd::utf8::encode_utf8(a + b) == vstd::utf8::encode_utf8(a) + vstd::utf8::encode_utf8(b),
    decreases a.len(),
{
    if a.len() > 0 {
        assert((a + b).drop_first() =~= a.drop_first() + b);
        assert((a + b)[0] == a[0]);
        lemma_encode_utf8_concat(a.drop_first(), b);
        assert(vstd::utf8::encode_utf8(a + b) =~= vstd::utf8::encode_utf8(a) + vstd::utf8::encode_utf8(b));
    } else {
        assert(a + b =~= b);
        assert(vstd::utf8::encode_utf8(a) =~= Seq::<u8>::empty());
        assert(vstd::utf8::encode_utf8(a) + vstd::utf8::encode_utf8(b) =~= vstd::utf8::encode_utf8(b));
    }
}

/// An ASCII character is one byte in UTF-8: its own code.
pub proof fn lemma_encode_ascii_char(c: char)
    requires
        (c as u32) < 128,
    ensures
        vstd::utf8::encode_utf8(seq![c]) == seq![(c as u32) as u8],
{
    let v = c as u32;
    assert(seq![c].drop_first() =~= Seq::<char>::empty());
    assert((v & 0x7F) as u8 == v as u8) by (bit_vector)
        requires
            v < 128,
    ;
    assert(vstd::utf8::encode_utf8(Seq::<char>::empty()) =~= Seq::<u8>::empty());
    assert(vstd::utf8::encode_scalar(v) =~= seq![(c as u32) as u8]);
    assert(vstd::utf8::encode_utf8(seq![c]) =~= vstd::utf8::encode_scalar(seq![c][0] as u32)
        + vstd::utf8::encode_utf8(seq![c].drop_first()));
    assert(vstd::utf8::encode_utf8(seq![c]) =~= seq![(c as u32) as u8]);
}

} // verus!

//! The boundary to the evaluation engine, which takes an expression as a
//! null-terminated sequence of bytes.

use vstd::prelude::*;
use vstd::string::StringSliceAdditionalSpecFns;
use vstd::utf8::{encode_utf8, is_ascii_chars_encode_utf8};
use crate::validator::{lemma_accepted_in_alphabet, valid_expression};

verus! {

/// Frames `text` for the engine: its bytes followed by one zero byte.
///
/// A zero byte inside `text` would end the expression early on the engine's
/// side, so such a text is refused with `None`.
pub fn null_terminated(text: &str) -> (framed: Option<Vec<u8>>)
    ensures
        framed is Some <==> !text.spec_bytes().contains(0u8),
        framed matches Some(bytes) ==> bytes@ == text.spec_bytes().push(0u8),
{
    let bytes = text.as_bytes();
    let mut framed: Vec<u8> = Vec::new();
    let mut i: usize = 0;
    while i < bytes.len()
        invariant
            bytes@ == text.spec_bytes(),
            i <= bytes@.len(),
            framed@ == bytes@.take(i as int),
            forall|j: int| 0 <= j < i ==> bytes@[j] != 0u8,
        decreases bytes@.len() - i,
    {
        let b = bytes[i];
        if b == 0 {
            return None;
        }
        framed.push(b);
        assert(framed@ =~= bytes@.take(i + 1));
        i += 1;
    }
    assert(bytes@.take(i as int) =~= bytes@);
    framed.push(0);
    Some(framed)
}

/// An accepted expression holds no zero byte, so framing it never fails.
pub proof fn lemma_accepted_has_no_zero_byte(s: Seq<char>)
    requires
        valid_expression(s),
    ensures
        !encode_utf8(s).contains(0u8),
{
    lemma_accepted_in_alphabet(s);
    is_ascii_chars_encode_utf8(s);
    let bytes = encode_utf8(s);
    assert forall|i: int| 0 <= i < bytes.len() implies bytes[i] != 0u8 by {
        assert(s[i] as u8 == bytes[i]);
    }
}

} // verus!

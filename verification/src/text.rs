//! Texts and bytes.

use vstd::prelude::*;
use vstd::utf8::encode_utf8;

verus! {

/// The bytes that encode a text.
pub open spec fn text_bytes(text: Seq<char>) -> Seq<u8> {
    encode_utf8(text)
}

/// The texts behind a vector of strings.
pub open spec fn texts_of(all: Seq<String>) -> Seq<Seq<char>> {
    Seq::new(all.len(), |i: int| all[i]@)
}

/// Two texts with the same bytes are the same text.
pub proof fn lemma_texts_by_bytes(a: Seq<char>, b: Seq<char>)
    ensures
        text_bytes(a) == text_bytes(b) ==> a == b,
{
    vstd::utf8::encode_utf8_decode_utf8(a);
    vstd::utf8::encode_utf8_decode_utf8(b);
}

/// Whether two texts are the same.
pub fn same_text(a: &str, b: &str) -> (r: bool)
    ensures
        r == (a@ == b@),
{
    let x = a.to_owned();
    let y = b.to_owned();
    x == y
}

/// Whether two runs of bytes are the same.
pub fn same_bytes(a: &[u8], b: &[u8]) -> (r: bool)
    ensures
        r == (a@ == b@),
{
    if a.len() != b.len() {
        return false;
    }
    let mut i: usize = 0;
    while i < a.len()
        invariant
            a.len() == b.len(),
            i <= a.len(),
            forall|j: int| 0 <= j < i ==> a@[j] == b@[j],
        decreases a.len() - i,
    {
        if a[i] != b[i] {
            return false;
        }
        i = i + 1;
    }
    assert(a@ =~= b@);
    true
}

} // verus!

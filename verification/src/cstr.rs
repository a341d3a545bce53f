//! Strings as C has them: bytes that end at the first zero byte.

use vstd::prelude::*;

verus! {

/// The place of the first zero byte in `bytes`, or their number where none is zero.
pub open spec fn nul_index(bytes: Seq<u8>) -> int
    decreases bytes.len(),
{
    if bytes.len() == 0 || bytes[0] == 0 {
        0
    } else {
        1 + nul_index(bytes.drop_first())
    }
}

/// The bytes before the first zero byte: all of them where none is zero.
pub open spec fn until_nul(bytes: Seq<u8>) -> Seq<u8> {
    bytes.take(nul_index(bytes))
}

/// What `nul_index` is: no byte before it is zero, and it is the end of the
/// bytes or the place of a zero byte.
pub proof fn lemma_nul_index(bytes: Seq<u8>)
    ensures
        0 <= nul_index(bytes) <= bytes.len(),
        forall|i: int| 0 <= i < nul_index(bytes) ==> bytes[i] != 0,
        nul_index(bytes) < bytes.len() ==> bytes[nul_index(bytes)] == 0,
    decreases bytes.len(),
{
    if bytes.len() == 0 || bytes[0] == 0 {
    } else {
        let rest = bytes.drop_first();
        lemma_nul_index(rest);
        assert forall|i: int| 0 <= i < nul_index(bytes) implies bytes[i] != 0 by {
            if i > 0 {
                assert(bytes[i] == rest[i - 1]);
            }
        }
        if nul_index(bytes) < bytes.len() {
            assert(bytes[nul_index(bytes)] == rest[nul_index(rest)]);
        }
    }
}

/// What is read up to the first zero byte holds no zero byte and is no longer
/// than what it is read from.
pub proof fn lemma_until_nul(bytes: Seq<u8>)
    ensures
        !until_nul(bytes).contains(0),
        until_nul(bytes).len() <= bytes.len(),
{
    lemma_nul_index(bytes);
    let text = until_nul(bytes);
    if text.contains(0) {
        let i = choose|i: int| 0 <= i < text.len() && text[i] == 0;
        assert(text[i] == bytes[i]);
    }
}

/// A place with no zero byte before it, which is the end of the bytes or
/// holds a zero byte, is `nul_index`.
pub proof fn lemma_nul_index_is(bytes: Seq<u8>, at: int)
    requires
        0 <= at <= bytes.len(),
        forall|i: int| 0 <= i < at ==> bytes[i] != 0,
        at < bytes.len() ==> bytes[at] == 0,
    ensures
        nul_index(bytes) == at,
{
    lemma_nul_index(bytes);
    let found = nul_index(bytes);
    if found < at {
        assert(bytes[found] == 0);
    } else if at < found {
        assert(bytes[at] != 0);
    }
}

/// A text that holds no zero byte is read back as it is, whatever number of
/// zero bytes fills up the space behind it.
pub proof fn lemma_until_nul_of_filled(text: Seq<u8>, filling: Seq<u8>)
    requires
        !text.contains(0),
        forall|i: int| 0 <= i < filling.len() ==> filling[i] == 0,
    ensures
        until_nul(text + filling) == text,
{
    let bytes = text + filling;
    assert forall|i: int| 0 <= i < text.len() implies bytes[i] != 0 by {
        assert(bytes[i] == text[i]);
        assert(text.contains(text[i]));
    }
    if text.len() < bytes.len() {
        assert(bytes[text.len() as int] == filling[0]);
    }
    lemma_nul_index_is(bytes, text.len() as int);
    assert(bytes.take(text.len() as int) =~= text);
}

/// Whatever `to_c_string` has written is read back by `from_c_string`.
pub proof fn lemma_round_trip(text: Seq<u8>)
    requires
        !text.contains(0),
    ensures
        until_nul(text.push(0)) == text,
{
    lemma_until_nul_of_filled(text, seq![0u8]);
    assert(text.push(0) =~= text + seq![0u8]);
}

/// The text with a zero byte after it, or nothing where the text holds a
/// zero byte itself and so cannot be written as a C string.
pub fn to_c_string(text: &[u8]) -> (result: Option<Vec<u8>>)
    ensures
        result.is_none() == text@.contains(0),
        result matches Some(terminated) ==> terminated@ == text@.push(0),
{
    let mut terminated: Vec<u8> = Vec::new();
    let mut at: usize = 0;
    while at < text.len()
        invariant
            at <= text.len(),
            terminated@ == text@.take(at as int),
            forall|i: int| 0 <= i < at ==> text@[i] != 0,
        decreases text.len() - at,
    {
        if text[at] == 0 {
            assert(text@.contains(0));
            return None;
        }
        terminated.push(text[at]);
        at += 1;
        assert(terminated@ =~= text@.take(at as int));
    }
    assert(text@.take(at as int) =~= text@);
    terminated.push(0);
    Some(terminated)
}

/// The text that `bytes` begin with: what stands before their first zero
/// byte.
pub fn from_c_string(bytes: &[u8]) -> (text: Vec<u8>)
    ensures
        text@ == until_nul(bytes@),
{
    let mut text: Vec<u8> = Vec::new();
    let mut at: usize = 0;
    while at < bytes.len() && bytes[at] != 0
        invariant
            at <= bytes.len(),
            text@ == bytes@.take(at as int),
            forall|i: int| 0 <= i < at ==> bytes@[i] != 0,
        decreases bytes.len() - at,
    {
        text.push(bytes[at]);
        at += 1;
        assert(text@ =~= bytes@.take(at as int));
    }
    proof {
        lemma_nul_index_is(bytes@, at as int);
    }
    text
}

} // verus!

//! The order of texts, and the texts in stored values.

use crate::text;
use vstd::prelude::*;
use vstd::utf8::*;

verus! {

/// A text comes before each longer text that begins with its bytes.
pub proof fn beginnings_come_first(a: Seq<char>, b: Seq<char>, rest: Seq<u8>)
    requires
        encode_utf8(b) == encode_utf8(a) + rest,
        rest.len() > 0,
    ensures
        text::text_before(a, b),
        !text::text_before(b, a),
{
    assert(text::parts_before(encode_utf8(a), encode_utf8(b), encode_utf8(a).len() as int));
    if text::text_before(b, a) {
        text::text_before_transitive(a, b, a);
        text::text_before_irreflexive(a);
    }
}

/// Where two texts share their first bytes and then differ, the one with the smaller byte comes
/// first.
pub proof fn smaller_bytes_come_first(
    a: Seq<char>,
    b: Seq<char>,
    shared: Seq<u8>,
    x: u8,
    y: u8,
    after_x: Seq<u8>,
    after_y: Seq<u8>,
)
    requires
        encode_utf8(a) == shared.push(x) + after_x,
        encode_utf8(b) == shared.push(y) + after_y,
        x < y,
    ensures
        text::text_before(a, b),
        !text::text_before(b, a),
{
    let (p, q) = (encode_utf8(a), encode_utf8(b));
    let k = shared.len() as int;
    assert(p[k] == x && q[k] == y);
    assert forall|i: int| 0 <= i < k implies p[i] == q[i] by {
        assert(p[i] == shared[i] && q[i] == shared[i]);
    }
    assert(text::parts_before(p, q, k));
    if text::text_before(b, a) {
        text::text_before_transitive(a, b, a);
        text::text_before_irreflexive(a);
    }
}

/// A value that is the encoding of a text holds that text, all of it.
pub proof fn encoded_texts_are_read_whole(t: Seq<char>)
    ensures
        text::text_in(Some(encode_utf8(t))) == Some(t),
{
    encode_utf8_valid_utf8(t);
    encode_utf8_decode_utf8(t);
}

/// A value holds a text only if it is the encoding of it.
pub proof fn texts_read_are_encoded(value: Option<Seq<u8>>, t: Seq<char>)
    requires
        text::text_in(value) == Some(t),
    ensures
        value == Some(encode_utf8(t)),
{
    decode_utf8_encode_utf8(value->0);
}

/// What is stored is what was handed over.
pub proof fn stored_values_are_kept(value: Option<Vec<u8>>)
    ensures
        value is None ==> text::stored(value) is None,
        value is Some ==> text::stored(value) == Some(value->0@),
{
}

} // verus!

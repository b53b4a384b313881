//! Characters, bytes and the order of text.

use vstd::prelude::*;
use vstd::string::*;
use vstd::utf8::*;

verus! {

/// The characters of `text`, in order.
pub(crate) fn chars_of(text: &str) -> (chars: Vec<char>)
    ensures
        chars@ == text@,
{
    let mut chars: Vec<char> = Vec::new();
    for c in it: text.chars()
        invariant
            it.seq() == text@,
            chars@ == it.seq().take(it.index() as int),
    {
        chars.push(c);
    }
    chars
}

/// The same bytes.
pub(crate) fn copy_bytes(bytes: &Vec<u8>) -> (copy: Vec<u8>)
    ensures
        copy@ == bytes@,
{
    let copy = bytes.clone();
    assert(copy@ =~= bytes@);
    copy
}

/// A stored value as a mathematical value.
pub open spec fn stored(value: Option<Vec<u8>>) -> Option<Seq<u8>> {
    match value {
        Some(bytes) => Some(bytes@),
        None => None,
    }
}

/// The text that a stored value holds: none where there is no value, or one that is no text. The
/// empty text is a text.
pub open spec fn text_in(value: Option<Seq<u8>>) -> Option<Seq<char>> {
    match value {
        Some(bytes) => if valid_utf8(bytes) {
            Some(decode_utf8(bytes))
        } else {
            None
        },
        None => None,
    }
}

/// The text that these bytes encode.
///
/// Calls `String::from_utf8`, which gives the text if the bytes are valid UTF-8 and an error
/// otherwise.
#[verifier::external_body]
pub(crate) fn text_from_utf8(bytes: Vec<u8>) -> (text: Result<String, ()>)
    ensures
        text is Ok <==> valid_utf8(bytes@),
        text is Ok ==> text->Ok_0@ == decode_utf8(bytes@),
{
    String::from_utf8(bytes).map_err(|_| ())
}

/// The text `prefix`, `middle`, `suffix` in one piece.
pub(crate) fn surround(prefix: &str, middle: &str, suffix: &str) -> (joined: String)
    ensures
        joined@ == prefix@ + middle@ + suffix@,
{
    let mut joined: String = prefix.to_owned();
    joined.append(middle);
    joined.append(suffix);
    joined
}

/// Where two byte strings lie in the dictionary order of bytes.
#[derive(Clone, Copy, Debug, PartialEq, Eq, Structural)]
pub enum Relation {
    /// The first comes before the second.
    Before,
    /// The two are the same.
    Same,
    /// The first comes after the second.
    After,
}

/// `a` and `b` agree on the positions below `k`.
pub open spec fn agree_below(a: Seq<u8>, b: Seq<u8>, k: int) -> bool {
    &&& 0 <= k <= a.len()
    &&& k <= b.len()
    &&& forall|i: int| 0 <= i < k ==> a[i] == b[i]
}

/// `a` comes before `b` in the dictionary order of bytes: at the first position `k` where they
/// part, `a` has ended or has the smaller byte.
pub open spec fn parts_before(a: Seq<u8>, b: Seq<u8>, k: int) -> bool {
    &&& agree_below(a, b, k)
    &&& k < b.len()
    &&& k == a.len() || a[k] < b[k]
}

/// `a` comes before `b` in the dictionary order of bytes.
pub open spec fn bytes_before(a: Seq<u8>, b: Seq<u8>) -> bool {
    exists|k: int| parts_before(a, b, k)
}

/// `a` comes before `b` in the order that `str` has: the dictionary order of the UTF-8 bytes.
pub open spec fn text_before(a: Seq<char>, b: Seq<char>) -> bool {
    bytes_before(encode_utf8(a), encode_utf8(b))
}

/// Texts with the same UTF-8 bytes are the same text.
pub proof fn encoding_is_injective(a: Seq<char>, b: Seq<char>)
    requires
        encode_utf8(a) == encode_utf8(b),
    ensures
        a == b,
{
    encode_utf8_decode_utf8(a);
    encode_utf8_decode_utf8(b);
}

/// No text comes before itself.
pub proof fn text_before_irreflexive(a: Seq<char>)
    ensures
        !text_before(a, a),
{
}

/// The order of texts is transitive.
pub proof fn text_before_transitive(a: Seq<char>, b: Seq<char>, c: Seq<char>)
    requires
        text_before(a, b),
        text_before(b, c),
    ensures
        text_before(a, c),
{
    let (x, y, z) = (encode_utf8(a), encode_utf8(b), encode_utf8(c));
    let k = choose|k: int| parts_before(x, y, k);
    let l = choose|l: int| parts_before(y, z, l);
    let m = if k <= l { k } else { l };
    assert(parts_before(x, z, m));
}

/// Of two different texts one comes before the other.
pub proof fn text_before_total(a: Seq<char>, b: Seq<char>)
    requires
        a != b,
    ensures
        text_before(a, b) || text_before(b, a),
{
    let (x, y) = (encode_utf8(a), encode_utf8(b));
    if x == y {
        encoding_is_injective(a, b);
    }
    let k = first_difference(x, y, 0);
    assert(parts_before(x, y, k) || parts_before(y, x, k));
}

/// The first position at or after `k` where two different byte strings that agree below `k` part.
proof fn first_difference(a: Seq<u8>, b: Seq<u8>, k: int) -> (d: int)
    requires
        agree_below(a, b, k),
        a != b,
    ensures
        agree_below(a, b, d),
        d == a.len() || d == b.len() || a[d] != b[d],
        !(d == a.len() && d == b.len()),
    decreases a.len() - k,
{
    if k == a.len() || k == b.len() || a[k] != b[k] {
        if k == a.len() && k == b.len() {
            assert(a =~= b);
        }
        k
    } else {
        first_difference(a, b, k + 1)
    }
}

/// Compares two texts as `str` does: byte by byte.
pub(crate) fn relate(a: &str, b: &str) -> (relation: Relation)
    ensures
        relation == Relation::Before <==> text_before(a@, b@),
        relation == Relation::Same <==> a@ == b@,
        relation == Relation::After <==> text_before(b@, a@),
{
    let x = a.as_bytes();
    let y = b.as_bytes();
    let mut i: usize = 0;
    while i < x.len() && i < y.len() && x[i] == y[i]
        invariant
            agree_below(x@, y@, i as int),
        decreases x.len() - i,
    {
        i += 1;
    }
    proof {
        text_before_irreflexive(a@);
        if text_before(a@, b@) && text_before(b@, a@) {
            text_before_transitive(a@, b@, a@);
        }
    }
    if i == x.len() && i == y.len() {
        proof {
            assert(x@ =~= y@);
            encoding_is_injective(a@, b@);
        }
        Relation::Same
    } else if i == x.len() || (i < y.len() && x[i] < y[i]) {
        assert(parts_before(x@, y@, i as int));
        Relation::Before
    } else {
        assert(parts_before(y@, x@, i as int));
        Relation::After
    }
}

/// Whether two texts are the same.
pub(crate) fn same_text(a: &str, b: &str) -> (same: bool)
    ensures
        same == (a@ == b@),
{
    matches!(relate(a, b), Relation::Same)
}

} // verus!

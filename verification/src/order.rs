//! The order in which ids are kept: that of their UTF-8 bytes, byte by byte.

use vstd::prelude::*;
use vstd::utf8::*;

verus! {

/// `a` comes before `b` when the two are compared from index `from` on: at the first index where
/// they differ `a` has the smaller byte, or `a` ends first.
pub open spec fn bytes_lt_from(a: Seq<u8>, b: Seq<u8>, from: int) -> bool
    decreases a.len() - from,
{
    if from < 0 || from >= b.len() {
        false
    } else if from >= a.len() {
        true
    } else if a[from] != b[from] {
        a[from] < b[from]
    } else {
        bytes_lt_from(a, b, from + 1)
    }
}

/// Strict lexicographic order on byte strings.
pub open spec fn bytes_lt(a: Seq<u8>, b: Seq<u8>) -> bool {
    bytes_lt_from(a, b, 0)
}

/// The strict order on ids: lexicographic on their UTF-8 encodings.
pub open spec fn id_lt(a: Seq<char>, b: Seq<char>) -> bool {
    bytes_lt(encode_utf8(a), encode_utf8(b))
}

proof fn lemma_bytes_lt_from_transitive(a: Seq<u8>, b: Seq<u8>, c: Seq<u8>, from: int)
    requires
        bytes_lt_from(a, b, from),
        bytes_lt_from(b, c, from),
    ensures
        bytes_lt_from(a, c, from),
    decreases a.len() - from,
{
    if from < a.len() && a[from] == b[from] && b[from] == c[from] {
        lemma_bytes_lt_from_transitive(a, b, c, from + 1);
    }
}

proof fn lemma_bytes_lt_from_asymmetric(a: Seq<u8>, b: Seq<u8>, from: int)
    requires
        bytes_lt_from(a, b, from),
    ensures
        !bytes_lt_from(b, a, from),
    decreases a.len() - from,
{
    if from < a.len() && a[from] == b[from] {
        lemma_bytes_lt_from_asymmetric(a, b, from + 1);
    }
}

proof fn lemma_bytes_lt_from_total(a: Seq<u8>, b: Seq<u8>, from: int)
    requires
        0 <= from <= a.len(),
        from <= b.len(),
        !bytes_lt_from(a, b, from),
        !bytes_lt_from(b, a, from),
    ensures
        a.len() == b.len(),
        forall|k: int| from <= k < a.len() ==> a[k] == b[k],
    decreases a.len() - from,
{
    if from < a.len() && from < b.len() {
        lemma_bytes_lt_from_total(a, b, from + 1);
    }
}

/// The order on ids is transitive.
pub proof fn lemma_id_lt_transitive(a: Seq<char>, b: Seq<char>, c: Seq<char>)
    requires
        id_lt(a, b),
        id_lt(b, c),
    ensures
        id_lt(a, c),
{
    lemma_bytes_lt_from_transitive(encode_utf8(a), encode_utf8(b), encode_utf8(c), 0);
}

/// No id comes before itself, and of two ids at most one comes before the other.
pub proof fn lemma_id_lt_asymmetric(a: Seq<char>, b: Seq<char>)
    requires
        id_lt(a, b),
    ensures
        !id_lt(b, a),
        a != b,
{
    lemma_bytes_lt_from_asymmetric(encode_utf8(a), encode_utf8(b), 0);
}

/// Two ids of which neither comes before the other are the same id.
pub proof fn lemma_id_lt_total(a: Seq<char>, b: Seq<char>)
    requires
        !id_lt(a, b),
        !id_lt(b, a),
    ensures
        a == b,
{
    let x = encode_utf8(a);
    let y = encode_utf8(b);
    lemma_bytes_lt_from_total(x, y, 0);
    assert(x =~= y);
    encode_utf8_decode_utf8(a);
    encode_utf8_decode_utf8(b);
}

/// Decides `id_lt` in one pass over the two encodings.
pub fn id_precedes(a: &str, b: &str) -> (before: bool)
    ensures
        before == id_lt(a@, b@),
{
    let x = a.as_bytes();
    let y = b.as_bytes();
    let mut i: usize = 0;
    while i < x.len() && i < y.len()
        invariant
            i <= x.len(),
            i <= y.len(),
            x@ == encode_utf8(a@),
            y@ == encode_utf8(b@),
            bytes_lt(x@, y@) == bytes_lt_from(x@, y@, i as int),
        decreases x.len() - i,
    {
        if x[i] != y[i] {
            return x[i] < y[i];
        }
        i += 1;
    }
    i < y.len()
}

} // verus!

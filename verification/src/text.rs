//! The order of two strings: that of their bytes.

use vstd::prelude::*;
use vstd::string::*;
use vstd::utf8::*;

verus! {

/// The first `k` bytes of `a` and of `b` are the same.
pub open spec fn common_prefix(a: Seq<u8>, b: Seq<u8>, k: int) -> bool {
    &&& 0 <= k <= a.len()
    &&& k <= b.len()
    &&& forall|i: int| 0 <= i < k ==> a[i] == b[i]
}

/// `a` comes strictly before `b` in the lexicographic order of bytes: at the
/// end of their common prefix, `a` ends and `b` goes on, or `a` holds the
/// smaller byte.
pub open spec fn bytes_before(a: Seq<u8>, b: Seq<u8>) -> bool {
    exists|k: int|
        #[trigger] common_prefix(a, b, k) && k < b.len() && (k == a.len() || a[k] < b[k])
}

/// The order of two texts: that of their UTF-8 bytes.
pub open spec fn text_before(a: Seq<char>, b: Seq<char>) -> bool {
    bytes_before(encode_utf8(a), encode_utf8(b))
}

/// Two texts with the same UTF-8 bytes are the same text.
pub proof fn lemma_same_bytes_same_text(a: Seq<char>, b: Seq<char>)
    requires
        encode_utf8(a) == encode_utf8(b),
    ensures
        a == b,
{
    encode_utf8_decode_utf8(a);
    encode_utf8_decode_utf8(b);
}

/// The common prefix of `a` and `b` ends at `d`: one of them ends there, or
/// they differ there.
pub open spec fn first_difference(a: Seq<u8>, b: Seq<u8>, d: int) -> bool {
    &&& common_prefix(a, b, d)
    &&& (d == a.len() || d == b.len() || a[d] != b[d])
}

/// Where the common prefix ends decides the order.
pub proof fn lemma_before_at(a: Seq<u8>, b: Seq<u8>, d: int)
    requires
        first_difference(a, b, d),
    ensures
        bytes_before(a, b) <==> d < b.len() && (d == a.len() || a[d] < b[d]),
        a == b <==> d == a.len() && d == b.len(),
{
    if d == a.len() && d == b.len() {
        assert(a =~= b);
    }
}

/// Every two byte strings have a first difference, at or after any common
/// prefix.
pub proof fn lemma_first_difference(a: Seq<u8>, b: Seq<u8>, k: int) -> (d: int)
    requires
        common_prefix(a, b, k),
    ensures
        first_difference(a, b, d),
    decreases a.len() - k,
{
    if k == a.len() || k == b.len() || a[k] != b[k] {
        k
    } else {
        lemma_first_difference(a, b, k + 1)
    }
}

/// The order of bytes is a strict total order: of `a` before `b`, `a` equal
/// to `b` and `b` before `a`, exactly one holds.
pub proof fn lemma_bytes_trichotomy(a: Seq<u8>, b: Seq<u8>)
    ensures
        bytes_before(a, b) || a == b || bytes_before(b, a),
        !(bytes_before(a, b) && a == b),
        !(bytes_before(b, a) && a == b),
        !(bytes_before(a, b) && bytes_before(b, a)),
{
    let d = lemma_first_difference(a, b, 0);
    lemma_before_at(a, b, d);
    assert(first_difference(b, a, d));
    lemma_before_at(b, a, d);
}

/// The order of bytes is transitive.
pub proof fn lemma_bytes_transitive(a: Seq<u8>, b: Seq<u8>, c: Seq<u8>)
    requires
        bytes_before(a, b),
        bytes_before(b, c),
    ensures
        bytes_before(a, c),
{
    let i = lemma_first_difference(a, b, 0);
    lemma_before_at(a, b, i);
    let j = lemma_first_difference(b, c, 0);
    lemma_before_at(b, c, j);
    let k = if i <= j { i } else { j };
    assert(common_prefix(a, c, k));
}

/// The order of texts is a strict total order.
pub proof fn lemma_text_trichotomy(a: Seq<char>, b: Seq<char>)
    ensures
        text_before(a, b) || a == b || text_before(b, a),
        !(text_before(a, b) && a == b),
        !(text_before(b, a) && a == b),
        !(text_before(a, b) && text_before(b, a)),
{
    lemma_bytes_trichotomy(encode_utf8(a), encode_utf8(b));
    if encode_utf8(a) == encode_utf8(b) {
        lemma_same_bytes_same_text(a, b);
    }
}

/// The order of texts is transitive.
pub proof fn lemma_text_transitive(a: Seq<char>, b: Seq<char>, c: Seq<char>)
    requires
        text_before(a, b),
        text_before(b, c),
    ensures
        text_before(a, c),
{
    lemma_bytes_transitive(encode_utf8(a), encode_utf8(b), encode_utf8(c));
}

/// Whether `a` comes strictly before `b`.
pub fn precedes(a: &str, b: &str) -> (r: bool)
    ensures
        r == text_before(a@, b@),
{
    let x = a.as_bytes();
    let y = b.as_bytes();
    let n: usize = x.len();
    let m: usize = y.len();
    let mut i: usize = 0;
    while i < n && i < m && x[i] == y[i]
        invariant
            n == x@.len(),
            m == y@.len(),
            common_prefix(x@, y@, i as int),
        decreases n - i,
    {
        i += 1;
    }
    proof {
        lemma_before_at(x@, y@, i as int);
    }
    i < m && (i == n || x[i] < y[i])
}

} // verus!

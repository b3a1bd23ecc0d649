//! The order in which keys are kept and reported: ascending by the bytes of
//! their UTF-8 encoding, which is the order of code points.

use vstd::prelude::*;
use vstd::utf8::encode_utf8;

verus! {

/// How one key stands to another.
#[derive(Debug, Clone, Copy, PartialEq, Eq, Structural)]
pub enum KeyOrder {
    Less,
    Equal,
    Greater,
}

/// Strict lexicographic order on byte strings: a proper prefix comes first,
/// otherwise the first differing byte decides.
pub open spec fn bytes_lt(a: Seq<u8>, b: Seq<u8>) -> bool
    decreases a.len(),
{
    if b.len() == 0 {
        false
    } else if a.len() == 0 {
        true
    } else if a.first() != b.first() {
        a.first() < b.first()
    } else {
        bytes_lt(a.drop_first(), b.drop_first())
    }
}

/// Strict order on keys.
pub open spec fn key_lt(a: Seq<char>, b: Seq<char>) -> bool {
    bytes_lt(encode_utf8(a), encode_utf8(b))
}

/// Whether the keys of `s` ascend strictly.
pub open spec fn ascending(s: Seq<Seq<char>>) -> bool {
    forall|i: int, j: int| 0 <= i < j < s.len() ==> key_lt(#[trigger] s[i], #[trigger] s[j])
}

proof fn lemma_bytes_lt_irreflexive(a: Seq<u8>)
    ensures
        !bytes_lt(a, a),
    decreases a.len(),
{
    if a.len() > 0 {
        lemma_bytes_lt_irreflexive(a.drop_first());
    }
}

proof fn lemma_bytes_lt_asymmetric(a: Seq<u8>, b: Seq<u8>)
    requires
        bytes_lt(a, b),
    ensures
        !bytes_lt(b, a),
    decreases a.len(),
{
    if a.len() > 0 && b.len() > 0 && a.first() == b.first() {
        lemma_bytes_lt_asymmetric(a.drop_first(), b.drop_first());
    }
}

proof fn lemma_bytes_lt_transitive(a: Seq<u8>, b: Seq<u8>, c: Seq<u8>)
    requires
        bytes_lt(a, b),
        bytes_lt(b, c),
    ensures
        bytes_lt(a, c),
    decreases a.len(),
{
    if a.len() > 0 && b.len() > 0 && c.len() > 0 && a.first() == b.first() && b.first()
        == c.first() {
        lemma_bytes_lt_transitive(a.drop_first(), b.drop_first(), c.drop_first());
    }
}

proof fn lemma_bytes_lt_total(a: Seq<u8>, b: Seq<u8>)
    ensures
        bytes_lt(a, b) || a == b || bytes_lt(b, a),
    decreases a.len(),
{
    if a.len() > 0 && b.len() > 0 && a.first() == b.first() {
        lemma_bytes_lt_total(a.drop_first(), b.drop_first());
        if a.drop_first() == b.drop_first() {
            assert(a =~= seq![a.first()] + a.drop_first());
            assert(b =~= seq![b.first()] + b.drop_first());
        }
    } else if a.len() == 0 && b.len() == 0 {
        assert(a =~= b);
    }
}

/// Keys with the same encoding are the same key.
proof fn lemma_encoding_injective(a: Seq<char>, b: Seq<char>)
    requires
        encode_utf8(a) == encode_utf8(b),
    ensures
        a == b,
{
    vstd::utf8::encode_utf8_decode_utf8(a);
    vstd::utf8::encode_utf8_decode_utf8(b);
}

/// No key comes before itself.
pub proof fn lemma_key_lt_irreflexive(a: Seq<char>)
    ensures
        !key_lt(a, a),
{
    lemma_bytes_lt_irreflexive(encode_utf8(a));
}

/// Of two keys at most one comes before the other.
pub proof fn lemma_key_lt_asymmetric(a: Seq<char>, b: Seq<char>)
    requires
        key_lt(a, b),
    ensures
        !key_lt(b, a),
        a != b,
{
    lemma_bytes_lt_asymmetric(encode_utf8(a), encode_utf8(b));
    lemma_bytes_lt_irreflexive(encode_utf8(a));
}

/// The order is transitive.
pub proof fn lemma_key_lt_transitive(a: Seq<char>, b: Seq<char>, c: Seq<char>)
    requires
        key_lt(a, b),
        key_lt(b, c),
    ensures
        key_lt(a, c),
{
    lemma_bytes_lt_transitive(encode_utf8(a), encode_utf8(b), encode_utf8(c));
}

/// Any two different keys are ordered.
pub proof fn lemma_key_lt_total(a: Seq<char>, b: Seq<char>)
    ensures
        key_lt(a, b) || a == b || key_lt(b, a),
{
    lemma_bytes_lt_total(encode_utf8(a), encode_utf8(b));
    if encode_utf8(a) == encode_utf8(b) {
        lemma_encoding_injective(a, b);
    }
}

/// Two ascending sequences that hold the same keys are the same sequence.
pub proof fn lemma_ascending_unique(s: Seq<Seq<char>>, t: Seq<Seq<char>>)
    requires
        ascending(s),
        ascending(t),
        forall|k: Seq<char>| s.contains(k) <==> t.contains(k),
    ensures
        s == t,
    decreases s.len(),
{
    if s.len() == 0 {
        if t.len() > 0 {
            assert(t.contains(t[0]));
        }
        assert(s =~= t);
    } else {
        assert(s.contains(s[0]));
        assert(t.len() > 0);
        assert(t.contains(t[0]));
        // The smallest keys agree.
        let i = choose|i: int| 0 <= i < t.len() && t[i] == s[0];
        let j = choose|j: int| 0 <= j < s.len() && s[j] == t[0];
        if i > 0 {
            if j > 0 {
                lemma_key_lt_transitive(t[0], t[i], s[j]);
            }
            lemma_key_lt_irreflexive(t[0]);
            assert(false);
        }
        let s1 = s.drop_first();
        let t1 = t.drop_first();
        assert forall|k: Seq<char>| s1.contains(k) <==> t1.contains(k) by {
            if s1.contains(k) {
                let a = choose|a: int| 0 <= a < s1.len() && s1[a] == k;
                assert(s[a + 1] == k);
                assert(s.contains(k));
                let b = choose|b: int| 0 <= b < t.len() && t[b] == k;
                if b == 0 {
                    lemma_key_lt_irreflexive(k);
                    assert(key_lt(s[0], s[a + 1]));
                }
                assert(t1[b - 1] == k);
            }
            if t1.contains(k) {
                let a = choose|a: int| 0 <= a < t1.len() && t1[a] == k;
                assert(t[a + 1] == k);
                assert(t.contains(k));
                let b = choose|b: int| 0 <= b < s.len() && s[b] == k;
                if b == 0 {
                    lemma_key_lt_irreflexive(k);
                    assert(key_lt(t[0], t[a + 1]));
                }
                assert(s1[b - 1] == k);
            }
        }
        assert(ascending(s1)) by {
            assert forall|a: int, b: int| 0 <= a < b < s1.len() implies key_lt(
                #[trigger] s1[a],
                #[trigger] s1[b],
            ) by {
                assert(key_lt(s[a + 1], s[b + 1]));
            }
        }
        assert(ascending(t1)) by {
            assert forall|a: int, b: int| 0 <= a < b < t1.len() implies key_lt(
                #[trigger] t1[a],
                #[trigger] t1[b],
            ) by {
                assert(key_lt(t[a + 1], t[b + 1]));
            }
        }
        lemma_ascending_unique(s1, t1);
        assert(s =~= seq![s[0]] + s1);
        assert(t =~= seq![t[0]] + t1);
    }
}

/// Compares two keys.
#[verifier::loop_isolation(false)]
pub fn compare_keys(a: &str, b: &str) -> (r: KeyOrder)
    ensures
        (r == KeyOrder::Less) == key_lt(a@, b@),
        (r == KeyOrder::Equal) == (a@ == b@),
        (r == KeyOrder::Greater) == key_lt(b@, a@),
{
    let x = a.as_bytes();
    let y = b.as_bytes();
    let ghost xs = encode_utf8(a@);
    let ghost ys = encode_utf8(b@);
    proof {
        lemma_key_lt_total(a@, b@);
        if key_lt(a@, b@) {
            lemma_key_lt_asymmetric(a@, b@);
        }
        if key_lt(b@, a@) {
            lemma_key_lt_asymmetric(b@, a@);
        }
    }
    assert(xs.skip(0) == xs && ys.skip(0) == ys);
    let mut i: usize = 0;
    while i < x.len() && i < y.len()
        invariant
            i <= xs.len(),
            i <= ys.len(),
            bytes_lt(xs, ys) == bytes_lt(xs.skip(i as int), ys.skip(i as int)),
            bytes_lt(ys, xs) == bytes_lt(ys.skip(i as int), xs.skip(i as int)),
        decreases xs.len() - i,
    {
        if x[i] < y[i] {
            return KeyOrder::Less;
        }
        if x[i] > y[i] {
            return KeyOrder::Greater;
        }
        assert(xs.skip(i as int).drop_first() == xs.skip(i + 1));
        assert(ys.skip(i as int).drop_first() == ys.skip(i + 1));
        i += 1;
    }
    if i < y.len() {
        KeyOrder::Less
    } else if i < x.len() {
        KeyOrder::Greater
    } else {
        KeyOrder::Equal
    }
}

/// Whether two texts are the same.
pub fn same_text(a: &str, b: &str) -> (r: bool)
    ensures
        r == (a@ == b@),
{
    match compare_keys(a, b) {
        KeyOrder::Equal => true,
        _ => false,
    }
}

} // verus!

//! The order of names: byte by byte over their UTF-8 encoding, a name before
//! each of its extensions.

use crate::entry::texts_of;
use vstd::prelude::*;
use vstd::seq_lib::to_multiset_insert;
use vstd::utf8::encode_utf8;

verus! {

/// `a` comes no later than `b`, byte by byte.
pub open spec fn bytes_le(a: Seq<u8>, b: Seq<u8>) -> bool
    decreases a.len(),
{
    if a.len() == 0 {
        true
    } else if b.len() == 0 {
        false
    } else if a[0] != b[0] {
        a[0] < b[0]
    } else {
        bytes_le(a.drop_first(), b.drop_first())
    }
}

/// The name `a` comes no later than the name `b`.
pub open spec fn name_le(a: Seq<char>, b: Seq<char>) -> bool {
    bytes_le(encode_utf8(a), encode_utf8(b))
}

/// Each name comes no later than those behind it.
pub open spec fn sorted(names: Seq<Seq<char>>) -> bool {
    forall|i: int, j: int| 0 <= i < j < names.len() ==> name_le(names[i], names[j])
}

/// Of two byte strings one comes no later than the other.
pub proof fn lemma_bytes_le_total(a: Seq<u8>, b: Seq<u8>)
    ensures
        bytes_le(a, b) || bytes_le(b, a),
    decreases a.len(),
{
    if a.len() > 0 && b.len() > 0 && a[0] == b[0] {
        lemma_bytes_le_total(a.drop_first(), b.drop_first());
    }
}

/// The order of byte strings is transitive.
pub proof fn lemma_bytes_le_transitive(a: Seq<u8>, b: Seq<u8>, c: Seq<u8>)
    requires
        bytes_le(a, b),
        bytes_le(b, c),
    ensures
        bytes_le(a, c),
    decreases a.len(),
{
    if a.len() > 0 && b.len() > 0 && c.len() > 0 && a[0] == b[0] && b[0] == c[0] {
        lemma_bytes_le_transitive(a.drop_first(), b.drop_first(), c.drop_first());
    }
}

/// Two byte strings that agree up to `i` compare as their rests do.
proof fn lemma_bytes_le_skip(a: Seq<u8>, b: Seq<u8>, i: int)
    requires
        0 <= i <= a.len(),
        i <= b.len(),
        a.take(i) == b.take(i),
    ensures
        bytes_le(a, b) == bytes_le(a.skip(i), b.skip(i)),
    decreases i,
{
    if i == 0 {
        assert(a.skip(0) =~= a);
        assert(b.skip(0) =~= b);
    } else {
        assert(a[0] == a.take(i)[0]);
        assert(b[0] == b.take(i)[0]);
        let ra = a.drop_first();
        let rb = b.drop_first();
        assert(ra.take(i - 1) =~= a.take(i).drop_first());
        assert(rb.take(i - 1) =~= b.take(i).drop_first());
        lemma_bytes_le_skip(ra, rb, i - 1);
        assert(ra.skip(i - 1) =~= a.skip(i));
        assert(rb.skip(i - 1) =~= b.skip(i));
    }
}

/// Whether the name `a` comes no later than the name `b`.
pub fn name_precedes(a: &str, b: &str) -> (le: bool)
    ensures
        le == name_le(a@, b@),
{
    let x = a.as_bytes();
    let y = b.as_bytes();
    let mut i: usize = 0;
    while i < x.len() && i < y.len()
        invariant
            i <= x.len(),
            i <= y.len(),
            x@ == encode_utf8(a@),
            y@ == encode_utf8(b@),
            x@.take(i as int) == y@.take(i as int),
        decreases x.len() - i,
    {
        if x[i] != y[i] {
            proof {
                lemma_bytes_le_skip(x@, y@, i as int);
                assert(x@.skip(i as int)[0] == x@[i as int]);
                assert(y@.skip(i as int)[0] == y@[i as int]);
            }
            return x[i] < y[i];
        }
        assert(x@.take(i + 1) =~= x@.take(i as int).push(x@[i as int]));
        assert(y@.take(i + 1) =~= y@.take(i as int).push(y@[i as int]));
        i += 1;
    }
    proof {
        lemma_bytes_le_skip(x@, y@, i as int);
        assert(x@.skip(i as int).len() == x@.len() - i);
        assert(y@.skip(i as int).len() == y@.len() - i);
    }
    i == x.len()
}

/// `names` in order: what comes out is sorted and holds each name as often
/// as `names` does.
pub fn sort_names(names: &Vec<String>) -> (out: Vec<String>)
    ensures
        sorted(texts_of(out@)),
        texts_of(out@).to_multiset() == texts_of(names@).to_multiset(),
{
    let mut out: Vec<String> = Vec::new();
    let mut i: usize = 0;
    assert(texts_of(out@) =~= texts_of(names@).take(0));
    while i < names.len()
        invariant
            i <= names.len(),
            sorted(texts_of(out@)),
            texts_of(out@).to_multiset() == texts_of(names@).take(i as int).to_multiset(),
        decreases names.len() - i,
    {
        let name = names[i].clone();
        let mut p: usize = 0;
        while p < out.len() && name_precedes(out[p].as_str(), name.as_str())
            invariant
                p <= out.len(),
                forall|k: int| 0 <= k < p ==> name_le(#[trigger] texts_of(out@)[k], name@),
            decreases out.len() - p,
        {
            p += 1;
        }
        let ghost before = texts_of(out@);
        out.insert(p, name);
        proof {
            let after = texts_of(out@);
            assert(after =~= before.insert(p as int, name@));
            assert forall|a: int, b: int| 0 <= a < b < after.len() implies name_le(
                after[a],
                after[b],
            ) by {
                if b == p {
                    assert(after[a] == before[a]);
                } else if a == p {
                    assert(after[b] == before[b - 1]);
                    assert(!name_le(before[p as int], name@));
                    lemma_bytes_le_total(encode_utf8(before[p as int]), encode_utf8(name@));
                    if b - 1 > p {
                        assert(name_le(before[p as int], before[b - 1]));
                        lemma_bytes_le_transitive(
                            encode_utf8(name@),
                            encode_utf8(before[p as int]),
                            encode_utf8(before[b - 1]),
                        );
                    }
                } else {
                    let a0 = if a < p {
                        a
                    } else {
                        a - 1
                    };
                    let b0 = if b < p {
                        b
                    } else {
                        b - 1
                    };
                    assert(after[a] == before[a0]);
                    assert(after[b] == before[b0]);
                }
            }
            let shorter = texts_of(names@).take(i as int);
            let longer = texts_of(names@).take(i + 1);
            assert(name@ == texts_of(names@)[i as int]);
            assert(longer =~= shorter.insert(i as int, name@));
            to_multiset_insert(shorter, i as int, name@);
            to_multiset_insert(before, p as int, name@);
        }
        i += 1;
    }
    assert(texts_of(names@).take(i as int) =~= texts_of(names@));
    out
}

} // verus!

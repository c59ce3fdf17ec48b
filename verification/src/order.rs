//! The order of texts, and sets of texts kept in it.
use vstd::prelude::*;
use vstd::string::*;
use vstd::utf8::*;

use crate::text::same;

verus! {

/// Lexicographic order of bytes.
pub open spec fn bytes_le(a: Seq<u8>, b: Seq<u8>) -> bool
    decreases a.len(),
{
    ||| a.len() == 0
    ||| b.len() > 0 && a[0] < b[0]
    ||| b.len() > 0 && a[0] == b[0] && bytes_le(a.drop_first(), b.drop_first())
}

/// The order of texts: that of their encodings.
pub open spec fn text_le(a: Seq<char>, b: Seq<char>) -> bool {
    bytes_le(encode_utf8(a), encode_utf8(b))
}

/// The characters of each text.
pub open spec fn texts(v: Seq<String>) -> Seq<Seq<char>> {
    Seq::new(v.len(), |i: int| v[i]@)
}

/// Each text comes before the next.
pub open spec fn rising(s: Seq<Seq<char>>) -> bool {
    forall|i: int, j: int|
        #![trigger s[i], s[j]]
        0 <= i < j < s.len() ==> text_le(s[i], s[j]) && s[i] != s[j]
}

/// The texts of a set in order.
pub open spec fn sorted(set: Set<Seq<char>>) -> Seq<Seq<char>> {
    choose|s: Seq<Seq<char>>| rising(s) && #[trigger] s.to_set() == set
}

proof fn lemma_bytes_reflexive(a: Seq<u8>)
    ensures
        bytes_le(a, a),
    decreases a.len(),
{
    if a.len() > 0 {
        lemma_bytes_reflexive(a.drop_first());
    }
}

proof fn lemma_bytes_total(a: Seq<u8>, b: Seq<u8>)
    ensures
        bytes_le(a, b) || bytes_le(b, a),
    decreases a.len(),
{
    if a.len() > 0 && b.len() > 0 {
        lemma_bytes_total(a.drop_first(), b.drop_first());
    }
}

proof fn lemma_bytes_antisymmetric(a: Seq<u8>, b: Seq<u8>)
    requires
        bytes_le(a, b),
        bytes_le(b, a),
    ensures
        a == b,
    decreases a.len(),
{
    if a.len() > 0 && b.len() > 0 {
        lemma_bytes_antisymmetric(a.drop_first(), b.drop_first());
        assert(a =~= seq![a[0]] + a.drop_first());
        assert(b =~= seq![b[0]] + b.drop_first());
    } else {
        assert(a =~= b);
    }
}

proof fn lemma_bytes_transitive(a: Seq<u8>, b: Seq<u8>, c: Seq<u8>)
    requires
        bytes_le(a, b),
        bytes_le(b, c),
    ensures
        bytes_le(a, c),
    decreases a.len(),
{
    if a.len() > 0 && b.len() > 0 && c.len() > 0 && a[0] == b[0] && b[0] == c[0] {
        lemma_bytes_transitive(a.drop_first(), b.drop_first(), c.drop_first());
    }
}

/// Texts are in a total order.
pub proof fn lemma_text_order(a: Seq<char>, b: Seq<char>, c: Seq<char>)
    ensures
        text_le(a, a),
        text_le(a, b) || text_le(b, a),
        text_le(a, b) && text_le(b, a) ==> a == b,
        text_le(a, b) && text_le(b, c) ==> text_le(a, c),
{
    let (x, y, z) = (encode_utf8(a), encode_utf8(b), encode_utf8(c));
    lemma_bytes_reflexive(x);
    lemma_bytes_total(x, y);
    if bytes_le(x, y) && bytes_le(y, x) {
        lemma_bytes_antisymmetric(x, y);
        encode_utf8_decode_utf8(a);
        encode_utf8_decode_utf8(b);
    }
    if bytes_le(x, y) && bytes_le(y, z) {
        lemma_bytes_transitive(x, y, z);
    }
}

proof fn lemma_bytes_decided(a: Seq<u8>, b: Seq<u8>, i: int)
    requires
        0 <= i <= a.len(),
        i <= b.len(),
        a.take(i) == b.take(i),
        i < a.len() ==> i < b.len() && a[i] < b[i],
    ensures
        bytes_le(a, b),
        i < b.len() ==> !bytes_le(b, a),
    decreases a.len(),
{
    if i > 0 {
        assert(a[0] == a.take(i)[0] && b[0] == b.take(i)[0]);
        let (x, y) = (a.drop_first(), b.drop_first());
        assert forall|k: int| 0 <= k < i - 1 implies #[trigger] x[k] == y[k] by {
            assert(a[k + 1] == a.take(i)[k + 1] && b[k + 1] == b.take(i)[k + 1]);
        }
        assert(x.take(i - 1) =~= y.take(i - 1));
        lemma_bytes_decided(x, y, i - 1);
    }
}

/// The order of two texts is decided at the first byte in which their encodings differ, which is
/// at `i`, or by where the one ends.
pub proof fn law_texts_are_ordered_by_their_bytes(a: Seq<char>, b: Seq<char>, i: int)
    requires
        0 <= i <= encode_utf8(a).len(),
        i <= encode_utf8(b).len(),
        encode_utf8(a).take(i) == encode_utf8(b).take(i),
        i < encode_utf8(a).len() ==> i < encode_utf8(b).len() && encode_utf8(a)[i]
            < encode_utf8(b)[i],
    ensures
        text_le(a, b),
        i < encode_utf8(b).len() ==> !text_le(b, a),
{
    lemma_bytes_decided(encode_utf8(a), encode_utf8(b), i);
}

/// A set of texts has one order only.
pub proof fn lemma_rising_is_unique(s: Seq<Seq<char>>, t: Seq<Seq<char>>)
    requires
        rising(s),
        rising(t),
        s.to_set() == t.to_set(),
    ensures
        s == t,
    decreases s.len(),
{
    if s.len() == 0 {
        if t.len() > 0 {
            assert(t.to_set().contains(t[0]));
            assert(s.to_set().contains(t[0]));
        }
        assert(s =~= t);
    } else {
        let x = s.last();
        assert(s.to_set().contains(x));
        assert(t.to_set().contains(x));
        let y = t.last();
        assert(t.to_set().contains(y));
        assert(s.to_set().contains(y));
        let i = choose|i: int| 0 <= i < t.len() && t[i] == x;
        let j = choose|j: int| 0 <= j < s.len() && s[j] == y;
        assert(i < t.len() - 1 ==> text_le(x, y) && x != y);
        assert(j < s.len() - 1 ==> text_le(y, x) && x != y);
        lemma_text_order(x, y, x);
        assert(x == y);
        assert(s.drop_last().to_set() =~= s.to_set().remove(x)) by {
            assert forall|e: Seq<char>| s.to_set().contains(e) && e != x implies s.drop_last().to_set().contains(
                e,
            ) by {
                let k = choose|k: int| 0 <= k < s.len() && s[k] == e;
                assert(s.drop_last()[k] == e);
            }
            assert forall|e: Seq<char>| s.drop_last().to_set().contains(e) implies s.to_set().contains(e) && e
                != x by {
                let k = choose|k: int| 0 <= k < s.drop_last().len() && s.drop_last()[k] == e;
                assert(s[k] == e);
            }
        }
        assert(t.drop_last().to_set() =~= t.to_set().remove(y)) by {
            assert forall|e: Seq<char>| t.to_set().contains(e) && e != y implies t.drop_last().to_set().contains(
                e,
            ) by {
                let k = choose|k: int| 0 <= k < t.len() && t[k] == e;
                assert(t.drop_last()[k] == e);
            }
            assert forall|e: Seq<char>| t.drop_last().to_set().contains(e) implies t.to_set().contains(e) && e
                != y by {
                let k = choose|k: int| 0 <= k < t.drop_last().len() && t.drop_last()[k] == e;
                assert(t[k] == e);
            }
        }
        lemma_rising_is_unique(s.drop_last(), t.drop_last());
        assert(s =~= s.drop_last().push(x));
        assert(t =~= t.drop_last().push(y));
    }
}

/// What is in order already is the order of its own set.
pub proof fn lemma_sorted(s: Seq<Seq<char>>)
    requires
        rising(s),
    ensures
        sorted(s.to_set()) == s,
{
    let t = sorted(s.to_set());
    lemma_rising_is_unique(s, t);
}

proof fn lemma_put_in(t: Seq<Seq<char>>, x: Seq<char>) -> (r: Seq<Seq<char>>)
    requires
        rising(t),
    ensures
        rising(r),
        forall|e: Seq<char>| #[trigger] r.contains(e) <==> e == x || t.contains(e),
    decreases t.len(),
{
    if t.len() == 0 {
        let r = seq![x];
        assert forall|e: Seq<char>| #[trigger] r.contains(e) <==> e == x || t.contains(e) by {
            assert(r[0] == x);
        }
        r
    } else {
        let y = t.last();
        let rest = t.drop_last();
        lemma_text_order(x, y, x);
        assert(t[t.len() - 1] == y);
        if x == y {
            t
        } else if text_le(y, x) {
            let r = t.push(x);
            assert forall|i: int, j: int|
                #![trigger r[i], r[j]]
                0 <= i < j < r.len() implies text_le(r[i], r[j]) && r[i] != r[j] by {
                if j == t.len() {
                    lemma_text_order(t[i], y, x);
                    lemma_text_order(y, t[i], x);
                    lemma_text_order(y, x, y);
                }
            }
            assert forall|e: Seq<char>| #[trigger] r.contains(e) <==> e == x || t.contains(e) by {
                assert(r[t.len() as int] == x);
                if t.contains(e) {
                    let k = choose|k: int| 0 <= k < t.len() && t[k] == e;
                    assert(r[k] == e);
                }
                if r.contains(e) {
                    let k = choose|k: int| 0 <= k < r.len() && r[k] == e;
                    if k < t.len() {
                        assert(t[k] == e);
                    }
                }
            }
            r
        } else {
            assert(rising(rest)) by {
                assert forall|i: int, j: int|
                    #![trigger rest[i], rest[j]]
                    0 <= i < j < rest.len() implies text_le(rest[i], rest[j]) && rest[i]
                    != rest[j] by {
                    assert(rest[i] == t[i] && rest[j] == t[j]);
                }
            }
            let front = lemma_put_in(rest, x);
            let r = front.push(y);
            assert forall|i: int, j: int|
                #![trigger r[i], r[j]]
                0 <= i < j < r.len() implies text_le(r[i], r[j]) && r[i] != r[j] by {
                if j == front.len() {
                    assert(front.contains(front[i]));
                    if front[i] != x {
                        let k = choose|k: int| 0 <= k < rest.len() && rest[k] == front[i];
                        assert(t[k] == front[i]);
                    }
                }
            }
            assert forall|e: Seq<char>| #[trigger] r.contains(e) <==> e == x || t.contains(e) by {
                assert(r[front.len() as int] == y);
                if t.contains(e) && e != y {
                    let k = choose|k: int| 0 <= k < t.len() && t[k] == e;
                    assert(rest[k] == e);
                }
                if rest.contains(e) {
                    let k = choose|k: int| 0 <= k < rest.len() && rest[k] == e;
                    assert(t[k] == e);
                }
                if front.contains(e) {
                    let k = choose|k: int| 0 <= k < front.len() && front[k] == e;
                    assert(r[k] == e);
                }
                if r.contains(e) && e != y {
                    let k = choose|k: int| 0 <= k < r.len() && r[k] == e;
                    assert(front[k] == e);
                }
            }
            r
        }
    }
}

proof fn lemma_order_of(s: Seq<Seq<char>>) -> (r: Seq<Seq<char>>)
    ensures
        rising(r),
        r.to_set() == s.to_set(),
    decreases s.len(),
{
    if s.len() == 0 {
        s
    } else {
        let rest = s.drop_last();
        let before = lemma_order_of(rest);
        let r = lemma_put_in(before, s.last());
        assert forall|e: Seq<char>| r.to_set().contains(e) == s.to_set().contains(e) by {
            assert(before.to_set().contains(e) == rest.to_set().contains(e));
            assert(r.contains(e) <==> e == s.last() || before.contains(e));
            assert(s[s.len() - 1] == s.last());
            if rest.contains(e) {
                let k = choose|k: int| 0 <= k < rest.len() && rest[k] == e;
                assert(s[k] == e);
            }
            if s.contains(e) && e != s.last() {
                let k = choose|k: int| 0 <= k < s.len() && s[k] == e;
                assert(rest[k] == e);
            }
        }
        assert(r.to_set() =~= s.to_set());
        r
    }
}

/// The order of what a list holds: rising, and holding the same texts.
pub proof fn law_sorted_holds_the_same(s: Seq<Seq<char>>)
    ensures
        rising(sorted(s.to_set())),
        forall|e: Seq<char>| #[trigger] sorted(s.to_set()).contains(e) <==> s.contains(e),
{
    let t = lemma_order_of(s);
    assert(rising(t) && t.to_set() == s.to_set());
    lemma_sorted(t);
    assert forall|e: Seq<char>| #[trigger] sorted(s.to_set()).contains(e) <==> s.contains(e) by {
        assert(t.to_set().contains(e) == s.to_set().contains(e));
    }
}

/// Whether one text comes before another or is the same.
pub fn in_order(a: &str, b: &str) -> (r: bool)
    ensures
        r == text_le(a@, b@),
{
    let x = a.as_bytes();
    let y = b.as_bytes();
    let mut i: usize = 0;
    assert(x@.skip(0) =~= x@);
    assert(y@.skip(0) =~= y@);
    while i < x.len() && i < y.len()
        invariant
            i <= x.len(),
            i <= y.len(),
            x@ == encode_utf8(a@),
            y@ == encode_utf8(b@),
            text_le(a@, b@) == bytes_le(x@.skip(i as int), y@.skip(i as int)),
        decreases x.len() - i,
    {
        if x[i] != y[i] {
            return x[i] < y[i];
        }
        assert(x@.skip(i as int).drop_first() =~= x@.skip(i + 1));
        assert(y@.skip(i as int).drop_first() =~= y@.skip(i + 1));
        i += 1;
    }
    i == x.len()
}

/// Puts a text in its place, unless it stands there already.
fn place(list: &mut Vec<String>, s: String)
    requires
        rising(texts(old(list)@)),
    ensures
        rising(texts(final(list)@)),
        texts(final(list)@).to_set() == texts(old(list)@).to_set().insert(s@),
{
    let ghost before = texts(list@);
    let mut i: usize = 0;
    while i < list.len() && !in_order(s.as_str(), list[i].as_str())
        invariant
            i <= list.len(),
            texts(list@) == before,
            forall|j: int| 0 <= j < i ==> text_le(#[trigger] before[j], s@) && before[j] != s@,
        decreases list.len() - i,
    {
        proof {
            lemma_text_order(s@, before[i as int], s@);
        }
        i += 1;
    }
    if i < list.len() && same(s.as_str(), list[i].as_str()) {
        assert(before.to_set() =~= before.to_set().insert(s@)) by {
            assert(before[i as int] == s@);
        }
        return;
    }
    let ghost e = s@;
    list.insert(i, s);
    let ghost after = texts(list@);
    proof {
        assert(after =~= before.insert(i as int, e));
        assert(rising(after)) by {
            assert forall|a: int, b: int|
                #![trigger after[a], after[b]]
                0 <= a < b < after.len() implies text_le(after[a], after[b]) && after[a] != after[b] by {
                if a < i && b == i {
                    assert(after[a] == before[a]);
                } else if a < i && b > i {
                    assert(after[a] == before[a] && after[b] == before[b - 1]);
                } else if a == i {
                    assert(after[b] == before[b - 1]);
                    lemma_text_order(e, before[i as int], before[b - 1]);
                    lemma_text_order(before[i as int], e, e);
                } else if a > i {
                    assert(after[a] == before[a - 1] && after[b] == before[b - 1]);
                }
            }
        }
        assert(after.to_set() =~= before.to_set().insert(e)) by {
            assert forall|x: Seq<char>| before.to_set().insert(e).contains(x) implies after.to_set().contains(
                x,
            ) by {
                if x == e {
                    assert(after[i as int] == e);
                } else {
                    let k = choose|k: int| 0 <= k < before.len() && before[k] == x;
                    if k < i {
                        assert(after[k] == x);
                    } else {
                        assert(after[k + 1] == x);
                    }
                }
            }
            assert forall|x: Seq<char>| after.to_set().contains(x) implies before.to_set().insert(e).contains(
                x,
            ) by {
                let k = choose|k: int| 0 <= k < after.len() && after[k] == x;
                if k < i {
                    assert(before[k] == x);
                } else if k > i {
                    assert(before[k - 1] == x);
                }
            }
        }
    }
}

/// The given texts in order, each of them once.
pub fn sorted_set(ids: Vec<String>) -> (r: Vec<String>)
    ensures
        rising(texts(r@)),
        texts(r@).to_set() == texts(ids@).to_set(),
        texts(r@) == sorted(texts(ids@).to_set()),
{
    let mut out: Vec<String> = Vec::new();
    let mut i: usize = 0;
    assert(texts(out@).to_set() =~= texts(ids@).take(0).to_set());
    while i < ids.len()
        invariant
            i <= ids.len(),
            rising(texts(out@)),
            texts(out@).to_set() == texts(ids@).take(i as int).to_set(),
        decreases ids.len() - i,
    {
        place(&mut out, ids[i].clone());
        proof {
            let t = texts(ids@);
            assert(t.take(i + 1) =~= t.take(i as int).push(t[i as int]));
            t.take(i as int).lemma_push_to_set_commute(t[i as int]);
        }
        i += 1;
    }
    proof {
        assert(texts(ids@).take(i as int) =~= texts(ids@));
        lemma_sorted(texts(out@));
    }
    out
}

/// Whether two lists hold the same texts in the same places.
pub fn same_texts(a: &Vec<String>, b: &Vec<String>) -> (r: bool)
    ensures
        r == (texts(a@) == texts(b@)),
{
    if a.len() != b.len() {
        assert(texts(a@).len() != texts(b@).len());
        return false;
    }
    let mut i: usize = 0;
    while i < a.len()
        invariant
            i <= a.len() == b.len(),
            forall|k: int| 0 <= k < i ==> a@[k]@ == b@[k]@,
        decreases a.len() - i,
    {
        if !same(a[i].as_str(), b[i].as_str()) {
            assert(texts(a@)[i as int] != texts(b@)[i as int]);
            return false;
        }
        i += 1;
    }
    assert(texts(a@) =~= texts(b@));
    true
}

/// In order, as many texts as given means that none was given twice.
pub proof fn lemma_sorted_len(ids: Seq<Seq<char>>, s: Seq<Seq<char>>)
    requires
        rising(s),
        s.to_set() == ids.to_set(),
    ensures
        s.len() == ids.len() <==> ids.no_duplicates(),
        s.len() <= ids.len(),
{
    assert(s.no_duplicates());
    s.unique_seq_to_set();
    ids.lemma_cardinality_of_set();
    if ids.no_duplicates() {
        ids.unique_seq_to_set();
    }
    if s.len() == ids.len() {
        ids.lemma_no_dup_set_cardinality();
    }
}

} // verus!

//! The alphabetic order of texts, by code points.

use vstd::prelude::*;
use vstd::seq_lib::to_multiset_insert;
use crate::text::chars_of;

verus! {

/// Whether `a` comes before `b`, and is another text.
pub open spec fn text_before(a: Seq<char>, b: Seq<char>) -> bool
    decreases a.len(),
{
    if b.len() == 0 {
        false
    } else if a.len() == 0 {
        true
    } else if a[0] != b[0] {
        a[0] < b[0]
    } else {
        text_before(a.drop_first(), b.drop_first())
    }
}

/// No text comes before itself.
pub proof fn lemma_not_before_itself(a: Seq<char>)
    ensures
        !text_before(a, a),
    decreases a.len(),
{
    if a.len() > 0 {
        lemma_not_before_itself(a.drop_first());
    }
}

/// Of two texts that are not the same, one comes before the other.
pub proof fn lemma_before_is_total(a: Seq<char>, b: Seq<char>)
    ensures
        a != b ==> text_before(a, b) || text_before(b, a),
    decreases a.len(),
{
    if a.len() == 0 && b.len() == 0 {
        assert(a =~= b);
    } else if a.len() > 0 && b.len() > 0 && a[0] == b[0] {
        lemma_before_is_total(a.drop_first(), b.drop_first());
        if a.drop_first() == b.drop_first() {
            assert(a =~= seq![a[0]] + a.drop_first());
            assert(b =~= seq![b[0]] + b.drop_first());
        }
    }
}

/// What comes before a text comes before all that the text comes before.
pub proof fn lemma_before_is_transitive(a: Seq<char>, b: Seq<char>, c: Seq<char>)
    requires
        text_before(a, b),
        text_before(b, c),
    ensures
        text_before(a, c),
    decreases a.len(),
{
    if a.len() > 0 && b.len() > 0 && c.len() > 0 && a[0] == b[0] && b[0] == c[0] {
        lemma_before_is_transitive(a.drop_first(), b.drop_first(), c.drop_first());
    }
}

/// Whether `a` comes before `b`, and is another text.
pub fn before(a: &str, b: &str) -> (r: bool)
    ensures
        r == text_before(a@, b@),
{
    let x = chars_of(a);
    let y = chars_of(b);
    let mut i: usize = 0;
    assert(x@.skip(0) =~= x@ && y@.skip(0) =~= y@);
    while i < x.len() && i < y.len()
        invariant
            i <= x.len(),
            i <= y.len(),
            x@ == a@,
            y@ == b@,
            text_before(x@, y@) == text_before(x@.skip(i as int), y@.skip(i as int)),
        decreases x.len() - i,
    {
        assert(x@.skip(i as int)[0] == x@[i as int]);
        assert(y@.skip(i as int)[0] == y@[i as int]);
        if x[i] != y[i] {
            return x[i] < y[i];
        }
        assert(x@.skip(i as int).drop_first() =~= x@.skip(i + 1));
        assert(y@.skip(i as int).drop_first() =~= y@.skip(i + 1));
        i += 1;
    }
    i < y.len()
}

/// What is sorted by a text.
pub trait Keyed: Sized {
    /// The text that it is sorted by.
    spec fn key(&self) -> Seq<char>;

    /// The text that it is sorted by.
    fn key_text(&self) -> (r: &str)
        ensures
            r@ == self.key(),
    ;
}

impl Keyed for String {
    open spec fn key(&self) -> Seq<char> {
        self@
    }

    fn key_text(&self) -> (r: &str) {
        self.as_str()
    }
}

/// Whether nothing stands behind something that it comes before.
pub open spec fn ordered<T: Keyed>(s: Seq<T>) -> bool {
    forall|i: int, j: int|
        0 <= i < j < s.len() ==> !text_before((#[trigger] s[j]).key(), (#[trigger] s[i]).key())
}

/// The texts that things are sorted by.
pub open spec fn keys<T: Keyed>(s: Seq<T>) -> Seq<Seq<char>> {
    s.map_values(|t: T| t.key())
}

/// The same things in order.
pub fn sorted<T: Keyed>(v: Vec<T>) -> (r: Vec<T>)
    ensures
        ordered(r@),
        r@.to_multiset() == v@.to_multiset(),
        keys(r@).to_multiset() == keys(v@).to_multiset(),
{
    let mut rest = v;
    let mut out: Vec<T> = Vec::new();
    let ghost mut taken: Seq<T> = Seq::empty();
    proof {
        assert(out@ =~= Seq::<T>::empty());
        assert(v@ =~= rest@ + taken);
        assert(keys(out@) =~= keys(taken));
    }
    while rest.len() > 0
        invariant
            v@ == rest@ + taken,
            ordered(out@),
            out@.to_multiset() == taken.to_multiset(),
            keys(out@).to_multiset() == keys(taken).to_multiset(),
        decreases rest.len(),
    {
        let ghost left = rest@;
        match rest.pop() {
            None => {},
            Some(x) => {
                let mut at: usize = 0;
                while at < out.len() && before(out[at].key_text(), x.key_text())
                    invariant
                        at <= out.len(),
                        forall|i: int| 0 <= i < at ==> text_before((#[trigger] out@[i]).key(), x.key()),
                    decreases out.len() - at,
                {
                    at += 1;
                }
                let ghost previous = out@;
                let ghost item = x;
                proof {
                    assert forall|i: int| at <= i < previous.len() implies !text_before(
                        (#[trigger] previous[i]).key(),
                        item.key(),
                    ) by {
                        if i > at && text_before(previous[i].key(), item.key()) {
                            assert(!text_before(previous[i].key(), previous[at as int].key()));
                            lemma_before_is_total(previous[at as int].key(), previous[i].key());
                            if previous[at as int].key() != previous[i].key() {
                                lemma_before_is_transitive(
                                    previous[at as int].key(),
                                    previous[i].key(),
                                    item.key(),
                                );
                            }
                        }
                    }
                }
                out.insert(at, x);
                proof {
                    assert(out@ =~= previous.insert(at as int, item));
                    to_multiset_insert(previous, at as int, item);
                    let before_taken = taken;
                    taken = seq![item] + taken;
                    assert(taken =~= before_taken.insert(0, item));
                    to_multiset_insert(before_taken, 0, item);
                    assert(keys(out@) =~= keys(previous).insert(at as int, item.key()));
                    to_multiset_insert(keys(previous), at as int, item.key());
                    assert(keys(taken) =~= keys(before_taken).insert(0, item.key()));
                    to_multiset_insert(keys(before_taken), 0, item.key());
                    assert(left =~= rest@.push(item));
                    assert(v@ =~= rest@ + taken);
                    assert forall|i: int, j: int| 0 <= i < j < out@.len() implies !text_before(
                        (#[trigger] out@[j]).key(),
                        (#[trigger] out@[i]).key(),
                    ) by {
                        let bi = if i < at {
                            i
                        } else {
                            i - 1
                        };
                        let bj = if j < at {
                            j
                        } else {
                            j - 1
                        };
                        if i == at {
                            assert(out@[j] == previous[bj]);
                        } else if j == at {
                            assert(out@[i] == previous[bi]);
                            if text_before(item.key(), previous[bi].key()) {
                                lemma_before_is_transitive(
                                    item.key(),
                                    previous[bi].key(),
                                    item.key(),
                                );
                                lemma_not_before_itself(item.key());
                            }
                        } else {
                            assert(out@[i] == previous[bi]);
                            assert(out@[j] == previous[bj]);
                        }
                    }
                }
            },
        }
    }
    assert(v@ =~= taken);
    out
}

/// Texts are ordered strictly: none before itself, no two before each other, one of two
/// different ones first, and a beginning before what it begins.
pub proof fn law_texts_are_in_one_order(a: Seq<char>, b: Seq<char>, c: Seq<char>)
    ensures
        !text_before(a, a),
        text_before(a, b) ==> !text_before(b, a),
        a != b ==> text_before(a, b) || text_before(b, a),
        text_before(a, b) && text_before(b, c) ==> text_before(a, c),
        b.len() > 0 ==> text_before(a, a + b),
        a.len() > 0 && b.len() > 0 && a[0] < b[0] ==> text_before(a, b),
{
    lemma_before_is_strict(a);
    lemma_before_is_total(a, b);
    if text_before(a, b) && text_before(b, c) {
        lemma_before_is_transitive(a, b, c);
    }
    if text_before(a, b) && text_before(b, a) {
        lemma_before_is_transitive(a, b, a);
    }
    if b.len() > 0 {
        lemma_beginnings_are_before(a, b);
    }
}

proof fn lemma_before_is_strict(a: Seq<char>)
    ensures
        !text_before(a, a),
    decreases a.len(),
{
    if a.len() > 0 {
        lemma_before_is_strict(a.drop_first());
    }
}

proof fn lemma_beginnings_are_before(a: Seq<char>, b: Seq<char>)
    requires
        b.len() > 0,
    ensures
        text_before(a, a + b),
    decreases a.len(),
{
    if a.len() > 0 {
        lemma_beginnings_are_before(a.drop_first(), b);
        assert((a + b).drop_first() =~= a.drop_first() + b);
    }
}

} // verus!

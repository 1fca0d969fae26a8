//! A map from text keys to values that keeps its entries in key order, so that
//! whatever is written out from it is stable from run to run.

use vstd::prelude::*;
use vstd::string::*;

verus! {

/// How one text stands to another in the order of the map's keys.
#[derive(Clone, Copy, Debug)]
pub enum TextOrder {
    Less,
    Equal,
    Greater,
}

/// `a` comes before `b` from position `i` on: the first position at which
/// they differ decides, and a proper prefix comes first.
pub open spec fn text_lt_from(a: Seq<char>, b: Seq<char>, i: int) -> bool
    decreases a.len() - i,
{
    if i < 0 || i >= b.len() {
        false
    } else if i >= a.len() {
        true
    } else if a[i] < b[i] {
        true
    } else if a[i] > b[i] {
        false
    } else {
        text_lt_from(a, b, i + 1)
    }
}

/// Lexicographic order on texts, character by character.
pub open spec fn text_lt(a: Seq<char>, b: Seq<char>) -> bool {
    text_lt_from(a, b, 0)
}

pub proof fn lemma_text_lt_irreflexive_from(a: Seq<char>, i: int)
    requires
        0 <= i,
    ensures
        !text_lt_from(a, a, i),
    decreases a.len() - i,
{
    if i < a.len() {
        lemma_text_lt_irreflexive_from(a, i + 1);
    }
}

pub proof fn lemma_text_lt_transitive_from(a: Seq<char>, b: Seq<char>, c: Seq<char>, i: int)
    requires
        0 <= i,
        text_lt_from(a, b, i),
        text_lt_from(b, c, i),
    ensures
        text_lt_from(a, c, i),
    decreases a.len() - i,
{
    if i < a.len() && i < b.len() && i < c.len() && a[i] == b[i] && b[i] == c[i] {
        lemma_text_lt_transitive_from(a, b, c, i + 1);
    }
}

pub proof fn lemma_text_total_from(a: Seq<char>, b: Seq<char>, i: int)
    requires
        0 <= i <= a.len(),
        i <= b.len(),
        a.subrange(0, i) == b.subrange(0, i),
        !text_lt_from(a, b, i),
        !text_lt_from(b, a, i),
    ensures
        a == b,
    decreases a.len() - i,
{
    if i < a.len() && i < b.len() {
        assert(a[i] == b[i]);
        assert(a.subrange(0, i + 1) == a.subrange(0, i).push(a[i]));
        assert(b.subrange(0, i + 1) == b.subrange(0, i).push(b[i]));
        lemma_text_total_from(a, b, i + 1);
    } else {
        assert(a.len() == i && b.len() == i);
        assert(a == a.subrange(0, i));
        assert(b == b.subrange(0, i));
    }
}

/// The order is strict and total: of two texts exactly one of "before",
/// "equal" and "after" holds, and "before" is transitive.
pub proof fn lemma_text_order(a: Seq<char>, b: Seq<char>, c: Seq<char>)
    ensures
        !text_lt(a, a),
        text_lt(a, b) && text_lt(b, c) ==> text_lt(a, c),
        text_lt(a, b) || a == b || text_lt(b, a),
        !(text_lt(a, b) && text_lt(b, a)),
{
    lemma_text_lt_irreflexive_from(a, 0);
    if text_lt(a, b) && text_lt(b, c) {
        lemma_text_lt_transitive_from(a, b, c, 0);
    }
    if !text_lt(a, b) && !text_lt(b, a) {
        assert(a.subrange(0, 0) == b.subrange(0, 0));
        lemma_text_total_from(a, b, 0);
    }
    if text_lt(a, b) && text_lt(b, a) {
        lemma_text_lt_transitive_from(a, b, a, 0);
    }
}

/// Compares two texts in the order of the map's keys.
pub fn text_order(a: &str, b: &str) -> (o: TextOrder)
    ensures
        o is Less <==> text_lt(a@, b@),
        o is Equal <==> a@ == b@,
        o is Greater <==> text_lt(b@, a@),
{
    let la = a.unicode_len();
    let lb = b.unicode_len();
    let mut i: usize = 0;
    proof {
        lemma_text_order(a@, b@, a@);
        assert(a@.subrange(0, 0) == b@.subrange(0, 0));
    }
    while i < la && i < lb
        invariant
            la == a@.len(),
            lb == b@.len(),
            i <= la,
            i <= lb,
            a@.subrange(0, i as int) == b@.subrange(0, i as int),
            text_lt(a@, b@) == text_lt_from(a@, b@, i as int),
            text_lt(b@, a@) == text_lt_from(b@, a@, i as int),
        decreases la - i,
    {
        let ca = a.get_char(i);
        let cb = b.get_char(i);
        if ca < cb {
            proof {
                assert(a@ != b@);
            }
            return TextOrder::Less;
        }
        if ca > cb {
            proof {
                assert(a@ != b@);
            }
            return TextOrder::Greater;
        }
        proof {
            assert(a@.subrange(0, i + 1) == a@.subrange(0, i as int).push(ca));
            assert(b@.subrange(0, i + 1) == b@.subrange(0, i as int).push(cb));
        }
        i += 1;
    }
    if la < lb {
        TextOrder::Less
    } else if la > lb {
        TextOrder::Greater
    } else {
        proof {
            lemma_text_total_from(a@, b@, i as int);
        }
        TextOrder::Equal
    }
}

/// The keys of `s` rise strictly from entry to entry.
pub open spec fn sorted_keys<V>(s: Seq<(Seq<char>, V)>) -> bool {
    forall|i: int, j: int| 0 <= i < j < s.len() ==> text_lt(#[trigger] s[i].0, #[trigger] s[j].0)
}

/// The index of the first entry of `s`, from `i` on, whose key does not come
/// before `k`; the length of `s` if there is none.
pub open spec fn first_not_before<V>(s: Seq<(Seq<char>, V)>, k: Seq<char>, i: int) -> int
    decreases s.len() - i,
{
    if i < 0 || i >= s.len() {
        s.len() as int
    } else if text_lt(s[i].0, k) {
        first_not_before(s, k, i + 1)
    } else {
        i
    }
}

/// The index of the first entry of `s`, from `i` on, whose key is `k`; the
/// length of `s` if there is none.
pub open spec fn first_with_key<V>(s: Seq<(Seq<char>, V)>, k: Seq<char>, i: int) -> int
    decreases s.len() - i,
{
    if i < 0 || i >= s.len() {
        s.len() as int
    } else if s[i].0 == k {
        i
    } else {
        first_with_key(s, k, i + 1)
    }
}

/// The value that `s` holds under `k`, if any.
pub open spec fn lookup<V>(s: Seq<(Seq<char>, V)>, k: Seq<char>) -> Option<V> {
    let p = first_with_key(s, k, 0);
    if p < s.len() {
        Some(s[p].1)
    } else {
        None
    }
}

pub proof fn lemma_first_with_key<V>(s: Seq<(Seq<char>, V)>, k: Seq<char>, i: int)
    requires
        0 <= i <= s.len(),
    ensures
        i <= first_with_key(s, k, i) <= s.len(),
        first_with_key(s, k, i) < s.len() ==> s[first_with_key(s, k, i)].0 == k,
        forall|j: int| i <= j < first_with_key(s, k, i) ==> (#[trigger] s[j]).0 != k,
    decreases s.len() - i,
{
    if i < s.len() && s[i].0 != k {
        lemma_first_with_key(s, k, i + 1);
    }
}

/// In a sorted sequence the entry at `i` is the one that `lookup` finds for
/// its key.
pub proof fn lemma_lookup_at<V>(s: Seq<(Seq<char>, V)>, i: int)
    requires
        sorted_keys(s),
        0 <= i < s.len(),
    ensures
        lookup(s, s[i].0) == Some(s[i].1),
{
    lemma_first_with_key(s, s[i].0, 0);
    let p = first_with_key(s, s[i].0, 0);
    if p < s.len() {
        lemma_sorted_distinct(s, p, i);
    }
}

/// A key that no entry carries is not found.
pub proof fn lemma_lookup_none<V>(s: Seq<(Seq<char>, V)>, k: Seq<char>)
    requires
        forall|j: int| 0 <= j < s.len() ==> (#[trigger] s[j]).0 != k,
    ensures
        lookup(s, k) is None,
{
    lemma_first_with_key(s, k, 0);
}

/// `s` with `k` bound to `v`: in place of the old entry for `k` if there was
/// one, else at the position that keeps the keys in order.
pub open spec fn put<V>(s: Seq<(Seq<char>, V)>, k: Seq<char>, v: V) -> Seq<(Seq<char>, V)> {
    let p = first_not_before(s, k, 0);
    if p < s.len() && s[p].0 == k {
        s.update(p, (k, v))
    } else {
        s.insert(p, (k, v))
    }
}

pub proof fn lemma_first_not_before<V>(s: Seq<(Seq<char>, V)>, k: Seq<char>, i: int)
    requires
        0 <= i <= s.len(),
        sorted_keys(s),
    ensures
        i <= first_not_before(s, k, i) <= s.len(),
        forall|j: int| i <= j < first_not_before(s, k, i) ==> text_lt(#[trigger] s[j].0, k),
        forall|j: int|
            first_not_before(s, k, i) <= j < s.len() ==> !text_lt(#[trigger] s[j].0, k),
    decreases s.len() - i,
{
    if i < s.len() {
        if text_lt(s[i].0, k) {
            lemma_first_not_before(s, k, i + 1);
        } else {
            assert forall|j: int| i <= j < s.len() implies !text_lt(#[trigger] s[j].0, k) by {
                if i < j && text_lt(s[j].0, k) {
                    lemma_text_order(s[i].0, s[j].0, k);
                }
            }
        }
    }
}

/// In a sorted sequence no key stands twice.
pub proof fn lemma_sorted_distinct<V>(s: Seq<(Seq<char>, V)>, i: int, j: int)
    requires
        sorted_keys(s),
        0 <= i < s.len(),
        0 <= j < s.len(),
        s[i].0 == s[j].0,
    ensures
        i == j,
{
    lemma_text_order(s[i].0, s[i].0, s[i].0);
}

/// `put` is the insertion of a map: the keys stay in order, `k` is bound to
/// `v`, and every other key keeps what it had.
pub proof fn lemma_put<V>(s: Seq<(Seq<char>, V)>, k: Seq<char>, v: V, other: Seq<char>)
    requires
        sorted_keys(s),
    ensures
        sorted_keys(put(s, k, v)),
        lookup(put(s, k, v), k) == Some(v),
        other != k ==> lookup(put(s, k, v), other) == lookup(s, other),
{
    let p = first_not_before(s, k, 0);
    let t = put(s, k, v);
    lemma_first_not_before(s, k, 0);
    let replaced = p < s.len() && s[p].0 == k;
    assert(sorted_keys(t)) by {
        assert forall|i: int, j: int| 0 <= i < j < t.len() implies text_lt(
            #[trigger] t[i].0,
            #[trigger] t[j].0,
        ) by {
            if replaced {
                assert(t[i].0 == s[i].0 && t[j].0 == s[j].0);
            } else {
                if j < p {
                    assert(t[i] == s[i] && t[j] == s[j]);
                } else if j == p {
                    assert(t[i] == s[i]);
                } else if i < p {
                    assert(t[i] == s[i] && t[j] == s[j - 1]);
                } else if i == p {
                    assert(t[j] == s[j - 1]);
                    lemma_text_order(s[j - 1].0, k, k);
                } else {
                    assert(t[i] == s[i - 1] && t[j] == s[j - 1]);
                }
            }
        }
    }
    assert(t[p] == (k, v));
    lemma_lookup_at(t, p);
    if other != k {
        lemma_first_with_key(s, other, 0);
        let i = first_with_key(s, other, 0);
        if i < s.len() {
            let i2 = if replaced || i < p {
                i
            } else {
                i + 1
            };
            assert(0 <= i2 < t.len() && t[i2] == s[i]);
            lemma_lookup_at(t, i2);
        } else {
            assert forall|c: int| 0 <= c < t.len() implies (#[trigger] t[c]).0 != other by {
                let c0 = if replaced || c < p {
                    c
                } else {
                    c - 1
                };
                if c != p {
                    assert(t[c].0 == s[c0].0);
                }
            }
            lemma_lookup_none(t, other);
        }
    }
}

/// If the first entry that does not come before `k` does not carry `k`, no
/// entry does.
pub proof fn lemma_absent<V>(s: Seq<(Seq<char>, V)>, k: Seq<char>)
    requires
        sorted_keys(s),
        first_not_before(s, k, 0) < s.len() ==> s[first_not_before(s, k, 0)].0 != k,
    ensures
        lookup(s, k) is None,
{
    let p = first_not_before(s, k, 0);
    lemma_first_not_before(s, k, 0);
    assert forall|c: int| 0 <= c < s.len() implies (#[trigger] s[c]).0 != k by {
        if s[c].0 == k {
            if c < p {
                lemma_text_order(k, k, k);
            } else if c > p {
                lemma_text_order(s[p].0, k, k);
            }
        }
    }
    lemma_lookup_none(s, k);
}

/// Two lists with their keys in order that bind the same keys to the same
/// values agree in their first `i` entries.
pub proof fn lemma_same_upto<V>(a: Seq<(Seq<char>, V)>, b: Seq<(Seq<char>, V)>, i: int)
    requires
        sorted_keys(a),
        sorted_keys(b),
        forall|k: Seq<char>| lookup(a, k) == #[trigger] lookup(b, k),
        0 <= i <= a.len(),
    ensures
        i <= b.len(),
        forall|j: int| 0 <= j < i ==> a[j] == b[j],
    decreases i,
{
    if i > 0 {
        lemma_same_upto(a, b, i - 1);
        let n = i - 1;
        let k = a[n].0;
        lemma_lookup_at(a, n);
        assert(lookup(a, k) == lookup(b, k));
        lemma_first_with_key(b, k, 0);
        let p = first_with_key(b, k, 0);
        if p < n {
            assert(a[p] == b[p]);
            lemma_sorted_distinct(a, p, n);
        }
        if p > n {
            let other = b[n].0;
            lemma_lookup_at(b, n);
            assert(lookup(a, other) == lookup(b, other));
            lemma_first_with_key(a, other, 0);
            let q = first_with_key(a, other, 0);
            if q < n {
                assert(a[q] == b[q]);
                lemma_sorted_distinct(b, q, n);
            }
            assert(text_lt(b[n].0, b[p].0));
            if q > n {
                assert(text_lt(a[n].0, a[q].0));
            }
            lemma_text_order(other, k, other);
        }
        assert(a[n] == b[n]);
    }
}

/// Two lists with their keys in order that bind the same keys to the same
/// values are the same list.
pub proof fn lemma_sorted_same<V>(a: Seq<(Seq<char>, V)>, b: Seq<(Seq<char>, V)>)
    requires
        sorted_keys(a),
        sorted_keys(b),
        forall|k: Seq<char>| lookup(a, k) == #[trigger] lookup(b, k),
    ensures
        a == b,
{
    lemma_same_upto(a, b, a.len() as int);
    assert forall|k: Seq<char>| lookup(b, k) == #[trigger] lookup(a, k) by {
        assert(lookup(a, k) == lookup(b, k));
    }
    lemma_same_upto(b, a, b.len() as int);
    assert(a =~= b);
}

/// A key that is not the last one is looked up in the list without its
/// last entry.
pub proof fn lemma_lookup_front<V>(s: Seq<(Seq<char>, V)>, k: Seq<char>, i: int)
    requires
        s.len() > 0,
        0 <= i < s.len(),
        s.last().0 != k,
    ensures
        first_with_key(s, k, i) < s.len() ==> first_with_key(s.drop_last(), k, i)
            == first_with_key(s, k, i),
        first_with_key(s, k, i) >= s.len() ==> first_with_key(s.drop_last(), k, i) >= s.len() - 1,
    decreases s.len() - i,
{
    let front = s.drop_last();
    assert(front.len() == s.len() - 1);
    if i < s.len() - 1 {
        assert(front[i] == s[i]);
        if s[i].0 != k {
            lemma_lookup_front(s, k, i + 1);
        }
    } else {
        assert(s[i] == s.last());
        assert(first_with_key(s, k, i + 1) == s.len());
    }
}

/// Binding a key to what it is bound to changes nothing.
pub proof fn lemma_put_same<V>(s: Seq<(Seq<char>, V)>, k: Seq<char>, v: V)
    requires
        sorted_keys(s),
        lookup(s, k) == Some(v),
    ensures
        put(s, k, v) == s,
{
    lemma_put(s, k, v, k);
    assert forall|other: Seq<char>| lookup(put(s, k, v), other) == #[trigger] lookup(
        s,
        other,
    ) by {
        lemma_put(s, k, v, other);
    }
    lemma_sorted_same(put(s, k, v), s);
}

/// Bindings of two keys may be made in either order.
pub proof fn lemma_put_commutes<V>(
    s: Seq<(Seq<char>, V)>,
    k1: Seq<char>,
    v1: V,
    k2: Seq<char>,
    v2: V,
)
    requires
        sorted_keys(s),
        k1 != k2,
    ensures
        put(put(s, k1, v1), k2, v2) == put(put(s, k2, v2), k1, v1),
{
    let a = put(put(s, k1, v1), k2, v2);
    let b = put(put(s, k2, v2), k1, v1);
    lemma_put(s, k1, v1, k2);
    lemma_put(s, k2, v2, k1);
    lemma_put(put(s, k1, v1), k2, v2, k1);
    lemma_put(put(s, k2, v2), k1, v1, k2);
    assert forall|k: Seq<char>| lookup(a, k) == #[trigger] lookup(b, k) by {
        lemma_put(s, k1, v1, k);
        lemma_put(s, k2, v2, k);
        lemma_put(put(s, k1, v1), k2, v2, k);
        lemma_put(put(s, k2, v2), k1, v1, k);
    }
    lemma_sorted_same(a, b);
}

/// Whatever holds of every entry of `s` and of the new entry holds of every
/// entry of `put(s, k, v)`.
pub proof fn lemma_put_preserves<V>(
    s: Seq<(Seq<char>, V)>,
    k: Seq<char>,
    v: V,
    holds: spec_fn((Seq<char>, V)) -> bool,
)
    requires
        forall|i: int| 0 <= i < s.len() ==> holds(#[trigger] s[i]),
        holds((k, v)),
    ensures
        forall|i: int| 0 <= i < put(s, k, v).len() ==> holds(#[trigger] put(s, k, v)[i]),
{
    lemma_first_not_before_range(s, k, 0);
    let p = first_not_before(s, k, 0);
    let t = put(s, k, v);
    assert forall|i: int| 0 <= i < t.len() implies holds(#[trigger] t[i]) by {
        if p < s.len() && s[p].0 == k {
            if i != p {
                assert(t[i] == s[i]);
            }
        } else {
            if i < p {
                assert(t[i] == s[i]);
            } else if i > p {
                assert(t[i] == s[i - 1]);
            }
        }
    }
}

pub proof fn lemma_first_not_before_range<V>(s: Seq<(Seq<char>, V)>, k: Seq<char>, i: int)
    requires
        0 <= i <= s.len(),
    ensures
        i <= first_not_before(s, k, i) <= s.len(),
    decreases s.len() - i,
{
    if i < s.len() && text_lt(s[i].0, k) {
        lemma_first_not_before_range(s, k, i + 1);
    }
}

/// Binding a key a second time to the same value changes nothing.
pub proof fn lemma_put_twice<V>(s: Seq<(Seq<char>, V)>, k: Seq<char>, v: V)
    requires
        sorted_keys(s),
    ensures
        put(put(s, k, v), k, v) == put(s, k, v),
{
    let t = put(s, k, v);
    let p = first_not_before(s, k, 0);
    lemma_first_not_before(s, k, 0);
    lemma_put(s, k, v, k);
    assert(t[p] == (k, v));
    lemma_first_not_before(t, k, 0);
    let q = first_not_before(t, k, 0);
    lemma_text_order(k, k, k);
    if q < p {
        assert(t[q] == s[q]);
        assert(text_lt(s[q].0, k));
        assert(!text_lt(t[q].0, k));
    }
    if p < q {
        assert(text_lt(t[p].0, k));
    }
    assert(q == p);
    assert(t.update(p, (k, v)) == t);
}

/// A map from text keys to values, iterated in key order.
#[derive(Debug)]
pub struct OrderedMap<V> {
    entries: Vec<(String, V)>,
}

impl<V> OrderedMap<V> {
    /// The entries in key order, each key as its text.
    pub closed spec fn view(&self) -> Seq<(Seq<char>, V)> {
        Seq::new(self.entries@.len(), |i: int| (self.entries@[i].0@, self.entries@[i].1))
    }

    /// The keys are in order. Every map this module hands out is well formed,
    /// and its methods keep it so.
    pub open spec fn wf(&self) -> bool {
        sorted_keys(self@)
    }

    pub fn new() -> (m: Self)
        ensures
            m.wf(),
            m@ == Seq::<(Seq<char>, V)>::empty(),
    {
        let m = OrderedMap { entries: Vec::new() };
        assert(m@ == Seq::<(Seq<char>, V)>::empty());
        m
    }

    pub fn len(&self) -> (n: usize)
        ensures
            n == self@.len(),
    {
        self.entries.len()
    }

    pub fn key_at(&self, i: usize) -> (k: &String)
        requires
            i < self@.len(),
        ensures
            k@ == self@[i as int].0,
    {
        &self.entries[i].0
    }

    pub fn value_at(&self, i: usize) -> (v: &V)
        requires
            i < self@.len(),
        ensures
            *v == self@[i as int].1,
    {
        &self.entries[i].1
    }

    /// The index of the first entry whose key does not come before `key`.
    fn position(&self, key: &str) -> (p: usize)
        requires
            self.wf(),
        ensures
            p == first_not_before(self@, key@, 0),
            p <= self@.len(),
    {
        let mut i: usize = 0;
        proof {
            lemma_first_not_before(self@, key@, 0);
        }
        while i < self.entries.len()
            invariant
                i <= self@.len(),
                self@.len() == self.entries@.len(),
                first_not_before(self@, key@, 0) == first_not_before(self@, key@, i as int),
                first_not_before(self@, key@, 0) <= self@.len(),
            decreases self@.len() - i,
        {
            match text_order(self.entries[i].0.as_str(), key) {
                TextOrder::Less => {
                    i += 1;
                },
                _ => {
                    return i;
                },
            }
        }
        i
    }

    pub fn get(&self, key: &str) -> (v: Option<&V>)
        requires
            self.wf(),
        ensures
            match v {
                Some(v) => lookup(self@, key@) == Some(*v),
                None => lookup(self@, key@) is None,
            },
    {
        let p = self.position(key);
        if p < self.entries.len() {
            match text_order(self.entries[p].0.as_str(), key) {
                TextOrder::Equal => {
                    proof {
                        lemma_lookup_at(self@, p as int);
                    }
                    return Some(&self.entries[p].1);
                },
                _ => {},
            }
        }
        proof {
            lemma_absent(self@, key@);
        }
        None
    }

    pub fn contains_key(&self, key: &str) -> (b: bool)
        requires
            self.wf(),
        ensures
            b == lookup(self@, key@).is_some(),
    {
        self.get(key).is_some()
    }

    /// Binds `key` to `value` and hands back what `key` was bound to before.
    pub fn insert(&mut self, key: String, value: V) -> (before: Option<V>)
        requires
            old(self).wf(),
        ensures
            final(self).wf(),
            final(self)@ == put(old(self)@, key@, value),
            before == lookup(old(self)@, key@),
    {
        let p = self.position(key.as_str());
        let ghost before_view = self@;
        let mut hit = false;
        if p < self.entries.len() {
            match text_order(self.entries[p].0.as_str(), key.as_str()) {
                TextOrder::Equal => {
                    hit = true;
                },
                _ => {},
            }
        }
        proof {
            lemma_put(self@, key@, value, key@);
        }
        if hit {
            proof {
                lemma_lookup_at(self@, p as int);
            }
            self.entries.push((key, value));
            let old_entry = self.entries.swap_remove(p);
            assert(self@ == before_view.update(p as int, (key@, value)));
            Some(old_entry.1)
        } else {
            proof {
                lemma_absent(self@, key@);
            }
            self.entries.insert(p, (key, value));
            assert(self@ == before_view.insert(p as int, (key@, value)));
            None
        }
    }
}

impl<V: Copy> OrderedMap<V> {
    /// A copy of the map.
    pub fn duplicate(&self) -> (copy: Self)
        requires
            self.wf(),
        ensures
            copy.wf(),
            copy@ == self@,
    {
        let mut entries: Vec<(String, V)> = Vec::new();
        let mut i: usize = 0;
        while i < self.entries.len()
            invariant
                i <= self.entries@.len(),
                entries@.len() == i,
                forall|j: int|
                    0 <= j < i ==> (#[trigger] entries@[j]).0@ == self.entries@[j].0@
                        && entries@[j].1 == self.entries@[j].1,
            decreases self.entries@.len() - i,
        {
            entries.push((self.entries[i].0.clone(), self.entries[i].1));
            i += 1;
        }
        let copy = OrderedMap { entries };
        assert(copy@ =~= self@);
        copy
    }
}

} // verus!

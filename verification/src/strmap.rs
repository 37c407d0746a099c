//! Maps and sets keyed by strings, kept in the order in which `String`
//! compares: lexicographically by character (UTF-8 byte order and code point
//! order agree). Iterating one gives its keys in increasing order, as a
//! `BTreeMap<String, _>` or `BTreeSet<String>` would.
use vstd::prelude::*;
use crate::text::owned;

verus! {

/// `a` comes before `b` in string order.
pub open spec fn str_lt(a: Seq<char>, b: Seq<char>) -> bool
    decreases a.len(),
{
    if a.len() == 0 {
        b.len() > 0
    } else if b.len() == 0 {
        false
    } else if a[0] != b[0] {
        (a[0] as int) < (b[0] as int)
    } else {
        str_lt(a.drop_first(), b.drop_first())
    }
}

/// String order is irreflexive.
pub proof fn lemma_str_lt_irreflexive(a: Seq<char>)
    ensures
        !str_lt(a, a),
    decreases a.len(),
{
    if a.len() > 0 {
        lemma_str_lt_irreflexive(a.drop_first());
    }
}

/// String order is transitive.
pub proof fn lemma_str_lt_transitive(a: Seq<char>, b: Seq<char>, c: Seq<char>)
    requires
        str_lt(a, b),
        str_lt(b, c),
    ensures
        str_lt(a, c),
    decreases a.len(),
{
    if a.len() > 0 && b.len() > 0 && c.len() > 0 && a[0] == b[0] && b[0] == c[0] {
        lemma_str_lt_transitive(a.drop_first(), b.drop_first(), c.drop_first());
    }
}

/// String order is total: of two different strings one comes first.
pub proof fn lemma_str_lt_total(a: Seq<char>, b: Seq<char>)
    ensures
        a == b || str_lt(a, b) || str_lt(b, a),
    decreases a.len(),
{
    if a.len() > 0 && b.len() > 0 {
        if a[0] == b[0] {
            lemma_str_lt_total(a.drop_first(), b.drop_first());
            if a.drop_first() == b.drop_first() {
                assert(a =~= seq![a[0]] + a.drop_first());
                assert(b =~= seq![b[0]] + b.drop_first());
            }
        } else {
        }
    } else if a.len() == 0 && b.len() == 0 {
        assert(a =~= b);
    }
}

/// String order is asymmetric.
pub proof fn lemma_str_lt_asymmetric(a: Seq<char>, b: Seq<char>)
    requires
        str_lt(a, b),
    ensures
        !str_lt(b, a),
{
    if str_lt(b, a) {
        lemma_str_lt_transitive(a, b, a);
        lemma_str_lt_irreflexive(a);
    }
}

/// Whether `a` comes before `b` in string order.
pub fn string_lt(a: &str, b: &str) -> (r: bool)
    ensures
        r == str_lt(a@, b@),
{
    let n = a.unicode_len();
    let m = b.unicode_len();
    let mut i: usize = 0;
    proof {
        assert(a@.skip(0) =~= a@);
        assert(b@.skip(0) =~= b@);
    }
    while i < n && i < m
        invariant
            n == a@.len(),
            m == b@.len(),
            i <= n,
            i <= m,
            str_lt(a@, b@) == str_lt(a@.skip(i as int), b@.skip(i as int)),
        decreases n - i,
    {
        let x = a.get_char(i);
        let y = b.get_char(i);
        if x != y {
            return x < y;
        }
        proof {
            assert(a@.skip(i as int).drop_first() =~= a@.skip(i as int + 1));
            assert(b@.skip(i as int).drop_first() =~= b@.skip(i as int + 1));
        }
        i = i + 1;
    }
    i == n && i < m
}

/// The keys of `s` increase strictly.
pub open spec fn sorted_keys<V>(s: Seq<(Seq<char>, V)>) -> bool {
    forall|i: int, j: int| 0 <= i < j < s.len() ==> str_lt(s[i].0, s[j].0)
}

/// How many keys of `s` come before `k` (where `k` belongs in sorted `s`).
pub open spec fn lower_bound<V>(s: Seq<(Seq<char>, V)>, k: Seq<char>) -> nat
    decreases s.len(),
{
    if s.len() == 0 {
        0
    } else if str_lt(s[0].0, k) {
        1 + lower_bound(s.drop_first(), k)
    } else {
        0
    }
}

/// Whether key `k` is in `s`.
pub open spec fn has_key<V>(s: Seq<(Seq<char>, V)>, k: Seq<char>) -> bool {
    let p = lower_bound(s, k) as int;
    p < s.len() && s[p].0 == k
}

/// The value under `k` in `s`, if any.
pub open spec fn key_value<V>(s: Seq<(Seq<char>, V)>, k: Seq<char>) -> Option<V> {
    let p = lower_bound(s, k) as int;
    if p < s.len() && s[p].0 == k {
        Some(s[p].1)
    } else {
        None
    }
}

/// `s` with `v` under `k`: replaced where `k` is, else inserted in order.
pub open spec fn with_key<V>(s: Seq<(Seq<char>, V)>, k: Seq<char>, v: V) -> Seq<(Seq<char>, V)> {
    let p = lower_bound(s, k) as int;
    if p < s.len() && s[p].0 == k {
        s.update(p, (k, v))
    } else {
        s.insert(p, (k, v))
    }
}

/// `s` without key `k`.
pub open spec fn without_key<V>(s: Seq<(Seq<char>, V)>, k: Seq<char>) -> Seq<(Seq<char>, V)> {
    let p = lower_bound(s, k) as int;
    if p < s.len() && s[p].0 == k {
        s.remove(p)
    } else {
        s
    }
}

/// The lower bound splits a sorted sequence: keys before it come before
/// `k`, keys from it on do not.
pub proof fn lemma_lower_bound<V>(s: Seq<(Seq<char>, V)>, k: Seq<char>)
    requires
        sorted_keys(s),
    ensures
        lower_bound(s, k) <= s.len(),
        forall|i: int| 0 <= i < lower_bound(s, k) ==> str_lt(#[trigger] s[i].0, k),
        forall|i: int| lower_bound(s, k) <= i < s.len() ==> !str_lt(#[trigger] s[i].0, k),
    decreases s.len(),
{
    if s.len() > 0 {
        let t = s.drop_first();
        assert(sorted_keys(t)) by {
            assert forall|i: int, j: int| 0 <= i < j < t.len() implies str_lt(t[i].0, t[j].0) by {
                assert(t[i] == s[i + 1] && t[j] == s[j + 1]);
            }
        }
        lemma_lower_bound(t, k);
        if str_lt(s[0].0, k) {
            assert forall|i: int| 0 <= i < lower_bound(s, k) implies str_lt(#[trigger] s[i].0, k) by {
                if i > 0 {
                    assert(s[i] == t[i - 1]);
                }
            }
            assert forall|i: int| lower_bound(s, k) <= i < s.len() implies !str_lt(#[trigger] s[i].0, k) by {
                assert(s[i] == t[i - 1]);
            }
        } else {
            assert forall|i: int| 0 <= i < s.len() implies !str_lt(#[trigger] s[i].0, k) by {
                if i > 0 && str_lt(s[i].0, k) {
                    lemma_str_lt_total(s[0].0, s[i].0);
                    lemma_str_lt_transitive(s[0].0, s[i].0, k);
                }
            }
        }
    }
}

/// A key that is not at its lower bound is nowhere in a sorted sequence.
pub proof fn lemma_absent<V>(s: Seq<(Seq<char>, V)>, k: Seq<char>)
    requires
        sorted_keys(s),
        !has_key(s, k),
    ensures
        forall|i: int| 0 <= i < s.len() ==> #[trigger] s[i].0 != k,
{
    lemma_lower_bound(s, k);
    let p = lower_bound(s, k) as int;
    assert forall|i: int| 0 <= i < s.len() implies #[trigger] s[i].0 != k by {
        if s[i].0 == k {
            lemma_str_lt_irreflexive(k);
            if i > p {
                assert(str_lt(s[p].0, s[i].0));
                lemma_str_lt_total(s[p].0, k);
                if str_lt(k, s[p].0) {
                    lemma_str_lt_asymmetric(k, s[p].0);
                }
            }
        }
    }
}

/// A key at index `i` of a sorted sequence is found there.
pub proof fn lemma_present<V>(s: Seq<(Seq<char>, V)>, i: int)
    requires
        sorted_keys(s),
        0 <= i < s.len(),
    ensures
        lower_bound(s, s[i].0) == i,
        has_key(s, s[i].0),
        key_value(s, s[i].0) == Some(s[i].1),
{
    let k = s[i].0;
    lemma_lower_bound(s, k);
    let p = lower_bound(s, k) as int;
    lemma_str_lt_irreflexive(k);
    if p < i {
        assert(str_lt(s[p].0, k));
        assert(!str_lt(s[p].0, k));
    }
    if p > i {
        assert(str_lt(s[i].0, k));
    }
}

/// Inserting or replacing keeps the keys sorted.
pub proof fn lemma_with_key_sorted<V>(s: Seq<(Seq<char>, V)>, k: Seq<char>, v: V)
    requires
        sorted_keys(s),
    ensures
        sorted_keys(with_key(s, k, v)),
{
    lemma_lower_bound(s, k);
    let p = lower_bound(s, k) as int;
    let r = with_key(s, k, v);
    if p < s.len() && s[p].0 == k {
        assert forall|i: int, j: int| 0 <= i < j < r.len() implies str_lt(r[i].0, r[j].0) by {
            assert(r[i].0 == s[i].0 && r[j].0 == s[j].0);
        }
    } else {
        assert forall|i: int, j: int| 0 <= i < j < r.len() implies str_lt(r[i].0, r[j].0) by {
            if j < p {
                assert(r[i] == s[i] && r[j] == s[j]);
            } else if j == p {
                assert(r[i] == s[i]);
            } else if i < p {
                assert(r[i] == s[i] && r[j] == s[j - 1]);
                if !str_lt(k, s[j - 1].0) {
                    lemma_str_lt_total(k, s[j - 1].0);
                }
                if str_lt(k, s[j - 1].0) {
                    lemma_str_lt_transitive(s[i].0, k, s[j - 1].0);
                }
            } else if i == p {
                assert(r[j] == s[j - 1]);
                lemma_str_lt_total(k, s[j - 1].0);
                if j - 1 == p {
                    assert(s[p].0 != k);
                } else {
                    assert(str_lt(s[p].0, s[j - 1].0));
                    lemma_str_lt_total(k, s[p].0);
                    if str_lt(k, s[p].0) {
                        lemma_str_lt_transitive(k, s[p].0, s[j - 1].0);
                    }
                }
            } else {
                assert(r[i] == s[i - 1] && r[j] == s[j - 1]);
            }
        }
    }
}

/// Removing a key keeps the keys sorted.
pub proof fn lemma_without_key_sorted<V>(s: Seq<(Seq<char>, V)>, k: Seq<char>)
    requires
        sorted_keys(s),
    ensures
        sorted_keys(without_key(s, k)),
{
    let p = lower_bound(s, k) as int;
    let r = without_key(s, k);
    if p < s.len() && s[p].0 == k {
        assert forall|i: int, j: int| 0 <= i < j < r.len() implies str_lt(r[i].0, r[j].0) by {
            if j < p {
                assert(r[i] == s[i] && r[j] == s[j]);
            } else if i < p {
                assert(r[i] == s[i] && r[j] == s[j + 1]);
            } else {
                assert(r[i] == s[i + 1] && r[j] == s[j + 1]);
            }
        }
    }
}

/// The lower bound is the split point: where every earlier key comes before
/// `k` and the key there (if any) does not.
pub proof fn lemma_lower_bound_at<V>(s: Seq<(Seq<char>, V)>, k: Seq<char>, p: int)
    requires
        0 <= p <= s.len(),
        forall|i: int| 0 <= i < p ==> str_lt(#[trigger] s[i].0, k),
        p < s.len() ==> !str_lt(s[p].0, k),
    ensures
        lower_bound(s, k) == p,
    decreases s.len(),
{
    if s.len() > 0 && p > 0 {
        let t = s.drop_first();
        assert forall|i: int| 0 <= i < p - 1 implies str_lt(#[trigger] t[i].0, k) by {
            assert(t[i] == s[i + 1]);
        }
        if p - 1 < t.len() {
            assert(t[p - 1] == s[p]);
        }
        assert(str_lt(s[0].0, k));
        lemma_lower_bound_at(t, k, p - 1);
    }
}

/// Taking a key out and putting it back is putting it in place.
pub proof fn lemma_with_after_without<V>(s: Seq<(Seq<char>, V)>, k: Seq<char>, v: V)
    requires
        sorted_keys(s),
    ensures
        with_key(without_key(s, k), k, v) == with_key(s, k, v),
{
    lemma_lower_bound(s, k);
    let p = lower_bound(s, k) as int;
    if p < s.len() && s[p].0 == k {
        let t = s.remove(p);
        assert forall|i: int| 0 <= i < p implies str_lt(#[trigger] t[i].0, k) by {
            assert(t[i] == s[i]);
        }
        if p < t.len() {
            assert(t[p] == s[p + 1]);
            assert(str_lt(s[p].0, s[p + 1].0));
            lemma_str_lt_asymmetric(k, s[p + 1].0);
        }
        lemma_lower_bound_at(t, k, p);
        assert(t.insert(p, (k, v)) =~= s.update(p, (k, v)));
    }
}

/// The keys after putting `k` in are the keys before and `k`.
pub proof fn lemma_keys_with<V>(s: Seq<(Seq<char>, V)>, k: Seq<char>, v: V, g: Seq<char>)
    requires
        sorted_keys(s),
    ensures
        has_key(with_key(s, k, v), g) <==> (has_key(s, g) || g == k),
{
    lemma_with_key_sorted(s, k, v);
    let r = with_key(s, k, v);
    lemma_lower_bound(s, k);
    let p = lower_bound(s, k) as int;
    if has_key(r, g) {
        let q = lower_bound(r, g) as int;
        if g != k {
            if !has_key(s, g) {
                lemma_absent(s, g);
                lemma_lower_bound(r, g);
                assert(r[q].0 == g);
                if p < s.len() && s[p].0 == k {
                    assert(r == s.update(p, (k, v)));
                    assert(r[q] == s[q] || q == p);
                } else {
                    assert(r == s.insert(p, (k, v)));
                    if q < p {
                        assert(r[q] == s[q]);
                    } else if q > p {
                        assert(r[q] == s[q - 1]);
                    }
                }
            }
        }
    }
    if has_key(s, g) && g != k {
        let q = lower_bound(s, g) as int;
        lemma_lower_bound(s, g);
        let i: int = if p < s.len() && s[p].0 == k {
            assert(r == s.update(p, (k, v)));
            q
        } else {
            assert(r == s.insert(p, (k, v)));
            if q < p { q } else { q + 1 }
        };
        assert(r[i].0 == g);
        lemma_present(r, i);
    }
    if g == k {
        if p < s.len() && s[p].0 == k {
            assert(r == s.update(p, (k, v)));
            lemma_present(r, p);
        } else {
            assert(r == s.insert(p, (k, v)));
            lemma_present(r, p);
        }
    }
}

/// The keys after taking `k` out are the keys before but `k`.
pub proof fn lemma_keys_without<V>(s: Seq<(Seq<char>, V)>, k: Seq<char>, g: Seq<char>)
    requires
        sorted_keys(s),
    ensures
        has_key(without_key(s, k), g) <==> (has_key(s, g) && g != k),
{
    lemma_without_key_sorted(s, k);
    let r = without_key(s, k);
    lemma_lower_bound(s, k);
    let p = lower_bound(s, k) as int;
    if p < s.len() && s[p].0 == k {
        assert(r == s.remove(p));
        if has_key(r, g) {
            lemma_lower_bound(r, g);
            let q = lower_bound(r, g) as int;
            let i: int = if q < p { q } else { q + 1 };
            assert(s[i] == r[q]);
            lemma_present(s, i);
            if g == k {
                assert(i != p);
                assert(s[i].0 == s[p].0);
                if i < p {
                    assert(str_lt(s[i].0, s[p].0));
                    lemma_str_lt_irreflexive(k);
                } else {
                    assert(str_lt(s[p].0, s[i].0));
                    lemma_str_lt_irreflexive(k);
                }
            }
        }
        if has_key(s, g) && g != k {
            lemma_lower_bound(s, g);
            let q = lower_bound(s, g) as int;
            assert(q != p);
            let i: int = if q < p { q } else { q - 1 };
            assert(r[i] == s[q]);
            lemma_present(r, i);
        }
    } else {
        assert(r == s);
        if has_key(s, k) {
            lemma_lower_bound(s, k);
        }
    }
}

/// Putting a new key in and taking it out again gives the map back.
pub proof fn lemma_without_after_with<V>(s: Seq<(Seq<char>, V)>, k: Seq<char>, v: V)
    requires
        sorted_keys(s),
        !has_key(s, k),
    ensures
        without_key(with_key(s, k, v), k) == s,
{
    lemma_lower_bound(s, k);
    let p = lower_bound(s, k) as int;
    let r = s.insert(p, (k, v));
    assert(with_key(s, k, v) == r);
    assert forall|i: int| 0 <= i < p implies str_lt(#[trigger] r[i].0, k) by {
        assert(r[i] == s[i]);
    }
    lemma_str_lt_irreflexive(k);
    lemma_lower_bound_at(r, k, p);
    assert(r.remove(p) =~= s);
}

/// What a key holds after putting `v` under `k`: `v` for `k`, what it
/// held before for any other key.
pub proof fn lemma_value_with<V>(s: Seq<(Seq<char>, V)>, k: Seq<char>, v: V, g: Seq<char>)
    requires
        sorted_keys(s),
    ensures
        key_value(with_key(s, k, v), g) == (if g == k { Some(v) } else { key_value(s, g) }),
        sorted_keys(with_key(s, k, v)),
{
    lemma_with_key_sorted(s, k, v);
    lemma_keys_with(s, k, v, g);
    let r = with_key(s, k, v);
    lemma_lower_bound(s, k);
    let p = lower_bound(s, k) as int;
    let replaced = p < s.len() && s[p].0 == k;
    if replaced {
        assert(r == s.update(p, (k, v)));
    } else {
        assert(r == s.insert(p, (k, v)));
    }
    if g == k {
        assert(r[p] == (k, v));
        lemma_present(r, p);
    } else if has_key(s, g) {
        lemma_lower_bound(s, g);
        let q = lower_bound(s, g) as int;
        lemma_present(s, q);
        let i: int = if replaced { q } else if q < p { q } else { q + 1 };
        if replaced {
            assert(q != p);
        }
        assert(r[i] == s[q]);
        lemma_present(r, i);
    }
}

/// A map from strings to values, in string order.
pub struct StrMap<V: View> {
    entries: Vec<(String, V)>,
}

/// The text of each key with the view of its value.
pub open spec fn entries_view<V: View>(v: Seq<(String, V)>) -> Seq<(Seq<char>, V::V)> {
    v.map_values(|e: (String, V)| (e.0@, e.1@))
}

impl<V: View> View for StrMap<V> {
    type V = Seq<(Seq<char>, V::V)>;

    closed spec fn view(&self) -> Seq<(Seq<char>, V::V)> {
        entries_view(self.entries@)
    }
}

impl<V: View> StrMap<V> {
    #[verifier::type_invariant]
    closed spec fn inv(self) -> bool {
        sorted_keys(entries_view(self.entries@))
    }

    /// The map with nothing in it.
    pub fn new() -> (r: Self)
        ensures
            r@ == Seq::<(Seq<char>, V::V)>::empty(),
            sorted_keys(r@),
    {
        StrMap { entries: Vec::new() }
    }

    /// The number of keys; the keys are in increasing order.
    pub fn len(&self) -> (r: usize)
        ensures
            r == self@.len(),
            sorted_keys(self@),
    {
        proof {
            use_type_invariant(self);
        }
        self.entries.len()
    }

    fn position(&self, k: &str) -> (r: usize)
        ensures
            r == lower_bound(self@, k@),
    {
        proof {
            use_type_invariant(self);
        }
        let ghost s = self@;
        let n = self.entries.len();
        let mut i: usize = 0;
        proof {
            assert(s.skip(0) =~= s);
        }
        while i < n
            invariant
                n == s.len(),
                s == entries_view(self.entries@),
                i <= n,
                lower_bound(s, k@) == i + lower_bound(s.skip(i as int), k@),
            decreases n - i,
        {
            if !string_lt(self.entries[i].0.as_str(), k) {
                proof {
                    assert(s.skip(i as int)[0] == s[i as int]);
                }
                return i;
            }
            proof {
                assert(s.skip(i as int).drop_first() =~= s.skip(i as int + 1));
            }
            i = i + 1;
        }
        proof {
            assert(s.skip(n as int).len() == 0);
        }
        i
    }

    /// The value under `k`, if any.
    pub fn get(&self, k: &str) -> (r: Option<&V>)
        ensures
            match r {
                Some(v) => key_value(self@, k@) == Some(v@),
                None => key_value(self@, k@) is None,
            },
    {
        let p = self.position(k);
        if p < self.entries.len() && crate::text::str_eq(self.entries[p].0.as_str(), k) {
            Some(&self.entries[p].1)
        } else {
            None
        }
    }

    /// Whether `k` is a key.
    pub fn contains_key(&self, k: &str) -> (r: bool)
        ensures
            r == has_key(self@, k@),
    {
        let p = self.position(k);
        p < self.entries.len() && crate::text::str_eq(self.entries[p].0.as_str(), k)
    }

    /// Puts `v` under `k`, replacing what was there.
    pub fn insert(&mut self, k: &str, v: V)
        ensures
            final(self)@ == with_key(old(self)@, k@, v@),
            sorted_keys(old(self)@),
            sorted_keys(final(self)@),
    {
        proof {
            use_type_invariant(&*self);
            lemma_with_key_sorted(self@, k@, v@);
        }
        let p = self.position(k);
        let ghost s = self@;
        proof {
            lemma_lower_bound(s, k@);
        }
        let mut entries: Vec<(String, V)> = Vec::new();
            std::mem::swap(&mut entries, &mut self.entries);
        if p < entries.len() && crate::text::str_eq(entries[p].0.as_str(), k) {
            entries.set(p, (owned(k), v));
            proof {
                assert(entries_view(entries@) =~= s.update(p as int, (k@, v@)));
            }
        } else {
            entries.insert(p, (owned(k), v));
            proof {
                assert(entries_view(entries@) =~= s.insert(p as int, (k@, v@)));
            }
        }
        self.entries = entries;
    }

    /// Takes the value under `k` out, if there is one.
    pub fn take(&mut self, k: &str) -> (r: Option<V>)
        ensures
            match r {
                Some(v) => key_value(old(self)@, k@) == Some(v@),
                None => key_value(old(self)@, k@) is None,
            },
            final(self)@ == without_key(old(self)@, k@),
            sorted_keys(old(self)@),
            sorted_keys(final(self)@),
    {
        proof {
            use_type_invariant(&*self);
            lemma_without_key_sorted(self@, k@);
        }
        let p = self.position(k);
        if p < self.entries.len() && crate::text::str_eq(self.entries[p].0.as_str(), k) {
            let ghost s = self@;
            let mut entries: Vec<(String, V)> = Vec::new();
            std::mem::swap(&mut entries, &mut self.entries);
            let (_, v) = entries.remove(p);
            proof {
                assert(entries_view(entries@) =~= s.remove(p as int));
            }
            self.entries = entries;
            Some(v)
        } else {
            None
        }
    }

    /// The key and value at position `i` in key order.
    pub fn entry_at(&self, i: usize) -> (r: (&String, &V))
        requires
            i < self@.len(),
        ensures
            r.0@ == self@[i as int].0,
            r.1@ == self@[i as int].1,
    {
        let e = &self.entries[i];
        (&e.0, &e.1)
    }

    /// The keys, in increasing order.
    pub fn keys(&self) -> (r: Vec<String>)
        ensures
            r@.map_values(|k: String| k@) == self@.map_values(|e: (Seq<char>, V::V)| e.0),
    {
        let n = self.entries.len();
        let mut out: Vec<String> = Vec::new();
        let mut i: usize = 0;
        while i < n
            invariant
                n == self.entries@.len(),
                i <= n,
                out@.map_values(|k: String| k@) == self@.map_values(|e: (Seq<char>, V::V)| e.0).take(i as int),
            decreases n - i,
        {
            let key = self.entries[i].0.clone();
            proof {
                assert(key@ == self@[i as int].0);
            }
            let ghost before = out@;
            out.push(key);
            proof {
                assert(out@.map_values(|k: String| k@) =~= before.map_values(|k: String| k@).push(key@));
                assert(out@.map_values(|k: String| k@) =~= self@.map_values(|e: (Seq<char>, V::V)| e.0).take(i as int + 1));
            }
            i = i + 1;
        }
        proof {
            assert(self@.map_values(|e: (Seq<char>, V::V)| e.0).take(n as int) =~= self@.map_values(|e: (Seq<char>, V::V)| e.0));
        }
        out
    }

    /// The entries in increasing key order, the map used up.
    pub fn into_entries(self) -> (r: Vec<(String, V)>)
        ensures
            entries_view(r@) == self@,
            sorted_keys(self@),
    {
        proof {
            use_type_invariant(&self);
        }
        self.entries
    }
}

} // verus!

//! A map keyed by strings whose entries stand in key order.
//!
//! Keys are ordered by their UTF-8 bytes, the order of `str` itself. The order
//! and the uniqueness of the keys are an invariant of the type, so every walk
//! over a [`StringMap`] is deterministic.
use vstd::prelude::*;

verus! {

/// Lexicographic order on byte sequences.
pub open spec fn bytes_less(a: Seq<u8>, b: Seq<u8>) -> bool
    decreases a.len(),
{
    if b.len() == 0 {
        false
    } else if a.len() == 0 {
        true
    } else {
        a[0] < b[0] || (a[0] == b[0] && bytes_less(a.drop_first(), b.drop_first()))
    }
}

/// The order of strings: lexicographic on their UTF-8 bytes.
pub open spec fn key_less(a: Seq<char>, b: Seq<char>) -> bool {
    bytes_less(vstd::utf8::encode_utf8(a), vstd::utf8::encode_utf8(b))
}

proof fn lemma_bytes_less_irreflexive(a: Seq<u8>)
    ensures
        !bytes_less(a, a),
    decreases a.len(),
{
    if a.len() > 0 {
        lemma_bytes_less_irreflexive(a.drop_first());
    }
}

proof fn lemma_bytes_less_transitive(a: Seq<u8>, b: Seq<u8>, c: Seq<u8>)
    requires
        bytes_less(a, b),
        bytes_less(b, c),
    ensures
        bytes_less(a, c),
    decreases a.len(),
{
    if a.len() > 0 && b.len() > 0 && c.len() > 0 && a[0] == b[0] && b[0] == c[0] {
        lemma_bytes_less_transitive(a.drop_first(), b.drop_first(), c.drop_first());
    }
}

proof fn lemma_bytes_less_total(a: Seq<u8>, b: Seq<u8>)
    ensures
        a == b || bytes_less(a, b) || bytes_less(b, a),
    decreases a.len(),
{
    if a.len() == 0 {
        if b.len() == 0 {
            assert(a =~= b);
        }
    } else if b.len() > 0 && a[0] == b[0] {
        lemma_bytes_less_total(a.drop_first(), b.drop_first());
        if a.drop_first() == b.drop_first() {
            assert(a =~= seq![a[0]] + a.drop_first());
            assert(b =~= seq![b[0]] + b.drop_first());
        }
    }
}

/// No string comes before itself.
pub proof fn lemma_key_less_irreflexive(a: Seq<char>)
    ensures
        !key_less(a, a),
{
    lemma_bytes_less_irreflexive(vstd::utf8::encode_utf8(a));
}

/// The order of strings is transitive.
pub proof fn lemma_key_less_transitive(a: Seq<char>, b: Seq<char>, c: Seq<char>)
    requires
        key_less(a, b),
        key_less(b, c),
    ensures
        key_less(a, c),
{
    lemma_bytes_less_transitive(vstd::utf8::encode_utf8(a), vstd::utf8::encode_utf8(b), vstd::utf8::encode_utf8(c));
}

/// Two different strings are ordered one way or the other.
pub proof fn lemma_key_less_total(a: Seq<char>, b: Seq<char>)
    ensures
        a == b || key_less(a, b) || key_less(b, a),
{
    lemma_bytes_less_total(vstd::utf8::encode_utf8(a), vstd::utf8::encode_utf8(b));
    vstd::utf8::encode_utf8_decode_utf8(a);
    vstd::utf8::encode_utf8_decode_utf8(b);
}

proof fn lemma_bytes_less_skip(a: Seq<u8>, b: Seq<u8>, i: int)
    requires
        0 <= i <= a.len(),
        i <= b.len(),
        a.take(i) == b.take(i),
    ensures
        bytes_less(a, b) == bytes_less(a.skip(i), b.skip(i)),
    decreases i,
{
    if i == 0 {
        assert(a.skip(0) =~= a);
        assert(b.skip(0) =~= b);
    } else {
        assert(a.take(i)[0] == a[0] && b.take(i)[0] == b[0]);
        assert(a.drop_first().take(i - 1) =~= a.take(i).drop_first());
        assert(b.drop_first().take(i - 1) =~= b.take(i).drop_first());
        lemma_bytes_less_skip(a.drop_first(), b.drop_first(), i - 1);
        assert(a.drop_first().skip(i - 1) =~= a.skip(i));
        assert(b.drop_first().skip(i - 1) =~= b.skip(i));
    }
}

/// Whether `a` comes before `b`.
pub fn str_less(a: &str, b: &str) -> (r: bool)
    ensures
        r == key_less(a@, b@),
{
    let x = a.as_bytes();
    let y = b.as_bytes();
    let mut i: usize = 0;
    while i < x.len() && i < y.len()
        invariant
            0 <= i <= x@.len(),
            i <= y@.len(),
            x@.take(i as int) == y@.take(i as int),
            x@ == vstd::utf8::encode_utf8(a@),
            y@ == vstd::utf8::encode_utf8(b@),
        decreases x@.len() - i,
    {
        if x[i] != y[i] {
            proof {
                lemma_bytes_less_skip(x@, y@, i as int);
            }
            return x[i] < y[i];
        }
        proof {
            assert(x@.take(i + 1) =~= x@.take(i as int).push(x@[i as int]));
            assert(y@.take(i + 1) =~= y@.take(i as int).push(y@[i as int]));
        }
        i = i + 1;
    }
    proof {
        lemma_bytes_less_skip(x@, y@, i as int);
    }
    i < y.len()
}

/// Whether two strings are equal.
pub fn str_same(a: &str, b: &str) -> (r: bool)
    ensures
        r == (a@ == b@),
{
    let x = a.as_bytes();
    let y = b.as_bytes();
    proof {
        vstd::utf8::encode_utf8_decode_utf8(a@);
        vstd::utf8::encode_utf8_decode_utf8(b@);
    }
    if x.len() != y.len() {
        return false;
    }
    let mut i: usize = 0;
    while i < x.len()
        invariant
            0 <= i <= x@.len(),
            x@.len() == y@.len(),
            x@.take(i as int) == y@.take(i as int),
            x@ == vstd::utf8::encode_utf8(a@),
            y@ == vstd::utf8::encode_utf8(b@),
        decreases x@.len() - i,
    {
        if x[i] != y[i] {
            return false;
        }
        proof {
            assert(x@.take(i + 1) =~= x@.take(i as int).push(x@[i as int]));
            assert(y@.take(i + 1) =~= y@.take(i as int).push(y@[i as int]));
        }
        i = i + 1;
    }
    proof {
        assert(x@.take(i as int) =~= x@);
        assert(y@.take(i as int) =~= y@);
    }
    true
}

/// Entry keys are strictly increasing.
pub open spec fn sorted_keys<V>(s: Seq<(String, V)>) -> bool {
    forall|i: int, j: int|
        #![trigger s[i], s[j]]
        0 <= i < j < s.len() ==> key_less(s[i].0@, s[j].0@)
}

/// Some entry has the key `k`.
pub open spec fn has_key<V>(s: Seq<(String, V)>, k: Seq<char>) -> bool {
    exists|i: int| 0 <= i < s.len() && (#[trigger] s[i]).0@ == k
}

/// The value of the first entry with the key `k`.
pub open spec fn value_of<V>(s: Seq<(String, V)>, k: Seq<char>) -> V {
    s[choose|i: int| 0 <= i < s.len() && (#[trigger] s[i]).0@ == k].1
}

/// The finite map that a list of entries stands for.
pub open spec fn map_of<V>(s: Seq<(String, V)>) -> Map<Seq<char>, V> {
    Map::new(|k: Seq<char>| has_key(s, k), |k: Seq<char>| value_of(s, k))
}

/// The entries with the contents of their keys.
pub open spec fn keyed<V>(s: Seq<(String, V)>) -> Seq<(Seq<char>, V)> {
    Seq::new(s.len(), |i: int| (s[i].0@, s[i].1))
}

/// A list in key order with a value put under a key, in place of a value that may
/// be there.
pub open spec fn placed<V>(s: Seq<(Seq<char>, V)>, k: Seq<char>, v: V) -> Seq<(Seq<char>, V)>
    decreases s.len(),
{
    if s.len() == 0 {
        seq![(k, v)]
    } else if s[0].0 == k {
        seq![(k, v)] + s.drop_first()
    } else if key_less(k, s[0].0) {
        seq![(k, v)] + s
    } else {
        seq![s[0]] + placed(s.drop_first(), k, v)
    }
}

/// Where the keys before `i` are smaller and the key at `i` is larger, the value is
/// put at `i`.
proof fn lemma_placed_new<V>(s: Seq<(Seq<char>, V)>, k: Seq<char>, v: V, i: int)
    requires
        0 <= i <= s.len(),
        forall|j: int| 0 <= j < i ==> key_less((#[trigger] s[j]).0, k),
        i < s.len() ==> key_less(k, s[i].0),
    ensures
        placed(s, k, v) == s.insert(i, (k, v)),
    decreases i,
{
    if i == 0 {
        if s.len() > 0 {
            lemma_key_less_irreflexive(k);
        }
        assert(placed(s, k, v) =~= s.insert(0, (k, v)));
    } else {
        lemma_key_less_irreflexive(k);
        assert(key_less(s[0].0, k));
        if key_less(k, s[0].0) {
            lemma_key_less_transitive(k, s[0].0, k);
        }
        let t = s.drop_first();
        assert forall|j: int| 0 <= j < i - 1 implies key_less((#[trigger] t[j]).0, k) by {
            assert(t[j] == s[j + 1]);
        }
        lemma_placed_new(t, k, v, i - 1);
        assert(placed(s, k, v) =~= s.insert(i, (k, v)));
    }
}

/// Where the keys before `i` are smaller and the key at `i` is the key, the value is
/// put in place of that at `i`.
proof fn lemma_placed_again<V>(s: Seq<(Seq<char>, V)>, k: Seq<char>, v: V, i: int)
    requires
        0 <= i < s.len(),
        forall|j: int| 0 <= j < i ==> key_less((#[trigger] s[j]).0, k),
        s[i].0 == k,
    ensures
        placed(s, k, v) == s.update(i, (k, v)),
    decreases i,
{
    if i == 0 {
        assert(placed(s, k, v) =~= s.update(0, (k, v)));
    } else {
        lemma_key_less_irreflexive(k);
        assert(key_less(s[0].0, k));
        if key_less(k, s[0].0) {
            lemma_key_less_transitive(k, s[0].0, k);
        }
        let t = s.drop_first();
        assert forall|j: int| 0 <= j < i - 1 implies key_less((#[trigger] t[j]).0, k) by {
            assert(t[j] == s[j + 1]);
        }
        lemma_placed_again(t, k, v, i - 1);
        assert(placed(s, k, v) =~= s.update(i, (k, v)));
    }
}

/// A map from strings to values, walked in key order.
pub struct StringMap<V> {
    entries: Vec<(String, V)>,
}

impl<V> StringMap<V> {
    /// The entries in key order.
    pub closed spec fn entries(self) -> Seq<(String, V)> {
        self.entries@
    }

    #[verifier::type_invariant]
    spec fn in_order(self) -> bool {
        sorted_keys(self.entries@)
    }
}

impl<V> View for StringMap<V> {
    type V = Map<Seq<char>, V>;

    open spec fn view(&self) -> Map<Seq<char>, V> {
        map_of(self.entries())
    }
}

proof fn lemma_sorted_unique<V>(s: Seq<(String, V)>, i: int)
    requires
        sorted_keys(s),
        0 <= i < s.len(),
    ensures
        map_of(s).dom().contains(s[i].0@),
        map_of(s)[s[i].0@] == s[i].1,
{
    let k = s[i].0@;
    let j = choose|j: int| 0 <= j < s.len() && (#[trigger] s[j]).0@ == k;
    lemma_key_less_irreflexive(k);
    assert(s[i].0@ == k);
    assert(has_key(s, k));
    assert(i == j);
}

proof fn lemma_map_len<V>(s: Seq<(String, V)>)
    requires
        sorted_keys(s),
    ensures
        map_of(s).dom().finite(),
        map_of(s).len() == s.len(),
    decreases s.len(),
{
    if s.len() == 0 {
        assert(map_of(s).dom() =~= Set::<Seq<char>>::empty());
    } else {
        let t = s.drop_last();
        let k = s.last().0@;
        assert(sorted_keys(t)) by {
            assert forall|i: int, j: int|
                #![trigger t[i], t[j]]
                0 <= i < j < t.len() implies key_less(t[i].0@, t[j].0@) by {
                let _ = (s[i], s[j]);
            }
        }
        lemma_map_len(t);
        assert(!has_key(t, k)) by {
            if has_key(t, k) {
                let i = choose|i: int| 0 <= i < t.len() && (#[trigger] t[i]).0@ == k;
                assert(key_less(s[i].0@, s[s.len() - 1].0@));
                lemma_key_less_irreflexive(k);
            }
        }
        assert(map_of(s).dom() =~= map_of(t).dom().insert(k)) by {
            assert forall|q: Seq<char>| has_key(s, q) <==> (q == k || has_key(t, q)) by {
                if has_key(s, q) && q != k {
                    let i = choose|i: int| 0 <= i < s.len() && (#[trigger] s[i]).0@ == q;
                    assert(t[i] == s[i]);
                }
                if has_key(t, q) {
                    let i = choose|i: int| 0 <= i < t.len() && (#[trigger] t[i]).0@ == q;
                    assert(s[i] == t[i]);
                }
                assert(s[s.len() - 1].0@ == k);
            }
        }
    }
}

/// A node below a map is smaller than the map: entries may be recursed into.
pub proof fn lemma_entry_smaller<V>(m: StringMap<V>, i: int)
    requires
        0 <= i < m.entries().len(),
    ensures
        decreases_to!(m => m.entries()[i].1),
        decreases_to!(m => m.entries()),
{
    assert(decreases_to!(m => m.entries));
    assert(decreases_to!(m.entries => m.entries@));
    assert(decreases_to!(m.entries@ => m.entries@[i]));
    assert(decreases_to!(m.entries@[i] => m.entries@[i].1));
}

impl<V> StringMap<V> {
    /// An empty map.
    pub fn new() -> (r: Self)
        ensures
            r@ == Map::<Seq<char>, V>::empty(),
            r.entries() == Seq::<(String, V)>::empty(),
    {
        let r = StringMap { entries: Vec::new() };
        proof {
            assert(map_of(r.entries@) =~= Map::<Seq<char>, V>::empty());
        }
        r
    }

    /// The number of entries.
    pub fn len(&self) -> (r: usize)
        ensures
            r == self.entries().len(),
            r == self@.len(),
            self@.dom().finite(),
    {
        proof {
            use_type_invariant(self);
            lemma_map_len(self.entries@);
        }
        self.entries.len()
    }

    /// Whether there is no entry.
    pub fn is_empty(&self) -> (r: bool)
        ensures
            r == (self.entries().len() == 0),
            r == (self@ == Map::<Seq<char>, V>::empty()),
    {
        proof {
            if self.entries@.len() == 0 {
                assert(self@ =~= Map::<Seq<char>, V>::empty());
            } else {
                assert(has_key(self.entries@, self.entries@[0].0@));
                assert(self@.dom().contains(self.entries@[0].0@));
            }
        }
        self.entries.len() == 0
    }

    /// Take out all entries.
    pub fn clear(&mut self)
        ensures
            final(self)@ == Map::<Seq<char>, V>::empty(),
    {
        *self = StringMap::new();
    }

    /// The key of the `i`-th entry in key order.
    pub fn key_at(&self, i: usize) -> (r: &String)
        requires
            i < self.entries().len(),
        ensures
            *r == self.entries()[i as int].0,
            self@.dom().contains(r@),
    {
        proof {
            use_type_invariant(self);
            lemma_sorted_unique(self.entries@, i as int);
        }
        &self.entries[i].0
    }

    /// The value of the `i`-th entry in key order.
    pub fn value_at(&self, i: usize) -> (r: &V)
        requires
            i < self.entries().len(),
        ensures
            *r == self.entries()[i as int].1,
            self@[self.entries()[i as int].0@] == *r,
    {
        proof {
            use_type_invariant(self);
            lemma_sorted_unique(self.entries@, i as int);
        }
        &self.entries[i].1
    }

    /// The position of `key`, or the position at which it would be inserted.
    fn position(&self, key: &str) -> (r: (usize, bool))
        ensures
            r.0 <= self.entries@.len(),
            r.1 == has_key(self.entries@, key@),
            r.1 ==> r.0 < self.entries@.len() && self.entries@[r.0 as int].0@ == key@,
            forall|j: int|
                0 <= j < r.0 ==> key_less((#[trigger] self.entries@[j]).0@, key@),
            !r.1 ==> forall|j: int|
                r.0 <= j < self.entries@.len() ==> key_less(
                    key@,
                    (#[trigger] self.entries@[j]).0@,
                ),
    {
        proof {
            use_type_invariant(self);
        }
        let mut i: usize = 0;
        while i < self.entries.len()
            invariant
                i <= self.entries@.len(),
                sorted_keys(self.entries@),
                forall|j: int|
                    0 <= j < i ==> key_less((#[trigger] self.entries@[j]).0@, key@),
            decreases self.entries@.len() - i,
        {
            if !str_less(self.entries[i].0.as_str(), key) {
                let found = str_same(self.entries[i].0.as_str(), key);
                proof {
                    if !found {
                        lemma_key_less_total(self.entries@[i as int].0@, key@);
                        assert forall|j: int| i <= j < self.entries@.len() implies key_less(
                            key@,
                            (#[trigger] self.entries@[j]).0@,
                        ) by {
                            if j > i {
                                lemma_key_less_transitive(
                                    key@,
                                    self.entries@[i as int].0@,
                                    self.entries@[j].0@,
                                );
                            }
                        }
                        assert forall|j: int| 0 <= j < self.entries@.len() implies (
                        #[trigger] self.entries@[j]).0@ != key@ by {
                            lemma_key_less_irreflexive(key@);
                        }
                    }
                }
                return (i, found);
            }
            i = i + 1;
        }
        proof {
            assert forall|j: int| 0 <= j < self.entries@.len() implies (
            #[trigger] self.entries@[j]).0@ != key@ by {
                lemma_key_less_irreflexive(key@);
            }
        }
        (i, false)
    }

    /// Whether there is an entry with this key.
    pub fn contains_key(&self, key: &str) -> (r: bool)
        ensures
            r == self@.dom().contains(key@),
    {
        self.position(key).1
    }

    /// The value under this key.
    pub fn get(&self, key: &str) -> (r: Option<&V>)
        ensures
            match r {
                Some(v) => self@.dom().contains(key@) && *v == self@[key@],
                None => !self@.dom().contains(key@),
            },
    {
        let (i, found) = self.position(key);
        if found {
            proof {
                use_type_invariant(self);
                lemma_sorted_unique(self.entries@, i as int);
            }
            Some(&self.entries[i].1)
        } else {
            None
        }
    }

    /// Put `value` under `key`, in place of a value that may be there.
    pub fn insert(&mut self, key: String, value: V)
        ensures
            final(self)@ == old(self)@.insert(key@, value),
            keyed(final(self).entries()) == placed(keyed(old(self).entries()), key@, value),
    {
        proof {
            use_type_invariant(&*self);
        }
        let (i, found) = self.position(key.as_str());
        proof {
            let s = keyed(self.entries@);
            assert forall|j: int| 0 <= j < i implies key_less((#[trigger] s[j]).0, key@) by {
                assert(s[j].0 == self.entries@[j].0@);
            }
            if found {
                lemma_placed_again(s, key@, value, i as int);
            } else {
                if i < s.len() {
                    assert(s[i as int].0 == self.entries@[i as int].0@);
                }
                lemma_placed_new(s, key@, value, i as int);
            }
        }
        let ghost k = key@;
        let mut entries: Vec<(String, V)> = Vec::new();
        std::mem::swap(&mut entries, &mut self.entries);
        let ghost before = entries@;
        if found {
            entries.set(i, (key, value));
            proof {
                assert forall|a: int, b: int|
                    #![trigger entries@[a], entries@[b]]
                    0 <= a < b < entries@.len() implies key_less(
                    entries@[a].0@,
                    entries@[b].0@,
                ) by {
                    let _ = (before[a], before[b]);
                }
            }
        } else {
            entries.insert(i, (key, value));
            proof {
                assert forall|a: int, b: int|
                    #![trigger entries@[a], entries@[b]]
                    0 <= a < b < entries@.len() implies key_less(
                    entries@[a].0@,
                    entries@[b].0@,
                ) by {
                    let pa = if a < i { a } else { a - 1 };
                    let pb = if b < i { b } else { b - 1 };
                    let _ = (before[pa], before[pb]);
                }
            }
        }
        proof {
            let s = entries@;
            assert(s[i as int].0@ == k);
            assert forall|q: Seq<char>| #[trigger] has_key(s, q) == (q == k || has_key(before, q)) by {
                if has_key(before, q) {
                    let j = choose|j: int| 0 <= j < before.len() && (#[trigger] before[j]).0@ == q;
                    let jj = if found || j < i { j } else { j + 1 };
                    if q != k {
                        assert(s[jj] == before[j]);
                    }
                }
                if has_key(s, q) && q != k {
                    let j = choose|j: int| 0 <= j < s.len() && (#[trigger] s[j]).0@ == q;
                    let jj = if found || j < i { j } else { j - 1 };
                    assert(before[jj] == s[j]);
                }
            }
            lemma_sorted_unique(s, i as int);
            assert forall|q: Seq<char>| has_key(before, q) && q != k implies #[trigger] value_of(s, q)
                == value_of(before, q) by {
                let j = choose|j: int| 0 <= j < before.len() && (#[trigger] before[j]).0@ == q;
                let jj = if found || j < i { j } else { j + 1 };
                assert(s[jj] == before[j]);
                lemma_sorted_unique(s, jj);
                lemma_sorted_unique(before, j);
            }
            assert(map_of(s) =~= map_of(before).insert(k, value));
            if found {
                assert(keyed(s) =~= keyed(before).update(i as int, (k, value)));
            } else {
                assert(keyed(s) =~= keyed(before).insert(i as int, (k, value)));
            }
        }
        self.entries = entries;
    }

    /// Put `value` in place of the value of the `i`-th entry, which is handed back.
    pub fn replace_at(&mut self, i: usize, value: V) -> (r: V)
        requires
            i < old(self).entries().len(),
        ensures
            r == old(self).entries()[i as int].1,
            final(self).entries() == old(self).entries().update(
                i as int,
                (old(self).entries()[i as int].0, value),
            ),
    {
        proof {
            use_type_invariant(&*self);
        }
        let mut entries: Vec<(String, V)> = Vec::new();
        std::mem::swap(&mut entries, &mut self.entries);
        let ghost before = entries@;
        let (key, out) = entries.remove(i);
        entries.insert(i, (key, value));
        proof {
            assert(entries@ =~= before.update(i as int, (before[i as int].0, value)));
            assert forall|a: int, b: int|
                #![trigger entries@[a], entries@[b]]
                0 <= a < b < entries@.len() implies key_less(entries@[a].0@, entries@[b].0@) by {
                let _ = (before[a], before[b]);
            }
        }
        self.entries = entries;
        out
    }

    /// Put `value` under `key`, which comes after every key of the map.
    pub fn push_last(&mut self, key: String, value: V)
        requires
            forall|j: int|
                0 <= j < old(self).entries().len() ==> key_less(
                    (#[trigger] old(self).entries()[j]).0@,
                    key@,
                ),
        ensures
            final(self).entries() == old(self).entries().push((key, value)),
    {
        proof {
            use_type_invariant(&*self);
        }
        let mut entries: Vec<(String, V)> = Vec::new();
        std::mem::swap(&mut entries, &mut self.entries);
        let ghost before = entries@;
        let ghost k = key@;
        entries.push((key, value));
        proof {
            assert forall|j: int| 0 <= j < before.len() implies key_less(
                (#[trigger] before[j]).0@,
                k,
            ) by {
                assert(before[j] == old(self).entries()[j]);
            }
            assert forall|a: int, b: int|
                #![trigger entries@[a], entries@[b]]
                0 <= a < b < entries@.len() implies key_less(entries@[a].0@, entries@[b].0@) by {
                if b < before.len() {
                    let _ = (before[a], before[b]);
                } else {
                    assert(entries@[a] == before[a]);
                }
            }
        }
        self.entries = entries;
    }

    /// The keys of the map are strictly increasing.
    pub fn check_order(&self)
        ensures
            sorted_keys(self.entries()),
    {
        proof {
            use_type_invariant(self);
        }
    }

    /// A copy of the map with copies of its values.
    pub fn duplicate(&self) -> (r: StringMap<V>) where V: Clone
        ensures
            r.entries().len() == self.entries().len(),
            r@.dom() == self@.dom(),
            forall|i: int|
                0 <= i < r.entries().len() ==> (#[trigger] r.entries()[i]).0
                    == self.entries()[i].0 && cloned(self.entries()[i].1, r.entries()[i].1),
            forall|k: Seq<char>| #[trigger]
                r@.dom().contains(k) ==> cloned(self@[k], r@[k]),
    {
        proof {
            use_type_invariant(self);
        }
        let mut out: StringMap<V> = StringMap::new();
        let mut i: usize = 0;
        while i < self.entries.len()
            invariant
                i <= self.entries@.len(),
                self.entries@ == self.entries(),
                sorted_keys(self.entries()),
                out.entries().len() == i,
                forall|j: int|
                    0 <= j < i ==> (#[trigger] out.entries()[j]).0 == self.entries()[j].0
                        && cloned(self.entries()[j].1, out.entries()[j].1),
            decreases self.entries@.len() - i,
        {
            let key = self.entries[i].0.clone();
            let value = self.entries[i].1.clone();
            proof {
                assert forall|j: int| 0 <= j < out.entries().len() implies key_less(
                    (#[trigger] out.entries()[j]).0@,
                    key@,
                ) by {
                    assert(self.entries()[j].0@ == out.entries()[j].0@);
                }
            }
            let ghost before = out.entries();
            out.push_last(key, value);
            proof {
                assert forall|j: int| 0 <= j < i + 1 implies (#[trigger] out.entries()[j]).0
                    == self.entries()[j].0 && cloned(self.entries()[j].1, out.entries()[j].1) by {
                    if j < i {
                        assert(out.entries()[j] == before[j]);
                    }
                }
            }
            i = i + 1;
        }
        out.check_order();
        proof {
            let a = self.entries();
            let b = out.entries();
            assert forall|k: Seq<char>| #[trigger]
                has_key(b, k) implies has_key(a, k) && cloned(value_of(a, k), value_of(b, k)) by {
                let i = choose|i: int| 0 <= i < b.len() && (#[trigger] b[i]).0@ == k;
                assert(a[i].0@ == k);
                lemma_sorted_unique(a, i);
                lemma_sorted_unique(b, i);
            }
            assert forall|k: Seq<char>| #[trigger] has_key(a, k) implies has_key(b, k) by {
                let i = choose|i: int| 0 <= i < a.len() && (#[trigger] a[i]).0@ == k;
                assert(b[i].0@ == k);
            }
            assert(map_of(a).dom() =~= map_of(b).dom());
        }
        out
    }

    /// Take over all entries of `other`, which win over those already there.
    pub fn absorb(&mut self, other: StringMap<V>)
        ensures
            final(self)@ == old(self)@.union_prefer_right(other@),
    {
        let mut rest = other;
        let ghost base = self@;
        let ghost all = rest@;
        let mut left: usize = rest.len();
        while left > 0
            invariant
                left == rest@.len(),
                rest@.dom().finite(),
                self@.union_prefer_right(rest@) == base.union_prefer_right(all),
            decreases left,
        {
            let ghost here = self@;
            let ghost there = rest@;
            let n: usize = rest.len();
            let key = rest.key_at(0).clone();
            if let Some(v) = rest.remove(key.as_str()) {
                self.insert(key, v);
                proof {
                    assert(self@.union_prefer_right(rest@) =~= here.union_prefer_right(there));
                }
            }
            left = left - 1;
        }
        proof {
            assert(rest@ =~= Map::<Seq<char>, V>::empty());
            assert(self@.union_prefer_right(rest@) =~= self@);
        }
    }

    /// Take out the value under `key`.
    pub fn remove(&mut self, key: &str) -> (r: Option<V>)
        ensures
            final(self)@ == old(self)@.remove(key@),
            match r {
                Some(v) => old(self)@.dom().contains(key@) && v == old(self)@[key@],
                None => !old(self)@.dom().contains(key@),
            },
    {
        proof {
            use_type_invariant(&*self);
        }
        let (i, found) = self.position(key);
        if !found {
            proof {
                assert(self@ =~= self@.remove(key@));
            }
            return None;
        }
        let ghost k = key@;
        let mut entries: Vec<(String, V)> = Vec::new();
        std::mem::swap(&mut entries, &mut self.entries);
        let ghost before = entries@;
        let (_, v) = entries.remove(i);
        proof {
            let s = entries@;
            assert forall|a: int, b: int|
                #![trigger s[a], s[b]]
                0 <= a < b < s.len() implies key_less(s[a].0@, s[b].0@) by {
                let pa = if a < i { a } else { a + 1 };
                let pb = if b < i { b } else { b + 1 };
                let _ = (before[pa], before[pb]);
            }
            lemma_sorted_unique(before, i as int);
            assert forall|q: Seq<char>| #[trigger] has_key(s, q) == (q != k && has_key(before, q)) by {
                if has_key(before, q) && q != k {
                    let j = choose|j: int| 0 <= j < before.len() && (#[trigger] before[j]).0@ == q;
                    let jj = if j < i { j } else { j - 1 };
                    assert(s[jj] == before[j]);
                }
                if has_key(s, q) {
                    let j = choose|j: int| 0 <= j < s.len() && (#[trigger] s[j]).0@ == q;
                    let jj = if j < i { j } else { j + 1 };
                    assert(before[jj] == s[j]);
                    lemma_key_less_irreflexive(q);
                    assert(before[i as int].0@ == k);
                }
            }
            assert forall|q: Seq<char>| has_key(s, q) implies #[trigger] value_of(s, q) == value_of(
                before,
                q,
            ) by {
                let j = choose|j: int| 0 <= j < s.len() && (#[trigger] s[j]).0@ == q;
                let jj = if j < i { j } else { j + 1 };
                assert(before[jj] == s[j]);
                lemma_sorted_unique(s, j);
                lemma_sorted_unique(before, jj);
            }
            assert(map_of(s) =~= map_of(before).remove(k));
        }
        self.entries = entries;
        Some(v)
    }
}

} // verus!

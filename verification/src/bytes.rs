//! Byte strings and maps keyed by byte strings.

use vstd::prelude::*;

verus! {

/// Compares two byte strings.
pub fn bytes_eq(a: &[u8], b: &[u8]) -> (r: bool)
    ensures
        r == (a@ == b@),
{
    if a.len() != b.len() {
        return false;
    }
    let mut i: usize = 0;
    while i < a.len()
        invariant
            a@.len() == b@.len(),
            i <= a@.len(),
            forall|j: int| 0 <= j < i ==> a@[j] == b@[j],
        decreases a@.len() - i,
    {
        if a[i] != b[i] {
            return false;
        }
        i = i + 1;
    }
    assert(a@ =~= b@);
    true
}

/// Copies a byte string.
pub fn copy_bytes(a: &[u8]) -> (r: Vec<u8>)
    ensures
        r@ == a@,
{
    let mut r: Vec<u8> = Vec::new();
    let mut i: usize = 0;
    while i < a.len()
        invariant
            i <= a@.len(),
            r@ == a@.take(i as int),
        decreases a@.len() - i,
    {
        r.push(a[i]);
        i = i + 1;
        assert(r@ =~= a@.take(i as int));
    }
    assert(a@.take(a@.len() as int) =~= a@);
    r
}

/// Byte-wise lexicographic order: `a` comes no later than `b`.
pub open spec fn lex_le(a: Seq<u8>, b: Seq<u8>) -> bool
    decreases a.len(),
{
    if a.len() == 0 {
        true
    } else if b.len() == 0 {
        false
    } else if a[0] < b[0] {
        true
    } else if a[0] > b[0] {
        false
    } else {
        lex_le(a.drop_first(), b.drop_first())
    }
}

/// A sequence of byte strings in ascending lexicographic order.
pub open spec fn lex_sorted(s: Seq<Seq<u8>>) -> bool {
    forall|i: int, j: int| 0 <= i < j < s.len() ==> lex_le(#[trigger] s[i], #[trigger] s[j])
}

/// Any two byte strings are ordered one way or the other.
pub proof fn lemma_lex_total(a: Seq<u8>, b: Seq<u8>)
    ensures
        lex_le(a, b) || lex_le(b, a),
    decreases a.len(),
{
    if a.len() > 0 && b.len() > 0 && a[0] == b[0] {
        lemma_lex_total(a.drop_first(), b.drop_first());
    }
}

/// The order is transitive.
pub proof fn lemma_lex_trans(a: Seq<u8>, b: Seq<u8>, c: Seq<u8>)
    requires
        lex_le(a, b),
        lex_le(b, c),
    ensures
        lex_le(a, c),
    decreases a.len(),
{
    if a.len() > 0 && b.len() > 0 && c.len() > 0 && a[0] == b[0] && b[0] == c[0] {
        lemma_lex_trans(a.drop_first(), b.drop_first(), c.drop_first());
    }
}

/// Neighbours in order make the whole sequence sorted.
pub proof fn lemma_adjacent_sorted(s: Seq<Seq<u8>>)
    requires
        forall|i: int| 0 <= i < s.len() - 1 ==> lex_le(#[trigger] s[i], s[i + 1]),
    ensures
        lex_sorted(s),
{
    assert forall|i: int, j: int| 0 <= i < j < s.len() implies lex_le(#[trigger] s[i], #[trigger] s[j]) by {
        lemma_adjacent_sorted_from(s, i, j);
    }
}

proof fn lemma_adjacent_sorted_from(s: Seq<Seq<u8>>, i: int, j: int)
    requires
        forall|k: int| 0 <= k < s.len() - 1 ==> lex_le(#[trigger] s[k], s[k + 1]),
        0 <= i < j < s.len(),
    ensures
        lex_le(s[i], s[j]),
    decreases j - i,
{
    if j > i + 1 {
        lemma_adjacent_sorted_from(s, i, j - 1);
        assert(lex_le(s[j - 1], s[j - 1 + 1]));
        lemma_lex_trans(s[i], s[j - 1], s[j]);
    }
}

/// Whether `a` comes no later than `b` in lexicographic order.
pub fn bytes_le(a: &[u8], b: &[u8]) -> (r: bool)
    ensures
        r == lex_le(a@, b@),
{
    let mut i: usize = 0;
    assert(a@.skip(0) =~= a@);
    assert(b@.skip(0) =~= b@);
    while i < a.len() && i < b.len()
        invariant
            i <= a@.len(),
            i <= b@.len(),
            lex_le(a@, b@) == lex_le(a@.skip(i as int), b@.skip(i as int)),
        decreases a@.len() - i,
    {
        let x = a[i];
        let y = b[i];
        assert(a@.skip(i as int)[0] == x);
        assert(b@.skip(i as int)[0] == y);
        if x < y {
            return true;
        }
        if x > y {
            return false;
        }
        assert(a@.skip(i as int).drop_first() =~= a@.skip(i as int + 1));
        assert(b@.skip(i as int).drop_first() =~= b@.skip(i as int + 1));
        i = i + 1;
    }
    if i == a.len() {
        assert(a@.skip(i as int).len() == 0);
        true
    } else {
        assert(b@.skip(i as int).len() == 0);
        false
    }
}

/// The map that a sequence of writes builds: later writes to a key replace
/// earlier ones.
pub open spec fn map_of<W>(s: Seq<(Seq<u8>, W)>) -> Map<Seq<u8>, W>
    decreases s.len(),
{
    if s.len() == 0 {
        Map::empty()
    } else {
        map_of(s.drop_last()).insert(s.last().0, s.last().1)
    }
}

/// Writing one more entry inserts it.
pub proof fn lemma_map_of_take_step<W>(s: Seq<(Seq<u8>, W)>, i: int)
    requires
        0 <= i < s.len(),
    ensures
        map_of(s.take(i + 1)) == map_of(s.take(i)).insert(s[i].0, s[i].1),
{
    assert(s.take(i + 1).drop_last() =~= s.take(i));
}

/// The keys of `map_of(s)` are those written somewhere in `s`.
pub proof fn lemma_map_of_dom<W>(s: Seq<(Seq<u8>, W)>, k: Seq<u8>)
    ensures
        map_of(s).contains_key(k) <==> exists|i: int| 0 <= i < s.len() && s[i].0 == k,
    decreases s.len(),
{
    if s.len() > 0 {
        lemma_map_of_dom(s.drop_last(), k);
        if map_of(s).contains_key(k) && s.last().0 != k {
            let i = choose|i: int| 0 <= i < s.len() - 1 && s.drop_last()[i].0 == k;
            assert(s[i].0 == k);
        }
        if exists|i: int| 0 <= i < s.len() && s[i].0 == k {
            let i = choose|i: int| 0 <= i < s.len() && s[i].0 == k;
            if i < s.len() - 1 {
                assert(s.drop_last()[i].0 == k);
            }
        }
    }
}

/// Writes after position `j` that do not touch `k` leave its entry as the
/// prefix up to `j` built it.
pub proof fn lemma_map_of_suffix_untouched<W>(s: Seq<(Seq<u8>, W)>, j: int, k: Seq<u8>)
    requires
        0 <= j <= s.len(),
        forall|m: int| j <= m < s.len() ==> s[m].0 != k,
    ensures
        map_of(s).contains_key(k) == map_of(s.take(j)).contains_key(k),
        map_of(s).contains_key(k) ==> map_of(s)[k] == map_of(s.take(j))[k],
    decreases s.len() - j,
{
    if j < s.len() {
        let t = s.drop_last();
        assert(t.take(j) =~= s.take(j));
        lemma_map_of_suffix_untouched(t, j, k);
    } else {
        assert(s.take(j) =~= s);
    }
}

/// A map keyed by byte strings, kept as the sequence of its writes.
#[verifier::reject_recursive_types(V)]
pub struct BytesMap<V> {
    entries: Vec<(Vec<u8>, V)>,
}

/// A map from byte strings to byte strings.
pub type ByteMap = BytesMap<Vec<u8>>;

impl<V: View> BytesMap<V> {
    /// The writes of this map, by the views of their keys and values.
    pub closed spec fn pairs(&self) -> Seq<(Seq<u8>, V::V)> {
        self.entries@.map_values(|e: (Vec<u8>, V)| (e.0@, e.1@))
    }

    pub open spec fn view(&self) -> Map<Seq<u8>, V::V> {
        map_of(self.pairs())
    }

    pub fn new() -> (m: Self)
        ensures
            m.pairs() == Seq::<(Seq<u8>, V::V)>::empty(),
            m.view() == Map::<Seq<u8>, V::V>::empty(),
    {
        let m = BytesMap { entries: Vec::new() };
        assert(m.pairs() =~= Seq::<(Seq<u8>, V::V)>::empty());
        m
    }

    /// The number of writes held (keys written more than once count once
    /// per write).
    pub fn len(&self) -> (n: usize)
        ensures
            n == self.pairs().len(),
    {
        self.entries.len()
    }

    /// Whether the map holds no key.
    pub fn is_empty(&self) -> (r: bool)
        ensures
            r == self.view().is_empty(),
            r == (self.pairs().len() == 0),
    {
        proof {
            if self.pairs().len() > 0 {
                let k = self.pairs()[0].0;
                lemma_map_of_dom(self.pairs(), k);
                assert(self.view().contains_key(k));
            } else {
                assert(self.view() =~= Map::<Seq<u8>, V::V>::empty());
            }
        }
        self.entries.len() == 0
    }

    /// The `i`-th write.
    pub fn entry_at(&self, i: usize) -> (r: (&Vec<u8>, &V))
        requires
            i < self.pairs().len(),
        ensures
            r.0@ == self.pairs()[i as int].0,
            r.1@ == self.pairs()[i as int].1,
    {
        let e = &self.entries[i];
        (&e.0, &e.1)
    }

    /// Looks a key up.
    pub fn get(&self, k: &[u8]) -> (r: Option<&V>)
        ensures
            match r {
                Some(v) => self.view().contains_key(k@) && v@ == self.view()[k@],
                None => !self.view().contains_key(k@),
            },
    {
        let n = self.entries.len();
        let mut i: usize = n;
        while i > 0
            invariant
                i <= n,
                n == self.pairs().len(),
                forall|m: int| i <= m < n ==> self.pairs()[m].0 != k@,
            decreases i,
        {
            if crate::bytes::bytes_eq(self.entries[i - 1].0.as_slice(), k) {
                proof {
                    let s = self.pairs();
                    lemma_map_of_suffix_untouched(s, i as int, k@);
                    lemma_map_of_take_step(s, i - 1);
                }
                return Some(&self.entries[i - 1].1);
            }
            i = i - 1;
        }
        proof {
            let s = self.pairs();
            lemma_map_of_dom(s, k@);
        }
        None
    }

    /// Whether a key is present.
    pub fn contains_key(&self, k: &[u8]) -> (r: bool)
        ensures
            r == self.view().contains_key(k@),
    {
        match self.get(k) {
            Some(_) => true,
            None => false,
        }
    }

    /// Writes a value under a key, replacing any earlier one.
    pub fn set(&mut self, k: Vec<u8>, v: V)
        ensures
            final(self).view() == old(self).view().insert(k@, v@),
            final(self).pairs() == old(self).pairs().push((k@, v@)),
    {
        self.entries.push((k, v));
        assert(self.pairs() =~= old(self).pairs().push((k@, v@)));
        assert(self.pairs().drop_last() =~= old(self).pairs());
    }

    /// Removes a key and returns its value, if it had one.
    pub fn take(&mut self, k: &[u8]) -> (r: Option<V>)
        ensures
            final(self).view() == old(self).view().remove(k@),
            match r {
                Some(v) => old(self).view().contains_key(k@) && v@ == old(self).view()[k@],
                None => !old(self).view().contains_key(k@),
            },
    {
        let ghost s = self.pairs();
        let mut old_entries: Vec<(Vec<u8>, V)> = Vec::new();
        std::mem::swap(&mut old_entries, &mut self.entries);
        assert(old_entries@.map_values(|e: (Vec<u8>, V)| (e.0@, e.1@)) == s);
        let mut found: Option<V> = None;
        let mut kept: Vec<(Vec<u8>, V)> = Vec::new();
        let n = old_entries.len();
        let mut i: usize = 0;
        while i < n
            invariant
                n == s.len(),
                i <= n,
                old_entries@.len() == n - i,
                forall|m: int| 0 <= m < n - i ==> (#[trigger] old_entries@[m].0@, old_entries@[m].1@) == s[m + i],
                map_of(kept@.map_values(|e: (Vec<u8>, V)| (e.0@, e.1@))) == map_of(s.take(i as int)).remove(k@),
                match found {
                    Some(v) => map_of(s.take(i as int)).contains_key(k@) && v@ == map_of(s.take(i as int))[k@],
                    None => !map_of(s.take(i as int)).contains_key(k@),
                },
            decreases n - i,
        {
            let e = old_entries.remove(0);
            assert((e.0@, e.1@) == s[i as int]);
            let ghost before = kept@.map_values(|e: (Vec<u8>, V)| (e.0@, e.1@));
            proof {
                lemma_map_of_take_step(s, i as int);
            }
            if crate::bytes::bytes_eq(e.0.as_slice(), k) {
                found = Some(e.1);
                assert(map_of(s.take(i as int + 1)).remove(k@) =~= map_of(s.take(i as int)).remove(k@));
            } else {
                kept.push(e);
                let ghost after = kept@.map_values(|e: (Vec<u8>, V)| (e.0@, e.1@));
                assert(after.drop_last() =~= before);
                assert(map_of(s.take(i as int + 1)).remove(k@) =~= map_of(s.take(i as int)).remove(k@).insert(s[i as int].0, s[i as int].1));
            }
            i = i + 1;
        }
        assert(s.take(n as int) =~= s);
        self.entries = kept;
        found
    }

    /// Removes a key.
    pub fn remove(&mut self, k: &[u8])
        ensures
            final(self).view() == old(self).view().remove(k@),
    {
        let _ = self.take(k);
    }
}

} // verus!

//! The label/value store for one block in progress.
//!
//! Labels and values are raw byte strings.  The store is viewed as a
//! mathematical map from label to value; inserting an existing label
//! overwrites the earlier value, as the wire format prescribes (the last
//! occurrence of a label within a block wins).

use vstd::prelude::*;

verus! {

/// Compares two byte strings for equality.
pub(crate) fn bytes_eq(a: &[u8], b: &[u8]) -> (r: bool)
    ensures
        r == (a@ == b@),
{
    if a.len() != b.len() {
        return false;
    }
    let n = a.len();
    let mut i: usize = 0;
    while i < n
        invariant
            i <= n,
            n == a@.len(),
            n == b@.len(),
            forall|m: int| 0 <= m < i ==> a@[m] == b@[m],
        decreases n - i,
    {
        if *vstd::slice::slice_index_get(a, i) != *vstd::slice::slice_index_get(b, i) {
            return false;
        }
        i = i + 1;
    }
    proof {
        assert(a@ =~= b@);
    }
    true
}

/// The label-to-value map built from a run of insertions, later
/// insertions overriding earlier ones.
pub open spec fn entries_map(s: Seq<(Vec<u8>, Vec<u8>)>) -> Map<Seq<u8>, Seq<u8>>
    decreases s.len(),
{
    if s.len() == 0 {
        Map::empty()
    } else {
        entries_map(s.drop_last()).insert(s.last().0@, s.last().1@)
    }
}

proof fn lemma_entries_map_get(s: Seq<(Vec<u8>, Vec<u8>)>, k: Seq<u8>)
    ensures
        entries_map(s).contains_key(k) <==> (exists|j: int|
            0 <= j < s.len() && (#[trigger] s[j].0@) == k),
        forall|j: int|
            (0 <= j < s.len() && (#[trigger] s[j].0@) == k && (forall|m: int|
                j < m < s.len() ==> s[m].0@ != k)) ==> entries_map(s)[k] == s[j].1@,
    decreases s.len(),
{
    if s.len() > 0 {
        let t = s.drop_last();
        lemma_entries_map_get(t, k);
        assert(forall|j: int| 0 <= j < t.len() ==> t[j] == #[trigger] s[j]);
        let last = s.len() - 1;
        if s.last().0@ == k {
            assert(s[last].0@ == k);
            assert(entries_map(s).contains_key(k));
            assert forall|j: int|
                (0 <= j < s.len() && (#[trigger] s[j].0@) == k && (forall|m: int|
                    j < m < s.len() ==> s[m].0@ != k)) implies entries_map(s)[k] == s[j].1@ by {
                if j < last {
                    assert(s[last].0@ == k);
                } else {
                    assert(entries_map(s)[k] == s.last().1@);
                }
            }
        } else {
            assert(entries_map(s)[k] == entries_map(t)[k] || !entries_map(s).contains_key(k));
            if entries_map(s).contains_key(k) {
                assert(entries_map(t).contains_key(k));
                let j = choose|j: int| 0 <= j < t.len() && (#[trigger] t[j].0@) == k;
                assert(s[j].0@ == k);
            }
            if exists|j: int| 0 <= j < s.len() && (#[trigger] s[j].0@) == k {
                let j = choose|j: int| 0 <= j < s.len() && (#[trigger] s[j].0@) == k;
                assert(j != last);
                assert(t[j].0@ == k);
                assert(entries_map(t).contains_key(k));
            }
            assert forall|j: int|
                (0 <= j < s.len() && (#[trigger] s[j].0@) == k && (forall|m: int|
                    j < m < s.len() ==> s[m].0@ != k)) implies entries_map(s)[k] == s[j].1@ by {
                assert(j != last);
                assert(t[j].0@ == k);
                assert(forall|m: int| j < m < t.len() ==> #[trigger] t[m].0@ != k);
                assert(entries_map(t)[k] == t[j].1@);
            }
        }
    }
}

/// The fields of one block in progress: raw labels mapped to raw values.
pub struct FieldMap {
    entries: Vec<(Vec<u8>, Vec<u8>)>,
}

impl View for FieldMap {
    type V = Map<Seq<u8>, Seq<u8>>;

    closed spec fn view(&self) -> Map<Seq<u8>, Seq<u8>> {
        entries_map(self.entries@)
    }
}

impl FieldMap {
    /// Creates an empty field store.
    pub fn new() -> (r: FieldMap)
        ensures
            r@ == Map::<Seq<u8>, Seq<u8>>::empty(),
    {
        FieldMap { entries: Vec::new() }
    }

    /// Records a field; an existing value under the same label is
    /// superseded.
    pub fn insert(&mut self, label: Vec<u8>, value: Vec<u8>)
        ensures
            final(self)@ == old(self)@.insert(label@, value@),
    {
        self.entries.push((label, value));
        proof {
            assert(self.entries@.drop_last() =~= old(self).entries@);
        }
    }

    /// Looks a label up, returning the value recorded last under it.
    pub fn get(&self, label: &[u8]) -> (r: Option<&Vec<u8>>)
        ensures
            match r {
                Some(v) => self@.contains_key(label@) && v@ == self@[label@],
                None => !self@.contains_key(label@),
            },
    {
        proof {
            lemma_entries_map_get(self.entries@, label@);
        }
        let n = self.entries.len();
        let mut i: usize = n;
        while i > 0
            invariant
                i <= n,
                n == self.entries@.len(),
                forall|m: int| i <= m < n ==> (#[trigger] self.entries@[m].0@) != label@,
            decreases i,
        {
            i = i - 1;
            if bytes_eq(self.entries[i].0.as_slice(), label) {
                proof {
                    lemma_entries_map_get(self.entries@, label@);
                }
                return Some(&self.entries[i].1);
            }
        }
        None
    }

    /// Returns true iff a field with this label was recorded.
    pub fn contains(&self, label: &[u8]) -> (r: bool)
        ensures
            r == self@.contains_key(label@),
    {
        match self.get(label) {
            Some(_) => true,
            None => false,
        }
    }

    /// Discards every recorded field.
    pub fn clear(&mut self)
        ensures
            final(self)@ == Map::<Seq<u8>, Seq<u8>>::empty(),
    {
        self.entries.clear();
    }
}

} // verus!

//! A map from labels to values that keeps the order in which its entries came.
//!
//! Documents, batches of fields and the key provider's answers are all keyed by
//! strings. `LabelMap` holds such entries in a vector and guarantees, as its type
//! invariant, that no label occurs twice.

use vstd::prelude::*;

verus! {

/// No label occurs twice in `s`.
pub open spec fn distinct_labels<V>(s: Seq<(Seq<char>, V)>) -> bool {
    forall|i: int, j: int| 0 <= i < j < s.len() ==> s[i].0 != s[j].0
}

/// Some entry of `s` carries `label`.
pub open spec fn has_label<V>(s: Seq<(Seq<char>, V)>, label: Seq<char>) -> bool {
    exists|i: int| 0 <= i < s.len() && #[trigger] s[i].0 == label
}

/// The value of the first entry of `s` that carries `label`.
pub open spec fn lookup<V>(s: Seq<(Seq<char>, V)>, label: Seq<char>) -> Option<V>
    decreases s.len(),
{
    if s.len() == 0 {
        None
    } else if s[0].0 == label {
        Some(s[0].1)
    } else {
        lookup(s.skip(1), label)
    }
}

/// The entries of `s` with each value replaced by its view.
pub open spec fn entry_views<V: View>(s: Seq<(Seq<char>, V)>) -> Seq<(Seq<char>, V::V)> {
    Seq::new(s.len(), |i: int| (s[i].0, s[i].1@))
}

/// The entries of `s` as a mathematical map from label to the view of the value.
pub open spec fn as_map<V: View>(s: Seq<(Seq<char>, V)>) -> Map<Seq<char>, V::V> {
    Map::new(|l: Seq<char>| has_label(s, l), |l: Seq<char>| lookup(s, l)->Some_0@)
}

/// What the entries of a vector are in the model: the label's characters and the value.
pub open spec fn model_of<V>(entries: Seq<(String, V)>) -> Seq<(Seq<char>, V)> {
    Seq::new(entries.len(), |i: int| (entries[i].0@, entries[i].1))
}

/// `lookup` finds a label exactly when some entry carries it, and then returns
/// the value of the first such entry.
pub proof fn lemma_lookup<V>(s: Seq<(Seq<char>, V)>, label: Seq<char>)
    ensures
        lookup(s, label) is Some <==> has_label(s, label),
        lookup(s, label) matches Some(v) ==> exists|i: int|
            0 <= i < s.len() && #[trigger] s[i].0 == label && s[i].1 == v && forall|k: int|
                0 <= k < i ==> s[k].0 != label,
    decreases s.len(),
{
    if s.len() == 0 {
    } else if s[0].0 == label {
        assert(s[0].0 == label && s[0].1 == lookup(s, label)->Some_0);
    } else {
        let t = s.skip(1);
        lemma_lookup(t, label);
        if has_label(s, label) {
            let i = choose|i: int| 0 <= i < s.len() && #[trigger] s[i].0 == label;
            assert(t[i - 1].0 == label);
        }
        if lookup(t, label) is Some {
            let v = lookup(t, label)->Some_0;
            let i = choose|i: int|
                0 <= i < t.len() && #[trigger] t[i].0 == label && t[i].1 == v && forall|k: int|
                    0 <= k < i ==> t[k].0 != label;
            assert(s[i + 1].0 == label && s[i + 1].1 == v);
            assert forall|k: int| 0 <= k < i + 1 implies s[k].0 != label by {
                if k > 0 {
                    assert(t[k - 1].0 != label);
                }
            }
        }
    }
}

/// In a sequence without repeated labels, the entry at `i` is what `lookup`
/// returns for its label.
pub proof fn lemma_lookup_at<V>(s: Seq<(Seq<char>, V)>, i: int)
    requires
        distinct_labels(s),
        0 <= i < s.len(),
    ensures
        lookup(s, s[i].0) == Some(s[i].1),
{
    lemma_lookup(s, s[i].0);
    assert(has_label(s, s[i].0));
}

/// Two sequences with the same labels, in the same order, and values of equal
/// views stand for the same map.
pub proof fn lemma_same_entries_same_map<V: View>(a: Seq<(Seq<char>, V)>, b: Seq<(Seq<char>, V)>)
    requires
        entry_views(a) == entry_views(b),
    ensures
        as_map(a) == as_map(b),
{
    assert(a.len() == entry_views(a).len());
    assert(b.len() == entry_views(b).len());
    assert forall|l: Seq<char>| has_label(a, l) == has_label(b, l) && (has_label(a, l) ==> lookup(
        a,
        l,
    )->Some_0@ == lookup(b, l)->Some_0@) by {
        lemma_lookup(a, l);
        lemma_lookup(b, l);
        assert forall|i: int| 0 <= i < a.len() implies a[i].0 == b[i].0 && a[i].1@ == b[i].1@ by {
            assert(entry_views(a)[i] == entry_views(b)[i]);
        }
        if has_label(a, l) {
            let i = choose|i: int| 0 <= i < a.len() && #[trigger] a[i].0 == l;
            assert(b[i].0 == l);
            let va = lookup(a, l)->Some_0;
            let ia = choose|i: int|
                0 <= i < a.len() && #[trigger] a[i].0 == l && a[i].1 == va && forall|k: int|
                    0 <= k < i ==> a[k].0 != l;
            let vb = lookup(b, l)->Some_0;
            let ib = choose|i: int|
                0 <= i < b.len() && #[trigger] b[i].0 == l && b[i].1 == vb && forall|k: int|
                    0 <= k < i ==> b[k].0 != l;
            if ia < ib {
                assert(b[ia].0 == l);
            }
            if ib < ia {
                assert(a[ib].0 == l);
            }
        }
        if has_label(b, l) {
            let i = choose|i: int| 0 <= i < b.len() && #[trigger] b[i].0 == l;
            assert(a[i].0 == l);
        }
    }
    assert(as_map(a) =~= as_map(b));
}

/// An ordered map from labels to values in which no label occurs twice.
#[derive(Debug)]
pub struct LabelMap<V> {
    entries: Vec<(String, V)>,
}

impl<V: Clone> Clone for LabelMap<V> {
    /// A map with the same labels, in the same order, and a clone of each value.
    fn clone(&self) -> (m: Self)
        ensures
            m@.len() == self@.len(),
            forall|i: int|
                0 <= i < m@.len() ==> (#[trigger] m@[i]).0 == self@[i].0 && cloned(
                    self@[i].1,
                    m@[i].1,
                ),
    {
        proof {
            use_type_invariant(self);
        }
        let mut entries: Vec<(String, V)> = Vec::new();
        let mut i: usize = 0;
        while i < self.entries.len()
            invariant
                i <= self.entries@.len(),
                entries@.len() == i,
                forall|k: int|
                    0 <= k < i ==> (#[trigger] entries@[k]).0@ == self.entries@[k].0@ && cloned(
                        self.entries@[k].1,
                        entries@[k].1,
                    ),
            decreases self.entries@.len() - i,
        {
            entries.push((self.entries[i].0.clone(), self.entries[i].1.clone()));
            i += 1;
        }
        proof {
            let after = model_of(entries@);
            let before = model_of(self.entries@);
            assert forall|a: int, b: int| 0 <= a < b < after.len() implies after[a].0
                != after[b].0 by {
                assert(entries@[a].0@ == before[a].0);
                assert(entries@[b].0@ == before[b].0);
            }
            assert forall|k: int| 0 <= k < after.len() implies (#[trigger] after[k]).0
                == before[k].0 && cloned(before[k].1, after[k].1) by {
                assert(entries@[k].0@ == self.entries@[k].0@);
            }
        }
        LabelMap { entries }
    }
}

impl<V> View for LabelMap<V> {
    type V = Seq<(Seq<char>, V)>;

    closed spec fn view(&self) -> Seq<(Seq<char>, V)> {
        model_of(self.entries@)
    }
}

impl<V> LabelMap<V> {
    #[verifier::type_invariant]
    closed spec fn no_label_twice(&self) -> bool {
        distinct_labels(model_of(self.entries@))
    }

    /// The map without entries.
    pub fn new() -> (m: Self)
        ensures
            m@.len() == 0,
    {
        LabelMap { entries: Vec::new() }
    }

    /// The number of entries.
    pub fn len(&self) -> (n: usize)
        ensures
            n == self@.len(),
    {
        self.entries.len()
    }

    /// Whether the map has no entry.
    pub fn is_empty(&self) -> (b: bool)
        ensures
            b == (self@.len() == 0),
    {
        self.entries.len() == 0
    }

    /// States the type's invariant for the caller's proofs; it does nothing at run time.
    pub fn labels_are_distinct(&self)
        ensures
            distinct_labels(self@),
    {
        proof {
            use_type_invariant(self);
        }
    }

    /// The label of the entry at position `i`.
    pub fn label(&self, i: usize) -> (l: &String)
        requires
            i < self@.len(),
        ensures
            l@ == self@[i as int].0,
    {
        &self.entries[i].0
    }

    /// The value of the entry at position `i`.
    pub fn value(&self, i: usize) -> (v: &V)
        requires
            i < self@.len(),
        ensures
            *v == self@[i as int].1,
    {
        &self.entries[i].1
    }

    /// The position of the entry that carries `label`.
    pub fn position(&self, label: &String) -> (r: Option<usize>)
        ensures
            match r {
                Some(i) => i < self@.len() && self@[i as int].0 == label@,
                None => !has_label(self@, label@),
            },
    {
        let mut i: usize = 0;
        while i < self.entries.len()
            invariant
                i <= self.entries@.len(),
                forall|k: int| 0 <= k < i ==> self@[k].0 != label@,
            decreases self.entries@.len() - i,
        {
            if self.entries[i].0 == *label {
                return Some(i);
            }
            i += 1;
        }
        None
    }

    /// The value stored under `label`.
    pub fn get(&self, label: &String) -> (r: Option<&V>)
        ensures
            match r {
                Some(v) => lookup(self@, label@) == Some(*v),
                None => lookup(self@, label@) is None,
            },
    {
        proof {
            use_type_invariant(self);
            lemma_lookup(self@, label@);
        }
        match self.position(label) {
            Some(i) => {
                proof {
                    lemma_lookup_at(self@, i as int);
                }
                Some(&self.entries[i].1)
            },
            None => None,
        }
    }

    /// Whether some entry carries `label`.
    pub fn contains_label(&self, label: &String) -> (b: bool)
        ensures
            b == has_label(self@, label@),
    {
        self.position(label).is_some()
    }

    /// The map with one more entry at its end. The label must be new.
    pub fn push(self, label: String, value: V) -> (m: Self)
        requires
            !has_label(self@, label@),
        ensures
            m@ == self@.push((label@, value)),
    {
        proof {
            use_type_invariant(&self);
        }
        let ghost before = self.entries@;
        let mut entries = self.entries;
        entries.push((label, value));
        proof {
            let after = model_of(entries@);
            assert(after =~= model_of(before).push((label@, value)));
            assert forall|i: int, j: int| 0 <= i < j < after.len() implies after[i].0
                != after[j].0 by {
                if j == after.len() - 1 {
                    assert(after[i] == model_of(before)[i]);
                    assert(model_of(before)[i].0 != label@);
                }
            }
        }
        LabelMap { entries }
    }

    /// The map with `value` stored under `label`: in place of the value that was
    /// there, or else as a new entry at the end.
    pub fn insert(self, label: String, value: V) -> (m: Self)
        ensures
            has_label(self@, label@) ==> exists|i: int|
                0 <= i < self@.len() && #[trigger] self@[i].0 == label@ && m@ == self@.update(
                    i,
                    (label@, value),
                ),
            !has_label(self@, label@) ==> m@ == self@.push((label@, value)),
            lookup(m@, label@) == Some(value),
    {
        proof {
            use_type_invariant(&self);
        }
        match self.position(&label) {
            Some(i) => {
                let ghost before = self.entries@;
                let mut entries = self.entries;
                entries.set(i, (label, value));
                proof {
                    let after = model_of(entries@);
                    assert(after =~= model_of(before).update(i as int, (label@, value)));
                    assert forall|a: int, b: int| 0 <= a < b < after.len() implies after[a].0
                        != after[b].0 by {
                        assert(after[a].0 == model_of(before)[a].0);
                        assert(after[b].0 == model_of(before)[b].0);
                    }
                    assert(model_of(before)[i as int].0 == label@);
                    lemma_lookup_at(after, i as int);
                }
                LabelMap { entries }
            },
            None => {
                let m = self.push(label, value);
                proof {
                    use_type_invariant(&m);
                    lemma_lookup_at(m@, m@.len() - 1);
                }
                m
            },
        }
    }

    /// The map that holds the entries of `entries`, if no label occurs twice in them.
    pub fn from_vec(entries: Vec<(String, V)>) -> (r: Option<Self>)
        ensures
            match r {
                Some(m) => m@ == model_of(entries@),
                None => !distinct_labels(model_of(entries@)),
            },
    {
        let ghost model = model_of(entries@);
        let mut j: usize = 0;
        while j < entries.len()
            invariant
                j <= entries@.len(),
                model == model_of(entries@),
                forall|a: int, b: int| 0 <= a < b < j ==> model[a].0 != model[b].0,
            decreases entries@.len() - j,
        {
            let mut i: usize = 0;
            while i < j
                invariant
                    i <= j < entries@.len(),
                    model == model_of(entries@),
                    forall|a: int| 0 <= a < i ==> model[a].0 != model[j as int].0,
                decreases j - i,
            {
                if entries[i].0 == entries[j].0 {
                    assert(model[i as int].0 == model[j as int].0);
                    return None;
                }
                i += 1;
            }
            j += 1;
        }
        Some(LabelMap { entries })
    }

    /// The entries, in their order.
    pub fn into_vec(self) -> (entries: Vec<(String, V)>)
        ensures
            model_of(entries@) == self@,
            distinct_labels(self@),
    {
        proof {
            use_type_invariant(&self);
        }
        self.entries
    }

    /// A map with the labels of this one, in the same order, and the given values.
    pub fn with_values<W>(&self, values: Vec<W>) -> (m: LabelMap<W>)
        requires
            values@.len() == self@.len(),
        ensures
            m@.len() == self@.len(),
            forall|i: int| 0 <= i < m@.len() ==> #[trigger] m@[i] == (self@[i].0, values@[i]),
    {
        proof {
            use_type_invariant(self);
        }
        let ghost wanted = values@;
        let mut values = values;
        // Values can only be moved out of a vector at its end, so the entries
        // are built back to front and then turned around.
        let mut rev: Vec<(String, W)> = Vec::new();
        let mut n: usize = values.len();
        while n > 0
            invariant
                n == values@.len(),
                n <= self@.len(),
                wanted.len() == self@.len(),
                values@ == wanted.take(n as int),
                rev@.len() == self@.len() - n,
                forall|k: int|
                    0 <= k < rev@.len() ==> (#[trigger] rev@[k]).0@ == self@[self@.len() - 1 - k].0
                        && rev@[k].1 == wanted[self@.len() - 1 - k],
            decreases n,
        {
            let value = values.pop().unwrap();
            n -= 1;
            rev.push((self.entries[n].0.clone(), value));
        }
        let mut entries: Vec<(String, W)> = Vec::new();
        let ghost total = rev@;
        while rev.len() > 0
            invariant
                total.len() == self@.len(),
                rev@ == total.take(rev@.len() as int),
                entries@.len() == total.len() - rev@.len(),
                forall|k: int|
                    0 <= k < total.len() ==> (#[trigger] total[k]).0@ == self@[self@.len() - 1
                        - k].0 && total[k].1 == wanted[self@.len() - 1 - k],
                forall|k: int|
                    0 <= k < entries@.len() ==> (#[trigger] entries@[k]).0@ == self@[k].0
                        && entries@[k].1 == wanted[k],
            decreases rev@.len(),
        {
            let ghost at = rev@.len() - 1;
            let entry = rev.pop().unwrap();
            assert(entry == total[at]);
            entries.push(entry);
        }
        proof {
            let after = model_of(entries@);
            assert forall|i: int, j: int| 0 <= i < j < after.len() implies after[i].0
                != after[j].0 by {
                assert(entries@[i].0@ == self@[i].0);
                assert(entries@[j].0@ == self@[j].0);
            }
            assert forall|i: int| 0 <= i < after.len() implies #[trigger] after[i] == (
                self@[i].0,
                wanted[i],
            ) by {
                assert(entries@[i].0@ == self@[i].0);
            }
        }
        LabelMap { entries }
    }
}

} // verus!

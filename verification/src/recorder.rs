use vstd::prelude::*;

verus! {

/// The pending-call table: a mapping from echo id to the single-use
/// completion handle of the call that registered it. An entry is created
/// when a call starts and removed exactly once, whatever the outcome;
/// `remove` of an id that is absent changes nothing, so removal is
/// idempotent.
///
/// The handle type is the caller's choice: the table itself only routes
/// each handle back to the one call that registered it.
pub struct RequestRecorder<V> {
    entries: Vec<(u64, V)>,
}

/// The mapping that a sequence of key/value pairs denotes; later pairs
/// override earlier ones with the same key.
pub open spec fn seq_to_map<V>(s: Seq<(u64, V)>) -> Map<u64, V>
    decreases s.len(),
{
    if s.len() == 0 {
        Map::empty()
    } else {
        seq_to_map(s.drop_last()).insert(s.last().0, s.last().1)
    }
}

/// A key is in the denoted mapping exactly when some pair carries it.
proof fn lemma_seq_to_map_contains<V>(s: Seq<(u64, V)>, k: u64)
    ensures
        seq_to_map(s).contains_key(k) <==> exists|i: int| 0 <= i < s.len() && s[i].0 == k,
    decreases s.len(),
{
    if s.len() > 0 {
        lemma_seq_to_map_contains(s.drop_last(), k);
        if s.last().0 == k {
            assert(s[s.len() - 1].0 == k);
        } else if seq_to_map(s).contains_key(k) {
            let i = choose|i: int| 0 <= i < s.drop_last().len() && s.drop_last()[i].0 == k;
            assert(s[i].0 == k);
        } else if exists|i: int| 0 <= i < s.len() && s[i].0 == k {
            let i = choose|i: int| 0 <= i < s.len() && s[i].0 == k;
            assert(s.drop_last()[i].0 == k);
        }
    }
}

/// With unique keys, the pair at each position gives the mapping's value
/// at its key.
proof fn lemma_seq_to_map_at<V>(s: Seq<(u64, V)>, i: int)
    requires
        0 <= i < s.len(),
        forall|p: int, q: int| 0 <= p < q < s.len() ==> s[p].0 != s[q].0,
    ensures
        seq_to_map(s).contains_key(s[i].0),
        seq_to_map(s)[s[i].0] == s[i].1,
    decreases s.len(),
{
    if i < s.len() - 1 {
        lemma_seq_to_map_at(s.drop_last(), i);
        assert(s.drop_last()[i] == s[i]);
    }
}

/// Removing the pair at one position removes exactly its key from the
/// denoted mapping, provided keys are unique.
proof fn lemma_seq_to_map_remove<V>(s: Seq<(u64, V)>, i: int)
    requires
        0 <= i < s.len(),
        forall|p: int, q: int| 0 <= p < q < s.len() ==> s[p].0 != s[q].0,
    ensures
        seq_to_map(s.remove(i)) == seq_to_map(s).remove(s[i].0),
    decreases s.len(),
{
    if i == s.len() - 1 {
        assert(s.remove(i) == s.drop_last());
        lemma_seq_to_map_contains(s.drop_last(), s[i].0);
        assert(seq_to_map(s.drop_last()) =~= seq_to_map(s).remove(s[i].0));
    } else {
        let shorter = s.drop_last();
        lemma_seq_to_map_remove(shorter, i);
        assert(s.remove(i).drop_last() =~= shorter.remove(i));
        assert(s.remove(i).last() == s.last());
        assert(seq_to_map(s.remove(i)) == seq_to_map(shorter.remove(i)).insert(
            s.last().0,
            s.last().1,
        ));
        assert(seq_to_map(s).remove(s[i].0) =~= seq_to_map(shorter).remove(s[i].0).insert(
            s.last().0,
            s.last().1,
        ));
    }
}

impl<V> RequestRecorder<V> {
    /// Each echo id keys at most one entry. Constructors establish this
    /// and every method preserves it.
    pub closed spec fn inv(&self) -> bool {
        forall|i: int, j: int|
            0 <= i < j < self.entries@.len() ==> self.entries@[i].0 != self.entries@[j].0
    }

    pub closed spec fn view(&self) -> Map<u64, V> {
        seq_to_map(self.entries@)
    }

    pub fn new() -> (r: RequestRecorder<V>)
        ensures
            r.inv(),
            r@ == Map::<u64, V>::empty(),
    {
        RequestRecorder { entries: Vec::new() }
    }

    /// Position of the entry under an echo id, if one is outstanding.
    fn find_index(&self, echo: u64) -> (r: Option<usize>)
        ensures
            r matches Some(i) ==> i < self.entries@.len() && self.entries@[i as int].0 == echo,
            r is None ==> forall|j: int| 0 <= j < self.entries@.len() ==> self.entries@[j].0 != echo,
    {
        let n = self.entries.len();
        let mut i: usize = 0;
        while i < n
            invariant
                i <= n,
                n == self.entries@.len(),
                forall|j: int| 0 <= j < i ==> self.entries@[j].0 != echo,
            decreases n - i,
        {
            if self.entries[i].0 == echo {
                return Some(i);
            }
            i += 1;
        }
        None
    }

    /// Whether a call with this echo id is outstanding.
    pub fn contains(&self, echo: u64) -> (r: bool)
        ensures
            r == self@.contains_key(echo),
    {
        proof {
            lemma_seq_to_map_contains(self.entries@, echo);
        }
        self.find_index(echo).is_some()
    }

    /// Registers a completion handle under an echo id. Whatever was under
    /// that id before is handed back, so no handle is ever silently lost.
    pub fn insert(&mut self, echo: u64, handle: V) -> (prev: Option<V>)
        requires
            old(self).inv(),
        ensures
            final(self).inv(),
            final(self)@ == old(self)@.insert(echo, handle),
            prev matches Some(h) ==> old(self)@.contains_key(echo) && old(self)@[echo] == h,
            prev is None ==> !old(self)@.contains_key(echo),
    {
        let prev = self.remove(echo);
        let ghost mid = self.entries@;
        proof {
            lemma_seq_to_map_contains(mid, echo);
        }
        self.entries.push((echo, handle));
        proof {
            assert(self.entries@.drop_last() =~= mid);
            assert(self@ == seq_to_map(mid).insert(echo, handle));
            assert(self@ =~= old(self)@.insert(echo, handle));
        }
        prev
    }

    /// Removes the entry under an echo id, handing back its handle, or
    /// `None` when no call with that id is outstanding. Removing twice is
    /// safe: the second removal finds nothing and changes nothing.
    pub fn remove(&mut self, echo: u64) -> (r: Option<V>)
        requires
            old(self).inv(),
        ensures
            final(self).inv(),
            final(self)@ == old(self)@.remove(echo),
            r matches Some(h) ==> old(self)@.contains_key(echo) && old(self)@[echo] == h,
            r is None ==> !old(self)@.contains_key(echo),
            !final(self)@.contains_key(echo),
    {
        match self.find_index(echo) {
            Some(i) => {
                proof {
                    lemma_seq_to_map_at(self.entries@, i as int);
                    lemma_seq_to_map_remove(self.entries@, i as int);
                }
                let pair = self.entries.remove(i);
                proof {
                    lemma_seq_to_map_contains(self.entries@, echo);
                }
                Some(pair.1)
            },
            None => {
                proof {
                    lemma_seq_to_map_contains(self.entries@, echo);
                    assert(self@.remove(echo) =~= self@);
                }
                None
            },
        }
    }
}

impl<V> RequestRecorder<V> {
    /// Empties the table, handing every outstanding completion handle
    /// back: each returned pair was registered, and every registered id
    /// is among them. The transport uses this when the connection dies,
    /// so every waiting call learns of the failure at once instead of
    /// waiting out its window.
    pub fn drain(&mut self) -> (r: Vec<(u64, V)>)
        requires
            old(self).inv(),
        ensures
            final(self).inv(),
            final(self)@ == Map::<u64, V>::empty(),
            forall|i: int|
                0 <= i < r@.len() ==> old(self)@.contains_key((#[trigger] r@[i]).0) && old(
                    self,
                )@[r@[i].0] == r@[i].1,
            forall|k: u64|
                old(self)@.contains_key(k) ==> exists|i: int|
                    0 <= i < r@.len() && (#[trigger] r@[i]).0 == k,
    {
        let ghost orig = self.entries@;
        let mut out: Vec<(u64, V)> = Vec::new();
        while self.entries.len() > 0
            invariant
                out@.len() <= orig.len(),
                self.entries@ == orig.subrange(0, orig.len() - out@.len()),
                forall|i: int|
                    0 <= i < out@.len() ==> #[trigger] out@[i] == orig[orig.len() - 1 - i],
            decreases self.entries@.len(),
        {
            let ghost before = self.entries@;
            match self.entries.pop() {
                Some(pair) => {
                    out.push(pair);
                    proof {
                        assert(before.drop_last() =~= orig.subrange(
                            0,
                            orig.len() - out@.len(),
                        ));
                    }
                },
                None => {
                    proof {
                        assert(false);
                    }
                },
            }
        }
        proof {
            assert(self.entries@ =~= Seq::<(u64, V)>::empty());
            assert(self@ =~= Map::<u64, V>::empty());
            assert forall|i: int| 0 <= i < out@.len() implies seq_to_map(orig).contains_key(
                (#[trigger] out@[i]).0,
            ) && seq_to_map(orig)[out@[i].0] == out@[i].1 by {
                lemma_seq_to_map_at(orig, orig.len() - 1 - i);
            }
            assert forall|k: u64| seq_to_map(orig).contains_key(k) implies exists|i: int|
                0 <= i < out@.len() && (#[trigger] out@[i]).0 == k by {
                lemma_seq_to_map_contains(orig, k);
                let j = choose|j: int| 0 <= j < orig.len() && orig[j].0 == k;
                assert(out@[orig.len() - 1 - j] == orig[j]);
            }
        }
        out
    }
}

/// Removal from the pending-call table is idempotent: once an echo id has
/// been removed it is absent, and removing it again leaves the table
/// exactly as it was.
pub proof fn lemma_remove_idempotent<V>(table: Map<u64, V>, echo: u64)
    ensures
        !table.remove(echo).contains_key(echo),
        table.remove(echo).remove(echo) == table.remove(echo),
{
    assert(table.remove(echo).remove(echo) =~= table.remove(echo));
}

} // verus!

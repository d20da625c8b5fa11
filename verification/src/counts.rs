//! Per-node counts: a finite map from node identifier to a count, with the
//! pointwise-maximum join that the counter types merge by.

use vstd::prelude::*;

verus! {

/// The map that a list of wire entries denotes; of two entries for one node
/// the later one counts.
pub open spec fn entries_map(s: Seq<(Seq<char>, u64)>) -> Map<Seq<char>, u64>
    decreases s.len(),
{
    if s.len() == 0 {
        Map::empty()
    } else {
        entries_map(s.drop_last()).insert(s.last().0, s.last().1)
    }
}

/// No node occurs twice in the list.
pub open spec fn distinct_nodes(s: Seq<(Seq<char>, u64)>) -> bool {
    forall|i: int, j: int| 0 <= i < j < s.len() ==> s[i].0 != s[j].0
}

/// The sum of the counts of a list of entries.
pub open spec fn entries_sum(s: Seq<(Seq<char>, u64)>) -> nat
    decreases s.len(),
{
    if s.len() == 0 {
        0
    } else {
        entries_sum(s.drop_last()) + s.last().1 as nat
    }
}

/// The higher of two counts.
pub open spec fn higher(a: u64, b: u64) -> u64 {
    if a >= b {
        a
    } else {
        b
    }
}

/// The join of two count maps: the union of the nodes, and for a node that
/// both know the higher of the two counts.
pub open spec fn join(a: Map<Seq<char>, u64>, b: Map<Seq<char>, u64>) -> Map<Seq<char>, u64> {
    Map::new(
        |k: Seq<char>| a.dom().contains(k) || b.dom().contains(k),
        |k: Seq<char>|
            if a.dom().contains(k) && b.dom().contains(k) {
                higher(a[k], b[k])
            } else if a.dom().contains(k) {
                a[k]
            } else {
                b[k]
            },
    )
}

/// The count of `node` in `m`, zero where `m` does not know the node.
pub open spec fn count_of(m: Map<Seq<char>, u64>, node: Seq<char>) -> u64 {
    if m.dom().contains(node) {
        m[node]
    } else {
        0
    }
}

/// The sum of all counts of a finite map.
pub open spec fn total(m: Map<Seq<char>, u64>) -> nat
    decreases m.dom().len(),
    when m.dom().finite()
{
    if m.dom().len() == 0 {
        0
    } else {
        let k = m.dom().choose();
        m[k] as nat + total(m.remove(k))
    }
}

/// Joining a map with itself changes nothing.
pub proof fn lemma_join_idempotent(a: Map<Seq<char>, u64>)
    ensures
        join(a, a) == a,
{
    assert(join(a, a) =~= a);
}

/// It does not matter which of two maps is joined into which.
pub proof fn lemma_join_commutative(a: Map<Seq<char>, u64>, b: Map<Seq<char>, u64>)
    ensures
        join(a, b) == join(b, a),
{
    assert(join(a, b) =~= join(b, a));
}

/// It does not matter in which grouping three maps are joined.
pub proof fn lemma_join_associative(
    a: Map<Seq<char>, u64>,
    b: Map<Seq<char>, u64>,
    c: Map<Seq<char>, u64>,
)
    ensures
        join(join(a, b), c) == join(a, join(b, c)),
{
    assert(join(join(a, b), c) =~= join(a, join(b, c)));
}

/// Any node of the map can be taken out of the sum first.
pub proof fn lemma_total_remove(m: Map<Seq<char>, u64>, k: Seq<char>)
    requires
        m.dom().finite(),
        m.dom().contains(k),
    ensures
        total(m) == m[k] as nat + total(m.remove(k)),
    decreases m.dom().len(),
{
    let c = m.dom().choose();
    if c != k {
        lemma_total_remove(m.remove(c), k);
        lemma_total_remove(m.remove(k), c);
        assert(m.remove(c).remove(k) =~= m.remove(k).remove(c));
    }
}

/// Recording a count for a node changes the sum by the difference to the
/// count that the node had.
pub proof fn lemma_total_insert(m: Map<Seq<char>, u64>, k: Seq<char>, v: u64)
    requires
        m.dom().finite(),
    ensures
        total(m.insert(k, v)) == total(m) - count_of(m, k) as nat + v as nat,
{
    let n = m.insert(k, v);
    lemma_total_remove(n, k);
    if m.dom().contains(k) {
        lemma_total_remove(m, k);
        assert(n.remove(k) =~= m.remove(k));
    } else {
        assert(n.remove(k) =~= m);
    }
}

/// The map of a list of entries knows exactly the nodes of the entries.
pub proof fn lemma_entries_map_dom(s: Seq<(Seq<char>, u64)>, k: Seq<char>)
    ensures
        entries_map(s).dom().contains(k) <==> exists|i: int| 0 <= i < s.len() && s[i].0 == k,
        entries_map(s).dom().finite(),
    decreases s.len(),
{
    if s.len() > 0 {
        let t = s.drop_last();
        lemma_entries_map_dom(t, k);
        if entries_map(s).dom().contains(k) {
            if s.last().0 == k {
                assert(s[s.len() - 1].0 == k);
            } else {
                let i = choose|i: int| 0 <= i < t.len() && t[i].0 == k;
                assert(s[i].0 == k);
            }
        }
        if exists|i: int| 0 <= i < s.len() && s[i].0 == k {
            let i = choose|i: int| 0 <= i < s.len() && s[i].0 == k;
            if i < s.len() - 1 {
                assert(t[i].0 == k);
            }
        }
    }
}

/// Where no node occurs twice, the map holds the count of every entry.
pub proof fn lemma_entries_map_value(s: Seq<(Seq<char>, u64)>, i: int)
    requires
        distinct_nodes(s),
        0 <= i < s.len(),
    ensures
        entries_map(s).dom().contains(s[i].0),
        entries_map(s)[s[i].0] == s[i].1,
    decreases s.len(),
{
    let t = s.drop_last();
    if i < s.len() - 1 {
        assert(distinct_nodes(t)) by {
            assert forall|a: int, b: int| 0 <= a < b < t.len() implies t[a].0 != t[b].0 by {
                assert(s[a].0 != s[b].0);
            }
        }
        lemma_entries_map_value(t, i);
        assert(t[i] == s[i]);
        assert(s[i].0 != s[s.len() - 1].0);
    }
}

/// Where no node occurs twice, the counts of the entries sum up to the sum
/// of their map.
pub proof fn lemma_entries_sum_total(s: Seq<(Seq<char>, u64)>)
    requires
        distinct_nodes(s),
    ensures
        entries_sum(s) == total(entries_map(s)),
    decreases s.len(),
{
    if s.len() == 0 {
        assert(entries_map(s).dom() =~= Set::empty());
    } else {
        let t = s.drop_last();
        assert(distinct_nodes(t)) by {
            assert forall|a: int, b: int| 0 <= a < b < t.len() implies t[a].0 != t[b].0 by {
                assert(s[a].0 != s[b].0);
            }
        }
        lemma_entries_sum_total(t);
        lemma_entries_map_dom(t, s.last().0);
        if entries_map(t).dom().contains(s.last().0) {
            let i = choose|i: int| 0 <= i < t.len() && t[i].0 == s.last().0;
            assert(s[i].0 == s[s.len() - 1].0);
        }
        lemma_total_insert(entries_map(t), s.last().0, s.last().1);
    }
}

/// The counts of the first entries sum up to no more than all of them.
pub proof fn lemma_entries_sum_prefix(s: Seq<(Seq<char>, u64)>, n: int)
    requires
        0 <= n <= s.len(),
    ensures
        entries_sum(s.take(n)) <= entries_sum(s),
    decreases s.len(),
{
    if n < s.len() {
        lemma_entries_sum_prefix(s.drop_last(), n);
        assert(s.drop_last().take(n) =~= s.take(n));
    } else {
        assert(s.take(n) =~= s);
    }
}

/// Replacing the count of an entry replaces the count of its node in the map.
pub proof fn lemma_entries_map_update(s: Seq<(Seq<char>, u64)>, i: int, v: u64)
    requires
        distinct_nodes(s),
        0 <= i < s.len(),
    ensures
        distinct_nodes(s.update(i, (s[i].0, v))),
        entries_map(s.update(i, (s[i].0, v))) == entries_map(s).insert(s[i].0, v),
{
    let s2 = s.update(i, (s[i].0, v));
    let m = entries_map(s).insert(s[i].0, v);
    let m2 = entries_map(s2);
    assert(distinct_nodes(s2)) by {
        assert forall|a: int, b: int| 0 <= a < b < s2.len() implies s2[a].0 != s2[b].0 by {
            assert(s[a].0 != s[b].0);
        }
    }
    assert forall|q: Seq<char>| m2.dom().contains(q) <==> m.dom().contains(q) by {
        lemma_entries_map_dom(s, q);
        lemma_entries_map_dom(s2, q);
        if m2.dom().contains(q) {
            let j = choose|j: int| 0 <= j < s2.len() && s2[j].0 == q;
            assert(s[j].0 == q);
        }
        if m.dom().contains(q) {
            if q == s[i].0 {
                assert(s2[i].0 == q);
            } else {
                let j = choose|j: int| 0 <= j < s.len() && s[j].0 == q;
                assert(s2[j].0 == q);
            }
        }
    }
    assert forall|q: Seq<char>| m2.dom().contains(q) implies m2[q] == m[q] by {
        lemma_entries_map_dom(s2, q);
        let j = choose|j: int| 0 <= j < s2.len() && s2[j].0 == q;
        lemma_entries_map_value(s2, j);
        if j != i {
            lemma_entries_map_value(s, j);
            assert(s[j].0 != s[i].0);
        }
    }
    assert(m2 =~= m);
}

/// Counts per node: what the counter types keep for increments and for
/// decrements. No node occurs twice.
#[derive(Debug)]
pub struct NodeCounts {
    entries: Vec<(String, u64)>,
}

impl View for NodeCounts {
    type V = Map<Seq<char>, u64>;

    closed spec fn view(&self) -> Map<Seq<char>, u64> {
        entries_map(self.entries.deep_view())
    }
}

impl NodeCounts {
    /// The representation invariant: every node has one entry.
    pub closed spec fn wf(&self) -> bool {
        distinct_nodes(self.entries.deep_view())
    }

    /// Counts for no node.
    pub fn new() -> (res: NodeCounts)
        ensures
            res.wf(),
            res@ == Map::<Seq<char>, u64>::empty(),
    {
        let res = NodeCounts { entries: Vec::new() };
        assert(res.entries.deep_view() =~= Seq::empty());
        res
    }

    /// The position of the entry of `node`, if it has one.
    fn find(&self, node: &String) -> (res: Option<usize>)
        ensures
            match res {
                Some(i) => i < self.entries.len() && self.entries[i as int].0@ == node@,
                None => forall|j: int| 0 <= j < self.entries.len() ==> self.entries[j].0@ != node@,
            },
    {
        let mut i: usize = 0;
        while i < self.entries.len()
            invariant
                i <= self.entries.len(),
                forall|j: int| 0 <= j < i ==> self.entries[j].0@ != node@,
            decreases self.entries.len() - i,
        {
            if self.entries[i].0 == *node {
                return Some(i);
            }
            i += 1;
        }
        None
    }

    /// The count recorded for `node`, if any.
    pub fn get(&self, node: &String) -> (res: Option<u64>)
        requires
            self.wf(),
        ensures
            res == if self@.dom().contains(node@) {
                Some(self@[node@])
            } else {
                None::<u64>
            },
    {
        let found = self.find(node);
        proof {
            let s = self.entries.deep_view();
            lemma_entries_map_dom(s, node@);
            match found {
                Some(i) => {
                    assert(s[i as int].0 == node@);
                    lemma_entries_map_value(s, i as int);
                },
                None => {
                    assert forall|j: int| 0 <= j < s.len() implies s[j].0 != node@ by {
                        assert(self.entries[j].0@ != node@);
                    }
                },
            }
        }
        match found {
            Some(i) => Some(self.entries[i].1),
            None => None,
        }
    }

    /// Records `count` for `node`, in place of any count it had.
    pub fn set(&mut self, node: &String, count: u64)
        requires
            old(self).wf(),
        ensures
            final(self).wf(),
            final(self)@ == old(self)@.insert(node@, count),
    {
        let ghost s = self.entries.deep_view();
        let found = self.find(node);
        match found {
            Some(i) => {
                self.entries.set(i, (node.clone(), count));
                proof {
                    assert(s[i as int].0 == node@);
                    assert(self.entries.deep_view() =~= s.update(i as int, (s[i as int].0, count)));
                    lemma_entries_map_update(s, i as int, count);
                }
            },
            None => {
                self.entries.push((node.clone(), count));
                proof {
                    let s2 = self.entries.deep_view();
                    assert(s2 =~= s.push((node@, count)));
                    assert(s2.drop_last() =~= s);
                    assert forall|a: int, b: int| 0 <= a < b < s2.len() implies s2[a].0
                        != s2[b].0 by {
                        if b < s.len() {
                            assert(s[a].0 != s[b].0);
                        } else {
                            assert(old(self).entries[a].0@ != node@);
                        }
                    }
                }
            },
        }
    }

    /// The sum of all counts.
    pub fn total(&self) -> (res: u64)
        requires
            self.wf(),
            total(self@) <= u64::MAX,
        ensures
            res == total(self@),
    {
        let ghost s = self.entries.deep_view();
        proof {
            lemma_entries_sum_total(s);
        }
        let mut acc: u64 = 0;
        let mut i: usize = 0;
        while i < self.entries.len()
            invariant
                i <= self.entries.len(),
                s == self.entries.deep_view(),
                entries_sum(s) <= u64::MAX,
                acc == entries_sum(s.take(i as int)),
            decreases self.entries.len() - i,
        {
            proof {
                lemma_entries_sum_prefix(s, i + 1);
                assert(s.take(i + 1).drop_last() =~= s.take(i as int));
            }
            acc = acc + self.entries[i].1;
            i += 1;
        }
        proof {
            assert(s.take(i as int) =~= s);
        }
        acc
    }

    /// The sum of all counts, unless it exceeds `u64::MAX`.
    pub fn checked_total(&self) -> (res: Option<u64>)
        requires
            self.wf(),
        ensures
            res == if total(self@) <= u64::MAX {
                Some(total(self@) as u64)
            } else {
                None::<u64>
            },
    {
        let ghost s = self.entries.deep_view();
        proof {
            lemma_entries_sum_total(s);
        }
        let mut acc: u64 = 0;
        let mut i: usize = 0;
        while i < self.entries.len()
            invariant
                i <= self.entries.len(),
                s == self.entries.deep_view(),
                entries_sum(s) == total(self@),
                acc == entries_sum(s.take(i as int)),
            decreases self.entries.len() - i,
        {
            proof {
                lemma_entries_sum_prefix(s, i + 1);
                assert(s.take(i + 1).drop_last() =~= s.take(i as int));
            }
            match acc.checked_add(self.entries[i].1) {
                Some(next) => {
                    acc = next;
                },
                None => {
                    return None;
                },
            }
            i += 1;
        }
        proof {
            assert(s.take(i as int) =~= s);
        }
        Some(acc)
    }

    /// Joins `other` into `self`: afterwards every node known to either has
    /// the higher of its counts.
    pub fn merge(&mut self, other: &NodeCounts)
        requires
            old(self).wf(),
            other.wf(),
        ensures
            final(self).wf(),
            final(self)@ == join(old(self)@, other@),
    {
        let ghost t = other.entries.deep_view();
        let ghost start = self@;
        let mut j: usize = 0;
        proof {
            assert(t.take(0) =~= Seq::empty());
            assert(join(start, entries_map(t.take(0))) =~= start);
        }
        while j < other.entries.len()
            invariant
                j <= other.entries.len(),
                t == other.entries.deep_view(),
                distinct_nodes(t),
                self.wf(),
                self@ == join(start, entries_map(t.take(j as int))),
            decreases other.entries.len() - j,
        {
            let node = &other.entries[j].0;
            let theirs = other.entries[j].1;
            let ghost before = self@;
            let ghost seen = entries_map(t.take(j as int));
            let count = match self.get(node) {
                Some(ours) => if ours >= theirs { ours } else { theirs },
                None => theirs,
            };
            self.set(node, count);
            proof {
                let p = t.take(j + 1);
                assert(p.drop_last() =~= t.take(j as int));
                assert(p.last() == (node@, theirs));
                lemma_entries_map_dom(t.take(j as int), node@);
                if seen.dom().contains(node@) {
                    let i = choose|i: int| 0 <= i < t.take(j as int).len() && t.take(j as int)[i].0
                        == node@;
                    assert(t[i].0 != t[j as int].0);
                }
                assert(self@ =~= join(start, entries_map(p)));
            }
            j += 1;
        }
        proof {
            assert(t.take(j as int) =~= t);
        }
    }

    /// The counts held by a list of wire entries.
    pub fn from_entries(entries: &Vec<(String, u64)>) -> (res: NodeCounts)
        ensures
            res.wf(),
            res@ == entries_map(entries.deep_view()),
    {
        let ghost s = entries.deep_view();
        let mut res = NodeCounts::new();
        let mut i: usize = 0;
        proof {
            assert(s.take(0) =~= Seq::empty());
        }
        while i < entries.len()
            invariant
                i <= entries.len(),
                s == entries.deep_view(),
                res.wf(),
                res@ == entries_map(s.take(i as int)),
            decreases entries.len() - i,
        {
            res.set(&entries[i].0, entries[i].1);
            proof {
                assert(s.take(i + 1).drop_last() =~= s.take(i as int));
            }
            i += 1;
        }
        proof {
            assert(s.take(i as int) =~= s);
        }
        res
    }

    /// The counts as wire entries, one per node.
    pub fn to_entries(&self) -> (res: Vec<(String, u64)>)
        requires
            self.wf(),
        ensures
            distinct_nodes(res.deep_view()),
            entries_map(res.deep_view()) == self@,
    {
        let mut res: Vec<(String, u64)> = Vec::new();
        let mut i: usize = 0;
        while i < self.entries.len()
            invariant
                i <= self.entries.len(),
                res.len() == i,
                forall|j: int| 0 <= j < i ==> res[j].0@ == self.entries[j].0@ && res[j].1 == self.entries[j].1,
            decreases self.entries.len() - i,
        {
            res.push((self.entries[i].0.clone(), self.entries[i].1));
            i += 1;
        }
        proof {
            assert(res.deep_view() =~= self.entries.deep_view());
        }
        res
    }
}

} // verus!

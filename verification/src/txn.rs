//! The list-append workload: micro-operations, the database of lists by key,
//! and the atomic application of a transaction to it.

use crate::value::{Value, ValueView};
use std::collections::BTreeMap;
use vstd::prelude::*;

verus! {

broadcast use vstd::std_specs::btree::group_btree_axioms;

/// One micro-operation of a transaction.
#[derive(Debug, PartialEq, Eq)]
pub enum Op {
    /// Append the value to the list of the key.
    Append(u64, u64),
    /// Read the list of the key.
    Read(u64),
    /// Check that the list of the key is exactly the given one.
    Verify(u64, Vec<u64>),
}

/// The mathematical content of an [`Op`].
pub enum OpView {
    Append(u64, u64),
    Read(u64),
    Verify(u64, Seq<u64>),
}

impl View for Op {
    type V = OpView;

    open spec fn view(&self) -> OpView {
        match self {
            Op::Append(key, value) => OpView::Append(*key, *value),
            Op::Read(key) => OpView::Read(*key),
            Op::Verify(key, expected) => OpView::Verify(*key, expected@),
        }
    }
}

impl DeepView for Op {
    type V = OpView;

    open spec fn deep_view(&self) -> OpView {
        self@
    }
}

/// Why a transaction did not commit.
#[derive(Clone, Copy, Debug, PartialEq, Eq, Structural)]
pub enum Abort {
    /// A `Verify` found another list than the one it expected.
    VerifyFailed,
}

/// The micro-operation that a `[function, key, value]` triple denotes:
/// `["append", k, v]` appends, `["r", k, null]` reads, `["r", k, list]`
/// verifies. What follows the third item is not looked at.
pub open spec fn op_of(items: Seq<ValueView>) -> Option<OpView> {
    if items.len() < 3 {
        None
    } else {
        match (items[0].as_text(), items[1].as_u64()) {
            (Some(function), Some(key)) => if function == "append"@ {
                match items[2].as_u64() {
                    Some(value) => Some(OpView::Append(key, value)),
                    None => None,
                }
            } else if function == "r"@ {
                match items[2] {
                    ValueView::Null => Some(OpView::Read(key)),
                    ValueView::List(expected) => Some(OpView::Verify(key, expected)),
                    _ => None,
                }
            } else {
                None
            },
            _ => None,
        }
    }
}

/// The micro-operations that a transaction denotes, if every triple of it
/// denotes one.
pub open spec fn ops_of(txn: Seq<Seq<ValueView>>) -> Option<Seq<OpView>>
    decreases txn.len(),
{
    if txn.len() == 0 {
        Some(Seq::empty())
    } else {
        match (ops_of(txn.drop_last()), op_of(txn.last())) {
            (Some(ops), Some(op)) => Some(ops.push(op)),
            _ => None,
        }
    }
}

/// The list of `key`, empty where the database has none.
pub open spec fn list_of(db: Map<u64, Seq<u64>>, key: u64) -> Seq<u64> {
    if db.dom().contains(key) {
        db[key]
    } else {
        Seq::empty()
    }
}

/// Whether the database lets the micro-operation pass: a `Verify` passes
/// only where the key has exactly the expected list.
pub open spec fn admits(db: Map<u64, Seq<u64>>, op: OpView) -> bool {
    match op {
        OpView::Verify(key, expected) => db.dom().contains(key) && db[key] == expected,
        _ => true,
    }
}

/// The database after the micro-operation.
pub open spec fn applied(db: Map<u64, Seq<u64>>, op: OpView) -> Map<u64, Seq<u64>> {
    match op {
        OpView::Append(key, value) => db.insert(key, list_of(db, key).push(value)),
        _ => db,
    }
}

/// The result triple of the micro-operation on the database.
pub open spec fn result_of(db: Map<u64, Seq<u64>>, op: OpView) -> Seq<ValueView> {
    match op {
        OpView::Append(key, value) => seq![
            ValueView::Text("append"@),
            ValueView::Unsigned(key),
            ValueView::Unsigned(value),
        ],
        OpView::Read(key) => seq![
            ValueView::Text("r"@),
            ValueView::Unsigned(key),
            if db.dom().contains(key) {
                ValueView::List(db[key])
            } else {
                ValueView::Null
            },
        ],
        OpView::Verify(key, expected) => seq![
            ValueView::Text("r"@),
            ValueView::Unsigned(key),
            ValueView::List(expected),
        ],
    }
}

/// The database after the micro-operations, in order.
pub open spec fn db_after(db: Map<u64, Seq<u64>>, ops: Seq<OpView>) -> Map<u64, Seq<u64>>
    decreases ops.len(),
{
    if ops.len() == 0 {
        db
    } else {
        applied(db_after(db, ops.drop_last()), ops.last())
    }
}

/// The result triples of the micro-operations, in order; each is taken on
/// the database as the operations before it left it.
pub open spec fn results_of(db: Map<u64, Seq<u64>>, ops: Seq<OpView>) -> Seq<Seq<ValueView>>
    decreases ops.len(),
{
    if ops.len() == 0 {
        Seq::empty()
    } else {
        results_of(db, ops.drop_last()).push(
            result_of(db_after(db, ops.drop_last()), ops.last()),
        )
    }
}

/// Every micro-operation passes on the database as the operations before it
/// left it.
pub open spec fn passes(db: Map<u64, Seq<u64>>, ops: Seq<OpView>) -> bool {
    forall|i: int| 0 <= i < ops.len() ==> admits(db_after(db, #[trigger] ops.take(i)), ops[i])
}

/// What a transaction does to the database and returns: all its
/// micro-operations take effect, or none does.
pub open spec fn commit_outcome(db: Map<u64, Seq<u64>>, ops: Seq<OpView>) -> Result<
    (Map<u64, Seq<u64>>, Seq<Seq<ValueView>>),
    Abort,
> {
    if passes(db, ops) {
        Ok((db_after(db, ops), results_of(db, ops)))
    } else {
        Err(Abort::VerifyFailed)
    }
}

/// No list ever gets shorter.
pub proof fn lemma_lists_grow(db: Map<u64, Seq<u64>>, ops: Seq<OpView>, key: u64)
    ensures
        list_of(db_after(db, ops), key).len() >= list_of(db, key).len(),
        db.dom().contains(key) ==> db_after(db, ops).dom().contains(key),
    decreases ops.len(),
{
    if ops.len() > 0 {
        lemma_lists_grow(db, ops.drop_last(), key);
    }
}

/// An append makes the list of its key longer, whatever else the
/// transaction does.
pub proof fn lemma_append_lengthens(db: Map<u64, Seq<u64>>, ops: Seq<OpView>, at: int)
    requires
        0 <= at < ops.len(),
        ops[at] is Append,
    ensures
        list_of(db_after(db, ops), ops[at]->Append_0).len() > list_of(db, ops[at]->Append_0).len(),
        db_after(db, ops) != db,
    decreases ops.len(),
{
    let key = ops[at]->Append_0;
    let earlier = ops.drop_last();
    lemma_lists_grow(db, earlier, key);
    if at < ops.len() - 1 {
        lemma_append_lengthens(db, earlier, at);
    }
}

/// The key of the first append of a transaction, if it appends at all.
pub open spec fn appended_key(ops: Seq<OpView>) -> Option<u64>
    decreases ops.len(),
{
    if ops.len() == 0 {
        None
    } else {
        match ops.first() {
            OpView::Append(key, _) => Some(key),
            _ => appended_key(ops.drop_first()),
        }
    }
}

/// A transaction with an append has a first one, and that is an append.
pub proof fn lemma_appended_key(ops: Seq<OpView>, at: int)
    requires
        0 <= at < ops.len(),
        ops[at] is Append,
    ensures
        appended_key(ops) matches Some(key) && exists|first: int|
            0 <= first < ops.len() && #[trigger] ops[first] is Append && ops[first]->Append_0
                == key,
    decreases ops.len(),
{
    match ops.first() {
        OpView::Append(key, _) => {
            assert(ops[0] is Append && ops[0]->Append_0 == key);
        },
        _ => {
            let rest = ops.drop_first();
            assert(rest[at - 1] == ops[at]);
            lemma_appended_key(rest, at - 1);
            let key = appended_key(rest)->Some_0;
            let first = choose|first: int|
                0 <= first < rest.len() && #[trigger] rest[first] is Append && rest[first]->Append_0
                    == key;
            assert(ops[first + 1] == rest[first]);
        },
    }
}

/// Whether two lists hold the same values in the same order.
pub fn same_list(a: &Vec<u64>, b: &Vec<u64>) -> (res: bool)
    ensures
        res == (a@ == b@),
{
    if a.len() != b.len() {
        return false;
    }
    let mut i: usize = 0;
    while i < a.len()
        invariant
            i <= a.len(),
            a.len() == b.len(),
            forall|j: int| 0 <= j < i ==> a[j] == b[j],
        decreases a.len() - i,
    {
        if a[i] != b[i] {
            return false;
        }
        i += 1;
    }
    proof {
        assert(a@ =~= b@);
    }
    true
}

impl Op {
    /// Reads a micro-operation from its `[function, key, value]` triple, if
    /// the triple denotes one.
    pub fn parse(txn: &Vec<Value>) -> (res: Option<Op>)
        ensures
            res.deep_view() == op_of(txn.deep_view()),
    {
        if txn.len() < 3 {
            return None;
        }
        let key = match txn[1].as_u64() {
            Some(key) => key,
            None => {
                return None;
            },
        };
        match &txn[0] {
            Value::Text(function) => {
                if *function == "append".to_owned() {
                    match txn[2].as_u64() {
                        Some(value) => Some(Op::Append(key, value)),
                        None => None,
                    }
                } else if *function == "r".to_owned() {
                    match &txn[2] {
                        Value::Null => Some(Op::Read(key)),
                        Value::List(expected) => Some(Op::Verify(key, expected.clone())),
                        _ => None,
                    }
                } else {
                    None
                }
            },
            _ => None,
        }
    }

    /// Reads a micro-operation from a triple that denotes one.
    pub fn from_txn(txn: &Vec<Value>) -> (res: Op)
        requires
            op_of(txn.deep_view()) is Some,
        ensures
            Some(res@) == op_of(txn.deep_view()),
    {
        match Op::parse(txn) {
            Some(op) => op,
            None => Op::Read(0),
        }
    }

    /// The key of the first append among `ops`, if there is an append.
    pub fn first_append(ops: &Vec<Op>) -> (res: Option<u64>)
        ensures
            res == appended_key(ops.deep_view()),
    {
        let ghost all = ops.deep_view();
        let mut i: usize = 0;
        proof {
            assert(all.skip(0) =~= all);
        }
        while i < ops.len()
            invariant
                i <= ops.len(),
                all == ops.deep_view(),
                appended_key(all) == appended_key(all.skip(i as int)),
            decreases ops.len() - i,
        {
            proof {
                assert(all.skip(i as int).first() == ops[i as int]@);
                assert(all.skip(i as int).drop_first() =~= all.skip(i + 1));
            }
            match &ops[i] {
                Op::Append(key, _) => {
                    return Some(*key);
                },
                _ => {},
            }
            i += 1;
        }
        None
    }

    /// Reads the micro-operations of a transaction, if every triple of it
    /// denotes one.
    pub fn parse_all(txn: &Vec<Vec<Value>>) -> (res: Option<Vec<Op>>)
        ensures
            res.deep_view() == ops_of(txn.deep_view()),
    {
        let ghost t = txn.deep_view();
        let mut ops: Vec<Op> = Vec::new();
        let mut i: usize = 0;
        proof {
            assert(t.take(0) =~= Seq::empty());
            assert(ops.deep_view() =~= Seq::empty());
        }
        while i < txn.len()
            invariant
                i <= txn.len(),
                t == txn.deep_view(),
                ops_of(t.take(i as int)) == Some(ops.deep_view()),
            decreases txn.len() - i,
        {
            let ghost before = ops.deep_view();
            proof {
                assert(t.take(i + 1).drop_last() =~= t.take(i as int));
                assert(t.take(i + 1).last() == txn[i as int].deep_view());
            }
            match Op::parse(&txn[i]) {
                Some(op) => {
                    ops.push(op);
                    proof {
                        assert(ops.deep_view() =~= before.push(op@));
                    }
                },
                None => {
                    proof {
                        lemma_ops_of_prefix(t, i + 1);
                    }
                    return None;
                },
            }
            i += 1;
        }
        proof {
            assert(t.take(i as int) =~= t);
        }
        Some(ops)
    }
}

/// A transaction of which a part denotes no micro-operations denotes none.
pub proof fn lemma_ops_of_prefix(txn: Seq<Seq<ValueView>>, n: int)
    requires
        0 <= n <= txn.len(),
        ops_of(txn.take(n)) is None,
    ensures
        ops_of(txn) is None,
    decreases txn.len(),
{
    if n < txn.len() {
        assert(txn.drop_last().take(n) =~= txn.take(n));
        lemma_ops_of_prefix(txn.drop_last(), n);
    } else {
        assert(txn.take(n) =~= txn);
    }
}

/// The list-append store: a list of values for every key that was written.
#[derive(Debug, PartialEq, Eq)]
pub struct Database(pub BTreeMap<u64, Vec<u64>>);

impl View for Database {
    type V = Map<u64, Seq<u64>>;

    open spec fn view(&self) -> Map<u64, Seq<u64>> {
        Map::new(|key: u64| self.0@.dom().contains(key), |key: u64| self.0@[key]@)
    }
}

impl Database {
    /// The empty database.
    pub fn new() -> (res: Database)
        ensures
            res@ == Map::<u64, Seq<u64>>::empty(),
    {
        let res = Database(BTreeMap::new());
        proof {
            assert(res@ =~= Map::<u64, Seq<u64>>::empty());
        }
        res
    }

    /// The list of `key`, if the database has one.
    pub fn get(&self, key: u64) -> (res: Option<&Vec<u64>>)
        ensures
            res.deep_view() == if self@.dom().contains(key) {
                Some(self@[key])
            } else {
                None::<Seq<u64>>
            },
    {
        self.0.get(&key)
    }

    /// Applies one micro-operation and returns its result triple, or leaves
    /// the database as it is where the operation does not pass.
    pub fn apply(&mut self, op: &Op) -> (res: Option<Vec<Value>>)
        ensures
            admits(old(self)@, op@) ==> final(self)@ == applied(old(self)@, op@) && res.deep_view()
                == Some(result_of(old(self)@, op@)),
            !admits(old(self)@, op@) ==> final(self)@ == old(self)@ && res is None,
    {
        let mut triple: Vec<Value> = Vec::new();
        match op {
            Op::Append(key, value) => {
                let mut list = match self.0.get(key) {
                    Some(list) => list.clone(),
                    None => Vec::new(),
                };
                list.push(*value);
                self.0.insert(*key, list);
                triple.push(Value::Text("append".to_owned()));
                triple.push(Value::Unsigned(*key));
                triple.push(Value::Unsigned(*value));
                proof {
                    assert(self@ =~= applied(old(self)@, op@));
                }
            },
            Op::Read(key) => {
                let shown = match self.0.get(key) {
                    Some(list) => Value::List(list.clone()),
                    None => Value::Null,
                };
                triple.push(Value::Text("r".to_owned()));
                triple.push(Value::Unsigned(*key));
                triple.push(shown);
            },
            Op::Verify(key, expected) => {
                let matches = match self.0.get(key) {
                    Some(list) => same_list(list, expected),
                    None => false,
                };
                if !matches {
                    return None;
                }
                triple.push(Value::Text("r".to_owned()));
                triple.push(Value::Unsigned(*key));
                triple.push(Value::List(expected.clone()));
            },
        }
        proof {
            assert(triple.deep_view() =~= result_of(old(self)@, op@));
        }
        Some(triple)
    }

    /// Applies a transaction: every micro-operation in order, each on the
    /// database as the ones before it left it. Where one of them does not
    /// pass, the transaction is aborted and the database is as it was.
    pub fn commit(&mut self, txn: &Vec<Op>) -> (res: Result<Vec<Vec<Value>>, Abort>)
        ensures
            match commit_outcome(old(self)@, txn.deep_view()) {
                Ok((db, results)) => final(self)@ == db && res is Ok && res.unwrap().deep_view()
                    == results,
                Err(abort) => final(self)@ == old(self)@ && res == Err::<Vec<Vec<Value>>, Abort>(
                    abort,
                ),
            },
    {
        let ghost ops = txn.deep_view();
        let ghost start = self@;
        let mut work = Database(self.0.clone());
        let mut results: Vec<Vec<Value>> = Vec::new();
        let mut i: usize = 0;
        proof {
            assert(work@ =~= start);
            assert(ops.take(0) =~= Seq::empty());
            assert(results.deep_view() =~= Seq::empty());
        }
        while i < txn.len()
            invariant
                i <= txn.len(),
                ops == txn.deep_view(),
                self@ == start,
                work@ == db_after(start, ops.take(i as int)),
                results.deep_view() == results_of(start, ops.take(i as int)),
                forall|j: int|
                    0 <= j < i ==> admits(db_after(start, #[trigger] ops.take(j)), ops[j]),
            decreases txn.len() - i,
        {
            let ghost before = results.deep_view();
            proof {
                assert(ops.take(i + 1).drop_last() =~= ops.take(i as int));
                assert(ops.take(i + 1).last() == txn[i as int]@);
            }
            match work.apply(&txn[i]) {
                Some(triple) => {
                    results.push(triple);
                    proof {
                        assert(results.deep_view() =~= before.push(triple.deep_view()));
                    }
                },
                None => {
                    return Err(Abort::VerifyFailed);
                },
            }
            i += 1;
        }
        proof {
            assert(ops.take(i as int) =~= ops);
        }
        self.0 = work.0;
        Ok(results)
    }
}

} // verus!

use vstd::multiset::{group_multiset_axioms, Multiset};
use vstd::prelude::*;

verus! {

broadcast use group_multiset_axioms;

/// The outcome of a trial: days of contagion that went unnoticed, and the number
/// of people infected.
pub type Outcome = (u64, u64);

/// `n` copies of `k`.
pub open spec fn copies(k: Outcome, n: nat) -> Multiset<Outcome>
    decreases n,
{
    if n == 0 {
        Multiset::empty()
    } else {
        copies(k, (n - 1) as nat).insert(k)
    }
}

/// The outcomes that a list of (outcome, count) rows stands for.
pub open spec fn table(rows: Seq<(Outcome, u64)>) -> Multiset<Outcome>
    decreases rows.len(),
{
    if rows.len() == 0 {
        Multiset::empty()
    } else {
        table(rows.drop_last()).add(copies(rows.last().0, rows.last().1 as nat))
    }
}

/// Each outcome has one row, and each row a positive count.
pub open spec fn rows_wf(rows: Seq<(Outcome, u64)>) -> bool {
    &&& forall|i: int, j: int|
        0 <= i < j < rows.len() ==> #[trigger] rows[i].0 != #[trigger] rows[j].0
    &&& forall|i: int| 0 <= i < rows.len() ==> #[trigger] rows[i].1 > 0
}

proof fn lemma_copies(k: Outcome, n: nat, j: Outcome)
    ensures
        copies(k, n).len() == n,
        copies(k, n).count(j) == if j == k {
            n
        } else {
            0
        },
    decreases n,
{
    if n > 0 {
        lemma_copies(k, (n - 1) as nat, j);
    }
}

/// With one row per outcome, an outcome's count is that of its row, if any.
proof fn lemma_table_count(rows: Seq<(Outcome, u64)>, k: Outcome)
    requires
        rows_wf(rows),
    ensures
        forall|i: int| 0 <= i < rows.len() && rows[i].0 == k ==> table(rows).count(k) == rows[i].1,
        (forall|i: int| 0 <= i < rows.len() ==> rows[i].0 != k) ==> table(rows).count(k) == 0,
    decreases rows.len(),
{
    if rows.len() > 0 {
        let init = rows.drop_last();
        assert(rows_wf(init));
        lemma_table_count(init, k);
        lemma_copies(rows.last().0, rows.last().1 as nat, k);
        assert forall|i: int| 0 <= i < rows.len() && rows[i].0 == k implies table(rows).count(k)
            == rows[i].1 by {
            if i < rows.len() - 1 {
                assert(init[i] == rows[i]);
                assert(rows[i].0 != rows[rows.len() - 1].0);
            }
        }
        if forall|i: int| 0 <= i < rows.len() ==> rows[i].0 != k {
            assert forall|i: int| 0 <= i < init.len() implies init[i].0 != k by {
                assert(init[i] == rows[i]);
            }
            assert(rows[rows.len() - 1].0 != k);
        }
    }
}

/// Adding one to the count of row `i` adds one copy of its outcome.
proof fn lemma_table_bump(rows: Seq<(Outcome, u64)>, i: int)
    requires
        0 <= i < rows.len(),
        rows[i].1 < u64::MAX,
    ensures
        table(rows.update(i, (rows[i].0, (rows[i].1 + 1) as u64))) =~= table(rows).insert(rows[i].0),
    decreases rows.len(),
{
    let k = rows[i].0;
    let bumped = rows.update(i, (k, (rows[i].1 + 1) as u64));
    let init = rows.drop_last();
    if i == rows.len() - 1 {
        assert(bumped.drop_last() =~= init);
        lemma_copies(k, rows[i].1 as nat, k);
    } else {
        lemma_table_bump(init, i);
        assert(bumped.drop_last() =~= init.update(i, (k, (rows[i].1 + 1) as u64)));
    }
}

fn same(x: Outcome, y: Outcome) -> (r: bool)
    ensures
        r == (x == y),
{
    x.0 == y.0 && x.1 == y.1
}

/// How often each outcome occurred.
pub struct Tally {
    rows: Vec<(Outcome, u64)>,
    total: u64,
}

impl View for Tally {
    type V = Multiset<Outcome>;

    closed spec fn view(&self) -> Multiset<Outcome> {
        table(self.rows@)
    }
}

impl Tally {
    /// One row per outcome, and the running total matches the rows.
    pub closed spec fn wf(&self) -> bool {
        &&& rows_wf(self.rows@)
        &&& self.total == table(self.rows@).len()
    }

    /// A tally of no outcomes.
    pub fn new() -> (r: Tally)
        ensures
            r@ =~= Multiset::empty(),
            r.wf(),
    {
        Tally { rows: Vec::new(), total: 0 }
    }

    /// Counts one more occurrence of `outcome`.
    pub fn record(&mut self, outcome: Outcome)
        requires
            old(self).wf(),
            old(self)@.len() < u64::MAX,
        ensures
            final(self)@ =~= old(self)@.insert(outcome),
            final(self).wf(),
    {
        let mut i: usize = 0;
        while i < self.rows.len()
            invariant
                *self == *old(self),
                rows_wf(self.rows@),
                self.total == table(self.rows@).len(),
                self.total < u64::MAX,
                i <= self.rows@.len(),
                forall|j: int| 0 <= j < i ==> self.rows@[j].0 != outcome,
            decreases self.rows@.len() - i,
        {
            if same(self.rows[i].0, outcome) {
                proof {
                    lemma_table_count(self.rows@, outcome);
                    assert(table(self.rows@).count(outcome) <= table(self.rows@).len());
                    lemma_table_bump(self.rows@, i as int);
                }
                let c = self.rows[i].1;
                self.rows.set(i, (outcome, c + 1));
                self.total = self.total + 1;
                assert(rows_wf(self.rows@));
                return ;
            }
            i = i + 1;
        }
        proof {
            lemma_copies(outcome, 1, outcome);
            assert(self.rows@.push((outcome, 1u64)).drop_last() =~= self.rows@);
        }
        self.rows.push((outcome, 1));
        self.total = self.total + 1;
    }

    /// Number of occurrences of all outcomes together.
    pub fn total(&self) -> (r: u64)
        requires
            self.wf(),
        ensures
            r == self@.len(),
    {
        self.total
    }

    /// Number of occurrences of `outcome`.
    pub fn count(&self, outcome: Outcome) -> (r: u64)
        requires
            self.wf(),
        ensures
            r == self@.count(outcome),
    {
        proof {
            lemma_table_count(self.rows@, outcome);
        }
        let mut i: usize = 0;
        while i < self.rows.len()
            invariant
                rows_wf(self.rows@),
                i <= self.rows@.len(),
                forall|j: int| 0 <= j < i ==> self.rows@[j].0 != outcome,
            decreases self.rows@.len() - i,
        {
            if same(self.rows[i].0, outcome) {
                proof {
                    lemma_table_count(self.rows@, outcome);
                }
                return self.rows[i].1;
            }
            i = i + 1;
        }
        0
    }

    /// One row per outcome that occurred, with its number of occurrences, in the
    /// order in which the outcomes first occurred.
    pub fn rows(&self) -> (r: Vec<(Outcome, u64)>)
        requires
            self.wf(),
        ensures
            rows_wf(r@),
            forall|i: int| 0 <= i < r@.len() ==> r@[i].1 == self@.count(#[trigger] r@[i].0),
            forall|k: Outcome|
                self@.count(k) > 0 ==> exists|i: int| 0 <= i < r@.len() && #[trigger] r@[i].0 == k,
    {
        proof {
            assert forall|i: int| 0 <= i < self.rows@.len() implies self.rows@[i].1 == self@.count(
                #[trigger] self.rows@[i].0,
            ) by {
                lemma_table_count(self.rows@, self.rows@[i].0);
            }
            assert forall|k: Outcome| self@.count(k) > 0 implies exists|i: int|
                0 <= i < self.rows@.len() && #[trigger] self.rows@[i].0 == k by {
                lemma_table_count(self.rows@, k);
            }
        }
        let mut r: Vec<(Outcome, u64)> = Vec::new();
        let mut i: usize = 0;
        while i < self.rows.len()
            invariant
                i <= self.rows@.len(),
                r@ == self.rows@.subrange(0, i as int),
            decreases self.rows@.len() - i,
        {
            r.push(self.rows[i]);
            i = i + 1;
        }
        assert(r@ =~= self.rows@);
        r
    }
}

} // verus!

use vstd::prelude::*;

use crate::text::{
    chars_lt, chars_of, lemma_name_lt_irreflexive, lemma_name_lt_total, lemma_name_lt_transitive,
    name_lt,
};

verus! {

/// Rows whose names strictly increase: each name occurs once.
pub open spec fn rows_sorted(r: Seq<(Seq<char>, u64)>) -> bool {
    forall|i: int, j: int| 0 <= i < j < r.len() ==> name_lt(#[trigger] r[i].0, #[trigger] r[j].0)
}

/// The mapping from name to counter that the rows hold.
pub open spec fn rows_map(r: Seq<(Seq<char>, u64)>) -> Map<Seq<char>, u64> {
    Map::new(
        |k: Seq<char>| exists|i: int| 0 <= i < r.len() && r[i].0 == k,
        |k: Seq<char>| r[row_index(r, k)].1,
    )
}

/// The position of the row named `k`, where there is one.
pub open spec fn row_index(r: Seq<(Seq<char>, u64)>, k: Seq<char>) -> int {
    choose|i: int| 0 <= i < r.len() && r[i].0 == k
}

pub proof fn lemma_sorted_unique(r: Seq<(Seq<char>, u64)>, i: int, j: int)
    requires
        rows_sorted(r),
        0 <= i < r.len(),
        0 <= j < r.len(),
        r[i].0 == r[j].0,
    ensures
        i == j,
{
    if i < j {
        lemma_name_lt_irreflexive(r[i].0);
    } else if j < i {
        lemma_name_lt_irreflexive(r[i].0);
    }
}

pub proof fn lemma_rows_map_at(r: Seq<(Seq<char>, u64)>, i: int)
    requires
        rows_sorted(r),
        0 <= i < r.len(),
    ensures
        rows_map(r).contains_key(r[i].0),
        rows_map(r)[r[i].0] == r[i].1,
{
    let k = r[i].0;
    assert(exists|j: int| 0 <= j < r.len() && r[j].0 == k);
    let j = row_index(r, k);
    lemma_sorted_unique(r, i, j);
}

/// Cumulative CPU counters of the cgroups of one slice, by display name.
/// Rows are kept in lexicographic order of their names.
pub struct UsageTable {
    rows: Vec<(String, u64)>,
}

impl UsageTable {
    /// The rows as names and counters, in order.
    pub closed spec fn rows(&self) -> Seq<(Seq<char>, u64)> {
        self.rows@.map_values(|e: (String, u64)| (e.0@, e.1))
    }

    /// The table's invariant: names strictly increase.
    pub open spec fn wf(&self) -> bool {
        rows_sorted(self.rows())
    }

    /// An empty table.
    pub fn new() -> (r: UsageTable)
        ensures
            r.wf(),
            r.rows() == Seq::<(Seq<char>, u64)>::empty(),
            r@ == Map::<Seq<char>, u64>::empty(),
    {
        let r = UsageTable { rows: Vec::new() };
        assert(r.rows() =~= Seq::<(Seq<char>, u64)>::empty());
        assert(r@ =~= Map::<Seq<char>, u64>::empty());
        r
    }

    /// Number of names in the table.
    pub fn len(&self) -> (r: usize)
        requires
            self.wf(),
        ensures
            r == self.rows().len(),
            r == self@.len(),
    {
        proof {
            self.lemma_len();
        }
        self.rows.len()
    }

    proof fn lemma_len(&self)
        requires
            rows_sorted(self.rows()),
        ensures
            self@.len() == self.rows().len(),
    {
        let r = self.rows();
        let keys = Set::new(|k: Seq<char>| exists|i: int| 0 <= i < r.len() && r[i].0 == k);
        let names = r.map_values(|e: (Seq<char>, u64)| e.0);
        assert(self@.dom() =~= names.to_set()) by {
            assert forall|k: Seq<char>| self@.dom().contains(k) implies names.to_set().contains(k) by {
                let i = choose|i: int| 0 <= i < r.len() && r[i].0 == k;
                assert(names[i] == k);
            }
            assert forall|k: Seq<char>| names.to_set().contains(k) implies self@.dom().contains(k) by {
                let i = choose|i: int| 0 <= i < names.len() && names[i] == k;
                assert(r[i].0 == k);
            }
        }
        assert(names.no_duplicates()) by {
            assert forall|i: int, j: int| 0 <= i < names.len() && 0 <= j < names.len() && i != j
                implies names[i] != names[j] by {
                if names[i] == names[j] {
                    lemma_sorted_unique(r, i, j);
                }
            }
        }
        names.unique_seq_to_set();
    }

    /// The name and counter at `i`, in lexicographic order of names.
    pub fn row(&self, i: usize) -> (r: (String, u64))
        requires
            i < self.rows().len(),
        ensures
            r.0@ == self.rows()[i as int].0,
            r.1 == self.rows()[i as int].1,
    {
        let (n, u) = &self.rows[i];
        (n.clone(), *u)
    }

    /// The counter recorded under `name`, if any.
    pub fn get(&self, name: &String) -> (r: Option<u64>)
        requires
            self.wf(),
        ensures
            r == (if self@.contains_key(name@) { Some(self@[name@]) } else { None::<u64> }),
    {
        let mut i: usize = 0;
        while i < self.rows.len()
            invariant
                i <= self.rows@.len(),
                rows_sorted(self.rows()),
                forall|j: int| 0 <= j < i ==> self.rows()[j].0 != name@,
            decreases self.rows@.len() - i,
        {
            if self.rows[i].0 == *name {
                proof {
                    lemma_rows_map_at(self.rows(), i as int);
                }
                return Some(self.rows[i].1);
            }
            i = i + 1;
        }
        None
    }

    proof fn lemma_insert_sorted(r: Seq<(Seq<char>, u64)>, p: int, k: Seq<char>, v: u64)
        requires
            rows_sorted(r),
            0 <= p <= r.len(),
            forall|j: int| 0 <= j < p ==> name_lt(#[trigger] r[j].0, k),
            p < r.len() ==> name_lt(k, r[p].0),
        ensures
            rows_sorted(r.insert(p, (k, v))),
            forall|j: int| 0 <= j < r.len() ==> #[trigger] r[j].0 != k,
    {
        let s = r.insert(p, (k, v));
        assert forall|i: int, j: int| 0 <= i < j < s.len() implies name_lt(
            #[trigger] s[i].0,
            #[trigger] s[j].0,
        ) by {
            if j < p {
            } else if j == p {
            } else if i == p {
                if j - 1 > p {
                    lemma_name_lt_transitive(k, r[p].0, r[j - 1].0);
                }
            } else if i < p {
                assert(name_lt(r[i].0, k));
                lemma_name_lt_transitive(r[i].0, k, r[p].0);
                if j - 1 > p {
                    lemma_name_lt_transitive(r[i].0, r[p].0, r[j - 1].0);
                }
            } else {
                assert(s[i] == r[i - 1] && s[j] == r[j - 1]);
            }
        }
        assert forall|j: int| 0 <= j < r.len() implies #[trigger] r[j].0 != k by {
            if j < p {
                lemma_name_lt_irreflexive(k);
            } else if j > p {
                lemma_name_lt_transitive(k, r[p].0, r[j].0);
                lemma_name_lt_irreflexive(k);
            } else {
                lemma_name_lt_irreflexive(k);
            }
        }
    }

    proof fn lemma_map_after_insert(r: Seq<(Seq<char>, u64)>, p: int, k: Seq<char>, v: u64)
        requires
            rows_sorted(r),
            rows_sorted(r.insert(p, (k, v))),
            0 <= p <= r.len(),
            forall|j: int| 0 <= j < r.len() ==> #[trigger] r[j].0 != k,
        ensures
            rows_map(r.insert(p, (k, v))) == rows_map(r).insert(k, v),
    {
        let s = r.insert(p, (k, v));
        let m = rows_map(r).insert(k, v);
        assert forall|q: Seq<char>| #[trigger] rows_map(s).contains_key(q) <==> m.contains_key(q) by {
            if q == k {
                assert(s[p].0 == q);
            } else {
                if rows_map(r).contains_key(q) {
                    let i = row_index(r, q);
                    if i < p {
                        assert(s[i].0 == q);
                    } else {
                        assert(s[i + 1].0 == q);
                    }
                }
                if rows_map(s).contains_key(q) {
                    let j = row_index(s, q);
                    if j < p {
                        assert(r[j].0 == q);
                    } else {
                        assert(r[j - 1].0 == q);
                    }
                }
            }
        }
        assert forall|q: Seq<char>| #[trigger] rows_map(s).contains_key(q) implies rows_map(s)[q]
            == m[q] by {
            let j = row_index(s, q);
            lemma_rows_map_at(s, j);
            if q == k {
                lemma_sorted_unique(s, j, p);
            } else if j < p {
                lemma_rows_map_at(r, j);
            } else {
                lemma_rows_map_at(r, j - 1);
            }
        }
        assert(rows_map(s) =~= m);
    }

    proof fn lemma_map_after_update(r: Seq<(Seq<char>, u64)>, p: int, k: Seq<char>, v: u64)
        requires
            rows_sorted(r),
            0 <= p < r.len(),
            r[p].0 == k,
        ensures
            rows_sorted(r.update(p, (k, v))),
            rows_map(r.update(p, (k, v))) == rows_map(r).insert(k, v),
    {
        let s = r.update(p, (k, v));
        assert forall|i: int, j: int| 0 <= i < j < s.len() implies name_lt(
            #[trigger] s[i].0,
            #[trigger] s[j].0,
        ) by {
            assert(s[i].0 == r[i].0 && s[j].0 == r[j].0);
        }
        let m = rows_map(r).insert(k, v);
        assert forall|q: Seq<char>| #[trigger] rows_map(s).contains_key(q) <==> m.contains_key(q) by {
            if rows_map(r).contains_key(q) {
                let i = row_index(r, q);
                assert(s[i].0 == q);
            }
            if rows_map(s).contains_key(q) {
                let j = row_index(s, q);
                assert(r[j].0 == q);
            }
            if q == k {
                assert(s[p].0 == q);
            }
        }
        assert forall|q: Seq<char>| #[trigger] rows_map(s).contains_key(q) implies rows_map(s)[q]
            == m[q] by {
            let j = row_index(s, q);
            lemma_rows_map_at(s, j);
            if q == k {
                lemma_sorted_unique(s, j, p);
            } else {
                lemma_rows_map_at(r, j);
            }
        }
        assert(rows_map(s) =~= m);
    }

    /// Records `usage_usec` under `name`, replacing what the table held
    /// under that name.
    pub fn insert(&mut self, name: String, usage_usec: u64)
        requires
            old(self).wf(),
        ensures
            final(self).wf(),
            final(self)@ == old(self)@.insert(name@, usage_usec),
    {
        let key = chars_of(name.as_str());
        let mut p: usize = 0;
        while p < self.rows.len()
            invariant
                p <= self.rows@.len(),
                key@ == name@,
                rows_sorted(self.rows()),
                forall|j: int| 0 <= j < p ==> name_lt(#[trigger] self.rows()[j].0, key@),
            ensures
                p <= self.rows@.len(),
                forall|j: int| 0 <= j < p ==> name_lt(#[trigger] self.rows()[j].0, key@),
                p < self.rows@.len() ==> !name_lt(self.rows()[p as int].0, key@),
            decreases self.rows@.len() - p,
        {
            let here = chars_of(self.rows[p].0.as_str());
            if !chars_lt(&here, &key) {
                break;
            }
            p = p + 1;
        }
        let ghost r = self.rows();
        if p < self.rows.len() && self.rows[p].0 == name {
            proof {
                Self::lemma_map_after_update(r, p as int, name@, usage_usec);
            }
            self.rows.set(p, (name, usage_usec));
            assert(self.rows() =~= r.update(p as int, (name@, usage_usec)));
        } else {
            proof {
                if p < r.len() {
                    lemma_name_lt_total(r[p as int].0, key@);
                }
                Self::lemma_insert_sorted(r, p as int, name@, usage_usec);
                Self::lemma_map_after_insert(r, p as int, name@, usage_usec);
            }
            self.rows.insert(p, (name, usage_usec));
            assert(self.rows() =~= r.insert(p as int, (name@, usage_usec)));
        }
    }
}

impl View for UsageTable {
    type V = Map<Seq<char>, u64>;

    open spec fn view(&self) -> Map<Seq<char>, u64> {
        rows_map(self.rows())
    }
}

/// The counters of both slices, captured at one time (microseconds since
/// the Unix epoch).
pub struct Snapshot {
    pub captured_at_usec: u64,
    pub user: UsageTable,
    pub system: UsageTable,
}

impl Snapshot {
    pub open spec fn wf(&self) -> bool {
        self.user.wf() && self.system.wf()
    }
}

} // verus!

//! The state model: the proposal record, the tally table, and the
//! invariants that tie them together.

use vstd::prelude::*;

verus! {

/// Strict lexicographic order on character sequences, by Unicode scalar
/// value. This is the order in which tallies are reported.
pub open spec fn lex_lt(a: Seq<char>, b: Seq<char>) -> bool
    decreases a.len(),
{
    if b.len() == 0 {
        false
    } else if a.len() == 0 {
        true
    } else if (a[0] as int) < (b[0] as int) {
        true
    } else if a[0] == b[0] {
        lex_lt(a.skip(1), b.skip(1))
    } else {
        false
    }
}

/// Any two character sequences are ordered one way or the other, or equal.
pub proof fn lemma_lex_trichotomy(a: Seq<char>, b: Seq<char>)
    ensures
        lex_lt(a, b) || lex_lt(b, a) || a == b,
    decreases a.len(),
{
    if b.len() == 0 {
        if a.len() == 0 {
            assert(a =~= b);
        }
    } else if a.len() == 0 {
    } else if (a[0] as int) < (b[0] as int) {
    } else if (b[0] as int) < (a[0] as int) {
    } else {
        assert(a[0] == b[0]);
        lemma_lex_trichotomy(a.skip(1), b.skip(1));
        if a.skip(1) == b.skip(1) {
            assert(a.skip(1).len() == a.len() - 1);
            assert(b.skip(1).len() == b.len() - 1);
            assert(a.len() == b.len());
            assert forall|i: int| 0 <= i < a.len() implies a[i] == #[trigger] b[i] by {
                if i > 0 {
                    assert(a[i] == a.skip(1)[i - 1]);
                    assert(b[i] == b.skip(1)[i - 1]);
                }
            }
            assert(a =~= b);
        }
    }
}

/// The lexicographic order is transitive.
pub proof fn lemma_lex_transitive(a: Seq<char>, b: Seq<char>, c: Seq<char>)
    requires
        lex_lt(a, b),
        lex_lt(b, c),
    ensures
        lex_lt(a, c),
    decreases a.len(),
{
    if a.len() > 0 && b.len() > 0 && c.len() > 0 {
        if a[0] == b[0] && b[0] == c[0] {
            lemma_lex_transitive(a.skip(1), b.skip(1), c.skip(1));
        }
    }
}

/// Executable form of [`lex_lt`], comparing from character position `i` on.
fn str_lt_from(a: &String, b: &String, i: usize) -> (r: bool)
    requires
        i <= a@.len(),
        i <= b@.len(),
    ensures
        r == lex_lt(a@.skip(i as int), b@.skip(i as int)),
    decreases a@.len() - i,
{
    let blen = b.as_str().unicode_len();
    if i == blen {
        return false;
    }
    let alen = a.as_str().unicode_len();
    if i == alen {
        return true;
    }
    let ca = a.as_str().get_char(i);
    let cb = b.as_str().get_char(i);
    proof {
        assert(a@.skip(i as int)[0] == a@[i as int]);
        assert(b@.skip(i as int)[0] == b@[i as int]);
    }
    if ca < cb {
        true
    } else if ca == cb {
        let r = str_lt_from(a, b, i + 1);
        proof {
            assert(a@.skip(i as int).skip(1) =~= a@.skip(i + 1));
            assert(b@.skip(i as int).skip(1) =~= b@.skip(i + 1));
        }
        r
    } else {
        false
    }
}

/// Decide `lex_lt` on two strings.
pub fn str_lt(a: &String, b: &String) -> (r: bool)
    ensures
        r == lex_lt(a@, b@),
{
    let r = str_lt_from(a, b, 0);
    proof {
        assert(a@.skip(0) =~= a@);
        assert(b@.skip(0) =~= b@);
    }
    r
}

/// The proposal record: created once at initialization, grown by each
/// accepted vote, never deleted.
pub struct State {
    /// The ordered candidate list, fixed for the life of the proposal.
    pub candidates: Vec<String>,
    /// The identities that have successfully voted, in order of acceptance.
    pub voted: Vec<String>,
    /// The identity that created the proposal. Recorded for audit; no
    /// operation consults it for authorization today.
    pub owner: String,
    /// The voting deadline. Stored but not enforced by any operation today.
    pub deadline: u128,
}

impl State {
    /// The candidate identifiers as character sequences.
    pub open spec fn candidates_view(&self) -> Seq<Seq<char>> {
        self.candidates@.map_values(|s: String| s@)
    }

    /// The recorded voter identities as character sequences.
    pub open spec fn voted_view(&self) -> Seq<Seq<char>> {
        self.voted@.map_values(|s: String| s@)
    }

    /// True iff `voter` already appears in the voter record.
    pub open spec fn spec_has_voted(&self, voter: Seq<char>) -> bool {
        self.voted_view().contains(voter)
    }

    /// True iff `name` appears on the candidate list.
    pub open spec fn spec_is_candidate(&self, name: Seq<char>) -> bool {
        self.candidates_view().contains(name)
    }

    /// No identity appears twice in the voter record.
    pub open spec fn voters_distinct(&self) -> bool {
        forall|i: int, j: int|
            0 <= i < j < self.voted@.len() ==> (#[trigger] self.voted@[i])@ != (#[trigger] self.voted@[j])@
    }
}

/// The keys of a tally table stand in strictly ascending order, so each
/// candidate owns exactly one entry.
pub open spec fn table_sorted(t: Seq<(Seq<char>, u64)>) -> bool {
    forall|i: int, j: int|
        #![trigger t[i], t[j]]
        0 <= i < j < t.len() ==> lex_lt(t[i].0, t[j].0)
}

/// True iff some entry of the tally table carries the key `k`.
pub open spec fn table_has_key(t: Seq<(Seq<char>, u64)>, k: Seq<char>) -> bool {
    exists|i: int| 0 <= i < t.len() && (#[trigger] t[i]).0 == k
}

/// The sum of all counts in the tally table.
pub open spec fn table_sum(t: Seq<(Seq<char>, u64)>) -> int
    decreases t.len(),
{
    if t.len() == 0 {
        0
    } else {
        t[0].1 + table_sum(t.skip(1))
    }
}

/// A tally table's sum is never negative.
pub proof fn lemma_sum_nonneg(t: Seq<(Seq<char>, u64)>)
    ensures
        table_sum(t) >= 0,
    decreases t.len(),
{
    if t.len() > 0 {
        lemma_sum_nonneg(t.skip(1));
    }
}

/// Each single count is bounded by the sum of the whole table.
pub proof fn lemma_entry_le_sum(t: Seq<(Seq<char>, u64)>, i: int)
    requires
        0 <= i < t.len(),
    ensures
        t[i].1 <= table_sum(t),
    decreases t.len(),
{
    if i == 0 {
        lemma_sum_nonneg(t.skip(1));
    } else {
        lemma_entry_le_sum(t.skip(1), i - 1);
        assert(t.skip(1)[i - 1] == t[i]);
    }
}

/// Incrementing one entry raises the sum by exactly one.
pub proof fn lemma_sum_update_incr(t: Seq<(Seq<char>, u64)>, i: int)
    requires
        0 <= i < t.len(),
        t[i].1 < u64::MAX,
    ensures
        table_sum(t.update(i, (t[i].0, (t[i].1 + 1) as u64))) == table_sum(t) + 1,
    decreases t.len(),
{
    let u = t.update(i, (t[i].0, (t[i].1 + 1) as u64));
    if i == 0 {
        assert(u.skip(1) =~= t.skip(1));
    } else {
        lemma_sum_update_incr(t.skip(1), i - 1);
        assert(t.skip(1)[i - 1] == t[i]);
        assert(u.skip(1) =~= t.skip(1).update(i - 1, (t[i].0, (t[i].1 + 1) as u64)));
        assert(u[0] == t[0]);
    }
}

/// A table of all-zero counts sums to zero.
pub proof fn lemma_sum_all_zero(t: Seq<(Seq<char>, u64)>)
    requires
        forall|i: int| 0 <= i < t.len() ==> (#[trigger] t[i]).1 == 0,
    ensures
        table_sum(t) == 0,
    decreases t.len(),
{
    if t.len() > 0 {
        assert(forall|i: int| 0 <= i < t.skip(1).len() ==> (#[trigger] t.skip(1)[i]).1 == 0);
        lemma_sum_all_zero(t.skip(1));
    }
}

/// A chain of adjacent orderings reaches any later entry.
proof fn lemma_lex_chain(t: Seq<(Seq<char>, u64)>, p: int, q: int)
    requires
        forall|j: int| 0 < j < t.len() ==> lex_lt((#[trigger] t[j - 1]).0, t[j].0),
        0 <= p < q < t.len(),
    ensures
        lex_lt(t[p].0, t[q].0),
    decreases q - p,
{
    if q > p + 1 {
        lemma_lex_chain(t, p, q - 1);
        lemma_lex_transitive(t[p].0, t[q - 1].0, t[q].0);
    } else {
        assert(t[q - 1] == t[p]);
    }
}

/// The `(candidate, count)` pairs of a pair vector, at the view level.
pub open spec fn pairs_view(v: Seq<(String, u64)>) -> Seq<(Seq<char>, u64)> {
    v.map_values(|e: (String, u64)| (e.0@, e.1))
}

/// The tally table: one non-negative count per candidate, keyed by the
/// candidate identifier and kept in strictly ascending key order.
pub struct Tallies {
    entries: Vec<(String, u64)>,
}

impl View for Tallies {
    type V = Seq<(Seq<char>, u64)>;

    closed spec fn view(&self) -> Seq<(Seq<char>, u64)> {
        pairs_view(self.entries@)
    }
}

impl Tallies {
    /// The table's own well-formedness: strictly ascending keys.
    pub open spec fn wf(&self) -> bool {
        table_sorted(self@)
    }

    /// An empty tally table.
    pub fn new() -> (t: Tallies)
        ensures
            t@ == Seq::<(Seq<char>, u64)>::empty(),
    {
        let t = Tallies { entries: Vec::new() };
        proof {
            assert(t@ =~= Seq::<(Seq<char>, u64)>::empty());
        }
        t
    }

    /// Record candidate `key` with a zero count, keeping the keys in
    /// ascending order. Writing a key that is already present leaves the
    /// table as it was: every count is still zero at this stage.
    pub fn insert_zero(&mut self, key: &String)
        requires
            table_sorted(old(self)@),
            forall|i: int| 0 <= i < old(self)@.len() ==> (#[trigger] old(self)@[i]).1 == 0,
        ensures
            table_sorted(final(self)@),
            forall|i: int| 0 <= i < final(self)@.len() ==> (#[trigger] final(self)@[i]).1 == 0,
            table_has_key(final(self)@, key@),
            forall|i: int|
                0 <= i < old(self)@.len() ==> table_has_key(
                    final(self)@,
                    (#[trigger] old(self)@[i]).0,
                ),
            forall|i: int|
                0 <= i < final(self)@.len() ==> ((#[trigger] final(self)@[i]).0 == key@
                    || table_has_key(old(self)@, final(self)@[i].0)),
    {
        let mut i: usize = 0;
        while i < self.entries.len() && str_lt(&self.entries[i].0, key)
            invariant
                i <= self.entries@.len(),
                *self == *old(self),
                forall|j: int| 0 <= j < i ==> lex_lt((#[trigger] self@[j]).0, key@),
            decreases self.entries@.len() - i,
        {
            proof {
                assert(self@[i as int].0 == self.entries@[i as int].0@);
            }
            i += 1;
        }
        let ghost t0 = self@;
        proof {
            assert(forall|j: int|
                0 <= j < t0.len() ==> #[trigger] t0[j] == (
                    self.entries@[j].0@,
                    self.entries@[j].1,
                ));
        }
        if i < self.entries.len() && self.entries[i].0 == *key {
            proof {
                assert(self@[i as int].0 == self.entries@[i as int].0@);
                assert(table_has_key(t0, key@)) by {
                    assert(0 <= i < t0.len() && t0[i as int].0 == key@);
                }
                assert forall|j: int| 0 <= j < t0.len() implies table_has_key(
                    t0,
                    (#[trigger] t0[j]).0,
                ) by {
                    assert(0 <= j < t0.len() && t0[j].0 == t0[j].0);
                }
            }
            return ;
        }
        // `key` is not yet in the table: every later entry sorts after it.
        proof {
            assert forall|j: int| i <= j < t0.len() implies lex_lt(key@, (#[trigger] t0[j]).0) by {
                lemma_lex_trichotomy(key@, t0[j].0);
                if t0[j].0 == key@ {
                    // would contradict the loop's exit condition at index i
                    if j > i {
                        assert(lex_lt(t0[i as int].0, t0[j].0));
                    }
                    assert(false);
                } else if lex_lt(t0[j].0, key@) {
                    if j > i {
                        assert(lex_lt(t0[i as int].0, t0[j].0));
                        lemma_lex_transitive(t0[i as int].0, t0[j].0, key@);
                    }
                    assert(false);
                }
            }
        }
        let kc = key.clone();
        self.entries.insert(i, (kc, 0));
        proof {
            let t1 = self@;
            assert(t1 =~= t0.insert(i as int, (key@, 0))) by {
                t0.insert_ensures(i as int, (key@, 0));
                assert(forall|j: int|
                    0 <= j < t1.len() ==> t1[j] == (#[trigger] self.entries@[j].0@, self.entries@[j].1));
            }
            t0.insert_ensures(i as int, (key@, 0));
            assert(table_has_key(t1, key@)) by {
                assert(t1[i as int].0 == key@);
            }
            assert forall|p: int, q: int|
                #![trigger t1[p], t1[q]]
                0 <= p < q < t1.len() implies lex_lt(t1[p].0, t1[q].0) by {
                if q < i {
                    assert(t1[p] == t0[p] && t1[q] == t0[q]);
                } else if p < i && q == i {
                    assert(t1[p] == t0[p]);
                } else if p < i && q > i {
                    assert(t1[p] == t0[p] && t1[q] == t0[q - 1]);
                } else if p == i {
                    assert(t1[q] == t0[q - 1]);
                } else {
                    assert(t1[p] == t0[p - 1] && t1[q] == t0[q - 1]);
                }
            }
            assert forall|j: int| 0 <= j < t0.len() implies table_has_key(
                t1,
                (#[trigger] t0[j]).0,
            ) by {
                if j < i {
                    assert(t1[j] == t0[j]);
                } else {
                    assert(t1[j + 1] == t0[j]);
                }
            }
            assert forall|j: int| 0 <= j < t1.len() implies (#[trigger] t1[j]).1 == 0 by {
                if j < i {
                    assert(t1[j] == t0[j]);
                } else if j > i {
                    assert(t1[j] == t0[j - 1]);
                }
            }
            assert forall|j: int| 0 <= j < t1.len() implies ((#[trigger] t1[j]).0 == key@
                || table_has_key(t0, t1[j].0)) by {
                if j < i {
                    assert(t1[j] == t0[j]);
                } else if j > i {
                    assert(t1[j] == t0[j - 1]);
                }
            }
        }
    }

    /// Add one to the count recorded for `key`, which must be present and
    /// still below the counter's capacity.
    pub fn increment(&mut self, key: &String)
        requires
            table_has_key(old(self)@, key@),
            forall|i: int|
                0 <= i < old(self)@.len() && (#[trigger] old(self)@[i]).0 == key@
                    ==> old(self)@[i].1 < u64::MAX,
        ensures
            exists|i: int|
                0 <= i < old(self)@.len() && (#[trigger] old(self)@[i]).0 == key@ && final(self)@
                    == old(self)@.update(i, (key@, (old(self)@[i].1 + 1) as u64)),
    {
        let mut i: usize = 0;
        loop
            invariant
                i <= self.entries@.len(),
                *self == *old(self),
                table_has_key(self@, key@),
                forall|j: int| 0 <= j < i ==> (#[trigger] self@[j]).0 != key@,
            ensures
                *self == *old(self),
                i < self@.len(),
                self@[i as int].0 == key@,
            decreases self.entries@.len() - i,
        {
            proof {
                let w = choose|w: int| 0 <= w < self@.len() && (#[trigger] self@[w]).0 == key@;
                assert(w >= i);
                assert(i < self.entries.len());
            }
            if self.entries[i].0 == *key {
                proof {
                    assert(self@[i as int].0 == self.entries@[i as int].0@);
                }
                break ;
            }
            proof {
                assert(self@[i as int].0 == self.entries@[i as int].0@);
            }
            i += 1;
        }
        let ghost t0 = self@;
        let ghost idx = i as int;
        let c = self.entries[i].1;
        proof {
            assert(t0[idx] == (self.entries@[idx].0@, self.entries@[idx].1));
            assert(t0[idx].1 == c && t0[idx].0 == key@);
            assert(t0[idx].1 < u64::MAX);
        }
        let kc = key.clone();
        self.entries[i] = (kc, c + 1);
        proof {
            assert(self@ =~= t0.update(idx, (key@, (c + 1) as u64))) by {
                assert(forall|j: int|
                    0 <= j < self@.len() ==> self@[j] == (
                        #[trigger] self.entries@[j].0@,
                        self.entries@[j].1,
                    ));
            }
        }
    }

    /// Rebuild a table from `(candidate, count)` pairs, as the host hands
    /// them back from its persistent store. Accepts exactly the pair lists
    /// whose keys are strictly ascending — everything this type ever
    /// persists — and refuses anything else.
    pub fn from_pairs(pairs: Vec<(String, u64)>) -> (r: Option<Tallies>)
        ensures
            match r {
                Some(t) => t@ == pairs_view(pairs@) && t.wf(),
                None => !table_sorted(pairs_view(pairs@)),
            },
    {
        let ghost pv = pairs_view(pairs@);
        proof {
            assert(forall|j: int|
                0 <= j < pv.len() ==> #[trigger] pv[j] == (pairs@[j].0@, pairs@[j].1));
        }
        let mut i: usize = 1;
        while i < pairs.len()
            invariant
                1 <= i,
                pv == pairs_view(pairs@),
                forall|j: int| 0 < j < i ==> lex_lt((#[trigger] pv[j - 1]).0, pv[j].0),
                forall|j: int|
                    0 <= j < pv.len() ==> #[trigger] pv[j] == (pairs@[j].0@, pairs@[j].1),
            decreases pairs@.len() - i,
        {
            if !str_lt(&pairs[i - 1].0, &pairs[i].0) {
                proof {
                    assert(!lex_lt(pv[i - 1].0, pv[i as int].0));
                }
                return None;
            }
            i += 1;
        }
        proof {
            assert forall|p: int, q: int|
                #![trigger pv[p], pv[q]]
                0 <= p < q < pv.len() implies lex_lt(pv[p].0, pv[q].0) by {
                lemma_lex_chain(pv, p, q);
            }
        }
        Some(Tallies { entries: pairs })
    }

    /// Every `(candidate, count)` pair, cloned out in table order.
    pub fn entries(&self) -> (r: Vec<(String, u64)>)
        ensures
            pairs_view(r@) == self@,
    {
        let mut r: Vec<(String, u64)> = Vec::new();
        let mut i: usize = 0;
        while i < self.entries.len()
            invariant
                i <= self.entries@.len(),
                r@.len() == i,
                forall|j: int|
                    0 <= j < i ==> (#[trigger] r@[j]).0@ == self@[j].0 && r@[j].1 == self@[j].1,
            decreases self.entries@.len() - i,
        {
            let e = &self.entries[i];
            let name = e.0.clone();
            let count = e.1;
            proof {
                assert(self@[i as int] == (self.entries@[i as int].0@, self.entries@[i as int].1));
            }
            r.push((name, count));
            i += 1;
        }
        proof {
            assert(pairs_view(r@) =~= self@);
        }
        r
    }
}

/// The invariant tying a proposal to its tally table: the table is
/// well-formed, its key set is exactly the candidate set, its counts sum to
/// the number of recorded voters, and no voter is recorded twice.
pub open spec fn consistent(s: State, t: Tallies) -> bool {
    &&& table_sorted(t@)
    &&& forall|i: int| 0 <= i < t@.len() ==> s.spec_is_candidate((#[trigger] t@[i]).0)
    &&& forall|j: int|
        0 <= j < s.candidates@.len() ==> table_has_key(t@, (#[trigger] s.candidates@[j])@)
    &&& table_sum(t@) == s.voted@.len()
    &&& s.voters_distinct()
}

} // verus!

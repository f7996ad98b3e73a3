use vstd::prelude::*;

verus! {

/// How many times `k` was counted in `m` (zero when absent).
pub open spec fn count_in(m: Map<Seq<char>, nat>, k: Seq<char>) -> nat {
    if m.contains_key(k) {
        m[k]
    } else {
        0
    }
}

/// `m` with one more count for `k`.
pub open spec fn bump(m: Map<Seq<char>, nat>, k: Seq<char>) -> Map<Seq<char>, nat> {
    m.insert(k, count_in(m, k) + 1)
}

/// `m` with one more count for each entry of `ks` (repeats count repeatedly).
pub open spec fn bump_all(m: Map<Seq<char>, nat>, ks: Seq<Seq<char>>) -> Map<Seq<char>, nat>
    decreases ks.len(),
{
    if ks.len() == 0 {
        m
    } else {
        bump(bump_all(m, ks.drop_last()), ks.last())
    }
}

/// Key-wise sum of two count maps.
pub open spec fn map_sum(a: Map<Seq<char>, nat>, b: Map<Seq<char>, nat>) -> Map<Seq<char>, nat> {
    Map::new(
        |k: Seq<char>| a.contains_key(k) || b.contains_key(k),
        |k: Seq<char>| count_in(a, k) + count_in(b, k),
    )
}

/// Every count in `m` is at most `bound`.
pub open spec fn bounded_by(m: Map<Seq<char>, nat>, bound: int) -> bool {
    forall|k: Seq<char>| m.contains_key(k) ==> m[k] <= bound
}

/// Adding `b` to `a` key-wise keeps every count within `u64`.
pub open spec fn sum_fits(a: Map<Seq<char>, nat>, b: Map<Seq<char>, nat>) -> bool {
    forall|k: Seq<char>| count_in(a, k) + count_in(b, k) <= u64::MAX
}

/// Key-wise addition is commutative.
pub proof fn lemma_map_sum_commutative(a: Map<Seq<char>, nat>, b: Map<Seq<char>, nat>)
    ensures
        map_sum(a, b) == map_sum(b, a),
{
    assert(map_sum(a, b) =~= map_sum(b, a));
}

/// Key-wise addition is associative.
pub proof fn lemma_map_sum_associative(
    a: Map<Seq<char>, nat>,
    b: Map<Seq<char>, nat>,
    c: Map<Seq<char>, nat>,
)
    ensures
        map_sum(map_sum(a, b), c) == map_sum(a, map_sum(b, c)),
{
    assert(map_sum(map_sum(a, b), c) =~= map_sum(a, map_sum(b, c)));
}

/// Adding the empty map changes nothing.
pub proof fn lemma_map_sum_empty(a: Map<Seq<char>, nat>)
    ensures
        map_sum(a, Map::empty()) == a,
{
    assert(map_sum(a, Map::empty()) =~= a);
}

/// The map that a list of `(user, count)` pairs denotes; later pairs win.
pub open spec fn map_of(s: Seq<(String, u64)>) -> Map<Seq<char>, nat>
    decreases s.len(),
{
    if s.len() == 0 {
        Map::empty()
    } else {
        map_of(s.drop_last()).insert(s.last().0@, s.last().1 as nat)
    }
}

proof fn lemma_map_of_keys(s: Seq<(String, u64)>, k: Seq<char>)
    ensures
        map_of(s).contains_key(k) <==> exists|i: int| 0 <= i < s.len() && #[trigger] s[i].0@ == k,
    decreases s.len(),
{
    if s.len() > 0 {
        lemma_map_of_keys(s.drop_last(), k);
        if map_of(s.drop_last()).contains_key(k) {
            let i = choose|i: int| 0 <= i < s.len() - 1 && #[trigger] s.drop_last()[i].0@ == k;
            assert(s[i].0@ == k);
        }
        if exists|i: int| 0 <= i < s.len() && #[trigger] s[i].0@ == k {
            let i = choose|i: int| 0 <= i < s.len() && #[trigger] s[i].0@ == k;
            if i < s.len() - 1 {
                assert(s.drop_last()[i].0@ == k);
            }
        }
    }
}

proof fn lemma_map_of_last(s: Seq<(String, u64)>, k: Seq<char>, t: int)
    requires
        0 <= t < s.len(),
        s[t].0@ == k,
    ensures
        map_of(s).contains_key(k),
        exists|i: int| 0 <= i < s.len() && map_of(s)[k] == s[i].1 as nat,
    decreases s.len(),
{
    if t < s.len() - 1 && s.last().0@ != k {
        lemma_map_of_last(s.drop_last(), k, t);
        let i = choose|i: int| 0 <= i < s.len() - 1 && map_of(s.drop_last())[k] == s.drop_last()[i].1 as nat;
        assert(map_of(s)[k] == s[i].1 as nat);
    } else {
        assert(map_of(s)[k] == s[s.len() - 1].1 as nat);
    }
}

proof fn lemma_map_of_value(s: Seq<(String, u64)>, i: int)
    requires
        0 <= i < s.len(),
        forall|j: int| 0 <= j < s.len() && j != i ==> s[j].0@ != s[i].0@,
    ensures
        map_of(s).contains_key(s[i].0@),
        map_of(s)[s[i].0@] == s[i].1 as nat,
    decreases s.len(),
{
    if i < s.len() - 1 {
        let t = s.drop_last();
        assert forall|j: int| 0 <= j < t.len() && j != i implies t[j].0@ != t[i].0@ by {
            assert(t[j] == s[j]);
        }
        lemma_map_of_value(t, i);
    }
}

proof fn lemma_map_of_update(s: Seq<(String, u64)>, i: int, v: u64)
    requires
        0 <= i < s.len(),
        forall|j: int| 0 <= j < s.len() && j != i ==> s[j].0@ != s[i].0@,
    ensures
        map_of(s.update(i, (s[i].0, v))) == map_of(s).insert(s[i].0@, v as nat),
    decreases s.len(),
{
    let u = s.update(i, (s[i].0, v));
    if i == s.len() - 1 {
        assert(u.drop_last() == s.drop_last());
        assert(map_of(u) =~= map_of(s).insert(s[i].0@, v as nat));
    } else {
        let t = s.drop_last();
        assert(u.drop_last() == t.update(i, (t[i].0, v)));
        assert forall|j: int| 0 <= j < t.len() && j != i implies t[j].0@ != t[i].0@ by {
            assert(t[j] == s[j]);
        }
        lemma_map_of_update(t, i, v);
        assert(s.last().0@ != s[i].0@);
        assert(map_of(u) =~= map_of(s).insert(s[i].0@, v as nat));
    }
}

/// Per-user counters: a list of `(user, count)` pairs with distinct users and
/// positive counts.
#[derive(Debug)]
pub struct Tally {
    entries: Vec<(String, u64)>,
}

impl View for Tally {
    type V = Map<Seq<char>, nat>;

    closed spec fn view(&self) -> Map<Seq<char>, nat> {
        map_of(self.entries@)
    }
}

impl Tally {
    /// Users are distinct and every count is positive.
    pub closed spec fn wf(&self) -> bool {
        &&& forall|i: int, j: int|
            0 <= i < self.entries@.len() && 0 <= j < self.entries@.len() && i != j
                ==> self.entries@[i].0@ != self.entries@[j].0@
        &&& forall|i: int| 0 <= i < self.entries@.len() ==> self.entries@[i].1 > 0
    }

    pub fn new() -> (r: Tally)
        ensures
            r.wf(),
            r@ == Map::<Seq<char>, nat>::empty(),
    {
        Tally { entries: Vec::new() }
    }

    /// Every user held has a positive count.
    pub proof fn lemma_positive(&self, k: Seq<char>)
        requires
            self.wf(),
        ensures
            self@.contains_key(k) ==> self@[k] > 0,
    {
        lemma_map_of_keys(self.entries@, k);
        if self@.contains_key(k) {
            let i = choose|i: int| 0 <= i < self.entries@.len() && #[trigger] self.entries@[i].0@ == k;
            lemma_map_of_value(self.entries@, i);
        }
    }

    /// The count of `user`, zero when absent.
    pub fn get(&self, user: &str) -> (r: u64)
        requires
            self.wf(),
        ensures
            r as nat == count_in(self@, user@),
    {
        let key = user.to_owned();
        match self.find(&key) {
            Some(i) => self.entries[i].1,
            None => 0,
        }
    }

    fn find(&self, user: &String) -> (r: Option<usize>)
        requires
            self.wf(),
        ensures
            match r {
                Some(i) => i < self.entries@.len() && self.entries@[i as int].0@ == user@
                    && self@.contains_key(user@) && self@[user@] == self.entries@[i as int].1,
                None => !self@.contains_key(user@),
            },
    {
        let mut i: usize = 0;
        while i < self.entries.len()
            invariant
                self.wf(),
                i <= self.entries@.len(),
                forall|j: int| 0 <= j < i ==> self.entries@[j].0@ != user@,
            decreases self.entries@.len() - i,
        {
            if self.entries[i].0 == *user {
                proof {
                    lemma_map_of_value(self.entries@, i as int);
                }
                return Some(i);
            }
            i += 1;
        }
        proof {
            lemma_map_of_keys(self.entries@, user@);
        }
        None
    }

    /// Adds `delta` to the count of `user`.
    pub fn add(&mut self, user: &String, delta: u64)
        requires
            old(self).wf(),
            delta > 0,
            count_in(old(self)@, user@) + delta <= u64::MAX,
        ensures
            final(self).wf(),
            final(self)@ == old(self)@.insert(user@, (count_in(old(self)@, user@) + delta) as nat),
    {
        match self.find(user) {
            Some(i) => {
                let v = self.entries[i].1 + delta;
                let name = self.entries[i].0.clone();
                let ghost before = self.entries@;
                proof {
                    lemma_map_of_update(before, i as int, v);
                }
                self.entries.set(i, (name, v));
                assert(self.entries@ == before.update(i as int, (before[i as int].0, v)));
            },
            None => {
                proof {
                    lemma_map_of_keys(self.entries@, user@);
                }
                let ghost before = self.entries@;
                self.entries.push((user.clone(), delta));
                assert(self.entries@.drop_last() == before);
            },
        }
    }

    /// Adds one to the count of `user`.
    pub fn increment(&mut self, user: &String)
        requires
            old(self).wf(),
            count_in(old(self)@, user@) < u64::MAX,
        ensures
            final(self).wf(),
            final(self)@ == bump(old(self)@, user@),
    {
        self.add(user, 1);
    }

    /// Adds every count of `other` into `self`.
    pub fn merge_from(&mut self, other: &Tally)
        requires
            old(self).wf(),
            other.wf(),
            sum_fits(old(self)@, other@),
        ensures
            final(self).wf(),
            final(self)@ == map_sum(old(self)@, other@),
    {
        let ghost start = self@;
        let mut j: usize = 0;
        while j < other.entries.len()
            invariant
                self.wf(),
                other.wf(),
                sum_fits(start, other@),
                j <= other.entries@.len(),
                self@ == map_sum(start, map_of(other.entries@.take(j as int))),
            decreases other.entries@.len() - j,
        {
            let ghost pre = other.entries@.take(j as int);
            let ghost key = other.entries@[j as int].0@;
            proof {
                lemma_map_of_keys(pre, key);
                if map_of(pre).contains_key(key) {
                    let t = choose|t: int| 0 <= t < pre.len() && #[trigger] pre[t].0@ == key;
                    assert(other.entries@[t].0@ == key);
                }
                lemma_map_of_value(other.entries@, j as int);
                assert(count_in(start, key) + count_in(other@, key) <= u64::MAX);
            }
            let (user, delta) = (&other.entries[j].0, other.entries[j].1);
            self.add(user, delta);
            proof {
                assert(other.entries@.take(j + 1).drop_last() == pre);
                assert(self@ =~= map_sum(start, map_of(other.entries@.take(j + 1))));
            }
            j += 1;
        }
        proof {
            assert(other.entries@.take(j as int) == other.entries@);
        }
    }

    /// Whether adding `other` into `self` keeps every count within `u64`.
    pub fn fits_with(&self, other: &Tally) -> (r: bool)
        requires
            self.wf(),
            other.wf(),
        ensures
            r == sum_fits(self@, other@),
    {
        let mut j: usize = 0;
        while j < other.entries.len()
            invariant
                self.wf(),
                other.wf(),
                j <= other.entries@.len(),
                forall|t: int|
                    0 <= t < j ==> count_in(self@, #[trigger] other.entries@[t].0@)
                        + other.entries@[t].1 <= u64::MAX,
            decreases other.entries@.len() - j,
        {
            let mine = self.get(other.entries[j].0.as_str());
            if mine > u64::MAX - other.entries[j].1 {
                proof {
                    lemma_map_of_value(other.entries@, j as int);
                }
                return false;
            }
            j += 1;
        }
        proof {
            assert forall|k: Seq<char>| count_in(self@, k) + count_in(other@, k) <= u64::MAX by {
                lemma_map_of_keys(other.entries@, k);
                self.lemma_within_u64(k);
                if other@.contains_key(k) {
                    let t = choose|t: int|
                        0 <= t < other.entries@.len() && #[trigger] other.entries@[t].0@ == k;
                    lemma_map_of_value(other.entries@, t);
                }
            }
        }
        true
    }

    proof fn lemma_within_u64(&self, k: Seq<char>)
        ensures
            count_in(self@, k) <= u64::MAX,
    {
        lemma_map_of_keys(self.entries@, k);
        if self@.contains_key(k) {
            let t = choose|t: int| 0 <= t < self.entries@.len() && #[trigger] self.entries@[t].0@ == k;
            lemma_map_of_last(self.entries@, k, t);
        }
    }

    /// The largest count held (zero when empty).
    pub fn max_count(&self) -> (r: u64)
        requires
            self.wf(),
        ensures
            bounded_by(self@, r as int),
            r == 0 || exists|k: Seq<char>| self@.contains_key(k) && self@[k] == r,
    {
        let mut best: u64 = 0;
        let mut i: usize = 0;
        while i < self.entries.len()
            invariant
                self.wf(),
                i <= self.entries@.len(),
                forall|j: int| 0 <= j < i ==> self.entries@[j].1 <= best,
                best == 0 || exists|j: int| 0 <= j < i && self.entries@[j].1 == best,
            decreases self.entries@.len() - i,
        {
            if self.entries[i].1 > best {
                best = self.entries[i].1;
            }
            i += 1;
        }
        proof {
            assert forall|k: Seq<char>| self@.contains_key(k) implies self@[k] <= best by {
                lemma_map_of_keys(self.entries@, k);
                let t = choose|t: int| 0 <= t < self.entries@.len() && #[trigger] self.entries@[t].0@ == k;
                lemma_map_of_value(self.entries@, t);
            }
            if best != 0 {
                let t = choose|t: int| 0 <= t < i && self.entries@[t].1 == best;
                lemma_map_of_value(self.entries@, t);
            }
        }
        best
    }
}

} // verus!

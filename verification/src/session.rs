use vstd::prelude::*;

verus! {

/// Idle threshold in seconds: an identity absent from the login list for
/// longer than this is reclaimed (90 minutes).
pub const IDLE_THRESHOLD_SECS: u64 = 5400;

/// An entry is expired when more than `threshold` seconds have passed since
/// it was last seen.
pub open spec fn expired(last_seen: u64, now: u64, threshold: u64) -> bool {
    now > last_seen + threshold
}

/// The session map after one observation of the login list: every name on
/// the list is present and marked seen at `now`; every other entry keeps its
/// old timestamp.
pub open spec fn spec_observe(
    m: Map<Seq<char>, u64>,
    logged: Seq<Seq<char>>,
    now: u64,
) -> Map<Seq<char>, u64> {
    Map::new(
        |k: Seq<char>| m.dom().contains(k) || logged.contains(k),
        |k: Seq<char>| if logged.contains(k) {
            now
        } else {
            m[k]
        },
    )
}

/// The names due for eviction: tracked, and last seen more than the
/// threshold ago.
pub open spec fn spec_due(m: Map<Seq<char>, u64>, now: u64, threshold: u64) -> Set<Seq<char>> {
    Set::new(|k: Seq<char>| m.dom().contains(k) && expired(m[k], now, threshold))
}

spec fn distinct_names(s: Seq<(String, u64)>) -> bool {
    forall|i: int, j: int| 0 <= i < j < s.len() ==> s[i].0@ != s[j].0@
}

spec fn map_of(s: Seq<(String, u64)>) -> Map<Seq<char>, u64>
    decreases s.len(),
{
    if s.len() == 0 {
        Map::empty()
    } else {
        map_of(s.drop_last()).insert(s.last().0@, s.last().1)
    }
}

proof fn lemma_map_of_dom(s: Seq<(String, u64)>, k: Seq<char>)
    ensures
        map_of(s).dom().contains(k) <==> exists|i: int| 0 <= i < s.len() && s[i].0@ == k,
    decreases s.len(),
{
    if s.len() > 0 {
        lemma_map_of_dom(s.drop_last(), k);
        if map_of(s).dom().contains(k) {
            if s.last().0@ == k {
                assert(s[s.len() - 1].0@ == k);
            } else {
                let i = choose|i: int| 0 <= i < s.drop_last().len() && s.drop_last()[i].0@ == k;
                assert(s[i].0@ == k);
            }
        }
        if exists|i: int| 0 <= i < s.len() && s[i].0@ == k {
            let i = choose|i: int| 0 <= i < s.len() && s[i].0@ == k;
            if i < s.len() - 1 {
                assert(s.drop_last()[i].0@ == k);
            }
        }
    }
}

proof fn lemma_map_of_get(s: Seq<(String, u64)>, i: int)
    requires
        distinct_names(s),
        0 <= i < s.len(),
    ensures
        map_of(s).dom().contains(s[i].0@),
        map_of(s)[s[i].0@] == s[i].1,
    decreases s.len(),
{
    if i == s.len() - 1 {
    } else {
        lemma_map_of_get(s.drop_last(), i);
        assert(s.drop_last()[i] == s[i]);
        assert(s[i].0@ != s.last().0@);
    }
}

proof fn lemma_map_of_push(s: Seq<(String, u64)>, name: String, v: u64)
    ensures
        map_of(s.push((name, v))) == map_of(s).insert(name@, v),
{
    assert(s.push((name, v)).drop_last() =~= s);
    assert(s.push((name, v)).last() == (name, v));
}

proof fn lemma_map_of_update(s: Seq<(String, u64)>, i: int, name: String, v: u64)
    requires
        distinct_names(s),
        0 <= i < s.len(),
        name@ == s[i].0@,
    ensures
        map_of(s.update(i, (name, v))) =~= map_of(s).insert(s[i].0@, v),
    decreases s.len(),
{
    let s2 = s.update(i, (name, v));
    if i == s.len() - 1 {
        assert(s2.drop_last() =~= s.drop_last());
        assert(s2.last() == (name, v));
    } else {
        assert(s2.drop_last() =~= s.drop_last().update(i, (name, v)));
        assert(s.drop_last()[i] == s[i]);
        lemma_map_of_update(s.drop_last(), i, name, v);
        assert(s2.last() == s.last());
        assert(s[i].0@ != s.last().0@);
    }
}

proof fn lemma_map_of_remove(s: Seq<(String, u64)>, i: int)
    requires
        distinct_names(s),
        0 <= i < s.len(),
    ensures
        map_of(s.remove(i)) =~= map_of(s).remove(s[i].0@),
    decreases s.len(),
{
    if i == s.len() - 1 {
        assert(s.remove(i) =~= s.drop_last());
        lemma_map_of_dom(s.drop_last(), s[i].0@);
        assert(forall|j: int| 0 <= j < s.drop_last().len() ==> s.drop_last()[j].0@ != s[i].0@);
        assert(!map_of(s.drop_last()).dom().contains(s[i].0@));
        assert(map_of(s.drop_last()) =~= map_of(s.drop_last()).insert(s[i].0@, s[i].1).remove(
            s[i].0@,
        ));
    } else {
        assert(s.remove(i).drop_last() =~= s.drop_last().remove(i));
        assert(s.drop_last()[i] == s[i]);
        lemma_map_of_remove(s.drop_last(), i);
        assert(s.remove(i).last() == s.last());
        assert(s[i].0@ != s.last().0@);
    }
}

/// Law: an identity that is not tracked and does not appear on the login
/// list is still untracked after the cycle's observation and is never due
/// for eviction, so `destroy` is never requested for it.
pub proof fn lemma_unobserved_never_evicted(
    m: Map<Seq<char>, u64>,
    logged: Seq<Seq<char>>,
    now: u64,
    threshold: u64,
    name: Seq<char>,
)
    requires
        !m.dom().contains(name),
        !logged.contains(name),
    ensures
        !spec_observe(m, logged, now).dom().contains(name),
        !spec_due(spec_observe(m, logged, now), now, threshold).contains(name),
{
}

/// Law: an identity present on the cycle's login list is stamped `now` by
/// the observation and therefore never due for eviction in that cycle,
/// however much wall-clock time has passed.
pub proof fn lemma_present_never_evicted(
    m: Map<Seq<char>, u64>,
    logged: Seq<Seq<char>>,
    now: u64,
    threshold: u64,
    name: Seq<char>,
)
    requires
        logged.contains(name),
    ensures
        spec_observe(m, logged, now).dom().contains(name),
        spec_observe(m, logged, now)[name] == now,
        !spec_due(spec_observe(m, logged, now), now, threshold).contains(name),
{
}

/// Law: an identity absent from the login list and idle past the threshold
/// is due for eviction on that cycle; once the entry is removed after a
/// successful destroy, it is untracked and no longer due, so the eviction
/// fires exactly once.
pub proof fn lemma_idle_evicted_exactly_once(
    m: Map<Seq<char>, u64>,
    logged: Seq<Seq<char>>,
    now: u64,
    threshold: u64,
    name: Seq<char>,
)
    requires
        m.dom().contains(name),
        !logged.contains(name),
        expired(m[name], now, threshold),
    ensures
        spec_due(spec_observe(m, logged, now), now, threshold).contains(name),
        !spec_observe(m, logged, now).remove(name).dom().contains(name),
        !spec_due(spec_observe(m, logged, now).remove(name), now, threshold).contains(name),
{
}

/// Tracks, for each identity observed in the login list, when it was last
/// seen. Owned by the poll loop alone; no other component reads or writes it.
pub struct SessionTracker {
    entries: Vec<(String, u64)>,
}

impl SessionTracker {
    /// The mathematical content: a map from user name to the time the name
    /// was last seen in the login list.
    pub closed spec fn view(&self) -> Map<Seq<char>, u64> {
        map_of(self.entries@)
    }

    /// Internal invariant: one entry per name.
    pub closed spec fn wf(&self) -> bool {
        distinct_names(self.entries@)
    }

    pub fn new() -> (r: Self)
        ensures
            r.wf(),
            r@ == Map::<Seq<char>, u64>::empty(),
    {
        SessionTracker { entries: Vec::new() }
    }

    fn find_index(&self, name: &String) -> (r: Option<usize>)
        ensures
            match r {
                Some(i) => i < self.entries@.len() && self.entries@[i as int].0@ == name@,
                None => forall|j: int| 0 <= j < self.entries@.len() ==> self.entries@[j].0@ != name@,
            },
    {
        let mut i: usize = 0;
        while i < self.entries.len()
            invariant
                i <= self.entries@.len(),
                forall|j: int| 0 <= j < i ==> self.entries@[j].0@ != name@,
            decreases self.entries@.len() - i,
        {
            if self.entries[i].0.eq(name) {
                return Some(i);
            }
            i += 1;
        }
        None
    }

    /// One observation of the polled login list: names on the list are
    /// stamped `now` (inserted if new); everything else keeps its timestamp.
    pub fn observe(&mut self, logged_in: &Vec<String>, now: u64)
        requires
            old(self).wf(),
        ensures
            final(self).wf(),
            final(self)@ == spec_observe(old(self)@, logged_in.deep_view(), now),
    {
        let ghost m0 = self@;
        let ghost logged = logged_in.deep_view();
        let mut i: usize = 0;
        while i < logged_in.len()
            invariant
                i <= logged.len(),
                logged == logged_in.deep_view(),
                logged.len() == logged_in@.len(),
                self.wf(),
                self@ == spec_observe(m0, logged.take(i as int), now),
            decreases logged_in@.len() - i,
        {
            let ghost pre = self@;
            let name = &logged_in[i];
            assert(name@ == logged[i as int]);
            match self.find_index(name) {
                Some(idx) => {
                    let owned = name.clone();
                    proof {
                        lemma_map_of_update(self.entries@, idx as int, owned, now);
                    }
                    let ghost old_entries = self.entries@;
                    self.entries.set(idx, (owned, now));
                    proof {
                        assert(self.entries@ =~= old_entries.update(idx as int, (owned, now)));
                        assert(distinct_names(self.entries@)) by {
                            assert(forall|p: int|
                                0 <= p < self.entries@.len() ==> #[trigger] self.entries@[p].0@
                                    == old_entries[p].0@);
                        }
                        assert(self@ =~= pre.insert(name@, now));
                    }
                },
                None => {
                    let owned = name.clone();
                    proof {
                        lemma_map_of_push(self.entries@, owned, now);
                    }
                    let ghost old_entries = self.entries@;
                    self.entries.push((owned, now));
                    proof {
                        assert(self.entries@ =~= old_entries.push((owned, now)));
                        assert(distinct_names(self.entries@)) by {
                            assert(forall|p: int|
                                0 <= p < old_entries.len() ==> #[trigger] self.entries@[p]
                                    == old_entries[p]);
                        }
                        assert(self@ =~= pre.insert(name@, now));
                    }
                },
            }
            proof {
                let longer = logged.take(i + 1);
                let shorter = logged.take(i as int);
                assert forall|k: Seq<char>| #[trigger] longer.contains(k) implies shorter.contains(
                    k,
                ) || k == logged[i as int] by {
                    let j = choose|j: int| 0 <= j < longer.len() && longer[j] == k;
                    if j < i {
                        assert(shorter[j] == k);
                    }
                }
                assert forall|k: Seq<char>| #[trigger] shorter.contains(k) implies longer.contains(
                    k,
                ) by {
                    let j = choose|j: int| 0 <= j < shorter.len() && shorter[j] == k;
                    assert(longer[j] == k);
                }
                assert(longer[i as int] == logged[i as int]);
                assert(longer.contains(logged[i as int]));
                assert(self@ =~= spec_observe(m0, longer, now));
            }
            i += 1;
        }
        proof {
            assert(logged.take(logged.len() as int) =~= logged);
        }
    }

    /// The names now due for eviction: tracked and idle past the threshold.
    /// The entries stay in the map until `remove_entry` reports a successful
    /// destroy, so a failed eviction is retried on the next cycle.
    pub fn due_evictions(&self, now: u64, threshold: u64) -> (r: Vec<String>)
        requires
            self.wf(),
        ensures
            forall|k: Seq<char>|
                #[trigger] r.deep_view().contains(k) <==> spec_due(self@, now, threshold).contains(
                    k,
                ),
            forall|a: int, b: int| 0 <= a < b < r@.len() ==> r@[a]@ != r@[b]@,
    {
        let mut r: Vec<String> = Vec::new();
        let mut i: usize = 0;
        while i < self.entries.len()
            invariant
                self.wf(),
                i <= self.entries@.len(),
                forall|k: Seq<char>|
                    #[trigger] r.deep_view().contains(k) <==> exists|j: int|
                        0 <= j < i && self.entries@[j].0@ == k && expired(
                            self.entries@[j].1,
                            now,
                            threshold,
                        ),
                forall|a: int, b: int| 0 <= a < b < r@.len() ==> r@[a]@ != r@[b]@,
            decreases self.entries@.len() - i,
        {
            let last_seen = self.entries[i].1;
            let due = now > last_seen && now - last_seen > threshold;
            let ghost pre = r.deep_view();
            if due {
                r.push(self.entries[i].0.clone());
                proof {
                    assert(r.deep_view() =~= pre.push(self.entries@[i as int].0@));
                    assert forall|k: Seq<char>| #[trigger] pre.contains(k) implies r.deep_view().contains(
                        k,
                    ) by {
                        let j = choose|j: int| 0 <= j < pre.len() && pre[j] == k;
                        assert(r.deep_view()[j] == k);
                    }
                    assert(r.deep_view()[pre.len() as int] == self.entries@[i as int].0@);
                    assert(r.deep_view().contains(self.entries@[i as int].0@));
                    assert forall|k: Seq<char>| #[trigger] r.deep_view().contains(k) implies pre.contains(
                        k,
                    ) || k == self.entries@[i as int].0@ by {
                        let j = choose|j: int|
                            0 <= j < r.deep_view().len() && r.deep_view()[j] == k;
                        if j < pre.len() {
                            assert(pre[j] == k);
                        }
                    }
                    assert forall|a: int, b: int| 0 <= a < b < r@.len() implies r@[a]@
                        != r@[b]@ by {
                        if b == r@.len() - 1 {
                            assert(pre.contains(r@[a]@)) by {
                                assert(pre[a] == r@[a]@);
                            }
                            let j = choose|j: int|
                                0 <= j < i && self.entries@[j].0@ == r@[a]@ && expired(
                                    self.entries@[j].1,
                                    now,
                                    threshold,
                                );
                            assert(self.entries@[j].0@ != self.entries@[i as int].0@);
                            assert(r@[b]@ == self.entries@[i as int].0@);
                        }
                    }
                }
            }
            proof {
                let cur = self.entries@[i as int];
                assert(due == expired(cur.1, now, threshold));
                assert forall|k: Seq<char>| #[trigger] r.deep_view().contains(k) implies exists|j: int|
                    0 <= j < i + 1 && self.entries@[j].0@ == k && expired(
                        self.entries@[j].1,
                        now,
                        threshold,
                    ) by {
                    if pre.contains(k) {
                        let j = choose|j: int|
                            0 <= j < i && self.entries@[j].0@ == k && expired(
                                self.entries@[j].1,
                                now,
                                threshold,
                            );
                        assert(0 <= j < i + 1 && self.entries@[j].0@ == k && expired(
                            self.entries@[j].1,
                            now,
                            threshold,
                        ));
                    } else {
                        assert(due && k == cur.0@);
                        assert(0 <= i < i + 1 && self.entries@[i as int].0@ == k && expired(
                            self.entries@[i as int].1,
                            now,
                            threshold,
                        ));
                    }
                }
                assert forall|k: Seq<char>|
                    (exists|j: int|
                        0 <= j < i + 1 && self.entries@[j].0@ == k && expired(
                            self.entries@[j].1,
                            now,
                            threshold,
                        )) implies #[trigger] r.deep_view().contains(k) by {
                    let j = choose|j: int|
                        0 <= j < i + 1 && self.entries@[j].0@ == k && expired(
                            self.entries@[j].1,
                            now,
                            threshold,
                        );
                    if j < i {
                        assert(pre.contains(k));
                    } else {
                        assert(k == cur.0@ && due);
                    }
                }
            }
            i += 1;
        }
        proof {
            assert(forall|k: Seq<char>|
                r.deep_view().contains(k) <==> spec_due(self@, now, threshold).contains(k)) by {
                assert(forall|j: int|
                    0 <= j < self.entries@.len() ==> map_of(self.entries@).dom().contains(
                        #[trigger] self.entries@[j].0@,
                    ) && map_of(self.entries@)[self.entries@[j].0@] == self.entries@[j].1) by {
                    assert forall|j: int| 0 <= j < self.entries@.len() implies map_of(
                        self.entries@,
                    ).dom().contains(#[trigger] self.entries@[j].0@) && map_of(self.entries@)[self.entries@[j].0@]
                        == self.entries@[j].1 by {
                        lemma_map_of_get(self.entries@, j);
                    }
                }
                assert forall|k: Seq<char>| spec_due(self@, now, threshold).contains(k) implies exists|j: int|
                    0 <= j < self.entries@.len() && self.entries@[j].0@ == k && expired(
                        self.entries@[j].1,
                        now,
                        threshold,
                    ) by {
                    lemma_map_of_dom(self.entries@, k);
                    let j = choose|j: int| 0 <= j < self.entries@.len() && self.entries@[j].0@ == k;
                    lemma_map_of_get(self.entries@, j);
                }
            }
        }
        r
    }

    /// Drops an identity from the map after its account was successfully
    /// destroyed, returning it to the untracked state.
    pub fn remove_entry(&mut self, name: &String)
        requires
            old(self).wf(),
        ensures
            final(self).wf(),
            final(self)@ == old(self)@.remove(name@),
    {
        match self.find_index(name) {
            Some(idx) => {
                proof {
                    lemma_map_of_remove(self.entries@, idx as int);
                }
                let ghost old_entries = self.entries@;
                self.entries.remove(idx);
                proof {
                    assert(self.entries@ =~= old_entries.remove(idx as int));
                    assert(distinct_names(self.entries@)) by {
                        assert(forall|p: int|
                            0 <= p < self.entries@.len() ==> #[trigger] self.entries@[p]
                                == if p < idx as int {
                                old_entries[p]
                            } else {
                                old_entries[p + 1]
                            });
                    }
                }
            },
            None => {
                proof {
                    lemma_map_of_dom(self.entries@, name@);
                    assert(!self@.dom().contains(name@));
                    assert(self@ =~= self@.remove(name@));
                }
            },
        }
    }

    /// One poll cycle: observe the login list, then report who is due for
    /// eviction. A cycle whose login list could not be obtained (`None`)
    /// changes nothing and evicts no one.
    pub fn cycle(&mut self, login_list: Option<&Vec<String>>, now: u64, threshold: u64) -> (r: Vec<
        String,
    >)
        requires
            old(self).wf(),
        ensures
            final(self).wf(),
            match login_list {
                Some(l) => final(self)@ == spec_observe(old(self)@, l.deep_view(), now)
                    && (forall|k: Seq<char>|
                    #[trigger] r.deep_view().contains(k) <==> spec_due(
                        final(self)@,
                        now,
                        threshold,
                    ).contains(k)) && (forall|a: int, b: int|
                    0 <= a < b < r@.len() ==> r@[a]@ != r@[b]@),
                None => final(self)@ == old(self)@ && r@.len() == 0,
            },
    {
        match login_list {
            Some(l) => {
                self.observe(l, now);
                self.due_evictions(now, threshold)
            },
            None => Vec::new(),
        }
    }
}

} // verus!

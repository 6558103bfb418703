use vstd::prelude::*;

use crate::giturl::git_id;
use crate::giturl::spec_git_id;

verus! {

/// Debounce window in seconds: the minimum spacing enforced between two
/// consecutive mirror refreshes.
pub const DEBOUNCE_WINDOW_SECS: u64 = 100;

/// A signal fires a refresh when no refresh has run yet, or when more than
/// `window` seconds have passed since the last one; otherwise it is
/// coalesced away.
pub open spec fn spec_fires(last_refresh: Option<u64>, window: u64, now: u64) -> bool {
    match last_refresh {
        None => true,
        Some(t) => now > t + window,
    }
}

/// The debounce state and the number of refreshes performed after a
/// sequence of signals arriving at the given times.
pub open spec fn run_debounce(last_refresh: Option<u64>, window: u64, times: Seq<u64>) -> (
    Option<u64>,
    nat,
)
    decreases times.len(),
{
    if times.len() == 0 {
        (last_refresh, 0nat)
    } else {
        let t = times[0];
        if spec_fires(last_refresh, window, t) {
            let rest = run_debounce(Some(t), window, times.drop_first());
            (rest.0, (rest.1 + 1) as nat)
        } else {
            run_debounce(last_refresh, window, times.drop_first())
        }
    }
}

/// Remembers when the last refresh ran and discards signals that arrive
/// within the debounce window. Owned by the single refresh consumer task,
/// so no locking is needed around it.
pub struct Debouncer {
    window: u64,
    last_refresh: Option<u64>,
}

impl Debouncer {
    pub closed spec fn window(&self) -> u64 {
        self.window
    }

    pub closed spec fn last_refresh(&self) -> Option<u64> {
        self.last_refresh
    }

    pub fn new(window: u64) -> (r: Self)
        ensures
            r.window() == window,
            r.last_refresh() is None,
    {
        Debouncer { window, last_refresh: None }
    }

    /// One incoming signal at time `now`: decides whether a refresh runs,
    /// and if so records `now` as the time of the last refresh. This is one
    /// step of `run_debounce`.
    pub fn on_signal(&mut self, now: u64) -> (fire: bool)
        ensures
            fire == spec_fires(old(self).last_refresh(), old(self).window(), now),
            final(self).window() == old(self).window(),
            final(self).last_refresh() == if fire {
                Some(now)
            } else {
                old(self).last_refresh()
            },
    {
        let fire = match self.last_refresh {
            None => true,
            Some(t) => now > t && now - t > self.window,
        };
        if fire {
            self.last_refresh = Some(now);
        }
        fire
    }
}

proof fn lemma_within_window_none_fire(t0: u64, window: u64, times: Seq<u64>)
    requires
        forall|i: int| 0 <= i < times.len() ==> times[i] <= t0 + window,
    ensures
        run_debounce(Some(t0), window, times) == (Some(t0), 0nat),
    decreases times.len(),
{
    if times.len() > 0 {
        assert(!spec_fires(Some(t0), window, times[0]));
        assert(forall|i: int|
            0 <= i < times.drop_first().len() ==> #[trigger] times.drop_first()[i] <= t0 + window);
        lemma_within_window_none_fire(t0, window, times.drop_first());
    }
}

/// Law: a burst of signals whose first one fires and whose remainder all
/// arrive within the debounce window of the first produces exactly one
/// refresh.
pub proof fn lemma_burst_single_refresh(last_refresh: Option<u64>, window: u64, times: Seq<u64>)
    requires
        times.len() >= 1,
        spec_fires(last_refresh, window, times[0]),
        forall|i: int| 1 <= i < times.len() ==> #[trigger] times[i] <= times[0] + window,
    ensures
        run_debounce(last_refresh, window, times).1 == 1,
{
    assert(forall|i: int|
        0 <= i < times.drop_first().len() ==> #[trigger] times.drop_first()[i] <= times[0]
            + window);
    lemma_within_window_none_fire(times[0], window, times.drop_first());
}

/// Law: signals each arriving more than the debounce window after the
/// previous one all fire: the same burst spread wider than the window
/// produces one refresh per signal.
pub proof fn lemma_spaced_signals_all_refresh(
    last_refresh: Option<u64>,
    window: u64,
    times: Seq<u64>,
)
    requires
        times.len() >= 1,
        spec_fires(last_refresh, window, times[0]),
        forall|i: int| 1 <= i < times.len() ==> #[trigger] times[i] > times[i - 1] + window,
    ensures
        run_debounce(last_refresh, window, times).1 == times.len(),
    decreases times.len(),
{
    let rest = times.drop_first();
    if rest.len() > 0 {
        assert(rest[0] == times[1]);
        assert(spec_fires(Some(times[0]), window, rest[0]));
        assert(forall|i: int| 1 <= i < rest.len() ==> #[trigger] rest[i] > rest[i - 1] + window)
            by {
            assert(forall|i: int|
                1 <= i < rest.len() ==> #[trigger] rest[i] == times[i + 1] && rest[i - 1]
                    == times[i]);
        }
        lemma_spaced_signals_all_refresh(Some(times[0]), window, rest);
    } else {
        assert(run_debounce(Some(times[0]), window, rest).1 == 0);
    }
}

/// One repository refresh job: the URL to clone, the identifier it is
/// mirrored under, the path the fresh clone is staged into, and the
/// reference path it replaces on success.
pub struct RepoJob {
    pub url: String,
    pub id: String,
    pub staging_path: String,
    pub reference_path: String,
}

/// Lays out the refresh jobs for the configured repository URLs: each is
/// staged under the staging root and swapped into the reference root, both
/// under its own mirror identifier.
pub fn refresh_jobs(urls: &Vec<String>, staging_root: &str, reference_root: &str) -> (r: Vec<
    RepoJob,
>)
    ensures
        r@.len() == urls@.len(),
        forall|i: int|
            0 <= i < urls@.len() ==> {
                &&& (#[trigger] r@[i]).url@ == urls@[i]@
                &&& r@[i].id@ == spec_git_id(urls@[i]@)
                &&& r@[i].staging_path@ == staging_root@ + "/"@ + spec_git_id(urls@[i]@)
                &&& r@[i].reference_path@ == reference_root@ + "/"@ + spec_git_id(urls@[i]@)
            },
{
    let mut r: Vec<RepoJob> = Vec::new();
    let mut i: usize = 0;
    while i < urls.len()
        invariant
            i <= urls@.len(),
            r@.len() == i,
            forall|k: int|
                0 <= k < i ==> {
                    &&& (#[trigger] r@[k]).url@ == urls@[k]@
                    &&& r@[k].id@ == spec_git_id(urls@[k]@)
                    &&& r@[k].staging_path@ == staging_root@ + "/"@ + spec_git_id(urls@[k]@)
                    &&& r@[k].reference_path@ == reference_root@ + "/"@ + spec_git_id(urls@[k]@)
                },
        decreases urls@.len() - i,
    {
        let url = urls[i].clone();
        let id = git_id(url.as_str());
        let mut staging = String::from_str(staging_root);
        staging.append("/");
        staging.append(id.as_str());
        let mut reference = String::from_str(reference_root);
        reference.append("/");
        reference.append(id.as_str());
        r.push(RepoJob { url, id, staging_path: staging, reference_path: reference });
        i += 1;
    }
    r
}

/// The repositories a batch replaces: exactly those whose own clone
/// succeeded.
pub open spec fn spec_refreshed(clone_ok: Seq<bool>) -> Set<int> {
    Set::new(|i: int| 0 <= i < clone_ok.len() && clone_ok[i])
}

/// Law: whether one repository's reference copy is replaced in a batch
/// depends on that repository's clone outcome alone; in particular a clone
/// failure for an earlier repository never blocks a later one.
pub proof fn lemma_batch_isolation(a: Seq<bool>, b: Seq<bool>, i: int)
    requires
        0 <= i < a.len(),
        a.len() == b.len(),
        a[i] == b[i],
    ensures
        spec_refreshed(a).contains(i) == spec_refreshed(b).contains(i),
{
}

/// Drives one refresh batch: hands out each repository's job in turn and
/// decides from the clone outcome whether the staged clone replaces the
/// reference copy. A failed clone skips only its own repository; the batch
/// always moves on to the next job.
pub struct RefreshBatch {
    jobs: Vec<RepoJob>,
    swapped: Vec<bool>,
}

impl RefreshBatch {
    pub closed spec fn jobs(&self) -> Seq<RepoJob> {
        self.jobs@
    }

    /// Clone outcomes recorded so far, one per finished job.
    pub closed spec fn completed(&self) -> Seq<bool> {
        self.swapped@
    }

    pub closed spec fn wf(&self) -> bool {
        self.swapped@.len() <= self.jobs@.len()
    }

    pub fn new(jobs: Vec<RepoJob>) -> (r: Self)
        ensures
            r.wf(),
            r.jobs() == jobs@,
            r.completed().len() == 0,
    {
        RefreshBatch { jobs, swapped: Vec::new() }
    }

    /// The next repository to clone, or `None` when the batch is done.
    pub fn next_job(&self) -> (r: Option<&RepoJob>)
        requires
            self.wf(),
        ensures
            match r {
                Some(j) => self.completed().len() < self.jobs().len() && *j == self.jobs()[self.completed().len() as int],
                None => self.completed().len() == self.jobs().len(),
            },
    {
        if self.swapped.len() < self.jobs.len() {
            Some(&self.jobs[self.swapped.len()])
        } else {
            None
        }
    }

    /// Records the clone outcome of the current job and decides the swap: a
    /// successful clone replaces the reference copy, a failed one leaves it
    /// untouched. Either way the batch advances to the next repository.
    pub fn record_clone(&mut self, clone_ok: bool) -> (swap: bool)
        requires
            old(self).wf(),
            old(self).completed().len() < old(self).jobs().len(),
        ensures
            final(self).wf(),
            swap == clone_ok,
            final(self).jobs() == old(self).jobs(),
            final(self).completed() == old(self).completed().push(clone_ok),
            spec_refreshed(final(self).completed()) == spec_refreshed(old(self).completed()).union(
                if clone_ok {
                    Set::<int>::empty().insert(old(self).completed().len() as int)
                } else {
                    Set::<int>::empty()
                },
            ),
    {
        let ghost pre = self.swapped@;
        self.swapped.push(clone_ok);
        proof {
            assert(spec_refreshed(self.swapped@) =~= spec_refreshed(pre).union(
                if clone_ok {
                    Set::<int>::empty().insert(pre.len() as int)
                } else {
                    Set::<int>::empty()
                },
            ));
        }
        clone_ok
    }
}

} // verus!

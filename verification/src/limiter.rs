use crate::clock;
use vstd::prelude::*;

verus! {

/// A timestamp in seconds, truncated down to the minute boundary it lies in.
pub open spec fn minute_floor(t: u64) -> int {
    t as int / 60 * 60
}

/// The count recorded for a client identity, zero when the identity has not
/// been seen in the current window.
pub open spec fn count_of(counts: Map<Seq<char>, u32>, id: Seq<char>) -> u32 {
    if counts.contains_key(id) {
        counts[id]
    } else {
        0u32
    }
}

spec fn map_of(entries: Seq<(String, u32)>) -> Map<Seq<char>, u32>
    decreases entries.len(),
{
    if entries.len() == 0 {
        Map::empty()
    } else {
        map_of(entries.drop_last()).insert(entries.last().0@, entries.last().1)
    }
}

spec fn distinct_keys(entries: Seq<(String, u32)>) -> bool {
    forall|i: int, j: int|
        0 <= i < j < entries.len() ==> entries[i].0@ != entries[j].0@
}

proof fn lemma_map_of_index(entries: Seq<(String, u32)>, i: int)
    requires
        distinct_keys(entries),
        0 <= i < entries.len(),
    ensures
        map_of(entries).contains_key(entries[i].0@),
        map_of(entries)[entries[i].0@] == entries[i].1,
    decreases entries.len(),
{
    if i < entries.len() - 1 {
        assert(distinct_keys(entries.drop_last()));
        lemma_map_of_index(entries.drop_last(), i);
        assert(entries.drop_last()[i] == entries[i]);
        assert(entries.last().0@ != entries[i].0@);
    }
}

proof fn lemma_map_of_absent(entries: Seq<(String, u32)>, key: Seq<char>)
    requires
        forall|k: int| 0 <= k < entries.len() ==> entries[k].0@ != key,
    ensures
        !map_of(entries).contains_key(key),
    decreases entries.len(),
{
    if entries.len() > 0 {
        lemma_map_of_absent(entries.drop_last(), key);
    }
}

proof fn lemma_map_of_update(entries: Seq<(String, u32)>, i: int, p: (String, u32))
    requires
        distinct_keys(entries),
        0 <= i < entries.len(),
        p.0@ == entries[i].0@,
    ensures
        map_of(entries.update(i, p)) == map_of(entries).insert(p.0@, p.1),
        distinct_keys(entries.update(i, p)),
    decreases entries.len(),
{
    let t = entries.update(i, p);
    assert(forall|k: int| 0 <= k < t.len() ==> t[k].0@ == entries[k].0@);
    if i == entries.len() - 1 {
        assert(t.drop_last() =~= entries.drop_last());
        assert(t.last() == p);
        assert(map_of(t) =~= map_of(entries).insert(p.0@, p.1));
    } else {
        assert(distinct_keys(entries.drop_last()));
        assert(t.drop_last() =~= entries.drop_last().update(i, p));
        assert(t.last() == entries.last());
        lemma_map_of_update(entries.drop_last(), i, p);
        assert(entries.last().0@ != p.0@);
        assert(map_of(t) =~= map_of(entries).insert(p.0@, p.1));
    }
}

proof fn lemma_map_of_push(entries: Seq<(String, u32)>, p: (String, u32))
    ensures
        map_of(entries.push(p)) == map_of(entries).insert(p.0@, p.1),
{
    assert(entries.push(p).drop_last() =~= entries);
    assert(entries.push(p).last() == p);
}

/// Fixed-window admission controller: at most `rate_limit` admissions per
/// client identity within the window that began at `reset_time`.
pub struct RateLimiter {
    rate_limit: u32,
    counts: Vec<(String, u32)>,
    reset_time: u64,
}

impl RateLimiter {
    /// The configured maximum number of admissions per client per window.
    pub closed spec fn spec_limit(self) -> u32 {
        self.rate_limit
    }

    /// The timestamp (seconds, on a minute boundary) at which the current
    /// counting window began.
    pub closed spec fn window_start(self) -> u64 {
        self.reset_time
    }

    /// The per-identity admission counts of the current window.
    pub closed spec fn counts_map(self) -> Map<Seq<char>, u32> {
        map_of(self.counts@)
    }

    /// Internal invariant: one entry per identity, and the window start lies
    /// on a minute boundary.
    pub closed spec fn wf(self) -> bool {
        &&& distinct_keys(self.counts@)
        &&& self.reset_time % 60 == 0
    }

    /// The window start that one admission check evaluated at time `now`
    /// leaves behind: rolled forward when `now`'s minute exceeds it.
    pub open spec fn rolled_window_start(self, now: u64) -> int {
        if minute_floor(now) > self.window_start() {
            minute_floor(now)
        } else {
            self.window_start() as int
        }
    }

    /// The counts against which an admission check at time `now` is decided:
    /// the whole table is cleared when the window rolls over.
    pub open spec fn rolled_counts(self, now: u64) -> Map<Seq<char>, u32> {
        if minute_floor(now) > self.window_start() {
            Map::empty()
        } else {
            self.counts_map()
        }
    }

    /// Whether an admission check for `id` at time `now` admits the request:
    /// its count in the (possibly rolled-over) window is below the limit.
    pub open spec fn spec_admitted(self, id: Seq<char>, now: u64) -> bool {
        count_of(self.rolled_counts(now), id) < self.spec_limit()
    }

    /// The count table after one admission check for `id` at time `now`:
    /// the admitted identity's count rises by one; a denied check leaves the
    /// (possibly rolled-over) table untouched.
    pub open spec fn counts_after(self, id: Seq<char>, now: u64) -> Map<Seq<char>, u32> {
        let rolled = self.rolled_counts(now);
        if self.spec_admitted(id, now) {
            rolled.insert(id, (count_of(rolled, id) + 1) as u32)
        } else {
            rolled
        }
    }

    /// The full effect of one admission check for `id` evaluated at time
    /// `now`, relating the state before (`self`) to the state after (`post`)
    /// and the returned decision.
    pub open spec fn spec_step(self, post: RateLimiter, id: Seq<char>, now: u64, admitted: bool) -> bool {
        &&& admitted == self.spec_admitted(id, now)
        &&& post.spec_limit() == self.spec_limit()
        &&& post.window_start() == self.rolled_window_start(now)
        &&& post.counts_map() == self.counts_after(id, now)
        &&& post.wf()
    }

    /// One admission check for identity `ip`, evaluated at time `now`
    /// (seconds): roll the window over if `now`'s minute is later than the
    /// stored window start, then admit exactly when the identity's count is
    /// still below the limit, incrementing it on admission.
    pub fn admit_at(&mut self, ip: &str, now: u64) -> (r: bool)
        requires
            old(self).wf(),
        ensures
            old(self).spec_step(*final(self), ip@, now, r),
    {
        let m = truncate_to_minute(now);
        if m > self.reset_time {
            self.counts.clear();
            self.reset_time = m;
        }
        let key = ip.to_owned();
        match find_entry(&self.counts, &key) {
            Some(i) => {
                let c = self.counts[i].1;
                proof {
                    lemma_map_of_index(self.counts@, i as int);
                }
                if c >= self.rate_limit {
                    false
                } else {
                    let ghost pre_entries = self.counts@;
                    self.counts[i].1 = c + 1;
                    proof {
                        lemma_map_of_update(
                            pre_entries,
                            i as int,
                            (pre_entries[i as int].0, (c + 1) as u32),
                        );
                        assert(self.counts@ == pre_entries.update(
                            i as int,
                            (pre_entries[i as int].0, (c + 1) as u32),
                        ));
                    }
                    true
                }
            },
            None => {
                proof {
                    lemma_map_of_absent(self.counts@, key@);
                }
                if self.rate_limit == 0 {
                    false
                } else {
                    let ghost pre_entries = self.counts@;
                    let ghost new_pair = (key, 1u32);
                    self.counts.push((key, 1));
                    proof {
                        lemma_map_of_push(pre_entries, new_pair);
                        assert(self.counts@ == pre_entries.push(new_pair));
                        assert(forall|k: int|
                            0 <= k < self.counts@.len() - 1 ==> self.counts@[k] == pre_entries[k]);
                        assert(distinct_keys(self.counts@));
                    }
                    true
                }
            },
        }
    }

    /// One admission check for identity `ip`, evaluated at the current
    /// wall-clock time: the state change and the decision are those of
    /// `admit_at` for whatever time the clock returned.
    pub fn check_rate_limit(&mut self, ip: &str) -> (r: bool)
        requires
            old(self).wf(),
        ensures
            final(self).wf(),
            final(self).spec_limit() == old(self).spec_limit(),
            exists|t: u64| old(self).spec_step(*final(self), ip@, t, r),
    {
        let now = match clock::now_unix_secs() {
            Some(t) => t,
            None => 0,
        };
        self.admit_at(ip, now)
    }

    /// A controller with the given limit, an empty count table, and a window
    /// starting at `now` truncated to the minute.
    pub fn new_at(rate_limit: u32, now: u64) -> (r: Self)
        ensures
            r.wf(),
            r.spec_limit() == rate_limit,
            r.window_start() == minute_floor(now),
            r.counts_map() == Map::<Seq<char>, u32>::empty(),
    {
        let reset_time = truncate_to_minute(now);
        RateLimiter { rate_limit, counts: Vec::new(), reset_time }
    }

    /// A controller with the given limit whose window starts at the current
    /// wall-clock time, truncated to the minute.
    pub fn new(rate_limit: u32) -> (r: Self)
        ensures
            r.wf(),
            r.spec_limit() == rate_limit,
            r.counts_map() == Map::<Seq<char>, u32>::empty(),
    {
        let now = match clock::now_unix_secs() {
            Some(t) => t,
            None => 0,
        };
        Self::new_at(rate_limit, now)
    }
}

/// The count table after `n` consecutive admission checks for `id` against
/// limit `limit`, all decided against the same table (one window, no
/// rollover between the checks).
pub open spec fn counts_after_calls(
    m0: Map<Seq<char>, u32>,
    limit: u32,
    id: Seq<char>,
    n: nat,
) -> Map<Seq<char>, u32>
    decreases n,
{
    if n == 0 {
        m0
    } else {
        let m = counts_after_calls(m0, limit, id, (n - 1) as nat);
        if count_of(m, id) < limit {
            m.insert(id, (count_of(m, id) + 1) as u32)
        } else {
            m
        }
    }
}

/// Law: within one window (`now`'s minute does not exceed the stored window
/// start), a single admission check advances the count table by exactly one
/// `counts_after_calls` step, leaves the window start in place, and admits
/// exactly when the identity's count is still below the limit.
pub proof fn lemma_step_in_window(
    pre: RateLimiter,
    post: RateLimiter,
    id: Seq<char>,
    now: u64,
    admitted: bool,
)
    requires
        pre.spec_step(post, id, now, admitted),
        minute_floor(now) <= pre.window_start(),
    ensures
        post.counts_map() == counts_after_calls(pre.counts_map(), pre.spec_limit(), id, 1),
        admitted == (count_of(pre.counts_map(), id) < pre.spec_limit()),
        post.window_start() == pre.window_start(),
{
    reveal_with_fuel(counts_after_calls, 2);
}

/// Law (window quota; also the linearized form of concurrency safety):
/// starting from an empty table, after `k` admission checks for `id` within
/// one window the recorded count — which is the number of those checks that
/// were admitted — equals min(k, limit), and the next check is admitted
/// exactly when `k < limit`. Hence of any `n > limit` checks for one
/// identity, in whatever order concurrent callers were serialized, exactly
/// `limit` are admitted and the rest denied.
pub proof fn lemma_fixed_window_quota(limit: u32, id: Seq<char>, k: nat)
    ensures
        count_of(counts_after_calls(Map::<Seq<char>, u32>::empty(), limit, id, k), id) as int
            == vstd::math::min(k as int, limit as int),
        count_of(counts_after_calls(Map::<Seq<char>, u32>::empty(), limit, id, k), id) < limit
            <==> k < limit,
    decreases k,
{
    if k > 0 {
        lemma_fixed_window_quota(limit, id, (k - 1) as nat);
    }
}

/// Law (window reset): an admission check evaluated at a time whose minute
/// exceeds the stored window start clears every count before deciding its
/// own admission: afterwards every other identity is back to zero, the
/// window start is the new minute, and the check itself was admitted exactly
/// when the limit is positive.
pub proof fn lemma_rollover_resets(
    pre: RateLimiter,
    post: RateLimiter,
    id: Seq<char>,
    now: u64,
    admitted: bool,
)
    requires
        pre.spec_step(post, id, now, admitted),
        minute_floor(now) > pre.window_start(),
    ensures
        post.window_start() == minute_floor(now),
        admitted == (0 < pre.spec_limit()),
        forall|other: Seq<char>| other != id ==> count_of(post.counts_map(), other) == 0,
        count_of(post.counts_map(), id) == if admitted { 1u32 } else { 0u32 },
{
}

/// Law (per-identity isolation): admission checks for identity `a`, however
/// many, never change the count recorded for a different identity `b`.
pub proof fn lemma_identity_isolation(
    m0: Map<Seq<char>, u32>,
    limit: u32,
    a: Seq<char>,
    b: Seq<char>,
    n: nat,
)
    requires
        a != b,
    ensures
        count_of(counts_after_calls(m0, limit, a, n), b) == count_of(m0, b),
    decreases n,
{
    if n > 0 {
        lemma_identity_isolation(m0, limit, a, b, (n - 1) as nat);
    }
}

/// Law (per-identity isolation, one step): within one window, an admission
/// check for `a` changes neither the recorded count nor the pending
/// admission decision of any other identity `b`.
pub proof fn lemma_step_isolates(
    pre: RateLimiter,
    post: RateLimiter,
    a: Seq<char>,
    b: Seq<char>,
    now: u64,
    admitted: bool,
)
    requires
        pre.spec_step(post, a, now, admitted),
        a != b,
        minute_floor(now) <= pre.window_start(),
    ensures
        count_of(post.counts_map(), b) == count_of(pre.counts_map(), b),
        post.spec_admitted(b, now) == pre.spec_admitted(b, now),
{
}

fn find_entry(entries: &Vec<(String, u32)>, key: &String) -> (r: Option<usize>)
    ensures
        match r {
            Some(i) => i < entries@.len() && entries@[i as int].0@ == key@,
            None => forall|k: int| 0 <= k < entries@.len() ==> entries@[k].0@ != key@,
        },
{
    let n = entries.len();
    let mut i: usize = 0;
    while i < n
        invariant
            n == entries@.len(),
            i <= n,
            forall|k: int| 0 <= k < i ==> entries@[k].0@ != key@,
        decreases n - i,
    {
        if entries[i].0 == *key {
            return Some(i);
        }
        i = i + 1;
    }
    None
}

fn truncate_to_minute(now: u64) -> (r: u64)
    ensures
        r == minute_floor(now),
        r % 60 == 0,
{
    proof {
        vstd::arithmetic::div_mod::lemma_fundamental_div_mod(now as int, 60);
        vstd::arithmetic::div_mod::lemma_mod_multiples_basic(now as int / 60, 60);
    }
    now / 60 * 60
}

} // verus!

//! Sliding-window admission control, one window per endpoint name.
//!
//! The limiter reads no clock: every call is handed the current time in
//! milliseconds, measured from any fixed origin that does not move while the
//! limiter lives.

use crate::text::str_eq;
use vstd::prelude::*;
use vstd::string::*;

verus! {

/// The largest window, in seconds, whose length in milliseconds fits in 64 bits.
pub const MAX_WINDOW_SECS: u64 = 18_446_744_073_709_551;

/// How long a caller that was turned away waits before it asks again, in milliseconds.
pub const POLL_INTERVAL_MS: u64 = 100;

/// Milliseconds from `stamp` to `now`; zero if `stamp` lies ahead of `now`.
pub open spec fn elapsed_since(stamp: u64, now: u64) -> nat {
    if now >= stamp {
        (now - stamp) as nat
    } else {
        0
    }
}

/// A request made at `stamp` still counts at `now`.
pub open spec fn in_window(stamp: u64, now: u64, window: nat) -> bool {
    elapsed_since(stamp, now) < window
}

/// The stamps that still count at `now`, in their recorded order.
pub open spec fn live_stamps(stamps: Seq<u64>, now: u64, window: nat) -> Seq<u64>
    decreases stamps.len(),
{
    if stamps.len() == 0 {
        Seq::empty()
    } else if in_window(stamps.last(), now, window) {
        live_stamps(stamps.drop_last(), now, window).push(stamps.last())
    } else {
        live_stamps(stamps.drop_last(), now, window)
    }
}

/// A request at `now` is admitted when fewer than `max` recorded requests still count.
pub open spec fn admits(stamps: Seq<u64>, now: u64, window: nat, max: nat) -> bool {
    live_stamps(stamps, now, window).len() < max
}

/// The record after a check at `now`: an admitted request drops what has
/// expired and adds `now`; a refused one changes nothing.
pub open spec fn after_check(stamps: Seq<u64>, now: u64, window: nat, max: nat) -> Seq<u64> {
    if admits(stamps, now, window, max) {
        live_stamps(stamps, now, window).push(now)
    } else {
        stamps
    }
}

/// The smallest stamp of a non-empty record.
pub open spec fn oldest_stamp(stamps: Seq<u64>) -> u64
    decreases stamps.len(),
{
    if stamps.len() <= 1 {
        stamps[0]
    } else {
        let rest = oldest_stamp(stamps.drop_last());
        if stamps.last() < rest {
            stamps.last()
        } else {
            rest
        }
    }
}

/// How long until a slot opens: while the window is full, the time until
/// its oldest counted request expires; none while a request would be
/// admitted, and none when nothing counts at all.
pub open spec fn wait_until_slot(stamps: Seq<u64>, now: u64, window: nat, max: nat) -> Option<
    nat,
> {
    let live = live_stamps(stamps, now, window);
    if live.len() >= max && live.len() > 0 {
        Some((window - elapsed_since(oldest_stamp(live), now)) as nat)
    } else {
        None
    }
}

proof fn lemma_live_bounds(stamps: Seq<u64>, now: u64, window: nat)
    ensures
        live_stamps(stamps, now, window).len() <= stamps.len(),
        forall|i: int|
            0 <= i < live_stamps(stamps, now, window).len() ==> in_window(
                #[trigger] live_stamps(stamps, now, window)[i],
                now,
                window,
            ),
    decreases stamps.len(),
{
    if stamps.len() > 0 {
        lemma_live_bounds(stamps.drop_last(), now, window);
    }
}

proof fn lemma_oldest_is_member(stamps: Seq<u64>)
    requires
        stamps.len() > 0,
    ensures
        exists|i: int| 0 <= i < stamps.len() && stamps[i] == oldest_stamp(stamps),
    decreases stamps.len(),
{
    if stamps.len() > 1 {
        lemma_oldest_is_member(stamps.drop_last());
        let i = choose|i: int|
            0 <= i < stamps.drop_last().len() && stamps.drop_last()[i] == oldest_stamp(
                stamps.drop_last(),
            );
        assert(stamps[i] == stamps.drop_last()[i]);
        if stamps.last() < oldest_stamp(stamps.drop_last()) {
            assert(stamps[stamps.len() - 1] == oldest_stamp(stamps));
        } else {
            assert(stamps[i] == oldest_stamp(stamps));
        }
    } else {
        assert(stamps[0] == oldest_stamp(stamps));
    }
}

/// The requests recorded for one endpoint.
#[derive(Debug)]
pub struct EndpointWindow {
    endpoint: String,
    timestamps: Vec<u64>,
}

/// Admission control with one sliding window per endpoint name.
///
/// The windows are kept in a vector in which no endpoint occurs twice,
/// not in a hash map: of a hash map the verifier knows the contents only
/// where it has a model of the key's hashing, and for strings it has none.
#[derive(Debug)]
pub struct RateLimiter {
    window_secs: u64,
    max_requests: u32,
    requests: Vec<EndpointWindow>,
}

impl RateLimiter {
    #[verifier::type_invariant]
    spec fn well_formed(&self) -> bool {
        &&& self.window_secs <= MAX_WINDOW_SECS
        &&& forall|i: int, j: int|
            0 <= i < j < self.requests@.len() ==> self.requests@[i].endpoint@
                != self.requests@[j].endpoint@
    }

    /// Length of the window in milliseconds.
    pub closed spec fn window(&self) -> nat {
        self.window_secs as nat * 1000
    }

    /// Requests admitted per window.
    pub closed spec fn limit(&self) -> nat {
        self.max_requests as nat
    }

    spec fn slot_of(&self, endpoint: Seq<char>) -> Option<int> {
        if exists|i: int| 0 <= i < self.requests@.len() && self.requests@[i].endpoint@ == endpoint {
            Some(
                choose|i: int|
                    0 <= i < self.requests@.len() && self.requests@[i].endpoint@ == endpoint,
            )
        } else {
            None
        }
    }

    /// The request times on record for `endpoint`, oldest record first;
    /// empty for an endpoint never admitted.
    pub closed spec fn recorded(&self, endpoint: Seq<char>) -> Seq<u64> {
        match self.slot_of(endpoint) {
            Some(i) => self.requests@[i].timestamps@,
            None => Seq::empty(),
        }
    }

    /// A limiter that admits `max_requests` requests per `window_secs`
    /// seconds for each endpoint, with nothing on record.
    pub fn new(window_secs: u64, max_requests: u32) -> (limiter: Self)
        requires
            window_secs <= MAX_WINDOW_SECS,
        ensures
            limiter.window() == window_secs as nat * 1000,
            limiter.limit() == max_requests as nat,
            forall|endpoint: Seq<char>| #[trigger] limiter.recorded(endpoint) == Seq::<u64>::empty(),
    {
        RateLimiter { window_secs, max_requests, requests: Vec::new() }
    }

    proof fn lemma_recorded_at(&self, i: int)
        requires
            self.well_formed(),
            0 <= i < self.requests@.len(),
        ensures
            self.slot_of(self.requests@[i].endpoint@) == Some(i),
            self.recorded(self.requests@[i].endpoint@) == self.requests@[i].timestamps@,
    {
        let endpoint = self.requests@[i].endpoint@;
        let chosen = self.slot_of(endpoint).unwrap();
        if chosen < i {
            assert(self.requests@[chosen].endpoint@ != self.requests@[i].endpoint@);
        } else if chosen > i {
            assert(self.requests@[i].endpoint@ != self.requests@[chosen].endpoint@);
        }
    }

    /// The limiter for the registry of open-access locations: 70
    /// requests a minute, well within its daily allowance.
    pub fn for_unpaywall() -> (limiter: Self)
        ensures
            limiter.window() == 60_000,
            limiter.limit() == 70,
            forall|endpoint: Seq<char>| #[trigger] limiter.recorded(endpoint) == Seq::<u64>::empty(),
    {
        Self::new(60, 70)
    }

    /// The limiter for the academic graph: 100 requests in five minutes,
    /// what it allows without a key.
    pub fn for_semantic_scholar() -> (limiter: Self)
        ensures
            limiter.window() == 300_000,
            limiter.limit() == 100,
            forall|endpoint: Seq<char>| #[trigger] limiter.recorded(endpoint) == Seq::<u64>::empty(),
    {
        Self::new(300, 100)
    }

    /// The limiter for the preprint server: one request in three seconds.
    pub fn for_arxiv() -> (limiter: Self)
        ensures
            limiter.window() == 3_000,
            limiter.limit() == 1,
            forall|endpoint: Seq<char>| #[trigger] limiter.recorded(endpoint) == Seq::<u64>::empty(),
    {
        Self::new(3, 1)
    }

    fn find(&self, endpoint: &str) -> (slot: Option<usize>)
        ensures
            match slot {
                Some(i) => i < self.requests@.len() && self.requests@[i as int].endpoint@
                    == endpoint@ && self.slot_of(endpoint@) == Some(i as int),
                None => self.slot_of(endpoint@) is None,
            },
    {
        proof {
            use_type_invariant(self);
        }
        let mut i: usize = 0;
        while i < self.requests.len()
            invariant
                i <= self.requests@.len(),
                forall|j: int| 0 <= j < i ==> self.requests@[j].endpoint@ != endpoint@,
            decreases self.requests@.len() - i,
        {
            if str_eq(self.requests[i].endpoint.as_str(), endpoint) {
                proof {
                    use_type_invariant(self);
                    let chosen = self.slot_of(endpoint@).unwrap();
                    assert(chosen == i) by {
                        if chosen < i {
                            assert(self.requests@[chosen].endpoint@ != self.requests@[i as int].endpoint@);
                        } else if chosen > i {
                            assert(self.requests@[i as int].endpoint@ != self.requests@[chosen].endpoint@);
                        }
                    }
                }
                return Some(i);
            }
            i += 1;
        }
        None
    }
}

/// The stamps of `stamps` that still count at `now`.
fn prune(stamps: &Vec<u64>, now: u64, window_ms: u64) -> (live: Vec<u64>)
    ensures
        live@ == live_stamps(stamps@, now, window_ms as nat),
{
    let mut live: Vec<u64> = Vec::new();
    let mut i: usize = 0;
    while i < stamps.len()
        invariant
            i <= stamps@.len(),
            live@ == live_stamps(stamps@.take(i as int), now, window_ms as nat),
        decreases stamps@.len() - i,
    {
        let stamp = stamps[i];
        let elapsed: u64 = if now >= stamp {
            now - stamp
        } else {
            0
        };
        proof {
            assert(stamps@.take(i + 1).drop_last() =~= stamps@.take(i as int));
            assert(stamps@.take(i + 1).last() == stamp);
        }
        if elapsed < window_ms {
            live.push(stamp);
        }
        i += 1;
    }
    proof {
        assert(stamps@.take(i as int) =~= stamps@);
    }
    live
}

/// The smallest stamp of a non-empty record.
fn oldest(stamps: &Vec<u64>) -> (stamp: u64)
    requires
        stamps@.len() > 0,
    ensures
        stamp == oldest_stamp(stamps@),
{
    let mut stamp = stamps[0];
    let mut i: usize = 1;
    proof {
        assert(stamps@.take(1).len() == 1);
    }
    while i < stamps.len()
        invariant
            1 <= i <= stamps@.len(),
            stamp == oldest_stamp(stamps@.take(i as int)),
        decreases stamps@.len() - i,
    {
        proof {
            assert(stamps@.take(i + 1).drop_last() =~= stamps@.take(i as int));
            assert(stamps@.take(i + 1).last() == stamps@[i as int]);
        }
        if stamps[i] < stamp {
            stamp = stamps[i];
        }
        i += 1;
    }
    proof {
        assert(stamps@.take(i as int) =~= stamps@);
    }
    stamp
}

impl RateLimiter {
    /// Asks for one request to `endpoint` at time `now`. When fewer
    /// requests than the limit still count, the request is admitted and
    /// put on record; otherwise it is refused and nothing changes.
    pub fn check_and_record(&mut self, endpoint: &str, now: u64) -> (admitted: bool)
        ensures
            final(self).window() == old(self).window(),
            final(self).limit() == old(self).limit(),
            admitted == admits(
                old(self).recorded(endpoint@),
                now,
                old(self).window(),
                old(self).limit(),
            ),
            final(self).recorded(endpoint@) == after_check(
                old(self).recorded(endpoint@),
                now,
                old(self).window(),
                old(self).limit(),
            ),
            forall|other: Seq<char>|
                other != endpoint@ ==> #[trigger] final(self).recorded(other) == old(
                    self,
                ).recorded(other),
            !admitted ==> *final(self) == *old(self),
    {
        proof {
            use_type_invariant(&*self);
        }
        let window_ms: u64 = self.window_secs * 1000;
        match self.find(endpoint) {
            Some(i) => {
                proof {
                    self.lemma_recorded_at(i as int);
                }
                let mut live = prune(&self.requests[i].timestamps, now, window_ms);
                if live.len() >= self.max_requests as usize {
                    return false;
                }
                live.push(now);
                let name = self.requests[i].endpoint.clone();
                let mut requests: Vec<EndpointWindow> = Vec::new();
                core::mem::swap(&mut self.requests, &mut requests);
                requests.set(i, EndpointWindow { endpoint: name, timestamps: live });
                core::mem::swap(&mut self.requests, &mut requests);
                proof {
                    use_type_invariant(&*self);
                    self.lemma_recorded_at(i as int);
                    assert forall|other: Seq<char>| other != endpoint@ implies #[trigger] self.recorded(
                        other,
                    ) == old(self).recorded(other) by {
                        match old(self).slot_of(other) {
                            Some(j) => {
                                assert(self.requests@[j] == old(self).requests@[j]);
                                self.lemma_recorded_at(j);
                            },
                            None => {
                                if self.slot_of(other) is Some {
                                    let j = self.slot_of(other).unwrap();
                                    assert(old(self).requests@[j].endpoint@ == other);
                                }
                            },
                        }
                    }
                }
                true
            },
            None => {
                if self.max_requests == 0 {
                    return false;
                }
                let mut stamps: Vec<u64> = Vec::new();
                stamps.push(now);
                let name = String::from_str(endpoint);
                let mut requests: Vec<EndpointWindow> = Vec::new();
                core::mem::swap(&mut self.requests, &mut requests);
                requests.push(EndpointWindow { endpoint: name, timestamps: stamps });
                core::mem::swap(&mut self.requests, &mut requests);
                proof {
                    use_type_invariant(&*self);
                    let last = self.requests@.len() - 1;
                    self.lemma_recorded_at(last);
                    assert(live_stamps(Seq::<u64>::empty(), now, window_ms as nat) =~= Seq::<
                        u64,
                    >::empty());
                    assert(stamps@ =~= Seq::<u64>::empty().push(now));
                    assert forall|other: Seq<char>| other != endpoint@ implies #[trigger] self.recorded(
                        other,
                    ) == old(self).recorded(other) by {
                        match old(self).slot_of(other) {
                            Some(j) => {
                                assert(self.requests@[j] == old(self).requests@[j]);
                                self.lemma_recorded_at(j);
                            },
                            None => {
                                if self.slot_of(other) is Some {
                                    let j = self.slot_of(other).unwrap();
                                    if j < last {
                                        assert(old(self).requests@[j].endpoint@ == other);
                                    }
                                }
                            },
                        }
                    }
                }
                true
            },
        }
    }

    /// One poll of a caller that waits for a slot: `None` when the request
    /// was admitted and put on record, else the time to sleep before the
    /// next poll, with nothing changed.
    pub fn wait_for_slot(&mut self, endpoint: &str, now: u64) -> (sleep: Option<u64>)
        ensures
            final(self).window() == old(self).window(),
            final(self).limit() == old(self).limit(),
            sleep == if admits(
                old(self).recorded(endpoint@),
                now,
                old(self).window(),
                old(self).limit(),
            ) {
                None
            } else {
                Some(POLL_INTERVAL_MS)
            },
            final(self).recorded(endpoint@) == after_check(
                old(self).recorded(endpoint@),
                now,
                old(self).window(),
                old(self).limit(),
            ),
            forall|other: Seq<char>|
                other != endpoint@ ==> #[trigger] final(self).recorded(other) == old(
                    self,
                ).recorded(other),
            sleep is Some ==> *final(self) == *old(self),
    {
        if self.check_and_record(endpoint, now) {
            None
        } else {
            Some(POLL_INTERVAL_MS)
        }
    }

    /// How long, from `now`, until a request to `endpoint` can be
    /// admitted: the time until the oldest counted request expires while
    /// the window is full, else `None`.
    pub fn time_until_slot(&self, endpoint: &str, now: u64) -> (wait: Option<u64>)
        ensures
            wait.is_some() == wait_until_slot(
                self.recorded(endpoint@),
                now,
                self.window(),
                self.limit(),
            ).is_some(),
            wait matches Some(ms) ==> Some(ms as nat) == wait_until_slot(
                self.recorded(endpoint@),
                now,
                self.window(),
                self.limit(),
            ),
    {
        proof {
            use_type_invariant(self);
        }
        let window_ms: u64 = self.window_secs * 1000;
        match self.find(endpoint) {
            Some(i) => {
                proof {
                    self.lemma_recorded_at(i as int);
                }
                let live = prune(&self.requests[i].timestamps, now, window_ms);
                if live.len() >= self.max_requests as usize && live.len() > 0 {
                    let first = oldest(&live);
                    let elapsed: u64 = if now >= first {
                        now - first
                    } else {
                        0
                    };
                    proof {
                        lemma_live_bounds(self.requests@[i as int].timestamps@, now, window_ms as nat);
                        lemma_oldest_is_member(live@);
                    }
                    Some(window_ms - elapsed)
                } else {
                    None
                }
            },
            None => {
                proof {
                    assert(live_stamps(Seq::<u64>::empty(), now, window_ms as nat) =~= Seq::<
                        u64,
                    >::empty());
                }
                None
            },
        }
    }
}

/// One admission check: the endpoint asked for, and the time of asking.
pub struct Check {
    pub endpoint: Seq<char>,
    pub now: u64,
}

/// The times of the checks never decrease.
pub open spec fn clock_never_runs_back(checks: Seq<Check>) -> bool {
    forall|i: int, j: int| 0 <= i <= j < checks.len() ==> checks[i].now <= checks[j].now
}

/// What a limiter that started empty has on record for `endpoint` after
/// the given checks, made in this order.
pub open spec fn record_after(window: nat, max: nat, checks: Seq<Check>, endpoint: Seq<char>) -> Seq<
    u64,
>
    decreases checks.len(),
{
    if checks.len() == 0 {
        Seq::empty()
    } else {
        let before = record_after(window, max, checks.drop_last(), endpoint);
        if checks.last().endpoint == endpoint {
            after_check(before, checks.last().now, window, max)
        } else {
            before
        }
    }
}

/// Whether check number `i` was admitted.
pub open spec fn admitted(window: nat, max: nat, checks: Seq<Check>, i: int) -> bool {
    admits(
        record_after(window, max, checks.take(i), checks[i].endpoint),
        checks[i].now,
        window,
        max,
    )
}

/// Check number `i` was an admitted request to `endpoint` made within the
/// window that ends at `end`.
pub open spec fn counts_toward(
    window: nat,
    max: nat,
    checks: Seq<Check>,
    endpoint: Seq<char>,
    end: u64,
    i: int,
) -> bool {
    &&& checks[i].endpoint == endpoint
    &&& admitted(window, max, checks, i)
    &&& checks[i].now <= end
    &&& end - checks[i].now < window
}

/// How many of the first `upto` checks were admitted requests to
/// `endpoint` within the window that ends at `end`.
pub open spec fn admitted_within(
    window: nat,
    max: nat,
    checks: Seq<Check>,
    endpoint: Seq<char>,
    end: u64,
    upto: nat,
) -> nat
    decreases upto,
{
    if upto == 0 {
        0
    } else {
        let earlier = admitted_within(window, max, checks, endpoint, end, (upto - 1) as nat);
        if counts_toward(window, max, checks, endpoint, end, upto - 1) {
            earlier + 1
        } else {
            earlier
        }
    }
}

spec fn none_after(stamps: Seq<u64>, bound: u64) -> bool {
    forall|k: int| 0 <= k < stamps.len() ==> stamps[k] <= bound
}

proof fn lemma_live_keeps_bound(stamps: Seq<u64>, now: u64, window: nat, bound: u64)
    requires
        none_after(stamps, bound),
    ensures
        none_after(live_stamps(stamps, now, window), bound),
    decreases stamps.len(),
{
    if stamps.len() > 0 {
        assert(none_after(stamps.drop_last(), bound)) by {
            assert forall|k: int| 0 <= k < stamps.drop_last().len() implies stamps.drop_last()[k]
                <= bound by {
                assert(stamps.drop_last()[k] == stamps[k]);
            }
        }
        lemma_live_keeps_bound(stamps.drop_last(), now, window, bound);
        assert(stamps.last() == stamps[stamps.len() - 1]);
    }
}

proof fn lemma_live_of_push(stamps: Seq<u64>, stamp: u64, now: u64, window: nat)
    ensures
        live_stamps(stamps.push(stamp), now, window) == if in_window(stamp, now, window) {
            live_stamps(stamps, now, window).push(stamp)
        } else {
            live_stamps(stamps, now, window)
        },
{
    assert(stamps.push(stamp).drop_last() =~= stamps);
}

proof fn lemma_live_of_live(stamps: Seq<u64>, at: u64, end: u64, window: nat)
    requires
        none_after(stamps, at),
        at <= end,
    ensures
        live_stamps(live_stamps(stamps, at, window), end, window) == live_stamps(
            stamps,
            end,
            window,
        ),
    decreases stamps.len(),
{
    if stamps.len() > 0 {
        assert(none_after(stamps.drop_last(), at)) by {
            assert forall|k: int| 0 <= k < stamps.drop_last().len() implies stamps.drop_last()[k]
                <= at by {
                assert(stamps.drop_last()[k] == stamps[k]);
            }
        }
        lemma_live_of_live(stamps.drop_last(), at, end, window);
        assert(stamps.last() == stamps[stamps.len() - 1]);
        if in_window(stamps.last(), at, window) {
            lemma_live_of_push(
                live_stamps(stamps.drop_last(), at, window),
                stamps.last(),
                end,
                window,
            );
        }
    }
}

proof fn lemma_record_invariant(
    window: nat,
    max: nat,
    checks: Seq<Check>,
    endpoint: Seq<char>,
    end: u64,
    upto: nat,
)
    requires
        clock_never_runs_back(checks),
        upto <= checks.len(),
    ensures
        upto > 0 ==> none_after(
            record_after(window, max, checks.take(upto as int), endpoint),
            checks[upto - 1].now,
        ),
        upto == 0 ==> record_after(window, max, checks.take(upto as int), endpoint).len() == 0,
        record_after(window, max, checks.take(upto as int), endpoint).len() <= max,
        (upto == 0 || end >= checks[upto - 1].now) ==> admitted_within(
            window,
            max,
            checks,
            endpoint,
            end,
            upto,
        ) <= live_stamps(
            record_after(window, max, checks.take(upto as int), endpoint),
            end,
            window,
        ).len(),
        admitted_within(window, max, checks, endpoint, end, upto) <= max,
    decreases upto,
{
    if upto > 0 {
        let n = (upto - 1) as nat;
        lemma_record_invariant(window, max, checks, endpoint, end, n);
        let check = checks[n as int];
        let before = record_after(window, max, checks.take(n as int), endpoint);
        let after = record_after(window, max, checks.take(upto as int), endpoint);
        assert(checks.take(upto as int).drop_last() =~= checks.take(n as int));
        assert(checks.take(upto as int).last() == check);
        if n > 0 {
            assert(checks[n - 1].now <= check.now);
        }
        assert(none_after(before, check.now));
        if check.endpoint == endpoint && admits(before, check.now, window, max) {
            let live = live_stamps(before, check.now, window);
            assert(after == live.push(check.now));
            lemma_live_keeps_bound(before, check.now, window, check.now);
            assert(admitted(window, max, checks, n as int));
            if end >= check.now {
                lemma_live_of_push(live, check.now, end, window);
                lemma_live_of_live(before, check.now, end, window);
                lemma_live_bounds(after, end, window);
            }
        } else {
            assert(after == before);
            assert(!counts_toward(window, max, checks, endpoint, end, n as int));
        }
    }
}

/// However the checks fall, as long as the clock never runs back: of the
/// requests admitted to any one endpoint, no more than the limit lie
/// within any window, whatever instant `end` the window ends at.
pub proof fn lemma_window_never_overfull(
    window: nat,
    max: nat,
    checks: Seq<Check>,
    endpoint: Seq<char>,
    end: u64,
)
    requires
        clock_never_runs_back(checks),
    ensures
        admitted_within(window, max, checks, endpoint, end, checks.len()) <= max,
{
    lemma_record_invariant(window, max, checks, endpoint, end, checks.len());
}

} // verus!

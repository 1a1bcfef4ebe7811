//! Per-client request counting with a fixed quiet period after which the
//! count starts over.

use std::collections::HashMap;
use vstd::prelude::*;

verus! {

broadcast use vstd::std_specs::hash::group_hash_axioms;

/// Seconds of quiet after which a client's request count starts over.
pub const RATE_LIMIT_RESET: u64 = 90;

/// A client whose count reaches this value is refused.
pub const RATE_LIMIT: u32 = 60;

/// The quiet period in nanoseconds, the unit of the clock readings handed in.
pub const RATE_LIMIT_RESET_NANOS: u64 = 90_000_000_000;

/// A client address, IPv4 or IPv6, by its numeric value.
#[derive(Clone, Copy, PartialEq, Eq, Debug, Structural)]
pub enum IpAddr {
    V4(u32),
    V6(u128),
}

/// What is remembered of one client: its address, the number of requests
/// counted in the current window and the clock reading of its last request
/// (nanoseconds on a monotonic clock).
#[derive(Clone, Copy, Debug)]
pub struct UserRequestProfile {
    pub ip: IpAddr,
    pub count: u32,
    pub last_request: u64,
}

/// The rate limiter's state: one profile per client address seen so far.
pub struct APIState {
    v4: HashMap<u32, UserRequestProfile>,
    v6: HashMap<u128, UserRequestProfile>,
}

impl View for APIState {
    type V = Map<IpAddr, UserRequestProfile>;

    closed spec fn view(&self) -> Map<IpAddr, UserRequestProfile> {
        Map::new(
            |ip: IpAddr|
                match ip {
                    IpAddr::V4(a) => self.v4@.contains_key(a),
                    IpAddr::V6(b) => self.v6@.contains_key(b),
                },
            |ip: IpAddr|
                match ip {
                    IpAddr::V4(a) => self.v4@[a],
                    IpAddr::V6(b) => self.v6@[b],
                },
        )
    }
}

/// Time passed from `last` to `now`; a reading earlier than `last` counts as no time.
pub open spec fn elapsed(last: u64, now: u64) -> int {
    if now >= last {
        now - last
    } else {
        0
    }
}

/// The profile stored for `ip`, if any.
pub open spec fn profile_of(m: Map<IpAddr, UserRequestProfile>, ip: IpAddr) -> Option<
    UserRequestProfile,
> {
    if m.contains_key(ip) {
        Some(m[ip])
    } else {
        None
    }
}

/// The count after one more request at `now`: it starts over at 1 for a new
/// client or after a quiet period of at least the reset window.
pub open spec fn next_count(prev: Option<UserRequestProfile>, now: u64) -> int {
    match prev {
        Some(p) => if elapsed(p.last_request, now) >= RATE_LIMIT_RESET_NANOS {
            1
        } else {
            p.count + 1
        },
        None => 1,
    }
}

/// Whether a request that brings the count to `count` is refused.
pub open spec fn refused(count: int) -> bool {
    count >= RATE_LIMIT
}

/// The state after a request from `ip` at `now`.
pub open spec fn record_request(m: Map<IpAddr, UserRequestProfile>, ip: IpAddr, now: u64) -> Map<
    IpAddr,
    UserRequestProfile,
> {
    m.insert(
        ip,
        UserRequestProfile {
            ip,
            count: next_count(profile_of(m, ip), now) as u32,
            last_request: now,
        },
    )
}

/// Whether a request from `ip` at `now` would push its count past `u32::MAX`.
pub open spec fn count_overflows(m: Map<IpAddr, UserRequestProfile>, ip: IpAddr, now: u64) -> bool {
    next_count(profile_of(m, ip), now) > u32::MAX
}

/// The state after requests from `ip` at each of the readings in `times`, in order.
pub open spec fn replay(m: Map<IpAddr, UserRequestProfile>, ip: IpAddr, times: Seq<u64>) -> Map<
    IpAddr,
    UserRequestProfile,
>
    decreases times.len(),
{
    if times.len() == 0 {
        m
    } else {
        record_request(replay(m, ip, times.drop_last()), ip, times.last())
    }
}

/// Each reading comes less than the reset window after the one before it.
pub open spec fn within_window(times: Seq<u64>) -> bool {
    forall|i: int|
        1 <= i < times.len() ==> elapsed(times[i - 1], #[trigger] times[i])
            < RATE_LIMIT_RESET_NANOS
}

/// A client not seen before that makes `times.len()` requests, each within the
/// reset window of the one before, has that many requests counted.
#[verifier::spinoff_prover]
pub proof fn lemma_burst_count(m: Map<IpAddr, UserRequestProfile>, ip: IpAddr, times: Seq<u64>)
    requires
        !m.contains_key(ip),
        within_window(times),
        1 <= times.len() <= u32::MAX,
    ensures
        replay(m, ip, times).contains_key(ip),
        replay(m, ip, times)[ip].count == times.len(),
        replay(m, ip, times)[ip].last_request == times.last(),
    decreases times.len(),
{
    if times.len() > 1 {
        let init = times.drop_last();
        assert forall|i: int| 1 <= i < init.len() implies elapsed(init[i - 1], #[trigger] init[i])
            < RATE_LIMIT_RESET_NANOS by {
            assert(init[i] == times[i] && init[i - 1] == times[i - 1]);
        }
        lemma_burst_count(m, ip, init);
        let before = replay(m, ip, init);
        assert(elapsed(times[times.len() - 2], times[times.len() - 1]) < RATE_LIMIT_RESET_NANOS);
        assert(init.last() == times[times.len() - 2]);
        assert(profile_of(before, ip) == Some(before[ip]));
        assert(next_count(profile_of(before, ip), times.last()) == times.len());
        assert(replay(m, ip, times) == record_request(before, ip, times.last()));
    } else {
        assert(replay(m, ip, times.drop_last()) == m);
        assert(profile_of(m, ip) is None);
        assert(replay(m, ip, times) == record_request(m, ip, times.last()));
    }
}

/// The k-th request of a burst from a client not seen before (each request
/// within the reset window of the one before) is refused exactly when
/// k is at least `RATE_LIMIT`.
#[verifier::spinoff_prover]
pub proof fn lemma_burst_refused_from_limit(
    m: Map<IpAddr, UserRequestProfile>,
    ip: IpAddr,
    times: Seq<u64>,
    k: int,
)
    requires
        !m.contains_key(ip),
        within_window(times),
        times.len() <= u32::MAX,
        1 <= k <= times.len(),
    ensures
        next_count(profile_of(replay(m, ip, times.take(k - 1)), ip), times[k - 1]) == k,
        refused(next_count(profile_of(replay(m, ip, times.take(k - 1)), ip), times[k - 1]))
            <==> k >= RATE_LIMIT,
{
    let before = times.take(k - 1);
    if k > 1 {
        assert forall|i: int| 1 <= i < before.len() implies elapsed(
            before[i - 1],
            #[trigger] before[i],
        ) < RATE_LIMIT_RESET_NANOS by {
            assert(before[i] == times[i] && before[i - 1] == times[i - 1]);
        }
        lemma_burst_count(m, ip, before);
        let state = replay(m, ip, before);
        assert(before.last() == times[k - 2]);
        assert(elapsed(times[k - 2], times[k - 1]) < RATE_LIMIT_RESET_NANOS);
        assert(profile_of(state, ip) == Some(state[ip]));
        assert(next_count(profile_of(state, ip), times[k - 1]) == k);
    } else {
        assert(before.len() == 0);
        assert(replay(m, ip, before) == m);
        assert(profile_of(m, ip) is None);
    }
}

/// A request from one client leaves every other client's profile as it was,
/// and requests from two different clients can be counted in either order.
pub proof fn lemma_clients_independent(
    m: Map<IpAddr, UserRequestProfile>,
    a: IpAddr,
    b: IpAddr,
    ta: u64,
    tb: u64,
)
    requires
        a != b,
    ensures
        profile_of(record_request(m, a, ta), b) == profile_of(m, b),
        record_request(record_request(m, a, ta), b, tb) == record_request(
            record_request(m, b, tb),
            a,
            ta,
        ),
{
    assert(record_request(record_request(m, a, ta), b, tb) =~= record_request(
        record_request(m, b, tb),
        a,
        ta,
    ));
}

/// A refused client stays refused as long as each request comes within the
/// reset window of the one before it.
pub proof fn lemma_refusal_persists(m: Map<IpAddr, UserRequestProfile>, ip: IpAddr, t1: u64, t2: u64)
    requires
        refused(next_count(profile_of(m, ip), t1)),
        next_count(profile_of(m, ip), t1) <= u32::MAX,
        elapsed(t1, t2) < RATE_LIMIT_RESET_NANOS,
    ensures
        refused(next_count(profile_of(record_request(m, ip, t1), ip), t2)),
{
}

/// A request that comes at least the reset window after the client's last
/// one is counted as the first of a new burst, whatever the stored count and
/// however long the quiet lasted, and is never refused.
pub proof fn lemma_quiet_period_resets(m: Map<IpAddr, UserRequestProfile>, ip: IpAddr, now: u64)
    requires
        m.contains_key(ip),
        elapsed(m[ip].last_request, now) >= RATE_LIMIT_RESET_NANOS,
    ensures
        record_request(m, ip, now)[ip].count == 1,
        !refused(next_count(profile_of(m, ip), now)),
{
}

/// A request that comes within the reset window of the client's last one
/// adds exactly one to the stored count, and is refused exactly when that
/// brings the count to `RATE_LIMIT`.
pub proof fn lemma_within_window_counts_on(m: Map<IpAddr, UserRequestProfile>, ip: IpAddr, now: u64)
    requires
        m.contains_key(ip),
        elapsed(m[ip].last_request, now) < RATE_LIMIT_RESET_NANOS,
    ensures
        next_count(profile_of(m, ip), now) == m[ip].count + 1,
        refused(next_count(profile_of(m, ip), now)) <==> m[ip].count + 1 >= RATE_LIMIT,
{
}

/// A known client that has been quiet for at least the reset window and then
/// makes `times.len()` requests, each within the window of the one before,
/// has exactly that many requests counted: its old count is forgotten.
#[verifier::spinoff_prover]
pub proof fn lemma_burst_after_quiet(m: Map<IpAddr, UserRequestProfile>, ip: IpAddr, times: Seq<u64>)
    requires
        m.contains_key(ip),
        elapsed(m[ip].last_request, times[0]) >= RATE_LIMIT_RESET_NANOS,
        within_window(times),
        1 <= times.len() <= u32::MAX,
    ensures
        replay(m, ip, times).contains_key(ip),
        replay(m, ip, times)[ip].count == times.len(),
        replay(m, ip, times)[ip].last_request == times.last(),
    decreases times.len(),
{
    if times.len() > 1 {
        let init = times.drop_last();
        assert forall|i: int| 1 <= i < init.len() implies elapsed(init[i - 1], #[trigger] init[i])
            < RATE_LIMIT_RESET_NANOS by {
            assert(init[i] == times[i] && init[i - 1] == times[i - 1]);
        }
        assert(init[0] == times[0]);
        lemma_burst_after_quiet(m, ip, init);
        let before = replay(m, ip, init);
        assert(elapsed(times[times.len() - 2], times[times.len() - 1]) < RATE_LIMIT_RESET_NANOS);
        assert(init.last() == times[times.len() - 2]);
        assert(profile_of(before, ip) == Some(before[ip]));
        assert(next_count(profile_of(before, ip), times.last()) == times.len());
        assert(replay(m, ip, times) == record_request(before, ip, times.last()));
    } else {
        assert(replay(m, ip, times.drop_last()) == m);
        assert(times.last() == times[0]);
        assert(profile_of(m, ip) == Some(m[ip]));
        assert(replay(m, ip, times) == record_request(m, ip, times.last()));
    }
}

/// The state after the requests in `reqs`, each a client and the clock
/// reading it came at, in order.
pub open spec fn run(m: Map<IpAddr, UserRequestProfile>, reqs: Seq<(IpAddr, u64)>) -> Map<
    IpAddr,
    UserRequestProfile,
>
    decreases reqs.len(),
{
    if reqs.len() == 0 {
        m
    } else {
        record_request(run(m, reqs.drop_last()), reqs.last().0, reqs.last().1)
    }
}

/// No request of `reqs`, made from state `m`, pushes a count past `u32::MAX`.
pub open spec fn run_fits(m: Map<IpAddr, UserRequestProfile>, reqs: Seq<(IpAddr, u64)>) -> bool
    decreases reqs.len(),
{
    if reqs.len() == 0 {
        true
    } else {
        run_fits(m, reqs.drop_last()) && !count_overflows(
            run(m, reqs.drop_last()),
            reqs.last().0,
            reqs.last().1,
        )
    }
}

/// The clock readings of `reqs` never go back.
pub open spec fn readings_in_order(reqs: Seq<(IpAddr, u64)>) -> bool {
    forall|i: int, j: int| 0 <= i < j < reqs.len() ==> #[trigger] reqs[i].1 <= #[trigger] reqs[j].1
}

/// Starting from no profiles, after any run of requests whose readings never
/// go back and whose counts fit: exactly the clients that made a request have
/// a profile, each stored under its own address, counting at least one
/// request, and last seen no later than the latest reading.
#[verifier::spinoff_prover]
pub proof fn lemma_run_profiles(reqs: Seq<(IpAddr, u64)>)
    requires
        readings_in_order(reqs),
        run_fits(Map::empty(), reqs),
    ensures
        forall|k: IpAddr|
            #[trigger] run(Map::empty(), reqs).contains_key(k) <==> exists|i: int|
                0 <= i < reqs.len() && #[trigger] reqs[i].0 == k,
        forall|k: IpAddr| #[trigger]
            run(Map::empty(), reqs).contains_key(k) ==> {
                &&& run(Map::empty(), reqs)[k].ip == k
                &&& run(Map::empty(), reqs)[k].count >= 1
                &&& run(Map::empty(), reqs)[k].last_request <= reqs.last().1
            },
    decreases reqs.len(),
{
    if reqs.len() > 0 {
        let prefix = reqs.drop_last();
        let last = reqs.last();
        assert forall|i: int, j: int| 0 <= i < j < prefix.len() implies #[trigger] prefix[i].1
            <= #[trigger] prefix[j].1 by {
            assert(prefix[i] == reqs[i] && prefix[j] == reqs[j]);
        }
        lemma_run_profiles(prefix);
        let before = run(Map::empty(), prefix);
        let after = run(Map::empty(), reqs);
        assert(after == record_request(before, last.0, last.1));
        assert forall|k: IpAddr| #[trigger] after.contains_key(k) <==> exists|i: int|
            0 <= i < reqs.len() && #[trigger] reqs[i].0 == k by {
            if k == last.0 {
                assert(reqs[reqs.len() - 1].0 == k);
            } else if after.contains_key(k) {
                assert(before.contains_key(k));
                let i = choose|i: int| 0 <= i < prefix.len() && #[trigger] prefix[i].0 == k;
                assert(reqs[i] == prefix[i]);
            } else if exists|i: int| 0 <= i < reqs.len() && #[trigger] reqs[i].0 == k {
                let i = choose|i: int| 0 <= i < reqs.len() && #[trigger] reqs[i].0 == k;
                assert(i < prefix.len());
                assert(prefix[i] == reqs[i]);
                assert(before.contains_key(k));
            }
        }
        assert forall|k: IpAddr| #[trigger] after.contains_key(k) implies {
            &&& after[k].ip == k
            &&& after[k].count >= 1
            &&& after[k].last_request <= last.1
        } by {
            if k != last.0 {
                assert(before.contains_key(k));
                assert(prefix.len() > 0);
                assert(prefix.last() == reqs[prefix.len() - 1]);
                assert(reqs[prefix.len() - 1].1 <= reqs[reqs.len() - 1].1);
            } else {
                assert(1 <= next_count(profile_of(before, k), last.1) <= u32::MAX);
            }
        }
    }
}

impl APIState {
    /// Every stored profile carries the address it is stored under and
    /// counts at least one request.
    pub open spec fn wf(&self) -> bool {
        forall|ip: IpAddr|
            #[trigger] self@.contains_key(ip) ==> self@[ip].ip == ip && self@[ip].count >= 1
    }

    /// A limiter that has seen no client.
    pub fn new() -> (s: Self)
        ensures
            s.wf(),
            s@ == Map::<IpAddr, UserRequestProfile>::empty(),
    {
        let s = APIState { v4: HashMap::new(), v6: HashMap::new() };
        assert(s@ =~= Map::<IpAddr, UserRequestProfile>::empty());
        s
    }

    /// The profile stored for `ip`.
    pub fn profile(&self, ip: IpAddr) -> (r: Option<UserRequestProfile>)
        ensures
            r == profile_of(self@, ip),
    {
        match ip {
            IpAddr::V4(a) => match self.v4.get(&a) {
                Some(p) => Some(*p),
                None => None,
            },
            IpAddr::V6(b) => match self.v6.get(&b) {
                Some(p) => Some(*p),
                None => None,
            },
        }
    }

    /// Whether a request from `ip` at `now` would overflow its counter.
    pub fn count_would_overflow(&self, ip: IpAddr, now: u64) -> (r: bool)
        ensures
            r == count_overflows(self@, ip, now),
    {
        match self.profile(ip) {
            Some(p) => now.saturating_sub(p.last_request) < RATE_LIMIT_RESET_NANOS && p.count
                == u32::MAX,
            None => false,
        }
    }
}

/// The count a request at `now` gives a client whose stored profile is `prev`.
fn advance(prev: Option<UserRequestProfile>, now: u64) -> (c: u32)
    requires
        next_count(prev, now) <= u32::MAX,
    ensures
        c == next_count(prev, now),
{
    match prev {
        Some(p) => if now.saturating_sub(p.last_request) >= RATE_LIMIT_RESET_NANOS {
            1
        } else {
            p.count + 1
        },
        None => 1,
    }
}

/// Counts a request from `ip` at clock reading `now` (nanoseconds) and says
/// whether it is refused: the count starts over after a quiet period of at
/// least `RATE_LIMIT_RESET` seconds, goes up by one, and the request is
/// refused once the count reaches `RATE_LIMIT`.
pub fn is_ratelimited(ip: IpAddr, now: u64, state: &mut APIState) -> (limited: bool)
    requires
        old(state).wf(),
        !count_overflows(old(state)@, ip, now),
    ensures
        final(state).wf(),
        final(state)@ == record_request(old(state)@, ip, now),
        limited == refused(next_count(profile_of(old(state)@, ip), now)),
        final(state)@.dom() == old(state)@.dom().insert(ip),
        forall|k: IpAddr|
            k != ip && #[trigger] old(state)@.contains_key(k) ==> final(state)@[k] == old(state)@[k],
        final(state)@[ip].last_request == now,
        (forall|k: IpAddr| #[trigger] old(state)@.contains_key(k) ==> old(state)@[k].last_request
            <= now) ==> forall|k: IpAddr|
            #[trigger] final(state)@.contains_key(k) ==> final(state)@[k].last_request <= now,
        !old(state)@.contains_key(ip) ==> !limited,
        old(state)@.contains_key(ip) && elapsed(old(state)@[ip].last_request, now)
            >= RATE_LIMIT_RESET_NANOS ==> !limited,
        !old(state)@.contains_key(ip) ==> final(state)@[ip].count == 1,
        old(state)@.contains_key(ip) && elapsed(old(state)@[ip].last_request, now)
            >= RATE_LIMIT_RESET_NANOS ==> final(state)@[ip].count == 1,
        old(state)@.contains_key(ip) && elapsed(old(state)@[ip].last_request, now)
            < RATE_LIMIT_RESET_NANOS ==> final(state)@[ip].count == old(state)@[ip].count + 1 && (
        limited <==> old(state)@[ip].count + 1 >= RATE_LIMIT),
{
    let prev = state.profile(ip);
    let count = advance(prev, now);
    let p = UserRequestProfile { ip, count, last_request: now };
    let ghost old_view = state@;
    match ip {
        IpAddr::V4(a) => {
            state.v4.insert(a, p);
        },
        IpAddr::V6(b) => {
            state.v6.insert(b, p);
        },
    }
    assert(state@ =~= record_request(old_view, ip, now));
    assert(state@.dom() =~= old_view.dom().insert(ip));
    count >= RATE_LIMIT
}

} // verus!

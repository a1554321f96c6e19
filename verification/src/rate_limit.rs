//! The login rate limit: per client with exponential backoff, and over all clients together.

use vstd::prelude::*;

use crate::clock::{self, remaining_seconds, within, NANOS_PER_SECOND};
use crate::failure::{AuthFailure, ClientAddr};
use crate::sequences;

verus! {

/// From this many consecutive failures on, a client is locked out.
pub const LOCKOUT_AFTER_FAILURES: u32 = 5;

/// The first lockout, in seconds; each further failure doubles it.
pub const LOCKOUT_BASE_SECONDS: u64 = 15;

/// The longest lockout of a client, in seconds.
pub const LOCKOUT_MAX_SECONDS: u64 = 900;

/// How many clients are tracked at most, so that forged addresses cannot exhaust the memory.
pub const MAX_TRACKED_CLIENTS: usize = 1024;

/// After this many idle seconds a client's failures may be forgotten.
pub const ATTEMPT_RETENTION_SECONDS: u64 = 3600;

/// The window, in seconds, in which the failures of all clients are counted together.
pub const GLOBAL_FAILURE_WINDOW_SECONDS: u64 = 300;

/// From this many failures within the window on, everyone is locked out.
pub const GLOBAL_FAILURE_LIMIT: u32 = 100;

/// How long everyone is locked out, in seconds.
pub const GLOBAL_LOCKOUT_SECONDS: u64 = 60;

/// The last moment from which the longest lockout still ends on the clock.
pub const LAST_MOMENT: u64 = 0xffff_ffff_ffff_ffff - 900_000_000_000;

/// The failures of one client.
#[derive(Debug, Clone, Copy, PartialEq, Eq, Structural)]
pub struct ClientAttempts {
    pub failures: u32,
    pub locked_until: Option<u64>,
    pub last_failure_at: u64,
}

/// The state of the rate limit.
#[derive(Debug)]
pub struct RateLimitState {
    pub clients: Vec<(ClientAddr, ClientAttempts)>,
    pub global_failures: u32,
    pub global_window_started_at: Option<u64>,
    pub global_locked_until: Option<u64>,
}

/// A [`RateLimitState`] with its clients as a sequence.
#[verifier::ext_equal]
pub struct RateLimitView {
    pub clients: Seq<(ClientAddr, ClientAttempts)>,
    pub global_failures: u32,
    pub global_window_started_at: Option<u64>,
    pub global_locked_until: Option<u64>,
}

impl View for RateLimitState {
    type V = RateLimitView;

    open spec fn view(&self) -> RateLimitView {
        RateLimitView {
            clients: self.clients@,
            global_failures: self.global_failures,
            global_window_started_at: self.global_window_started_at,
            global_locked_until: self.global_locked_until,
        }
    }
}

/// Whether no client has two entries.
pub open spec fn one_entry_each(clients: Seq<(ClientAddr, ClientAttempts)>) -> bool {
    forall|i: int, j: int|
        0 <= i < j < clients.len() ==> (#[trigger] clients[i]).0 != (#[trigger] clients[j]).0
}

impl RateLimitView {
    /// What every operation keeps: the table is bounded, has one entry a client, and the count of
    /// all failures stays below the limit at which it starts anew.
    pub open spec fn wf(self) -> bool {
        &&& self.clients.len() <= MAX_TRACKED_CLIENTS
        &&& one_entry_each(self.clients)
        &&& self.global_failures < GLOBAL_FAILURE_LIMIT
    }
}

// ---------------------------------------------------------------------------
// What the rate limit does, as functions of its view
// ---------------------------------------------------------------------------

/// The entry of `client`: the first index with its address, where there is one.
pub open spec fn entry_of(clients: Seq<(ClientAddr, ClientAttempts)>, client: ClientAddr) -> Option<int> {
    if exists|i: int| is_first_entry(clients, client, i) {
        Some(choose|i: int| is_first_entry(clients, client, i))
    } else {
        None
    }
}

/// Whether `i` is the first index with the address `client`.
pub open spec fn is_first_entry(
    clients: Seq<(ClientAddr, ClientAttempts)>,
    client: ClientAddr,
    i: int,
) -> bool {
    &&& 0 <= i < clients.len()
    &&& clients[i].0 == client
    &&& forall|j: int| 0 <= j < i ==> (#[trigger] clients[j]).0 != client
}

/// The seconds for which `client` is kept out at `now`, where it is: a lockout of everyone comes
/// first, then the client's own.
pub open spec fn locked_for(limit: RateLimitView, client: ClientAddr, now: u64) -> Option<u64> {
    if limit.global_locked_until matches Some(until) && now < until {
        Some(clock::seconds_left(limit.global_locked_until->0, now) as u64)
    } else {
        match entry_of(limit.clients, client) {
            Some(i) => match limit.clients[i].1.locked_until {
                Some(until) => if now < until {
                    Some(clock::seconds_left(until, now) as u64)
                } else {
                    None
                },
                None => None,
            },
            None => None,
        }
    }
}

/// The state once a lockout of everyone that has run out at `now` is forgotten.
pub open spec fn after_check(limit: RateLimitView, now: u64) -> RateLimitView {
    if limit.global_locked_until matches Some(until) && now >= until {
        RateLimitView { global_locked_until: None, ..limit }
    } else {
        limit
    }
}

/// The lockout in seconds that the `failures`-th consecutive failure brings: fifteen seconds,
/// doubled for every failure past the fifth, and no more than fifteen minutes.
pub open spec fn backoff_seconds(failures: u32) -> int {
    let steps = if failures - LOCKOUT_AFTER_FAILURES < 16 {
        failures - LOCKOUT_AFTER_FAILURES
    } else {
        16
    };
    let seconds = LOCKOUT_BASE_SECONDS * vstd::arithmetic::power2::pow2(steps as nat);
    if seconds < LOCKOUT_MAX_SECONDS {
        seconds
    } else {
        LOCKOUT_MAX_SECONDS as int
    }
}

/// One more than `n`, as far as the type goes.
pub open spec fn counted_up(n: u32) -> u32 {
    if n < u32::MAX {
        (n + 1) as u32
    } else {
        n
    }
}

/// A client's record after one more failure at `now`.
pub open spec fn failed_again(attempts: ClientAttempts, now: u64) -> ClientAttempts {
    let failures = counted_up(attempts.failures);
    ClientAttempts {
        failures,
        last_failure_at: now,
        locked_until: if failures >= LOCKOUT_AFTER_FAILURES {
            Some((now + backoff_seconds(failures) * NANOS_PER_SECOND) as u64)
        } else {
            attempts.locked_until
        },
    }
}

/// The record of a client that has not failed yet.
pub open spec fn no_failures(now: u64) -> ClientAttempts {
    ClientAttempts { failures: 0, locked_until: None, last_failure_at: now }
}

/// Whether the window of the count over all clients is still open at `now`.
pub open spec fn window_open(limit: RateLimitView, now: u64) -> bool {
    limit.global_window_started_at matches Some(started) && clock::within_span(
        now,
        started,
        GLOBAL_FAILURE_WINDOW_SECONDS,
    )
}

/// The count over all clients after one more failure at `now`.
pub open spec fn global_count(limit: RateLimitView, now: u64) -> u32 {
    if window_open(limit, now) {
        counted_up(limit.global_failures)
    } else {
        1
    }
}

/// Whether one more failure at `now` locks everyone out.
pub open spec fn trips_global_limit(limit: RateLimitView, now: u64) -> bool {
    global_count(limit, now) >= GLOBAL_FAILURE_LIMIT
}

/// The state after one more failure at `now`, as far as it concerns all clients together.
pub open spec fn count_globally(limit: RateLimitView, now: u64) -> RateLimitView {
    if trips_global_limit(limit, now) {
        RateLimitView {
            global_failures: 0,
            global_window_started_at: Some(now),
            global_locked_until: Some((now + GLOBAL_LOCKOUT_SECONDS * NANOS_PER_SECOND) as u64),
            ..limit
        }
    } else {
        RateLimitView {
            global_failures: global_count(limit, now),
            global_window_started_at: if window_open(limit, now) {
                limit.global_window_started_at
            } else {
                Some(now)
            },
            ..limit
        }
    }
}

/// Whether an entry is still worth keeping at `now`: its lockout runs, or its last failure is
/// recent.
pub open spec fn is_fresh(now: u64) -> spec_fn((ClientAddr, ClientAttempts)) -> bool {
    |entry: (ClientAddr, ClientAttempts)|
        {
            ||| entry.1.locked_until matches Some(until) && now < until
            ||| clock::within_span(now, entry.1.last_failure_at, ATTEMPT_RETENTION_SECONDS)
        }
}

/// Whether `i` is the first of the entries whose last failure is the oldest.
pub open spec fn is_oldest(clients: Seq<(ClientAddr, ClientAttempts)>, i: int) -> bool {
    &&& 0 <= i < clients.len()
    &&& forall|j: int|
        0 <= j < clients.len() ==> clients[i].1.last_failure_at <= (
        #[trigger] clients[j]).1.last_failure_at
    &&& forall|j: int|
        0 <= j < i ==> clients[i].1.last_failure_at < (#[trigger] clients[j]).1.last_failure_at
}

/// The entries that remain when the oldest go until there is room for one more.
pub open spec fn with_room(clients: Seq<(ClientAddr, ClientAttempts)>) -> Seq<
    (ClientAddr, ClientAttempts),
>
    decreases clients.len(),
{
    let oldest = choose|i: int| is_oldest(clients, i);
    if clients.len() >= MAX_TRACKED_CLIENTS && 0 <= oldest < clients.len() {
        with_room(clients.remove(oldest))
    } else {
        clients
    }
}

/// The entries that eviction leaves at `now`.
pub open spec fn after_eviction(clients: Seq<(ClientAddr, ClientAttempts)>, now: u64) -> Seq<
    (ClientAddr, ClientAttempts),
> {
    with_room(clients.filter(is_fresh(now)))
}

/// The entries after one more failure of `client` at `now`.
pub open spec fn count_client(
    clients: Seq<(ClientAddr, ClientAttempts)>,
    client: ClientAddr,
    now: u64,
) -> Seq<(ClientAddr, ClientAttempts)> {
    match entry_of(clients, client) {
        Some(i) => clients.update(i, (client, failed_again(clients[i].1, now))),
        None => clients.push((client, failed_again(no_failures(now), now))),
    }
}

/// The record that a failure of `client` at `now` adds to.
pub open spec fn record_before(
    clients: Seq<(ClientAddr, ClientAttempts)>,
    client: ClientAddr,
    now: u64,
) -> ClientAttempts {
    match entry_of(clients, client) {
        Some(i) => clients[i].1,
        None => no_failures(now),
    }
}

/// The state after one more failure of `client` at `now`.
pub open spec fn after_failure(limit: RateLimitView, client: ClientAddr, now: u64) -> RateLimitView {
    let counted = count_globally(limit, now);
    RateLimitView {
        clients: count_client(after_eviction(counted.clients, now), client, now),
        ..counted
    }
}

/// The seconds of lockout that a failure of `client` at `now` brings, where it brings one. The
/// client's own lockout is told in preference to that of everyone.
pub open spec fn failure_lockout(limit: RateLimitView, client: ClientAddr, now: u64) -> Option<u64> {
    let failures = counted_up(
        record_before(after_eviction(limit.clients, now), client, now).failures,
    );
    if failures >= LOCKOUT_AFTER_FAILURES {
        Some(backoff_seconds(failures) as u64)
    } else if trips_global_limit(limit, now) {
        Some(GLOBAL_LOCKOUT_SECONDS)
    } else {
        None
    }
}

/// Whether an entry is of another client than `client`.
pub open spec fn is_other(client: ClientAddr) -> spec_fn((ClientAddr, ClientAttempts)) -> bool {
    |entry: (ClientAddr, ClientAttempts)| entry.0 != client
}

/// The state once the failures of `client` are forgotten.
pub open spec fn after_clearing(limit: RateLimitView, client: ClientAddr) -> RateLimitView {
    RateLimitView { clients: limit.clients.filter(is_other(client)), ..limit }
}

// ---------------------------------------------------------------------------
// Properties of these functions
// ---------------------------------------------------------------------------

/// Any first index is the entry.
pub proof fn lemma_entry_of(
    clients: Seq<(ClientAddr, ClientAttempts)>,
    client: ClientAddr,
    i: int,
)
    requires
        is_first_entry(clients, client, i),
    ensures
        entry_of(clients, client) == Some(i),
{
    let chosen = choose|k: int| is_first_entry(clients, client, k);
    assert(is_first_entry(clients, client, chosen));
    if chosen < i {
        assert(clients[chosen].0 != client);
    }
    if i < chosen {
        assert(clients[i].0 != client);
    }
}

/// Without the address there is no entry.
pub proof fn lemma_no_entry(clients: Seq<(ClientAddr, ClientAttempts)>, client: ClientAddr)
    requires
        forall|j: int| 0 <= j < clients.len() ==> (#[trigger] clients[j]).0 != client,
    ensures
        entry_of(clients, client) is None,
{
}

/// A filtered table has still one entry a client.
pub proof fn lemma_filter_entries(
    clients: Seq<(ClientAddr, ClientAttempts)>,
    keep: spec_fn((ClientAddr, ClientAttempts)) -> bool,
)
    requires
        one_entry_each(clients),
    ensures
        one_entry_each(clients.filter(keep)),
    decreases clients.len(),
{
    reveal(Seq::filter);
    if clients.len() > 0 {
        let rest = clients.drop_last();
        assert(one_entry_each(rest));
        lemma_filter_entries(rest, keep);
        sequences::lemma_filtered(rest, keep);
        let kept = clients.filter(keep);
        assert forall|i: int, j: int| 0 <= i < j < kept.len() implies (#[trigger] kept[i]).0 != (
        #[trigger] kept[j]).0 by {
            assert(kept[i] == rest.filter(keep)[i]);
            if j < rest.filter(keep).len() {
                assert(kept[j] == rest.filter(keep)[j]);
            } else {
                let k = choose|k: int| 0 <= k < rest.len() && rest[k] == kept[i];
                assert(clients[k] == kept[i]);
                assert(kept[j] == clients[clients.len() - 1]);
            }
        }
    }
}

/// There is exactly one oldest entry.
pub proof fn lemma_oldest(clients: Seq<(ClientAddr, ClientAttempts)>, i: int)
    requires
        is_oldest(clients, i),
    ensures
        (choose|k: int| is_oldest(clients, k)) == i,
{
    let chosen = choose|k: int| is_oldest(clients, k);
    assert(is_oldest(clients, chosen));
    assert(clients[i].1.last_failure_at <= clients[chosen].1.last_failure_at);
    assert(clients[chosen].1.last_failure_at <= clients[i].1.last_failure_at);
}

/// A table that is not empty has an oldest entry.
pub proof fn lemma_oldest_exists(clients: Seq<(ClientAddr, ClientAttempts)>) -> (i: int)
    requires
        clients.len() > 0,
    ensures
        is_oldest(clients, i),
    decreases clients.len(),
{
    if clients.len() == 1 {
        0
    } else {
        let rest = clients.drop_last();
        let k = lemma_oldest_exists(rest);
        assert(clients[k] == rest[k]);
        assert forall|j: int| 0 <= j < rest.len() implies clients[k].1.last_failure_at <= (
        #[trigger] clients[j]).1.last_failure_at by {
            assert(rest[j] == clients[j]);
        }
        assert forall|j: int| 0 <= j < k implies clients[k].1.last_failure_at < (
        #[trigger] clients[j]).1.last_failure_at by {
            assert(rest[j] == clients[j]);
        }
        if clients[k].1.last_failure_at <= clients.last().1.last_failure_at {
            k
        } else {
            clients.len() - 1
        }
    }
}

/// Making room leaves room, and one entry a client.
pub proof fn lemma_with_room(clients: Seq<(ClientAddr, ClientAttempts)>)
    ensures
        with_room(clients).len() < MAX_TRACKED_CLIENTS,
        with_room(clients).len() <= clients.len(),
        clients.len() < MAX_TRACKED_CLIENTS ==> with_room(clients) == clients,
        one_entry_each(clients) ==> one_entry_each(with_room(clients)),
    decreases clients.len(),
{
    if clients.len() >= MAX_TRACKED_CLIENTS {
        let i = lemma_oldest_exists(clients);
        lemma_oldest(clients, i);
        clients.remove_ensures(i);
        lemma_with_room(clients.remove(i));
    }
}

/// The backoff is between its base and its maximum.
pub proof fn lemma_backoff_bounds(failures: u32)
    requires
        failures >= LOCKOUT_AFTER_FAILURES,
    ensures
        LOCKOUT_BASE_SECONDS <= backoff_seconds(failures) <= LOCKOUT_MAX_SECONDS,
{
    vstd::arithmetic::power2::lemma2_to64();
}

/// One more failure keeps the rate limit well-formed.
pub proof fn lemma_failure_keeps_wf(limit: RateLimitView, client: ClientAddr, now: u64)
    requires
        limit.wf(),
    ensures
        after_failure(limit, client, now).wf(),
{
    let fresh = limit.clients.filter(is_fresh(now));
    sequences::lemma_filtered(limit.clients, is_fresh(now));
    lemma_filter_entries(limit.clients, is_fresh(now));
    lemma_with_room(fresh);
    let kept = with_room(fresh);
    if entry_of(kept, client) is None {
        assert forall|j: int| 0 <= j < kept.len() implies (#[trigger] kept[j]).0 != client by {
            if kept[j].0 == client {
                lemma_first_entry_exists(kept, client, j);
            }
        }
    } else {
        assert(is_first_entry(kept, client, entry_of(kept, client)->0));
    }
}

/// Where an address occurs, it has a first index.
pub proof fn lemma_first_entry_exists(
    clients: Seq<(ClientAddr, ClientAttempts)>,
    client: ClientAddr,
    at: int,
)
    requires
        0 <= at < clients.len(),
        clients[at].0 == client,
    ensures
        exists|i: int| is_first_entry(clients, client, i),
    decreases at,
{
    if exists|j: int| 0 <= j < at && (#[trigger] clients[j]).0 == client {
        let j = choose|j: int| 0 <= j < at && (#[trigger] clients[j]).0 == client;
        lemma_first_entry_exists(clients, client, j);
    } else {
        assert(is_first_entry(clients, client, at));
    }
}

/// Forgetting a client keeps the rate limit well-formed.
pub proof fn lemma_clearing_keeps_wf(limit: RateLimitView, client: ClientAddr)
    requires
        limit.wf(),
    ensures
        after_clearing(limit, client).wf(),
{
    sequences::lemma_filtered(limit.clients, is_other(client));
    lemma_filter_entries(limit.clients, is_other(client));
}

// ---------------------------------------------------------------------------
// The operations
// ---------------------------------------------------------------------------

impl RateLimitState {
    /// No failures yet.
    pub fn new() -> (limit: Self)
        ensures
            limit@.wf(),
            limit@ == (RateLimitView {
                clients: Seq::empty(),
                global_failures: 0,
                global_window_started_at: None,
                global_locked_until: None,
            }),
    {
        RateLimitState {
            clients: Vec::new(),
            global_failures: 0,
            global_window_started_at: None,
            global_locked_until: None,
        }
    }
}

/// The index of a client's entry.
fn find_entry(clients: &Vec<(ClientAddr, ClientAttempts)>, client: ClientAddr) -> (index: Option<usize>)
    ensures
        match index {
            Some(i) => entry_of(clients@, client) == Some(i as int) && i < clients.len()
                && is_first_entry(clients@, client, i as int),
            None => entry_of(clients@, client) is None,
        },
{
    let mut i: usize = 0;
    while i < clients.len()
        invariant
            i <= clients.len(),
            forall|j: int| 0 <= j < i ==> (#[trigger] clients@[j]).0 != client,
        decreases clients.len() - i,
    {
        if clients[i].0 == client {
            proof {
                lemma_entry_of(clients@, client, i as int);
            }
            return Some(i);
        }
        i = i + 1;
    }
    proof {
        lemma_no_entry(clients@, client);
    }
    None
}

/// Refuses a login while everyone, or this client, is locked out.
pub fn check_lockout(limit: &mut RateLimitState, client: ClientAddr, now: u64) -> (result: Result<
    (),
    AuthFailure,
>)
    ensures
        final(limit)@ == after_check(old(limit)@, now),
        match locked_for(old(limit)@, client, now) {
            Some(seconds) => result == Err::<(), AuthFailure>(
                AuthFailure::Locked { retry_after_seconds: seconds },
            ),
            None => result is Ok,
        },
{
    if let Some(until) = limit.global_locked_until {
        if now < until {
            return Err(
                AuthFailure::Locked { retry_after_seconds: remaining_seconds(until, now) },
            );
        }
        limit.global_locked_until = None;
    }
    if let Some(i) = find_entry(&limit.clients, client) {
        if let Some(until) = limit.clients[i].1.locked_until {
            if now < until {
                return Err(
                    AuthFailure::Locked { retry_after_seconds: remaining_seconds(until, now) },
                );
            }
        }
    }
    Ok(())
}

/// Whether an entry is still worth keeping.
fn entry_is_fresh(entry: &(ClientAddr, ClientAttempts), now: u64) -> (fresh: bool)
    ensures
        fresh == is_fresh(now)(*entry),
{
    let locked: bool = match entry.1.locked_until {
        Some(until) => now < until,
        None => false,
    };
    locked || within(now, entry.1.last_failure_at, ATTEMPT_RETENTION_SECONDS)
}

/// The index of the entry whose last failure is the oldest.
fn oldest_entry(clients: &Vec<(ClientAddr, ClientAttempts)>) -> (index: usize)
    requires
        clients.len() > 0,
    ensures
        is_oldest(clients@, index as int),
{
    let mut oldest: usize = 0;
    let mut i: usize = 1;
    while i < clients.len()
        invariant
            oldest < i <= clients.len(),
            forall|j: int|
                0 <= j < i ==> clients@[oldest as int].1.last_failure_at <= (
                #[trigger] clients@[j]).1.last_failure_at,
            forall|j: int|
                0 <= j < oldest ==> clients@[oldest as int].1.last_failure_at < (
                #[trigger] clients@[j]).1.last_failure_at,
        decreases clients.len() - i,
    {
        if clients[i].1.last_failure_at < clients[oldest].1.last_failure_at {
            oldest = i;
        }
        i = i + 1;
    }
    oldest
}

/// Forgets the clients that have been quiet, and then the oldest until there is room for one more.
pub fn evict_stale_attempts(limit: &mut RateLimitState, now: u64)
    ensures
        final(limit)@ == (RateLimitView {
            clients: after_eviction(old(limit)@.clients, now),
            ..old(limit)@
        }),
{
    let ghost before = limit.clients@;
    let mut kept: Vec<(ClientAddr, ClientAttempts)> = Vec::new();
    let mut i: usize = 0;
    assert(before.take(0).filter(is_fresh(now)) =~= Seq::empty()) by {
        reveal(Seq::filter);
    }
    while i < limit.clients.len()
        invariant
            limit@ == old(limit)@,
            before == limit.clients@,
            i <= limit.clients.len(),
            kept@ == before.take(i as int).filter(is_fresh(now)),
        decreases limit.clients.len() - i,
    {
        proof {
            sequences::lemma_filter_step(before, is_fresh(now), i as int);
        }
        if entry_is_fresh(&limit.clients[i], now) {
            kept.push(limit.clients[i]);
        }
        i = i + 1;
    }
    assert(before.take(i as int) =~= before);
    while kept.len() >= MAX_TRACKED_CLIENTS
        invariant
            with_room(kept@) == after_eviction(before, now),
        decreases kept.len(),
    {
        let oldest: usize = oldest_entry(&kept);
        proof {
            lemma_oldest(kept@, oldest as int);
        }
        let ghost full = kept@;
        let _removed: (ClientAddr, ClientAttempts) = kept.remove(oldest);
        assert(kept@ =~= full.remove(oldest as int));
    }
    limit.clients = kept;
}

/// The lockout in seconds that the `failures`-th consecutive failure brings.
fn backoff(failures: u32) -> (seconds: u64)
    requires
        failures >= LOCKOUT_AFTER_FAILURES,
    ensures
        seconds == backoff_seconds(failures),
        LOCKOUT_BASE_SECONDS <= seconds <= LOCKOUT_MAX_SECONDS,
{
    let past: u32 = failures - LOCKOUT_AFTER_FAILURES;
    let steps: u32 = if past < 16 {
        past
    } else {
        16
    };
    proof {
        vstd::arithmetic::power2::lemma2_to64();
        vstd::bits::lemma_u64_shl_is_mul(1, steps as u64);
        lemma_backoff_bounds(failures);
    }
    let seconds: u64 = LOCKOUT_BASE_SECONDS * (1u64 << (steps as u64));
    if seconds < LOCKOUT_MAX_SECONDS {
        seconds
    } else {
        LOCKOUT_MAX_SECONDS
    }
}

/// Counts one failure of `client`, and tells the lockout in seconds that it brings.
pub fn record_failure(limit: &mut RateLimitState, client: ClientAddr, now: u64) -> (lockout: Option<
    u64,
>)
    requires
        now <= LAST_MOMENT,
    ensures
        final(limit)@ == after_failure(old(limit)@, client, now),
        lockout == failure_lockout(old(limit)@, client, now),
        old(limit)@.wf() ==> final(limit)@.wf(),
{
    let ghost before = limit@;
    let mut locked_for_seconds: Option<u64> = None;
    let open: bool = match limit.global_window_started_at {
        Some(started) => within(now, started, GLOBAL_FAILURE_WINDOW_SECONDS),
        None => false,
    };
    if open {
        limit.global_failures = limit.global_failures.saturating_add(1);
    } else {
        limit.global_window_started_at = Some(now);
        limit.global_failures = 1;
    }
    if limit.global_failures >= GLOBAL_FAILURE_LIMIT {
        limit.global_locked_until = Some(now + GLOBAL_LOCKOUT_SECONDS * NANOS_PER_SECOND);
        limit.global_failures = 0;
        limit.global_window_started_at = Some(now);
        locked_for_seconds = Some(GLOBAL_LOCKOUT_SECONDS);
    }
    assert(limit@ == count_globally(before, now));
    evict_stale_attempts(limit, now);
    let ghost kept = limit.clients@;
    let index: usize = match find_entry(&limit.clients, client) {
        Some(i) => i,
        None => {
            limit.clients.push(
                (client, ClientAttempts { failures: 0, locked_until: None, last_failure_at: now }),
            );
            limit.clients.len() - 1
        },
    };
    let mut attempts: ClientAttempts = limit.clients[index].1;
    attempts.failures = attempts.failures.saturating_add(1);
    attempts.last_failure_at = now;
    if attempts.failures >= LOCKOUT_AFTER_FAILURES {
        let seconds: u64 = backoff(attempts.failures);
        attempts.locked_until = Some(now + seconds * NANOS_PER_SECOND);
        locked_for_seconds = Some(seconds);
    }
    limit.clients.set(index, (client, attempts));
    proof {
        assert(limit.clients@ =~= count_client(kept, client, now));
        if before.wf() {
            lemma_failure_keeps_wf(before, client, now);
        }
    }
    locked_for_seconds
}

/// Forgets the failures of a client that has logged in.
pub fn clear_failures(limit: &mut RateLimitState, client: ClientAddr)
    ensures
        final(limit)@ == after_clearing(old(limit)@, client),
        old(limit)@.wf() ==> final(limit)@.wf(),
{
    let ghost before = limit.clients@;
    let mut kept: Vec<(ClientAddr, ClientAttempts)> = Vec::new();
    let mut i: usize = 0;
    assert(before.take(0).filter(is_other(client)) =~= Seq::empty()) by {
        reveal(Seq::filter);
    }
    while i < limit.clients.len()
        invariant
            limit@ == old(limit)@,
            before == limit.clients@,
            i <= limit.clients.len(),
            kept@ == before.take(i as int).filter(is_other(client)),
        decreases limit.clients.len() - i,
    {
        proof {
            sequences::lemma_filter_step(before, is_other(client), i as int);
        }
        if limit.clients[i].0 != client {
            kept.push(limit.clients[i]);
        }
        i = i + 1;
    }
    assert(before.take(i as int) =~= before);
    limit.clients = kept;
    proof {
        if old(limit)@.wf() {
            lemma_clearing_keeps_wf(old(limit)@, client);
        }
    }
}

} // verus!

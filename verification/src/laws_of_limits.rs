//! Laws of the rate limit: who is kept out and for how long, what a failure leaves behind, and
//! what is forgotten, in terms of the records and of moments alone.

use vstd::prelude::*;

use crate::failure::ClientAddr;
use crate::laws;
use crate::rate_limit::{self, ClientAttempts, RateLimitView};
use crate::sequences;

verus! {

/// Whether each client has at most one record.
pub open spec fn one_record_each(clients: Seq<(ClientAddr, ClientAttempts)>) -> bool {
    forall|i: int, j: int|
        0 <= i < j < clients.len() ==> (#[trigger] clients[i]).0 != (#[trigger] clients[j]).0
}

/// Whether a lockout that ends at this moment, if any, still runs at `now`.
pub open spec fn runs(locked_until: Option<u64>, now: u64) -> bool {
    locked_until matches Some(until) && now < until
}

/// The seconds that are told of a lockout that ends at `until`: the whole ones left, and at least
/// one.
pub open spec fn seconds_told(until: u64, now: u64) -> int {
    if until - now < 1_000_000_000 {
        1
    } else {
        (until - now) / 1_000_000_000
    }
}

/// The seconds for which this many failures in a row lock a client out.
pub open spec fn seconds_out(failures: u32) -> int {
    if failures < 5 {
        0
    } else if failures == 5 {
        15
    } else if failures == 6 {
        30
    } else if failures == 7 {
        60
    } else if failures == 8 {
        120
    } else if failures == 9 {
        240
    } else if failures == 10 {
        480
    } else {
        900
    }
}

/// Whether a record is still kept at `now`, as far as its age goes: its lockout runs, or its last
/// failure is no more than an hour ago.
pub open spec fn still_counts(attempts: ClientAttempts, now: u64) -> bool {
    runs(attempts.locked_until, now) || now - attempts.last_failure_at <= 3_600_000_000_000
}

/// Whether no other record is older than the one at `i`, and the first such stands there.
pub open spec fn is_the_oldest(clients: Seq<(ClientAddr, ClientAttempts)>, i: int) -> bool {
    &&& 0 <= i < clients.len()
    &&& forall|j: int|
        0 <= j < clients.len() ==> {
            ||| clients[i].1.last_failure_at < (#[trigger] clients[j]).1.last_failure_at
            ||| clients[i].1.last_failure_at == clients[j].1.last_failure_at && i <= j
        }
}

/// What holds of every rate limit: it has records of no more than so many clients, one of each,
/// and its count over all stays below the limit.
pub proof fn law_a_rate_limit_is_bounded(limit: RateLimitView)
    ensures
        limit.wf() <==> {
            &&& limit.clients.len() <= 1024
            &&& one_record_each(limit.clients)
            &&& limit.global_failures < 100
        },
{
}

/// A client is kept out exactly while a lockout of everyone runs or its own does, and is told the
/// whole seconds that are left of it, and at least one.
pub proof fn law_who_is_kept_out(limit: RateLimitView, client: ClientAddr, now: u64)
    requires
        one_record_each(limit.clients),
    ensures
        rate_limit::locked_for(limit, client, now) is Some <==> {
            ||| runs(limit.global_locked_until, now)
            ||| exists|i: int|
                0 <= i < limit.clients.len() && (#[trigger] limit.clients[i]).0 == client && runs(
                    limit.clients[i].1.locked_until,
                    now,
                )
        },
        limit.global_locked_until matches Some(until) && now < until ==> rate_limit::locked_for(
            limit,
            client,
            now,
        ) == Some(seconds_told(limit.global_locked_until->0, now) as u64),
        !runs(limit.global_locked_until, now) ==> forall|i: int|
            0 <= i < limit.clients.len() && (#[trigger] limit.clients[i]).0 == client && runs(
                limit.clients[i].1.locked_until,
                now,
            ) ==> rate_limit::locked_for(limit, client, now) == Some(
                seconds_told(limit.clients[i].1.locked_until->0, now) as u64,
            ),
{
    laws::lemma_entry_has_address(limit.clients, client);
    assert forall|i: int|
        0 <= i < limit.clients.len() && (
        #[trigger] limit.clients[i]).0 == client implies rate_limit::entry_of(
        limit.clients,
        client,
    ) == Some(i) by {
        laws::lemma_record_at(limit.clients, client, i);
    }
    if let Some(until) = limit.global_locked_until {
        if now < until && until - now < 1_000_000_000 {
            assert((until - now) / 1_000_000_000 == 0);
        }
    }
}

/// A lockout runs out: a client is not kept out once no lockout of everyone runs and its own, if it
/// has one, has ended, however many failures its record holds.
pub proof fn law_a_lockout_runs_out(limit: RateLimitView, client: ClientAddr, now: u64)
    requires
        limit.global_locked_until matches Some(until) ==> until <= now,
        forall|i: int|
            0 <= i < limit.clients.len() && (#[trigger] limit.clients[i]).0 == client ==> (
            limit.clients[i].1.locked_until matches Some(until) ==> until <= now),
    ensures
        rate_limit::locked_for(limit, client, now) is None,
        rate_limit::after_check(limit, now).global_locked_until is None,
{
    laws::lemma_entry_has_address(limit.clients, client);
}

/// Looking whether a client is kept out forgets a lockout of everyone that has ended, and changes
/// nothing else; who is kept out stays the same, for every client.
pub proof fn law_looking_changes_only_what_has_ended(
    limit: RateLimitView,
    client: ClientAddr,
    now: u64,
)
    ensures
        rate_limit::after_check(limit, now).clients == limit.clients,
        rate_limit::after_check(limit, now).global_failures == limit.global_failures,
        rate_limit::after_check(limit, now).global_window_started_at
            == limit.global_window_started_at,
        rate_limit::after_check(limit, now).global_locked_until == if runs(
            limit.global_locked_until,
            now,
        ) {
            limit.global_locked_until
        } else {
            None
        },
        rate_limit::locked_for(rate_limit::after_check(limit, now), client, now)
            == rate_limit::locked_for(limit, client, now),
{
}

/// The lockouts in seconds: from the fifth failure on fifteen seconds, doubled with every further
/// one, and never more than fifteen minutes.
pub proof fn law_lockouts_in_seconds(failures: u32)
    requires
        failures >= 5,
    ensures
        rate_limit::backoff_seconds(failures) == seconds_out(failures),
{
    vstd::arithmetic::power2::lemma2_to64();
    if failures > 11 {
        let steps: nat = if failures - 5 < 16 {
            (failures - 5) as nat
        } else {
            16
        };
        vstd::arithmetic::power2::lemma_pow2_strictly_increases(6, steps);
    }
}

/// What a failure leaves of the records: those that still count, in their order, without the oldest
/// of them where there would be no room for one more.
pub proof fn law_what_is_forgotten(clients: Seq<(ClientAddr, ClientAttempts)>, now: u64)
    requires
        clients.len() <= 1024,
    ensures
        ({
            let counting = clients.filter(
                |entry: (ClientAddr, ClientAttempts)| still_counts(entry.1, now),
            );
            &&& counting.len() < 1024 ==> rate_limit::after_eviction(clients, now) == counting
            &&& counting.len() == 1024 ==> exists|i: int| #[trigger]
                is_the_oldest(counting, i) && rate_limit::after_eviction(clients, now)
                    == counting.remove(i)
            &&& counting.len() <= 1024
        }),
{
    let raw = |entry: (ClientAddr, ClientAttempts)| still_counts(entry.1, now);
    assert(raw =~= rate_limit::is_fresh(now));
    let counting = clients.filter(raw);
    sequences::lemma_filtered(clients, raw);
    rate_limit::lemma_with_room(counting);
    if counting.len() == 1024 {
        let i = rate_limit::lemma_oldest_exists(counting);
        rate_limit::lemma_oldest(counting, i);
        counting.remove_ensures(i);
        rate_limit::lemma_with_room(counting.remove(i));
        assert(rate_limit::with_room(counting) == rate_limit::with_room(counting.remove(i)));
        assert forall|j: int| 0 <= j < counting.len() implies {
            ||| counting[i].1.last_failure_at < (#[trigger] counting[j]).1.last_failure_at
            ||| counting[i].1.last_failure_at == counting[j].1.last_failure_at && i <= j
        } by {}
        assert(is_the_oldest(counting, i));
    }
}

/// A record that still counts outlasts a failure, and its count with it, but for the oldest of a
/// full table; every other record is gone.
pub proof fn law_who_is_forgotten(
    clients: Seq<(ClientAddr, ClientAttempts)>,
    now: u64,
    i: int,
)
    requires
        clients.len() <= 1024,
        one_record_each(clients),
        0 <= i < clients.len(),
    ensures
        !still_counts(clients[i].1, now) ==> !rate_limit::after_eviction(clients, now).contains(
            clients[i],
        ),
        still_counts(clients[i].1, now) && clients.len() < 1024 ==> rate_limit::after_eviction(
            clients,
            now,
        ).contains(clients[i]),
        still_counts(clients[i].1, now) && !rate_limit::after_eviction(clients, now).contains(
            clients[i],
        ) ==> forall|j: int|
            0 <= j < clients.len() ==> clients[i].1.last_failure_at <= (
            #[trigger] clients[j]).1.last_failure_at && still_counts(clients[j].1, now),
{
    law_what_is_forgotten(clients, now);
    let raw = |entry: (ClientAddr, ClientAttempts)| still_counts(entry.1, now);
    let counting = clients.filter(raw);
    let left = rate_limit::after_eviction(clients, now);
    sequences::lemma_filtered(clients, raw);
    if counting.len() == 1024 {
        lemma_all_kept(clients, raw);
        let k = choose|k: int| #[trigger]
            is_the_oldest(counting, k) && left == counting.remove(k);
        assert(counting == clients);
        if k != i {
            let at = if i < k {
                i
            } else {
                i - 1
            };
            assert(left[at] == clients[i]);
        }
        assert forall|j: int| 0 <= j < clients.len() implies still_counts(
            (#[trigger] clients[j]).1,
            now,
        ) by {
            assert(raw(counting[j]));
        }
        if !still_counts(clients[i].1, now) {
            assert(raw(counting[i]));
        }
    } else {
        if !still_counts(clients[i].1, now) && left.contains(clients[i]) {
            let at = choose|at: int| 0 <= at < left.len() && left[at] == clients[i];
            assert(raw(counting[at]));
        }
        if still_counts(clients[i].1, now) {
            assert(raw(clients[i]));
        }
    }
}

/// Where as many are kept as there were, all are.
proof fn lemma_all_kept<A>(s: Seq<A>, keep: spec_fn(A) -> bool)
    requires
        s.filter(keep).len() == s.len(),
    ensures
        s.filter(keep) == s,
    decreases s.len(),
{
    reveal(Seq::filter);
    if s.len() > 0 {
        sequences::lemma_filtered(s.drop_last(), keep);
        lemma_all_kept(s.drop_last(), keep);
        assert(s.filter(keep) =~= s);
    } else {
        assert(s.filter(keep) =~= s);
    }
}

/// The record after one more failure at `now`: one failure more, the last at `now`, and from the
/// fifth on a lockout from `now` on.
pub open spec fn is_one_more(before: ClientAttempts, after: ClientAttempts, now: u64) -> bool {
    &&& after.failures == if before.failures == u32::MAX {
        u32::MAX as int
    } else {
        before.failures + 1
    }
    &&& after.last_failure_at == now
    &&& after.failures >= 5 ==> after.locked_until == Some(
        (now + seconds_out(after.failures) * 1_000_000_000) as u64,
    )
    &&& after.failures < 5 ==> after.locked_until == before.locked_until
}

/// A failure touches the record of its client alone: one that is still there counts one more, and
/// where there is none, one with a single failure and no lockout is added at the end.
pub proof fn law_a_failure_is_recorded(limit: RateLimitView, client: ClientAddr, now: u64)
    requires
        limit.clients.len() <= 1024,
        one_record_each(limit.clients),
    ensures
        ({
            let kept = rate_limit::after_eviction(limit.clients, now);
            let after = rate_limit::after_failure(limit, client, now).clients;
            let fresh = ClientAttempts { failures: 1, locked_until: None, last_failure_at: now };
            &&& one_record_each(kept)
            &&& one_record_each(after)
            &&& after.len() <= 1024
            &&& (exists|i: int| 0 <= i < kept.len() && (#[trigger] kept[i]).0 == client) ==> {
                &&& after.len() == kept.len()
                &&& forall|i: int|
                    0 <= i < kept.len() && (#[trigger] kept[i]).0 != client ==> after[i] == kept[i]
                &&& forall|i: int|
                    0 <= i < kept.len() && (#[trigger] kept[i]).0 == client ==> after[i].0 == client
                        && is_one_more(kept[i].1, after[i].1, now)
            }
            &&& (forall|i: int| 0 <= i < kept.len() ==> (#[trigger] kept[i]).0 != client) ==> after
                == kept.push((client, fresh))
        }),
{
    let kept = rate_limit::after_eviction(limit.clients, now);
    let fresh = limit.clients.filter(rate_limit::is_fresh(now));
    let after = rate_limit::after_failure(limit, client, now).clients;
    sequences::lemma_filtered(limit.clients, rate_limit::is_fresh(now));
    rate_limit::lemma_filter_entries(limit.clients, rate_limit::is_fresh(now));
    rate_limit::lemma_with_room(fresh);
    laws::lemma_entry_has_address(kept, client);
    assert forall|i: int| 0 <= i < kept.len() && (#[trigger] kept[i]).0 == client implies
        rate_limit::entry_of(kept, client) == Some(i) && is_one_more(kept[i].1, after[i].1, now) by {
        laws::lemma_record_at(kept, client, i);
        if after[i].1.failures >= 5 {
            law_lockouts_in_seconds(after[i].1.failures);
        }
    }
}

/// What a failure adds to the count over all clients: it starts anew where no window is open for
/// it, five minutes long; the hundredth failure in a window locks everyone out for a minute, and
/// the count starts again.
pub proof fn law_a_failure_counts_for_all(limit: RateLimitView, client: ClientAddr, now: u64)
    requires
        limit.global_failures < 100,
    ensures
        ({
            let after = rate_limit::after_failure(limit, client, now);
            let in_window = limit.global_window_started_at matches Some(started) && now - started
                <= 300_000_000_000;
            &&& in_window && limit.global_failures < 99 ==> {
                &&& after.global_failures == limit.global_failures + 1
                &&& after.global_window_started_at == limit.global_window_started_at
                &&& after.global_locked_until == limit.global_locked_until
            }
            &&& in_window && limit.global_failures == 99 ==> {
                &&& after.global_failures == 0
                &&& after.global_window_started_at == Some(now)
                &&& after.global_locked_until == Some((now + 60_000_000_000) as u64)
            }
            &&& !in_window ==> {
                &&& after.global_failures == 1
                &&& after.global_window_started_at == Some(now)
                &&& after.global_locked_until == limit.global_locked_until
            }
        }),
{
}

/// A failure is answered with the lockout that it brings: that of the client's record after it, or
/// else a minute where it is the hundredth in the window, or else none.
pub proof fn law_a_failure_tells_its_lockout(
    limit: RateLimitView,
    client: ClientAddr,
    now: u64,
    i: int,
)
    requires
        limit.clients.len() <= 1024,
        one_record_each(limit.clients),
        0 <= i < rate_limit::after_failure(limit, client, now).clients.len(),
        rate_limit::after_failure(limit, client, now).clients[i].0 == client,
    ensures
        ({
            let failures = rate_limit::after_failure(limit, client, now).clients[i].1.failures;
            let in_window = limit.global_window_started_at matches Some(started) && now - started
                <= 300_000_000_000;
            rate_limit::failure_lockout(limit, client, now) == if failures >= 5 {
                Some(seconds_out(failures) as u64)
            } else if in_window && limit.global_failures >= 99 {
                Some(60u64)
            } else {
                None
            }
        }),
{
    law_a_failure_is_recorded(limit, client, now);
    let kept = rate_limit::after_eviction(limit.clients, now);
    let after = rate_limit::after_failure(limit, client, now).clients;
    laws::lemma_entry_has_address(kept, client);
    laws::lemma_record_at(after, client, i);
    if let Some(k) = rate_limit::entry_of(kept, client) {
        assert(after[k].0 == client);
        laws::lemma_record_at(after, client, k);
    } else {
        assert(after[kept.len() as int].0 == client);
        laws::lemma_record_at(after, client, kept.len() as int);
    }
    if after[i].1.failures >= 5 {
        law_lockouts_in_seconds(after[i].1.failures);
    }
}

/// After a failure that brings a lockout the client is kept out until the seconds that it was told
/// have passed, and no longer, unless a lockout of everyone runs.
pub proof fn law_a_lockout_lasts_its_time(
    limit: RateLimitView,
    client: ClientAddr,
    now: u64,
    i: int,
    later: u64,
)
    requires
        limit.clients.len() <= 1024,
        one_record_each(limit.clients),
        now <= 0xffff_ffff_ffff_ffff - 900_000_000_000,
        0 <= i < rate_limit::after_failure(limit, client, now).clients.len(),
        rate_limit::after_failure(limit, client, now).clients[i].0 == client,
        rate_limit::after_failure(limit, client, now).clients[i].1.failures >= 5,
        !runs(rate_limit::after_failure(limit, client, now).global_locked_until, later),
    ensures
        rate_limit::locked_for(rate_limit::after_failure(limit, client, now), client, later) is Some
            <==> later < now + seconds_out(
            rate_limit::after_failure(limit, client, now).clients[i].1.failures,
        ) * 1_000_000_000,
{
    let after = rate_limit::after_failure(limit, client, now);
    law_a_failure_is_recorded(limit, client, now);
    let kept = rate_limit::after_eviction(limit.clients, now);
    laws::lemma_entry_has_address(kept, client);
    laws::lemma_record_at(after.clients, client, i);
    let at = match rate_limit::entry_of(kept, client) {
        Some(k) => k,
        None => kept.len() as int,
    };
    assert(after.clients[at].0 == client);
    laws::lemma_record_at(after.clients, client, at);
    assert(is_one_more(kept[i].1, after.clients[i].1, now));
    law_who_is_kept_out(after, client, later);
}

/// Forgetting the failures of a client takes its record away, and leaves the others, in their
/// order, and what concerns everyone as they are.
pub proof fn law_forgetting_is_of_one_client(limit: RateLimitView, client: ClientAddr)
    ensures
        ({
            let after = rate_limit::after_clearing(limit, client);
            &&& after.clients == limit.clients.filter(
                |entry: (ClientAddr, ClientAttempts)| entry.0 != client,
            )
            &&& forall|i: int|
                0 <= i < after.clients.len() ==> (#[trigger] after.clients[i]).0 != client
            &&& forall|i: int|
                0 <= i < limit.clients.len() && (#[trigger] limit.clients[i]).0 != client
                    ==> after.clients.contains(limit.clients[i])
            &&& after.global_failures == limit.global_failures
            &&& after.global_window_started_at == limit.global_window_started_at
            &&& after.global_locked_until == limit.global_locked_until
        }),
{
    let raw = |entry: (ClientAddr, ClientAttempts)| entry.0 != client;
    assert(raw =~= rate_limit::is_other(client));
    sequences::lemma_filtered(limit.clients, raw);
    let after = rate_limit::after_clearing(limit, client);
    assert forall|i: int| 0 <= i < after.clients.len() implies (#[trigger] after.clients[i]).0
        != client by {
        assert(raw(after.clients[i]));
    }
    assert forall|i: int|
        0 <= i < limit.clients.len() && (#[trigger] limit.clients[i]).0 != client implies
        after.clients.contains(limit.clients[i]) by {
        assert(raw(limit.clients[i]));
    }
}

} // verus!

//! What holds of the cache and of the scheduler over whole sequences of
//! calls and events.

use crate::cache::{CacheView, Liveness};
use crate::names::valid_function_name;
use crate::request::InvokeRequest;
use crate::scheduler::{cache_after, decision, run_decisions, Decision, SchedulerEvent, Settings};
use vstd::prelude::*;

verus! {

/// The cache after upserts of `requests`, oldest first.
pub open spec fn upsert_all<R>(cache: CacheView<R>, requests: Seq<InvokeRequest<R>>) -> CacheView<R>
    decreases requests.len(),
{
    if requests.len() == 0 {
        cache
    } else {
        upsert_all(cache, requests.drop_last()).upsert(requests.last())
    }
}

/// Whether every one of `requests` is for the function `name`.
pub open spec fn all_for<R>(requests: Seq<InvokeRequest<R>>, name: Seq<char>) -> bool {
    forall|i: int| 0 <= i < requests.len() ==> (#[trigger] requests[i]).function_name@ == name
}

/// Whether the cache can take up the function `name`: the name is well
/// formed, and an identifier is left where the function would need one.
pub open spec fn admissible<R>(cache: CacheView<R>, name: Seq<char>) -> bool {
    valid_function_name(name) && (cache.entries.contains_key(name) || cache.next_api_id < u64::MAX)
}

/// Upserts for one function queue every request behind those that were
/// there, in the order of the upserts, and leave the function started.
pub proof fn lemma_upserts_keep_order<R>(
    cache: CacheView<R>,
    requests: Seq<InvokeRequest<R>>,
    name: Seq<char>,
)
    requires
        admissible(cache, name),
        all_for(requests, name),
    ensures
        upsert_all(cache, requests).queue(name) == cache.queue(name) + requests,
        requests.len() > 0 ==> upsert_all(cache, requests).liveness(name) != Liveness::NotStarted,
        requests.len() > 0 ==> upsert_all(cache, requests).entries.contains_key(name),
        cache.entries.contains_key(name) ==> upsert_all(cache, requests).entries.contains_key(name),
    decreases requests.len(),
{
    if requests.len() == 0 {
        assert(cache.queue(name) + requests =~= cache.queue(name));
    } else {
        let earlier = requests.drop_last();
        lemma_upserts_keep_order(cache, earlier, name);
        let before = upsert_all(cache, earlier);
        assert(requests.last().function_name@ == name);
        if earlier.len() == 0 {
            assert(before == cache);
        }
        assert(before.queue(name).push(requests.last()) =~= cache.queue(name) + requests) by {
            assert(requests =~= earlier.push(requests.last()));
        }
        if !before.entries.contains_key(name) {
            assert(earlier.len() == 0);
            assert(seq![requests.last()] =~= Seq::<InvokeRequest<R>>::empty().push(
                requests.last(),
            ));
        }
    }
}

/// Of the upserts of `requests`, all for the function `name`, the one
/// that finds the function without a process answers with the name and a
/// fresh identifier, and every later one answers `None`: the first upsert
/// where the cache did not hold the function, and none where it did.
pub proof fn lemma_one_directive_per_start<R>(
    cache: CacheView<R>,
    requests: Seq<InvokeRequest<R>>,
    name: Seq<char>,
    i: int,
)
    requires
        admissible(cache, name),
        all_for(requests, name),
        0 <= i < requests.len(),
    ensures
        upsert_all(cache, requests.take(i)).upsert_outcome(requests[i].function_name@) == (if i == 0
            && !cache.entries.contains_key(name) {
            Ok::<Option<(Seq<char>, u64)>, crate::cache::CacheError>(
                Some((name, cache.next_api_id)),
            )
        } else {
            Ok(None)
        }),
{
    let earlier = requests.take(i);
    assert(all_for(earlier, name));
    lemma_upserts_keep_order(cache, earlier, name);
    assert(requests[i].function_name@ == name);
    if i == 0 {
        assert(upsert_all(cache, earlier) == cache);
    }
}

/// Right after a function's entry was cleaned, an upsert for the function
/// answers with the name and a fresh identifier again.
pub proof fn lemma_clean_allows_restart<R>(cache: CacheView<R>, name: Seq<char>)
    requires
        valid_function_name(name),
        cache.next_api_id < u64::MAX,
    ensures
        cache.clean(name).liveness(name) == Liveness::NotStarted,
        cache.clean(name).upsert_outcome(name) == Ok::<
            Option<(Seq<char>, u64)>,
            crate::cache::CacheError,
        >(Some((name, cache.next_api_id))),
{
}

/// Cleaning a function that the cache does not hold changes nothing, and
/// cleaning twice is cleaning once.
pub proof fn lemma_clean_is_idempotent<R>(cache: CacheView<R>, name: Seq<char>)
    ensures
        !cache.entries.contains_key(name) ==> cache.clean(name) == cache,
        cache.clean(name).clean(name) == cache.clean(name),
{
    if !cache.entries.contains_key(name) {
        assert(cache.entries.remove(name) =~= cache.entries);
    }
    assert(cache.entries.remove(name).remove(name) =~= cache.entries.remove(name));
}

/// What is done for one function leaves every other function's entry as
/// it was.
pub proof fn lemma_other_functions_untouched<R>(
    cache: CacheView<R>,
    request: InvokeRequest<R>,
    name: Seq<char>,
    other: Seq<char>,
)
    requires
        name != other,
        request.function_name@ == name,
    ensures
        cache.upsert(request).entries.contains_key(other) == cache.entries.contains_key(other),
        cache.upsert(request).queue(other) == cache.queue(other),
        cache.upsert(request).liveness(other) == cache.liveness(other),
        cache.clean(name).entries.contains_key(other) == cache.entries.contains_key(other),
        cache.clean(name).queue(other) == cache.queue(other),
        cache.clean(name).liveness(other) == cache.liveness(other),
        cache.pop(name).queue(other) == cache.queue(other),
        cache.pop(name).liveness(other) == cache.liveness(other),
        cache.mark_running(name).queue(other) == cache.queue(other),
        cache.mark_running(name).liveness(other) == cache.liveness(other),
{
}

/// Every change keeps the cache's invariant, and the identifier that the
/// next new function gets belongs to no function that the cache holds.
pub proof fn lemma_invariant_kept<R>(cache: CacheView<R>, request: InvokeRequest<R>, name: Seq<char>)
    requires
        cache.inv(),
    ensures
        cache.upsert(request).inv(),
        cache.clean(name).inv(),
        cache.pop(name).inv(),
        cache.mark_running(name).inv(),
        forall|n: Seq<char>| #[trigger]
            cache.entries.contains_key(n) ==> cache.entries[n].api_id != cache.next_api_id,
{
    let upserted = cache.upsert(request);
    assert(upserted.inv()) by {
        let target = request.function_name@;
        match cache.upsert_outcome(target) {
            Err(_) => {},
            Ok(_) => {
                assert(upserted.entries.dom() =~= cache.entries.dom().insert(target));
                assert forall|n: Seq<char>| #[trigger]
                    upserted.entries.contains_key(n) implies valid_function_name(n)
                    && upserted.entries[n].api_id < upserted.next_api_id by {
                    if n != target {
                        assert(cache.entries.contains_key(n));
                    }
                }
                assert forall|n: Seq<char>, m: Seq<char>|
                    #![trigger upserted.entries[n], upserted.entries[m]]
                    upserted.entries.contains_key(n) && upserted.entries.contains_key(m)
                        && upserted.entries[n].api_id
                        == upserted.entries[m].api_id implies n == m by {
                    if n != target {
                        assert(cache.entries.contains_key(n));
                    }
                    if m != target {
                        assert(cache.entries.contains_key(m));
                    }
                    if n != target && m != target {
                        assert(cache.entries[n].api_id == cache.entries[m].api_id);
                    }
                    if cache.entries.contains_key(target) {
                        assert(upserted.entries[target].api_id == cache.entries[target].api_id);
                    }
                }
            },
        }
    }
    let cleaned = cache.clean(name);
    assert(cleaned.inv()) by {
        assert(cleaned.entries.dom() =~= cache.entries.dom().remove(name));
        assert forall|n: Seq<char>| #[trigger]
            cleaned.entries.contains_key(n) implies valid_function_name(n)
            && cleaned.entries[n].api_id < cleaned.next_api_id by {
            assert(cache.entries.contains_key(n));
        }
        assert forall|n: Seq<char>, m: Seq<char>|
            #![trigger cleaned.entries[n], cleaned.entries[m]]
            cleaned.entries.contains_key(n) && cleaned.entries.contains_key(m)
                && cleaned.entries[n].api_id == cleaned.entries[m].api_id implies n == m by {
            assert(cache.entries.contains_key(n) && cache.entries.contains_key(m));
            assert(cache.entries[n].api_id == cache.entries[m].api_id);
        }
    }
    lemma_same_identifiers(cache, cache.pop(name));
    lemma_same_identifiers(cache, cache.mark_running(name));
}

/// A cache that holds the same functions under the same identifiers as
/// one that keeps the invariant keeps it too.
proof fn lemma_same_identifiers<R>(cache: CacheView<R>, changed: CacheView<R>)
    requires
        cache.inv(),
        changed.next_api_id == cache.next_api_id,
        changed.entries.dom() =~= cache.entries.dom(),
        forall|n: Seq<char>| #[trigger]
            cache.entries.contains_key(n) ==> changed.entries[n].api_id == cache.entries[n].api_id,
    ensures
        changed.inv(),
{
    assert forall|n: Seq<char>| #[trigger]
        changed.entries.contains_key(n) implies valid_function_name(n) && changed.entries[n].api_id
        < changed.next_api_id by {
        assert(cache.entries.contains_key(n));
    }
    assert forall|n: Seq<char>, m: Seq<char>|
        #![trigger changed.entries[n], changed.entries[m]]
        changed.entries.contains_key(n) && changed.entries.contains_key(m)
            && changed.entries[n].api_id == changed.entries[m].api_id implies n == m by {
        assert(cache.entries.contains_key(n) && cache.entries.contains_key(m));
        assert(cache.entries[n].api_id == cache.entries[m].api_id);
    }
}

/// How many of `decisions` start a runner for the function `name`.
pub open spec fn spawns_of<R>(decisions: Seq<Decision<R>>, name: Seq<char>) -> nat
    decreases decisions.len(),
{
    if decisions.len() == 0 {
        0
    } else {
        let first: nat = if decisions[0] matches Decision::Spawn(runner) && runner.name == name {
            1
        } else {
            0
        };
        first + spawns_of(decisions.drop_first(), name)
    }
}

/// Whether one of `events` asks for the entry of the function `name` to
/// be cleaned.
pub open spec fn collects<R>(events: Seq<SchedulerEvent<R>>, name: Seq<char>) -> bool {
    exists|i: int|
        0 <= i < events.len() && (#[trigger] events[i] matches SchedulerEvent::GarbageCollect(n)
            && n@ == name)
}

/// While the cache holds a function and nothing asks for its entry to be
/// cleaned, no runner is started for it.
pub proof fn lemma_no_second_process<R>(
    cache: CacheView<R>,
    settings: Settings,
    events: Seq<SchedulerEvent<R>>,
    name: Seq<char>,
)
    requires
        cache.entries.contains_key(name),
        !collects(events, name),
    ensures
        spawns_of(run_decisions(cache, settings, events), name) == 0,
    decreases events.len(),
{
    if events.len() > 0 {
        let first = decision(cache, settings, events[0]);
        assert(!(first matches Decision::Spawn(runner) && runner.name == name));
        if events[0] is ShutdownRequested {
            let decisions = seq![first];
            assert(decisions.drop_first() =~= Seq::empty());
            assert(spawns_of(decisions.drop_first(), name) == 0);
        } else {
            let rest = events.drop_first();
            let next = cache_after(cache, events[0]);
            assert(!collects(rest, name)) by {
                if collects(rest, name) {
                    let i = choose|i: int|
                        0 <= i < rest.len() && (#[trigger] rest[i] matches SchedulerEvent::GarbageCollect(
                            n,
                        ) && n@ == name);
                    assert(events[i + 1] == rest[i]);
                }
            }
            assert(next.entries.contains_key(name)) by {
                assert(events[0] == events[0]);
            }
            lemma_no_second_process(next, settings, rest, name);
            let later = run_decisions(next, settings, rest);
            let decisions = seq![first] + later;
            assert(decisions[0] == first);
            assert(decisions.drop_first() =~= later);
        }
    }
}

/// As long as nothing asks for a function's entry to be cleaned, at most
/// one runner is started for the function, however many requests come.
pub proof fn lemma_at_most_one_process<R>(
    cache: CacheView<R>,
    settings: Settings,
    events: Seq<SchedulerEvent<R>>,
    name: Seq<char>,
)
    requires
        !collects(events, name),
    ensures
        spawns_of(run_decisions(cache, settings, events), name) <= 1,
    decreases events.len(),
{
    if events.len() > 0 {
        let first = decision(cache, settings, events[0]);
        if events[0] is ShutdownRequested {
            let decisions = seq![first];
            assert(decisions.drop_first() =~= Seq::empty());
            assert(spawns_of(decisions.drop_first(), name) == 0);
        } else {
            let rest = events.drop_first();
            let next = cache_after(cache, events[0]);
            assert(!collects(rest, name)) by {
                if collects(rest, name) {
                    let i = choose|i: int|
                        0 <= i < rest.len() && (#[trigger] rest[i] matches SchedulerEvent::GarbageCollect(
                            n,
                        ) && n@ == name);
                    assert(events[i + 1] == rest[i]);
                }
            }
            if first matches Decision::Spawn(runner) && runner.name == name {
                assert(next.entries.contains_key(name));
                lemma_no_second_process(next, settings, rest, name);
            } else {
                lemma_at_most_one_process(next, settings, rest, name);
            }
            let later = run_decisions(next, settings, rest);
            let decisions = seq![first] + later;
            assert(decisions[0] == first);
            assert(decisions.drop_first() =~= later);
        }
    }
}

} // verus!

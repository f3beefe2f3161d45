//! The request accounting of [`crate::metrics`] with any number of requests open
//! at once, to any of the models.

use vstd::prelude::*;

use crate::accounting;
use crate::accounting::{End, Mark};
use crate::metrics;
use crate::metrics::{ModelMetrics, RegistryView, TimerView};

verus! {

/// What may happen to the accounting: a request names its model, or the request
/// that was begun as number `request` is marked or ends.
pub enum Event {
    Begin { model_name: Seq<char>, now: u128 },
    Mark { request: int, mark: Mark },
    End { request: int, end: End },
}

/// A request that was begun: its timer, whether its backend was reported to have
/// run, and whether it has ended.
pub struct Request {
    pub timer: TimerView,
    pub executed: bool,
    pub ended: bool,
}

/// The registry, and all requests that were ever begun on it.
pub struct Ledger {
    pub registry: RegistryView,
    pub requests: Seq<Request>,
}

impl Ledger {
    /// A new registry of the named models.
    pub open spec fn new(names: Seq<Seq<char>>) -> Ledger {
        Ledger {
            registry: Seq::new(names.len(), |i: int| (names[i], ModelMetrics::zero())),
            requests: Seq::empty(),
        }
    }

    /// Whether a request is open.
    pub open spec fn is_open(self, request: int) -> bool {
        0 <= request < self.requests.len() && !self.requests[request].ended
    }

    /// The ledger after an event. Nothing is marked on a request that is not open,
    /// and none ends twice.
    pub open spec fn after(self, event: Event) -> Ledger {
        match event {
            Event::Begin { model_name, now } => match metrics::last_place(
                self.registry,
                model_name,
            ) {
                None => self,
                Some(i) => Ledger {
                    registry: metrics::with_counters(
                        self.registry,
                        i,
                        self.registry[i].1.with_pending(),
                    ),
                    requests: self.requests.push(
                        Request {
                            timer: metrics::opened(i, now),
                            executed: false,
                            ended: false,
                        },
                    ),
                },
            },
            Event::Mark { request, mark } => if self.is_open(request) {
                let before = self.requests[request];
                let i = before.timer.model;
                Ledger {
                    registry: metrics::with_counters(
                        self.registry,
                        i,
                        accounting::counted(self.registry[i].1, before.timer, mark),
                    ),
                    requests: self.requests.update(
                        request,
                        Request {
                            timer: accounting::marked(before.timer, mark),
                            executed: before.executed || mark is Executed,
                            ended: false,
                        },
                    ),
                }
            } else {
                self
            },
            Event::End { request, end } => if self.is_open(request) {
                let before = self.requests[request];
                let i = before.timer.model;
                Ledger {
                    registry: metrics::with_counters(
                        self.registry,
                        i,
                        accounting::ended(self.registry[i].1, before.timer, end),
                    ),
                    requests: self.requests.update(request, Request { ended: true, ..before }),
                }
            } else {
                self
            },
        }
    }
}

/// The ledger of the named models after any events.
pub open spec fn after_events(names: Seq<Seq<char>>, events: Seq<Event>) -> Ledger
    decreases events.len(),
{
    if events.len() == 0 {
        Ledger::new(names)
    } else {
        after_events(names, events.drop_last()).after(events.last())
    }
}

/// How many requests are as wanted.
pub open spec fn tally(requests: Seq<Request>, wanted: spec_fn(Request) -> bool) -> nat
    decreases requests.len(),
{
    if requests.len() == 0 {
        0
    } else {
        tally(requests.drop_last(), wanted) + if wanted(requests.last()) {
            1nat
        } else {
            0nat
        }
    }
}

/// A request to the model at `i` that has ended.
pub open spec fn ended_at(i: int) -> spec_fn(Request) -> bool {
    |r: Request| r.timer.model == i && r.ended
}

/// A request to the model at `i` that is open and whose backend was never reported
/// to have run.
pub open spec fn waiting_at(i: int) -> spec_fn(Request) -> bool {
    |r: Request| r.timer.model == i && !r.ended && !r.executed
}

/// All requests that a model's counters tell of: its successes, and its failures
/// for every reason.
pub open spec fn told(m: ModelMetrics) -> int {
    m.request_success + m.rejected + m.canceled + m.backend + m.other
}

proof fn lemma_tally_push(requests: Seq<Request>, r: Request, wanted: spec_fn(Request) -> bool)
    ensures
        tally(requests.push(r), wanted) == tally(requests, wanted) + if wanted(r) {
            1nat
        } else {
            0nat
        },
{
    assert(requests.push(r).drop_last() =~= requests);
}

proof fn lemma_tally_update(
    requests: Seq<Request>,
    k: int,
    r: Request,
    wanted: spec_fn(Request) -> bool,
)
    requires
        0 <= k < requests.len(),
    ensures
        tally(requests.update(k, r), wanted) + (if wanted(requests[k]) {
            1nat
        } else {
            0nat
        }) == tally(requests, wanted) + if wanted(r) {
            1nat
        } else {
            0nat
        },
    decreases requests.len(),
{
    let front = requests.drop_last();
    if k == front.len() {
        assert(requests.update(k, r).drop_last() =~= front);
    } else {
        assert(requests.update(k, r).drop_last() =~= front.update(k, r));
        assert(requests.update(k, r).last() == requests.last());
        lemma_tally_update(front, k, r, wanted);
    }
}

proof fn lemma_tally_bound(requests: Seq<Request>, wanted: spec_fn(Request) -> bool)
    ensures
        tally(requests, wanted) <= requests.len(),
    decreases requests.len(),
{
    if requests.len() > 0 {
        lemma_tally_bound(requests.drop_last(), wanted);
    }
}

/// What holds of a ledger at all times, with the given number of events behind it.
spec fn kept(ledger: Ledger, names: Seq<Seq<char>>, events: nat) -> bool {
    &&& ledger.registry.len() == names.len()
    &&& ledger.requests.len() <= events
    &&& forall|i: int| 0 <= i < names.len() ==> (#[trigger] ledger.registry[i]).0 == names[i]
    &&& forall|k: int|
        0 <= k < ledger.requests.len() ==> {
            let r = #[trigger] ledger.requests[k];
            &&& 0 <= r.timer.model < names.len()
            &&& r.timer.pending == !r.executed
        }
    &&& forall|i: int| 0 <= i < names.len() ==> balanced(ledger, i)
}

/// Whether the counters of the model at `i` agree with its requests.
pub open spec fn balanced(ledger: Ledger, i: int) -> bool {
    &&& told(ledger.registry[i].1) == tally(ledger.requests, ended_at(i))
    &&& ledger.registry[i].1.pending_request_count == tally(ledger.requests, waiting_at(i))
}

proof fn lemma_last_place(models: RegistryView, name: Seq<char>)
    ensures
        metrics::last_place(models, name) matches Some(i) ==> 0 <= i < models.len()
            && models[i].0 == name,
    decreases models.len(),
{
    if models.len() > 0 && models.last().0 != name {
        lemma_last_place(models.drop_last(), name);
    }
}

proof fn lemma_kept(ledger: Ledger, names: Seq<Seq<char>>, events: nat, event: Event)
    requires
        kept(ledger, names, events),
        events < u64::MAX,
    ensures
        kept(ledger.after(event), names, events + 1),
{
    let after = ledger.after(event);
    if let Event::Begin { model_name, now } = event {
        lemma_last_place(ledger.registry, model_name);
    }
    assert forall|i: int| 0 <= i < names.len() implies balanced(after, i) by {
        assert(balanced(ledger, i));
        lemma_tally_bound(ledger.requests, ended_at(i));
        lemma_tally_bound(ledger.requests, waiting_at(i));
        match event {
            Event::Begin { model_name, now } => {
                if let Some(n) = metrics::last_place(ledger.registry, model_name) {
                    let r = after.requests.last();
                    lemma_tally_push(ledger.requests, r, ended_at(i));
                    lemma_tally_push(ledger.requests, r, waiting_at(i));
                }
            },
            Event::Mark { request, .. } => {
                if ledger.is_open(request) {
                    let r = after.requests[request];
                    lemma_tally_update(ledger.requests, request, r, ended_at(i));
                    lemma_tally_update(ledger.requests, request, r, waiting_at(i));
                }
            },
            Event::End { request, .. } => {
                if ledger.is_open(request) {
                    let r = after.requests[request];
                    lemma_tally_update(ledger.requests, request, r, ended_at(i));
                    lemma_tally_update(ledger.requests, request, r, waiting_at(i));
                    lemma_tally_bound(after.requests, ended_at(i));
                }
            },
        }
    }
}

proof fn lemma_after_events(names: Seq<Seq<char>>, events: Seq<Event>)
    requires
        events.len() <= u64::MAX,
    ensures
        kept(after_events(names, events), names, events.len()),
    decreases events.len(),
{
    if events.len() > 0 {
        lemma_after_events(names, events.drop_last());
        lemma_kept(
            after_events(names, events.drop_last()),
            names,
            (events.len() - 1) as nat,
            events.last(),
        );
    }
}

/// However requests to the models are interleaved, every request that has ended is
/// counted exactly once: for every model, the successes and the failures of all
/// reasons are together as many as its requests that have ended, and the pending
/// gauge is the number of its open requests whose backend was never reported to
/// have run. This holds as long as no 64-bit counter can have wrapped around;
/// [`law_ledger_balances_beyond_wraps`] is about all histories.
pub proof fn law_ledger_balances(names: Seq<Seq<char>>, events: Seq<Event>, i: int)
    requires
        events.len() <= u64::MAX,
        0 <= i < names.len(),
    ensures
        after_events(names, events).registry.len() == names.len(),
        after_events(names, events).registry[i].0 == names[i],
        balanced(after_events(names, events), i),
{
    lemma_after_events(names, events);
}

/// What 64-bit counters miss after they wrapped around so many times in all.
pub open spec fn wrapped(times: nat) -> int {
    (times as int) * 0x1_0000_0000_0000_0000int
}

/// Whether counters tell of a number, apart from what they miss by wrapping around.
pub open spec fn tells(counters: int, number: nat) -> bool {
    exists|times: nat| counters + #[trigger] wrapped(times) == number
}

/// Whether the counters of the model at `i` agree with its requests, apart from
/// what they miss by wrapping around.
pub open spec fn balanced_beyond_wraps(ledger: Ledger, i: int) -> bool {
    &&& tells(told(ledger.registry[i].1), tally(ledger.requests, ended_at(i)))
    &&& tells(
        ledger.registry[i].1.pending_request_count as int,
        tally(ledger.requests, waiting_at(i)),
    )
}

/// What holds of a ledger at all times, however many events are behind it.
spec fn kept_beyond_wraps(ledger: Ledger, names: Seq<Seq<char>>) -> bool {
    &&& ledger.registry.len() == names.len()
    &&& forall|i: int| 0 <= i < names.len() ==> (#[trigger] ledger.registry[i]).0 == names[i]
    &&& forall|k: int|
        0 <= k < ledger.requests.len() ==> {
            let r = #[trigger] ledger.requests[k];
            &&& 0 <= r.timer.model < names.len()
            &&& r.timer.pending == !r.executed
        }
    &&& forall|i: int| 0 <= i < names.len() ==> balanced_beyond_wraps(ledger, i)
}

proof fn lemma_tells_more(counters: int, number: nat, more: int)
    requires
        tells(counters, number),
        more == counters + 1 || more == counters + 1 - 0x1_0000_0000_0000_0000,
    ensures
        tells(more, number + 1),
{
    let times = choose|times: nat| counters + #[trigger] wrapped(times) == number;
    if more == counters + 1 {
        assert(more + wrapped(times) == number + 1);
    } else {
        assert(more + wrapped(times + 1) == number + 1);
    }
}

proof fn lemma_tells_less(counter: u64, number: nat)
    requires
        tells(counter as int, number),
        number > 0,
    ensures
        tells(counter.wrapping_sub(1) as int, (number - 1) as nat),
{
    let times = choose|times: nat| counter + #[trigger] wrapped(times) == number;
    if counter == 0 {
        assert(times > 0);
        let fewer = (times - 1) as nat;
        assert(counter.wrapping_sub(1) + wrapped(fewer) == number - 1);
    } else {
        assert(counter.wrapping_sub(1) + wrapped(times) == number - 1);
    }
}

proof fn lemma_tally_some(requests: Seq<Request>, k: int, wanted: spec_fn(Request) -> bool)
    requires
        0 <= k < requests.len(),
        wanted(requests[k]),
    ensures
        tally(requests, wanted) > 0,
    decreases requests.len(),
{
    if k < requests.len() - 1 {
        lemma_tally_some(requests.drop_last(), k, wanted);
    }
}

proof fn lemma_kept_beyond_wraps(ledger: Ledger, names: Seq<Seq<char>>, event: Event)
    requires
        kept_beyond_wraps(ledger, names),
    ensures
        kept_beyond_wraps(ledger.after(event), names),
{
    let after = ledger.after(event);
    if let Event::Begin { model_name, now } = event {
        lemma_last_place(ledger.registry, model_name);
    }
    assert forall|i: int| 0 <= i < names.len() implies balanced_beyond_wraps(after, i) by {
        assert(balanced_beyond_wraps(ledger, i));
        let m = ledger.registry[i].1;
        let n = after.registry[i].1;
        let ended = tally(ledger.requests, ended_at(i));
        let waiting = tally(ledger.requests, waiting_at(i));
        match event {
            Event::Begin { model_name, now } => {
                if let Some(place) = metrics::last_place(ledger.registry, model_name) {
                    let r = after.requests.last();
                    lemma_tally_push(ledger.requests, r, ended_at(i));
                    lemma_tally_push(ledger.requests, r, waiting_at(i));
                    if place == i {
                        lemma_tells_more(
                            m.pending_request_count as int,
                            waiting,
                            n.pending_request_count as int,
                        );
                    }
                }
            },
            Event::Mark { request, .. } => {
                if ledger.is_open(request) {
                    let before = ledger.requests[request];
                    let r = after.requests[request];
                    lemma_tally_update(ledger.requests, request, r, ended_at(i));
                    lemma_tally_update(ledger.requests, request, r, waiting_at(i));
                    if before.timer.model == i && !before.executed {
                        lemma_tally_some(ledger.requests, request, waiting_at(i));
                        lemma_tells_less(m.pending_request_count, waiting);
                    }
                }
            },
            Event::End { request, .. } => {
                if ledger.is_open(request) {
                    let before = ledger.requests[request];
                    let r = after.requests[request];
                    lemma_tally_update(ledger.requests, request, r, ended_at(i));
                    lemma_tally_update(ledger.requests, request, r, waiting_at(i));
                    if before.timer.model == i {
                        lemma_tells_more(told(m), ended, told(n));
                        if !before.executed {
                            lemma_tally_some(ledger.requests, request, waiting_at(i));
                            lemma_tells_less(m.pending_request_count, waiting);
                        }
                    }
                }
            },
        }
    }
}

/// Over any history at all, however requests to the models are interleaved: for
/// every model, the successes and the failures of all reasons tell together of its
/// requests that have ended, each once, and the pending gauge of its open requests
/// whose backend was never reported to have run, apart from what 64-bit counters
/// miss by wrapping around.
pub proof fn law_ledger_balances_beyond_wraps(names: Seq<Seq<char>>, events: Seq<Event>, i: int)
    requires
        0 <= i < names.len(),
    ensures
        balanced_beyond_wraps(after_events(names, events), i),
{
    lemma_after_any_events(names, events);
}

proof fn lemma_after_any_events(names: Seq<Seq<char>>, events: Seq<Event>)
    ensures
        kept_beyond_wraps(after_events(names, events), names),
    decreases events.len(),
{
    if events.len() == 0 {
        let start = Ledger::new(names);
        assert forall|i: int| 0 <= i < names.len() implies balanced_beyond_wraps(start, i) by {
            assert(told(start.registry[i].1) + wrapped(0) == 0);
            assert(start.registry[i].1.pending_request_count + wrapped(0) == 0);
        }
    } else {
        lemma_after_any_events(names, events.drop_last());
        lemma_kept_beyond_wraps(
            after_events(names, events.drop_last()),
            names,
            events.last(),
        );
    }
}

proof fn lemma_place_of(models: RegistryView, i: int)
    requires
        0 <= i < models.len(),
        forall|k: int| i < k < models.len() ==> (#[trigger] models[k]).0 != models[i].0,
    ensures
        metrics::last_place(models, models[i].0) == Some(i),
    decreases models.len(),
{
    if i < models.len() - 1 {
        let front = models.drop_last();
        assert(models.last() == models[models.len() - 1]);
        assert forall|k: int| i < k < front.len() implies (#[trigger] front[k]).0 != front[i].0 by {
            assert(front[k] == models[k]);
        }
        lemma_place_of(front, i);
    }
}

/// A request belongs to the model that it names: among models with names of their
/// own, a request that names one is begun for that one, whatever went before.
pub proof fn law_requests_belong_to_their_model(
    names: Seq<Seq<char>>,
    events: Seq<Event>,
    i: int,
    now: u128,
)
    requires
        names.no_duplicates(),
        0 <= i < names.len(),
    ensures
        ({
            let before = after_events(names, events);
            let after = before.after(Event::Begin { model_name: names[i], now });
            &&& after.requests.len() == before.requests.len() + 1
            &&& after.requests.last().timer == metrics::opened(i, now)
        }),
{
    lemma_after_any_events(names, events);
    let registry = after_events(names, events).registry;
    assert forall|k: int| i < k < registry.len() implies (#[trigger] registry[k]).0
        != registry[i].0 by {
        assert(names[k] != names[i]);
    }
    lemma_place_of(registry, i);
}

} // verus!

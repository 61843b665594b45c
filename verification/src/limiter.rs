//! Spaces out the requests that the server makes to its upstream.

use std::collections::VecDeque;

use vstd::prelude::*;

verus! {

/// The time in nanoseconds that has to go by after a request before the next one: half a second.
pub const RATE_LIMIT: u128 = 500_000_000;

/// The requests that wait for their turn, and how long the next of them has to wait.
#[derive(Debug)]
pub struct Limiter<T> {
    requests: VecDeque<T>,
    remaining: u128,
}

/// The state of a limiter: the requests that wait, first come first, and how long the next of
/// them has to wait.
pub struct LimiterView<T> {
    pub waiting: Seq<T>,
    pub remaining: int,
}

/// Whether a wait was long enough.
pub open spec fn is_due(remaining: int, elapsed: int) -> bool {
    elapsed >= remaining
}

/// How long is still to wait after a wait.
pub open spec fn remaining_after(remaining: int, elapsed: int) -> int {
    if is_due(remaining, elapsed) {
        remaining
    } else {
        remaining - elapsed
    }
}

/// The state after a request is received.
pub open spec fn after_request<T>(s: LimiterView<T>, request: T) -> LimiterView<T> {
    LimiterView { waiting: s.waiting.push(request), ..s }
}

/// The state after a wait.
pub open spec fn after_wait<T>(s: LimiterView<T>, elapsed: int) -> LimiterView<T> {
    LimiterView { remaining: remaining_after(s.remaining, elapsed), ..s }
}

/// Whether a turn went as it has to: the requests at the front whose senders had gone were
/// skipped, and the next one was let through, unless there was none.
pub open spec fn is_turn<T>(s: LimiterView<T>, skipped: int, granted: bool) -> bool {
    if granted {
        0 <= skipped < s.waiting.len()
    } else {
        skipped == s.waiting.len()
    }
}

/// The state after a turn.
pub open spec fn after_turn<T>(s: LimiterView<T>, skipped: int, granted: bool) -> LimiterView<T> {
    if granted {
        LimiterView { waiting: s.waiting.skip(skipped + 1), remaining: RATE_LIMIT as int }
    } else {
        LimiterView { waiting: s.waiting.skip(skipped), ..s }
    }
}

/// What came of a turn.
#[derive(Debug, Clone, Copy, PartialEq, Eq, Structural)]
pub struct Turn {
    /// How many requests were skipped
    pub skipped: usize,
    /// Whether a request was let through after these
    pub granted: bool,
}

impl<T> View for Limiter<T> {
    type V = LimiterView<T>;

    closed spec fn view(&self) -> LimiterView<T> {
        LimiterView { waiting: self.requests@, remaining: self.remaining as int }
    }
}

impl<T> Limiter<T> {
    /// A limiter without requests, which lets the first one through at once.
    pub fn new() -> (l: Self)
        ensures
            l@ == (LimiterView { waiting: Seq::<T>::empty(), remaining: 0 }),
    {
        Limiter { requests: VecDeque::new(), remaining: 0 }
    }

    /// How long to wait for a new request.
    pub fn remaining(&self) -> (t: u128)
        ensures
            t == self@.remaining,
    {
        self.remaining
    }

    /// Lets a request wait behind the others.
    pub fn receive(&mut self, request: T)
        ensures
            final(self)@ == after_request(old(self)@, request),
    {
        self.requests.push_back(request);
    }

    /// Takes note of the time that a wait took. The result says whether it is now the turn of a
    /// request.
    pub fn waited(&mut self, elapsed: u128) -> (due: bool)
        ensures
            due == is_due(old(self)@.remaining, elapsed as int),
            final(self)@ == after_wait(old(self)@, elapsed as int),
    {
        if elapsed >= self.remaining {
            true
        } else {
            self.remaining = self.remaining - elapsed;
            false
        }
    }

    /// Lets the request through that has waited for the longest time, by `send`, which says
    /// whether there still was someone to tell. Where there was not, the request is skipped, and
    /// the next one gets the turn.
    pub fn take_turn<F: Fn(T) -> bool>(&mut self, send: F) -> (r: Turn)
        requires
            forall|request: T| call_requires(send, (request,)),
        ensures
            is_turn(old(self)@, r.skipped as int, r.granted),
            final(self)@ == after_turn(old(self)@, r.skipped as int, r.granted),
            forall|i: int|
                0 <= i < r.skipped ==> call_ensures(
                    send,
                    (#[trigger] old(self)@.waiting[i],),
                    false,
                ),
            r.granted ==> call_ensures(send, (old(self)@.waiting[r.skipped as int],), true),
    {
        let ghost before = self@;
        let mut skipped: usize = 0;
        let count: usize = self.requests.len();
        assert(before.waiting.skip(0) =~= before.waiting);
        while skipped < count
            invariant
                before == old(self)@,
                count == before.waiting.len(),
                skipped <= count,
                self@ == (LimiterView { waiting: before.waiting.skip(skipped as int), ..before }),
                forall|request: T| call_requires(send, (request,)),
                forall|i: int|
                    0 <= i < skipped ==> call_ensures(
                        send,
                        (#[trigger] before.waiting[i],),
                        false,
                    ),
            decreases count - skipped,
        {
            let ghost rest = self.requests@;
            let request: T = self.requests.pop_front().unwrap();
            proof {
                assert(rest[0] == before.waiting[skipped as int]);
                assert(self.requests@ =~= before.waiting.skip(skipped + 1));
            }
            if send(request) {
                self.remaining = RATE_LIMIT;
                return Turn { skipped, granted: true };
            }
            skipped = skipped + 1;
        }
        Turn { skipped, granted: false }
    }
}

/// One round of the limiter: a request may come while it waits, and when the wait was long enough
/// there is a turn.
pub struct Round<T> {
    pub received: Option<T>,
    pub elapsed: int,
    pub skipped: int,
    pub granted: bool,
}

/// What became of requests over several rounds.
pub struct History<T> {
    pub state: LimiterView<T>,
    /// The time that the rounds took
    pub now: int,
    /// All requests that came, in their order
    pub received: Seq<T>,
    /// The requests that had their turn, in the order in which they had it, each with the time at
    /// which it was let through, or without one if it was skipped
    pub turns: Seq<(T, Option<int>)>,
}

/// The state once the request of a round is received.
pub open spec fn with_received<T>(s: LimiterView<T>, received: Option<T>) -> LimiterView<T> {
    match received {
        Some(request) => after_request(s, request),
        None => s,
    }
}

/// The requests that have their turn in a round.
pub open spec fn turns_of<T>(waiting: Seq<T>, skipped: int, granted: bool, now: int) -> Seq<
    (T, Option<int>),
> {
    let gone = Seq::new(skipped as nat, |i: int| (waiting[i], None::<int>));
    if granted {
        gone.push((waiting[skipped], Some(now)))
    } else {
        gone
    }
}

/// Whether a round can follow on a history.
pub open spec fn is_round<T>(h: History<T>, round: Round<T>) -> bool {
    let s = with_received(h.state, round.received);
    &&& round.elapsed >= 0
    &&& is_due(s.remaining, round.elapsed) ==> is_turn(s, round.skipped, round.granted)
}

/// The history after one more round.
pub open spec fn after_round<T>(h: History<T>, round: Round<T>) -> History<T> {
    let s = with_received(h.state, round.received);
    let waited = after_wait(s, round.elapsed);
    let now = h.now + round.elapsed;
    let received = match round.received {
        Some(request) => h.received.push(request),
        None => h.received,
    };
    if is_due(s.remaining, round.elapsed) {
        History {
            state: after_turn(waited, round.skipped, round.granted),
            now,
            received,
            turns: h.turns + turns_of(waited.waiting, round.skipped, round.granted, now),
        }
    } else {
        History { state: waited, now, received, turns: h.turns }
    }
}

/// The history before any round.
pub open spec fn no_history<T>() -> History<T> {
    History {
        state: LimiterView { waiting: seq![], remaining: 0 },
        now: 0,
        received: seq![],
        turns: seq![],
    }
}

/// The history of several rounds.
pub open spec fn history<T>(rounds: Seq<Round<T>>) -> History<T>
    decreases rounds.len(),
{
    if rounds.len() == 0 {
        no_history()
    } else {
        after_round(history(rounds.drop_last()), rounds.last())
    }
}

/// Whether each round can follow on those before it.
pub open spec fn is_run<T>(rounds: Seq<Round<T>>) -> bool
    decreases rounds.len(),
{
    rounds.len() > 0 ==> is_run(rounds.drop_last()) && is_round(
        history(rounds.drop_last()),
        rounds.last(),
    )
}

/// The requests of some turns.
pub open spec fn requests_of<T>(turns: Seq<(T, Option<int>)>) -> Seq<T> {
    turns.map_values(|t: (T, Option<int>)| t.0)
}

/// Requests have their turns in the order in which they came, each of them once: those that had
/// it, followed by those that still wait, are all that came.
pub proof fn turns_are_in_order<T>(rounds: Seq<Round<T>>)
    requires
        is_run(rounds),
    ensures
        requests_of(history(rounds).turns) + history(rounds).state.waiting == history(
            rounds,
        ).received,
    decreases rounds.len(),
{
    if rounds.len() == 0 {
        let h = history(rounds);
        assert(requests_of(h.turns) + h.state.waiting =~= h.received);
    } else {
        let h = history(rounds.drop_last());
        let round = rounds.last();
        turns_are_in_order(rounds.drop_last());
        let s = with_received(h.state, round.received);
        let after = after_round(h, round);
        assert(requests_of(h.turns) + s.waiting =~= after.received);
        if is_due(s.remaining, round.elapsed) {
            let turns = turns_of(s.waiting, round.skipped, round.granted, after.now);
            assert(requests_of(h.turns + turns) =~= requests_of(h.turns) + requests_of(turns));
            assert(requests_of(turns) + after.state.waiting =~= s.waiting);
            assert(requests_of(after.turns) + after.state.waiting =~= after.received);
        }
    }
}

/// Between any two requests that are let through lies at least the time that has to, however many
/// are skipped or come in between.
pub proof fn requests_are_spaced_out<T>(rounds: Seq<Round<T>>, i: int, j: int)
    requires
        is_run(rounds),
        0 <= i < j < history(rounds).turns.len(),
        history(rounds).turns[i].1 is Some,
        history(rounds).turns[j].1 is Some,
    ensures
        history(rounds).turns[j].1->Some_0 - history(rounds).turns[i].1->Some_0 >= RATE_LIMIT,
    decreases rounds.len(),
{
    let h = history(rounds.drop_last());
    let n = h.turns.len();
    if j < n {
        requests_are_spaced_out(rounds.drop_last(), i, j);
    } else {
        grants_lie_back(rounds.drop_last(), i);
    }
}

proof fn grants_lie_back<T>(rounds: Seq<Round<T>>, i: int)
    requires
        is_run(rounds),
    ensures
        0 <= i < history(rounds).turns.len() && history(rounds).turns[i].1 is Some ==> history(
            rounds,
        ).now - history(rounds).turns[i].1->Some_0 >= RATE_LIMIT - history(rounds).state.remaining,
        history(rounds).state.remaining <= RATE_LIMIT,
    decreases rounds.len(),
{
    if rounds.len() > 0 {
        grants_lie_back(rounds.drop_last(), i);
    }
}

/// Requests that are skipped cost no time: the turn goes to the next one at once, and leaves the
/// limiter as if they had never come.
pub proof fn skipped_requests_cost_no_time<T>(s: LimiterView<T>, skipped: int, granted: bool)
    requires
        is_turn(s, skipped, granted),
    ensures
        after_turn(s, skipped, granted) == after_turn(
            LimiterView { waiting: s.waiting.skip(skipped), ..s },
            0,
            granted,
        ),
        is_turn(LimiterView { waiting: s.waiting.skip(skipped), ..s }, 0, granted),
        !granted ==> after_turn(s, skipped, granted).remaining == s.remaining,
{
    assert(s.waiting.skip(skipped).skip(0) =~= s.waiting.skip(skipped));
    if granted {
        assert(s.waiting.skip(skipped).skip(1) =~= s.waiting.skip(skipped + 1));
    }
}

/// Waits add up: after a wait that was too short, a further one is long enough exactly where both
/// together are as long as was to wait. No request waits longer than that.
pub proof fn waits_add_up(remaining: int, first: int, then: int)
    requires
        0 <= first < remaining,
    ensures
        !is_due(remaining, first),
        is_due(remaining_after(remaining, first), then) <==> first + then >= remaining,
        is_due(remaining, then) <==> then >= remaining,
{
}

/// A turn goes to the first request that waits and whose sender is still there, and takes it and
/// those before it out of the line; the others stay in their order. Half a second has to go by after
/// a request that was let through, and none after a turn without one.
pub proof fn turns_go_to_the_first<T>(s: LimiterView<T>, skipped: int, granted: bool)
    requires
        is_turn(s, skipped, granted),
    ensures
        ({
            let gone = if granted {
                skipped + 1
            } else {
                skipped
            };
            let after = after_turn(s, skipped, granted);
            &&& 0 <= gone <= s.waiting.len()
            &&& !granted ==> gone == s.waiting.len()
            &&& after.waiting.len() == s.waiting.len() - gone
            &&& forall|i: int|
                0 <= i < after.waiting.len() ==> #[trigger] after.waiting[i] == s.waiting[gone + i]
            &&& granted ==> after.remaining == 500_000_000
            &&& !granted ==> after.remaining == s.remaining
        }),
{
}

/// A new request waits behind all others, and changes nothing for them; a wait changes nothing but
/// the time that is left.
pub proof fn requests_wait_behind_others<T>(s: LimiterView<T>, request: T, elapsed: int)
    ensures
        after_request(s, request).waiting.len() == s.waiting.len() + 1,
        after_request(s, request).waiting[s.waiting.len() as int] == request,
        forall|i: int|
            0 <= i < s.waiting.len() ==> #[trigger] after_request(s, request).waiting[i]
                == s.waiting[i],
        after_request(s, request).remaining == s.remaining,
        after_wait(s, elapsed).waiting == s.waiting,
{
}

} // verus!

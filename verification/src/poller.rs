//! The poller's decisions, as a state machine.
//!
//! The program around the library runs a loop: it performs the [`Action`]
//! that the poller asks for (waiting on a timer, fetching the map list,
//! storing it, starting the poll of one map, joining the polls), and hands
//! the outcome back as an [`Event`]. The poller decides what comes next.
//!
//! One cycle: wait for the cycle timer (or a shutdown request), fetch the
//! map list, store it, then for each map in list order wait for the poll
//! timer (or a shutdown request) and start that map's poll; finally wait for
//! all polls of the cycle. A shutdown request seen while pacing the polls
//! still waits for the polls already started, then stops. An error while
//! fetching or storing the map list ends the program with that error.

use vstd::prelude::*;

verus! {

/// Where the poller stands.
#[derive(Debug, Clone, Copy, PartialEq, Eq, Structural)]
pub enum Phase {
    /// Waiting for the next cycle, or for a shutdown request.
    Idle,
    /// Fetching the map list.
    FetchingMaps,
    /// Storing the `count` maps just fetched.
    StoringMaps { count: usize },
    /// Waiting for the poll timer before polling map `next` of `count`
    /// (or for a shutdown request).
    Pacing { count: usize, next: usize },
    /// Starting the poll of map `next` of `count`.
    Spawning { count: usize, next: usize },
    /// Waiting for the polls started in this cycle; a new cycle follows
    /// when `resume` holds, else the poller stops.
    Joining { resume: bool },
    /// Stopped on request.
    Stopped,
    /// Stopped on an error that ends the program.
    Failed,
}

/// What happened since the last step.
#[derive(Debug, Clone, Copy, PartialEq, Eq, Structural)]
pub enum Event {
    /// The shutdown signal (Ctrl-C) was seen while waiting on a timer.
    ShutdownRequested,
    /// The cycle timer ticked.
    CycleTick,
    /// The map list was fetched; it holds `count` maps.
    MapsFetched { count: usize },
    /// Fetching the map list failed.
    FetchFailed,
    /// The map list was stored.
    MapsStored,
    /// Storing the map list failed.
    StoreFailed,
    /// The poll timer ticked.
    PollTick,
    /// The poll asked for was started.
    PollSpawned,
    /// Every poll started in this cycle has finished.
    PollsJoined,
}

/// What the poller asks the program to do next.
#[derive(Debug, Clone, Copy, PartialEq, Eq, Structural)]
pub enum Action {
    /// Wait for the cycle timer or a shutdown request.
    AwaitCycle,
    /// Fetch the map list.
    FetchMaps,
    /// Store the fetched map list.
    StoreMaps,
    /// Wait for the poll timer or a shutdown request.
    AwaitPollTick,
    /// Start the poll of the map at position `index` of the fetched list.
    SpawnPoll { index: usize },
    /// Wait until every poll started in this cycle has finished.
    JoinPolls,
    /// Shut down cleanly.
    Finish,
    /// End the program with the error that was reported.
    Abort,
}

/// The action that a phase waits on.
pub open spec fn action_of(phase: Phase) -> Action {
    match phase {
        Phase::Idle => Action::AwaitCycle,
        Phase::FetchingMaps => Action::FetchMaps,
        Phase::StoringMaps { .. } => Action::StoreMaps,
        Phase::Pacing { .. } => Action::AwaitPollTick,
        Phase::Spawning { next, .. } => Action::SpawnPoll { index: next },
        Phase::Joining { .. } => Action::JoinPolls,
        Phase::Stopped => Action::Finish,
        Phase::Failed => Action::Abort,
    }
}

/// The phase that follows `phase` on `event`. An event that the phase does
/// not wait for leaves it unchanged.
pub open spec fn next_phase(phase: Phase, event: Event) -> Phase {
    match (phase, event) {
        (Phase::Idle, Event::ShutdownRequested) => Phase::Stopped,
        (Phase::Idle, Event::CycleTick) => Phase::FetchingMaps,
        (Phase::FetchingMaps, Event::MapsFetched { count }) => Phase::StoringMaps { count },
        (Phase::FetchingMaps, Event::FetchFailed) => Phase::Failed,
        (Phase::StoringMaps { count }, Event::MapsStored) => {
            if count == 0 {
                Phase::Joining { resume: true }
            } else {
                Phase::Pacing { count, next: 0 }
            }
        },
        (Phase::StoringMaps { .. }, Event::StoreFailed) => Phase::Failed,
        (Phase::Pacing { .. }, Event::ShutdownRequested) => Phase::Joining { resume: false },
        (Phase::Pacing { count, next }, Event::PollTick) => Phase::Spawning { count, next },
        (Phase::Spawning { count, next }, Event::PollSpawned) => {
            if next + 1 >= count {
                Phase::Joining { resume: true }
            } else {
                Phase::Pacing { count, next: (next + 1) as usize }
            }
        },
        (Phase::Joining { resume }, Event::PollsJoined) => {
            if resume {
                Phase::Idle
            } else {
                Phase::Stopped
            }
        },
        _ => phase,
    }
}

/// A phase that can occur: a map position is always inside the list.
pub open spec fn phase_wf(phase: Phase) -> bool {
    match phase {
        Phase::Pacing { count, next } => next < count,
        Phase::Spawning { count, next } => next < count,
        _ => true,
    }
}

/// The poller's state.
pub struct Poller {
    phase: Phase,
}

impl View for Poller {
    type V = Phase;

    closed spec fn view(&self) -> Phase {
        self.phase
    }
}

impl Poller {
    #[verifier::type_invariant]
    spec fn inv(self) -> bool {
        phase_wf(self.phase)
    }

    /// A poller that waits for its first cycle.
    pub fn new() -> (p: Poller)
        ensures
            p@ == Phase::Idle,
    {
        Poller { phase: Phase::Idle }
    }

    /// The current phase.
    pub fn phase(&self) -> (p: Phase)
        ensures
            p == self@,
            phase_wf(p),
    {
        proof {
            use_type_invariant(self);
        }
        self.phase
    }

    /// The action that the current phase waits on.
    pub fn action(&self) -> (a: Action)
        ensures
            a == action_of(self@),
            self@ matches Phase::Pacing { .. } ==> a == Action::AwaitPollTick,
            self@ matches Phase::Spawning { next, .. } ==> a == (Action::SpawnPoll { index: next }),
            self@ == Phase::Idle ==> a == Action::AwaitCycle,
            self@ == Phase::FetchingMaps ==> a == Action::FetchMaps,
            self@ matches Phase::StoringMaps { .. } ==> a == Action::StoreMaps,
            self@ matches Phase::Joining { .. } ==> a == Action::JoinPolls,
            self@ == Phase::Stopped ==> a == Action::Finish,
            self@ == Phase::Failed ==> a == Action::Abort,
    {
        match self.phase {
            Phase::Idle => Action::AwaitCycle,
            Phase::FetchingMaps => Action::FetchMaps,
            Phase::StoringMaps { .. } => Action::StoreMaps,
            Phase::Pacing { .. } => Action::AwaitPollTick,
            Phase::Spawning { next, .. } => Action::SpawnPoll { index: next },
            Phase::Joining { .. } => Action::JoinPolls,
            Phase::Stopped => Action::Finish,
            Phase::Failed => Action::Abort,
        }
    }

    /// Takes in what happened and says what to do next.
    pub fn step(&mut self, event: Event) -> (a: Action)
        ensures
            final(self)@ == next_phase(old(self)@, event),
            a == action_of(final(self)@),
            final(self)@ matches Phase::Pacing { .. } ==> a == Action::AwaitPollTick,
            final(self)@ matches Phase::Spawning { next, .. } ==> a == (Action::SpawnPoll { index: next }),
            final(self)@ == Phase::Idle ==> a == Action::AwaitCycle,
            final(self)@ == Phase::FetchingMaps ==> a == Action::FetchMaps,
            final(self)@ matches Phase::StoringMaps { .. } ==> a == Action::StoreMaps,
            final(self)@ matches Phase::Joining { .. } ==> a == Action::JoinPolls,
            final(self)@ == Phase::Stopped ==> a == Action::Finish,
            final(self)@ == Phase::Failed ==> a == Action::Abort,
    {
        proof {
            use_type_invariant(&*self);
        }
        let next = match (self.phase, event) {
            (Phase::Idle, Event::ShutdownRequested) => Phase::Stopped,
            (Phase::Idle, Event::CycleTick) => Phase::FetchingMaps,
            (Phase::FetchingMaps, Event::MapsFetched { count }) => Phase::StoringMaps { count },
            (Phase::FetchingMaps, Event::FetchFailed) => Phase::Failed,
            (Phase::StoringMaps { count }, Event::MapsStored) => {
                if count == 0 {
                    Phase::Joining { resume: true }
                } else {
                    Phase::Pacing { count, next: 0 }
                }
            },
            (Phase::StoringMaps { .. }, Event::StoreFailed) => Phase::Failed,
            (Phase::Pacing { .. }, Event::ShutdownRequested) => Phase::Joining { resume: false },
            (Phase::Pacing { count, next }, Event::PollTick) => Phase::Spawning { count, next },
            (Phase::Spawning { count, next }, Event::PollSpawned) => {
                if next + 1 >= count {
                    Phase::Joining { resume: true }
                } else {
                    Phase::Pacing { count, next: next + 1 }
                }
            },
            (Phase::Joining { resume }, Event::PollsJoined) => {
                if resume {
                    Phase::Idle
                } else {
                    Phase::Stopped
                }
            },
            (phase, _) => phase,
        };
        self.phase = next;
        self.action()
    }
}


/// The phase reached from `phase` after `events`, one step each.
pub open spec fn run(phase: Phase, events: Seq<Event>) -> Phase
    decreases events.len(),
{
    if events.len() == 0 {
        phase
    } else {
        run(next_phase(phase, events[0]), events.drop_first())
    }
}

/// The actions asked for after each of `events`, starting from `phase`.
pub open spec fn trace(phase: Phase, events: Seq<Event>) -> Seq<Action>
    decreases events.len(),
{
    if events.len() == 0 {
        Seq::empty()
    } else {
        let q = next_phase(phase, events[0]);
        seq![action_of(q)] + trace(q, events.drop_first())
    }
}

/// The map positions whose polls `actions` start, in order.
pub open spec fn spawned(actions: Seq<Action>) -> Seq<usize>
    decreases actions.len(),
{
    if actions.len() == 0 {
        Seq::empty()
    } else {
        let rest = spawned(actions.drop_first());
        match actions[0] {
            Action::SpawnPoll { index } => seq![index] + rest,
            _ => rest,
        }
    }
}

/// `m` rounds of a poll timer tick followed by the start of the poll.
pub open spec fn poll_rounds(m: nat) -> Seq<Event>
    decreases m,
{
    if m == 0 {
        Seq::empty()
    } else {
        seq![Event::PollTick, Event::PollSpawned] + poll_rounds((m - 1) as nat)
    }
}

/// The events of one undisturbed cycle over a map list of `count` maps.
pub open spec fn cycle_events(count: usize) -> Seq<Event> {
    seq![Event::CycleTick, Event::MapsFetched { count }, Event::MapsStored] + poll_rounds(
        count as nat,
    ) + seq![Event::PollsJoined]
}

proof fn lemma_run_concat(p: Phase, a: Seq<Event>, b: Seq<Event>)
    ensures
        run(p, a + b) == run(run(p, a), b),
        trace(p, a + b) == trace(p, a) + trace(run(p, a), b),
    decreases a.len(),
{
    if a.len() == 0 {
        assert(a + b =~= b);
    } else {
        assert((a + b).drop_first() =~= a.drop_first() + b);
        assert((a + b)[0] == a[0]);
        lemma_run_concat(next_phase(p, a[0]), a.drop_first(), b);
        let q = next_phase(p, a[0]);
        assert(seq![action_of(q)] + (trace(q, a.drop_first()) + trace(run(q, a.drop_first()), b))
            =~= (seq![action_of(q)] + trace(q, a.drop_first())) + trace(
            run(q, a.drop_first()),
            b,
        ));
    }
}

proof fn lemma_spawned_concat(a: Seq<Action>, b: Seq<Action>)
    ensures
        spawned(a + b) == spawned(a) + spawned(b),
    decreases a.len(),
{
    if a.len() == 0 {
        assert(a + b =~= b);
    } else {
        assert((a + b).drop_first() =~= a.drop_first() + b);
        assert((a + b)[0] == a[0]);
        lemma_spawned_concat(a.drop_first(), b);
        match a[0] {
            Action::SpawnPoll { index } => {
                assert(seq![index] + (spawned(a.drop_first()) + spawned(b)) =~= (seq![index]
                    + spawned(a.drop_first())) + spawned(b));
            },
            _ => {},
        }
    }
}

proof fn lemma_two_steps(p: Phase, e0: Event, e1: Event)
    ensures
        run(p, seq![e0, e1]) == next_phase(next_phase(p, e0), e1),
        trace(p, seq![e0, e1]) == seq![
            action_of(next_phase(p, e0)),
            action_of(next_phase(next_phase(p, e0), e1)),
        ],
{
    reveal_with_fuel(run, 3);
    reveal_with_fuel(trace, 3);
    let s = seq![e0, e1];
    assert(s[0] == e0);
    assert(s.drop_first() =~= seq![e1]);
    assert(s.drop_first()[0] == e1);
    assert(s.drop_first().drop_first() =~= Seq::<Event>::empty());
    let q = next_phase(p, e0);
    assert(trace(next_phase(q, e1), Seq::<Event>::empty()) =~= Seq::<Action>::empty());
    assert(trace(q, seq![e1]) =~= seq![action_of(next_phase(q, e1))]);
}

proof fn lemma_spawned_single(a: Action)
    ensures
        spawned(seq![a]) =~= (match a {
            Action::SpawnPoll { index } => seq![index],
            _ => Seq::<usize>::empty(),
        }),
{
    reveal_with_fuel(spawned, 2);
    assert(seq![a].drop_first() =~= Seq::<Action>::empty());
    assert(seq![a][0] == a);
}

/// The poll rounds that follow position `next` of a list of `count` maps
/// start the polls of positions `next`, `next + 1`, ..., `count - 1`, in
/// that order, and then wait for them.
proof fn lemma_pacing(count: usize, next: usize)
    requires
        next < count,
    ensures
        run(Phase::Pacing { count, next }, poll_rounds((count - next) as nat)) == (Phase::Joining {
            resume: true,
        }),
        spawned(trace(Phase::Pacing { count, next }, poll_rounds((count - next) as nat)))
            =~= Seq::new((count - next) as nat, |i: int| (next + i) as usize),
    decreases count - next,
{
    let p = Phase::Pacing { count, next };
    let m = (count - next) as nat;
    let head = seq![Event::PollTick, Event::PollSpawned];
    let tail = poll_rounds((m - 1) as nat);
    assert(poll_rounds(m) == head + tail);
    lemma_run_concat(p, head, tail);
    lemma_two_steps(p, Event::PollTick, Event::PollSpawned);
    let q = run(p, head);
    let first = trace(p, head);
    assert(first == seq![Action::SpawnPoll { index: next }, action_of(q)]);
    assert(spawned(first) =~= seq![next]) by {
        lemma_spawned_single(Action::SpawnPoll { index: next });
        lemma_spawned_single(action_of(q));
        lemma_spawned_concat(seq![Action::SpawnPoll { index: next }], seq![action_of(q)]);
        assert(first =~= seq![Action::SpawnPoll { index: next }] + seq![action_of(q)]);
    }
    lemma_spawned_concat(first, trace(q, tail));
    if next + 1 >= count {
        assert(m == 1);
        assert(tail =~= Seq::<Event>::empty());
        assert(trace(q, tail) =~= Seq::<Action>::empty());
        assert(spawned(trace(q, tail)) =~= Seq::<usize>::empty());
    } else {
        lemma_pacing(count, (next + 1) as usize);
        assert((count - (next + 1)) as nat == (m - 1) as nat);
    }
}

/// `count` rounds of waiting for the poll timer and then starting the poll
/// of the next map: AwaitPollTick, SpawnPoll 0, AwaitPollTick, SpawnPoll 1, ...
pub open spec fn poll_round_actions(count: nat) -> Seq<Action> {
    Seq::new(
        2 * count,
        |j: int|
            if j % 2 == 0 {
                Action::AwaitPollTick
            } else {
                Action::SpawnPoll { index: (j / 2) as usize }
            },
    )
}

/// From position `next` of `count`, the poll rounds ask for: start map
/// `next`, wait, start `next + 1`, ..., start `count - 1`, join.
proof fn lemma_pacing_trace(count: usize, next: usize)
    requires
        next < count,
    ensures
        seq![Action::AwaitPollTick] + trace(
            Phase::Pacing { count, next },
            poll_rounds((count - next) as nat),
        ) =~= Seq::new(
            (2 * (count - next)) as nat,
            |j: int|
                if j % 2 == 0 {
                    Action::AwaitPollTick
                } else {
                    Action::SpawnPoll { index: (next + j / 2) as usize }
                },
        ) + seq![Action::JoinPolls],
    decreases count - next,
{
    let p = Phase::Pacing { count, next };
    let m = (count - next) as nat;
    let head = seq![Event::PollTick, Event::PollSpawned];
    let tail = poll_rounds((m - 1) as nat);
    assert(poll_rounds(m) == head + tail);
    lemma_run_concat(p, head, tail);
    lemma_two_steps(p, Event::PollTick, Event::PollSpawned);
    let q = run(p, head);
    let expected = Seq::new(
        (2 * m) as nat,
        |j: int|
            if j % 2 == 0 {
                Action::AwaitPollTick
            } else {
                Action::SpawnPoll { index: (next + j / 2) as usize }
            },
    );
    let lhs = seq![Action::AwaitPollTick] + trace(p, poll_rounds(m));
    assert(trace(p, poll_rounds(m)) == seq![Action::SpawnPoll { index: next }, action_of(q)]
        + trace(q, tail));
    if next + 1 >= count {
        assert(m == 1);
        assert(tail =~= Seq::<Event>::empty());
        assert(trace(q, tail) =~= Seq::<Action>::empty());
        assert(q == Phase::Joining { resume: true });
        assert(expected =~= seq![Action::AwaitPollTick, Action::SpawnPoll { index: next }]);
        assert(lhs =~= expected + seq![Action::JoinPolls]);
    } else {
        lemma_pacing_trace(count, (next + 1) as usize);
        assert((count - (next + 1)) as nat == (m - 1) as nat);
        let rest = Seq::new(
            (2 * (m - 1)) as nat,
            |j: int|
                if j % 2 == 0 {
                    Action::AwaitPollTick
                } else {
                    Action::SpawnPoll { index: ((next + 1) as usize + j / 2) as usize }
                },
        );
        assert(q == Phase::Pacing { count, next: (next + 1) as usize });
        assert forall|j: int| 2 <= j < 2 * m implies expected[j] == rest[j - 2] by {
            assert((j - 2) % 2 == j % 2);
            assert(next + 1 + (j - 2) / 2 == next + j / 2);
        }
        assert(expected =~= seq![Action::AwaitPollTick, Action::SpawnPoll { index: next }] + rest);
        assert(seq![Action::AwaitPollTick] + trace(q, tail) =~= rest + seq![Action::JoinPolls]);
        assert(lhs =~= seq![Action::AwaitPollTick, Action::SpawnPoll { index: next }] + (seq![
            Action::AwaitPollTick,
        ] + trace(q, tail)));
        assert(lhs =~= expected + seq![Action::JoinPolls]);
    }
}

/// One cycle without a shutdown request or an error, over a list of
/// `count` maps, asks for exactly this: fetch the list, store it, then for
/// each map in list order wait for the poll timer and start its poll, then
/// join the polls and wait for the next cycle. It never asks to finish or
/// abort, and never skips a map.
pub proof fn law_cycle_trace(count: usize)
    ensures
        trace(Phase::Idle, cycle_events(count)) =~= seq![Action::FetchMaps, Action::StoreMaps]
            + poll_round_actions(count as nat) + seq![Action::JoinPolls, Action::AwaitCycle],
        run(Phase::Idle, cycle_events(count)) == Phase::Idle,
{
    law_cycle_polls_every_map_once_in_order(count);
    let start = seq![Event::CycleTick, Event::MapsFetched { count }, Event::MapsStored];
    let rounds = poll_rounds(count as nat);
    let end = seq![Event::PollsJoined];
    let stored = next_phase(Phase::StoringMaps { count }, Event::MapsStored);
    assert(cycle_events(count) == (start + rounds) + end);
    lemma_run_concat(Phase::Idle, start + rounds, end);
    lemma_run_concat(Phase::Idle, start, rounds);
    lemma_cycle_start(count);
    lemma_cycle_rounds(count);
    let joined = run(Phase::Idle, start + rounds);
    assert(run(Phase::Idle, start) == stored);
    assert(joined == run(stored, rounds));
    lemma_cycle_end(joined);
    let t1 = trace(stored, rounds);
    let total = trace(Phase::Idle, cycle_events(count));
    let a = action_of(stored);
    let f = seq![Action::FetchMaps, Action::StoreMaps];
    assert(total == (seq![Action::FetchMaps, Action::StoreMaps, a] + t1) + seq![
        Action::AwaitCycle,
    ]);
    assert(seq![Action::FetchMaps, Action::StoreMaps, a] + t1 =~= f + (seq![a] + t1));
    assert(total =~= f + poll_round_actions(count as nat) + seq![
        Action::JoinPolls,
        Action::AwaitCycle,
    ]);
}

proof fn lemma_cycle_start(count: usize)
    ensures
        run(
            Phase::Idle,
            seq![Event::CycleTick, Event::MapsFetched { count }, Event::MapsStored],
        ) == next_phase(Phase::StoringMaps { count }, Event::MapsStored),
        trace(Phase::Idle, seq![Event::CycleTick, Event::MapsFetched { count }, Event::MapsStored])
            =~= seq![
            Action::FetchMaps,
            Action::StoreMaps,
            action_of(next_phase(Phase::StoringMaps { count }, Event::MapsStored)),
        ],
{
    reveal_with_fuel(run, 4);
    reveal_with_fuel(trace, 4);
    let start = seq![Event::CycleTick, Event::MapsFetched { count }, Event::MapsStored];
    let s1 = start.drop_first();
    let s2 = s1.drop_first();
    assert(start[0] == Event::CycleTick);
    assert(s1 =~= seq![Event::MapsFetched { count }, Event::MapsStored]);
    assert(s1[0] == Event::MapsFetched { count });
    assert(s2 =~= seq![Event::MapsStored]);
    assert(s2[0] == Event::MapsStored);
    assert(s2.drop_first() =~= Seq::<Event>::empty());
}

proof fn lemma_cycle_end(joined: Phase)
    requires
        joined == (Phase::Joining { resume: true }),
    ensures
        run(joined, seq![Event::PollsJoined]) == Phase::Idle,
        trace(joined, seq![Event::PollsJoined]) =~= seq![Action::AwaitCycle],
{
    reveal_with_fuel(run, 2);
    reveal_with_fuel(trace, 2);
    let end = seq![Event::PollsJoined];
    assert(end[0] == Event::PollsJoined);
    assert(end.drop_first() =~= Seq::<Event>::empty());
}

/// The store step and the poll rounds of a cycle over `count` maps ask for
/// the poll rounds' actions, then the join.
proof fn lemma_cycle_rounds(count: usize)
    ensures
        seq![action_of(next_phase(Phase::StoringMaps { count }, Event::MapsStored))] + trace(
            next_phase(Phase::StoringMaps { count }, Event::MapsStored),
            poll_rounds(count as nat),
        ) =~= poll_round_actions(count as nat) + seq![Action::JoinPolls],
        run(
            next_phase(Phase::StoringMaps { count }, Event::MapsStored),
            poll_rounds(count as nat),
        ) == (Phase::Joining { resume: true }),
{
    let stored = next_phase(Phase::StoringMaps { count }, Event::MapsStored);
    let rounds = poll_rounds(count as nat);
    if count == 0 {
        assert(rounds =~= Seq::<Event>::empty());
        assert(trace(stored, rounds) =~= Seq::<Action>::empty());
        assert(poll_round_actions(0) =~= Seq::<Action>::empty());
        assert(run(stored, rounds) == stored);
    } else {
        lemma_pacing(count, 0);
        lemma_pacing_trace(count, 0);
        assert((count - 0) as nat == count as nat);
        let shifted = Seq::new(
            (2 * (count - 0)) as nat,
            |j: int|
                if j % 2 == 0 {
                    Action::AwaitPollTick
                } else {
                    Action::SpawnPoll { index: (0 + j / 2) as usize }
                },
        );
        assert(shifted =~= poll_round_actions(count as nat));
    }
}

/// While pacing, at any position of any list, the poller asks to wait for
/// the poll timer (never to finish or abort); while starting a poll it asks
/// for the poll of exactly the current position.
pub proof fn law_pacing_waits_for_poll_tick(count: usize, next: usize)
    requires
        next < count,
    ensures
        action_of(Phase::Pacing { count, next }) == Action::AwaitPollTick,
        action_of(Phase::Spawning { count, next }) == (Action::SpawnPoll { index: next }),
        next + 1 < count ==> next_phase(Phase::Spawning { count, next }, Event::PollSpawned) == (
        Phase::Pacing { count, next: (next + 1) as usize }),
        next + 1 == count ==> next_phase(Phase::Spawning { count, next }, Event::PollSpawned) == (
        Phase::Joining { resume: true }),
{
}

/// A phase moves only on the events it waits for: between cycles on a
/// shutdown request or the cycle timer; while fetching on the fetch's
/// outcome; while storing on the store's outcome; while pacing on a shutdown
/// request or the poll timer; while starting a poll when it has started;
/// while joining when the polls are done. Stopped and Failed never move.
pub proof fn law_only_awaited_events_move(phase: Phase, event: Event)
    ensures
        phase == Phase::Idle && event != Event::ShutdownRequested && event != Event::CycleTick
            ==> next_phase(phase, event) == phase,
        phase == Phase::FetchingMaps && !(event is MapsFetched) && event != Event::FetchFailed
            ==> next_phase(phase, event) == phase,
        phase is StoringMaps && event != Event::MapsStored && event != Event::StoreFailed
            ==> next_phase(phase, event) == phase,
        phase is Pacing && event != Event::ShutdownRequested && event != Event::PollTick
            ==> next_phase(phase, event) == phase,
        phase is Spawning && event != Event::PollSpawned ==> next_phase(phase, event) == phase,
        phase is Joining && event != Event::PollsJoined ==> next_phase(phase, event) == phase,
        phase == Phase::Stopped ==> next_phase(phase, event) == Phase::Stopped,
        phase == Phase::Failed ==> next_phase(phase, event) == Phase::Failed,
        phase == Phase::Idle && event == Event::CycleTick ==> next_phase(phase, event)
            == Phase::FetchingMaps,
        event is MapsFetched && phase == Phase::FetchingMaps ==> next_phase(phase, event) == (
        Phase::StoringMaps { count: event->count }),
        phase == (Phase::StoringMaps { count: 0 }) && event == Event::MapsStored ==> next_phase(
            phase,
            event,
        ) == (Phase::Joining { resume: true }),
        phase is StoringMaps && phase->StoringMaps_count > 0 && event == Event::MapsStored
            ==> next_phase(phase, event) == (Phase::Pacing {
            count: phase->StoringMaps_count,
            next: 0,
        }),
        phase is Pacing && event == Event::PollTick ==> next_phase(phase, event) == (
        Phase::Spawning { count: phase->Pacing_count, next: phase->Pacing_next }),
        phase == (Phase::Joining { resume: true }) && event == Event::PollsJoined ==> next_phase(
            phase,
            event,
        ) == Phase::Idle,
{
}

/// One cycle without a shutdown request or an error, over a list of `count`
/// maps, starts the poll of every map exactly once, in list order, waits for
/// them, and then waits for the next cycle.
pub proof fn law_cycle_polls_every_map_once_in_order(count: usize)
    ensures
        run(Phase::Idle, cycle_events(count)) == Phase::Idle,
        spawned(trace(Phase::Idle, cycle_events(count))) =~= Seq::new(
            count as nat,
            |i: int| i as usize,
        ),
        trace(Phase::Idle, cycle_events(count)).last() == Action::AwaitCycle,
{
    let start = seq![Event::CycleTick, Event::MapsFetched { count }, Event::MapsStored];
    let stored = next_phase(Phase::StoringMaps { count }, Event::MapsStored);
    let rounds = poll_rounds(count as nat);
    let end = seq![Event::PollsJoined];
    assert(cycle_events(count) == (start + rounds) + end);
    lemma_run_concat(Phase::Idle, start + rounds, end);
    lemma_run_concat(Phase::Idle, start, rounds);
    // The first three steps.
    assert(run(Phase::Idle, start) == stored && trace(Phase::Idle, start) =~= seq![
        Action::FetchMaps,
        Action::StoreMaps,
        action_of(stored),
    ] && spawned(trace(Phase::Idle, start)) =~= Seq::<usize>::empty()) by {
        reveal_with_fuel(run, 4);
        reveal_with_fuel(trace, 4);
        reveal_with_fuel(spawned, 4);
        let s1 = start.drop_first();
        let s2 = s1.drop_first();
        assert(start[0] == Event::CycleTick);
        assert(s1 =~= seq![Event::MapsFetched { count }, Event::MapsStored]);
        assert(s1[0] == Event::MapsFetched { count });
        assert(s2 =~= seq![Event::MapsStored]);
        assert(s2[0] == Event::MapsStored);
        assert(s2.drop_first() =~= Seq::<Event>::empty());
        let t = seq![Action::FetchMaps, Action::StoreMaps, action_of(stored)];
        assert(t.drop_first() =~= seq![Action::StoreMaps, action_of(stored)]);
        assert(t.drop_first().drop_first() =~= seq![action_of(stored)]);
        assert(t.drop_first().drop_first().drop_first() =~= Seq::<Action>::empty());
    }
    let t0 = trace(Phase::Idle, start);
    // The poll rounds.
    if count == 0 {
        assert(rounds =~= Seq::<Event>::empty());
        assert(trace(stored, rounds) =~= Seq::<Action>::empty());
        assert(spawned(trace(stored, rounds)) =~= Seq::<usize>::empty());
    } else {
        lemma_pacing(count, 0);
        assert((count - 0) as nat == count as nat);
    }
    let joined = run(Phase::Idle, start + rounds);
    assert(joined == Phase::Joining { resume: true });
    // The last step.
    let t2 = trace(joined, end);
    assert(run(joined, end) == Phase::Idle && t2 =~= seq![Action::AwaitCycle]) by {
        reveal_with_fuel(run, 2);
        reveal_with_fuel(trace, 2);
        assert(end[0] == Event::PollsJoined);
        assert(end.drop_first() =~= Seq::<Event>::empty());
    }
    assert(spawned(t2) =~= Seq::<usize>::empty()) by {
        lemma_spawned_single(Action::AwaitCycle);
    }
    lemma_spawned_concat(t0, trace(stored, rounds));
    lemma_spawned_concat(t0 + trace(stored, rounds), t2);
}

/// A shutdown request seen while pacing the polls starts no further poll:
/// the poller waits for the polls already started and then stops.
pub proof fn law_shutdown_while_pacing_waits_then_stops(count: usize, next: usize)
    requires
        next < count,
    ensures
        run(
            Phase::Pacing { count, next },
            seq![Event::ShutdownRequested, Event::PollsJoined],
        ) == Phase::Stopped,
        trace(Phase::Pacing { count, next }, seq![Event::ShutdownRequested, Event::PollsJoined])
            == seq![Action::JoinPolls, Action::Finish],
{
    lemma_two_steps(Phase::Pacing { count, next }, Event::ShutdownRequested, Event::PollsJoined);
}

/// A shutdown request seen between cycles stops the poller at once.
pub proof fn law_shutdown_when_idle_stops()
    ensures
        next_phase(Phase::Idle, Event::ShutdownRequested) == Phase::Stopped,
        action_of(next_phase(Phase::Idle, Event::ShutdownRequested)) == Action::Finish,
{
}

/// An error while fetching or storing the map list ends the program with
/// that error.
pub proof fn law_map_list_errors_abort(count: usize)
    ensures
        next_phase(Phase::FetchingMaps, Event::FetchFailed) == Phase::Failed,
        next_phase(Phase::StoringMaps { count }, Event::StoreFailed) == Phase::Failed,
        action_of(Phase::Failed) == Action::Abort,
{
}

/// Once stopped or failed, the poller stays so whatever happens, keeps
/// asking for the same final action, and never starts a poll again.
pub proof fn law_final_phases_absorb(phase: Phase, events: Seq<Event>)
    requires
        phase == Phase::Stopped || phase == Phase::Failed,
    ensures
        run(phase, events) == phase,
        trace(phase, events) =~= Seq::new(events.len(), |i: int| action_of(phase)),
        spawned(trace(phase, events)) =~= Seq::<usize>::empty(),
    decreases events.len(),
{
    if events.len() > 0 {
        law_final_phases_absorb(phase, events.drop_first());
        let rest = trace(phase, events.drop_first());
        assert(trace(phase, events) == seq![action_of(phase)] + rest);
        assert((seq![action_of(phase)] + rest).drop_first() =~= rest);
    }
}

/// Every reachable phase is well formed: a step keeps the map position
/// inside the fetched list.
pub proof fn law_steps_keep_positions_in_list(phase: Phase, event: Event)
    requires
        phase_wf(phase),
    ensures
        phase_wf(next_phase(phase, event)),
        action_of(next_phase(phase, event)) matches Action::SpawnPoll { index } ==> next_phase(
            phase,
            event,
        ) matches Phase::Spawning { count, next } && index == next && next < count,
{
}

} // verus!

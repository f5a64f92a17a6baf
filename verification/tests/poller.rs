use tempuspoints_poller::poller::{Action, Event, Phase, Poller};

fn feed(p: &mut Poller, events: &[Event]) -> Vec<Action> {
    events.iter().map(|e| p.step(*e)).collect()
}

#[test]
fn starts_idle_waiting_for_a_cycle() {
    let p = Poller::new();
    assert_eq!(p.phase(), Phase::Idle);
    assert_eq!(p.action(), Action::AwaitCycle);
}

#[test]
fn full_cycle_polls_each_map_once_in_order() {
    let mut p = Poller::new();
    let mut events = vec![Event::CycleTick, Event::MapsFetched { count: 3 }, Event::MapsStored];
    for _ in 0..3 {
        events.push(Event::PollTick);
        events.push(Event::PollSpawned);
    }
    events.push(Event::PollsJoined);
    let actions = feed(&mut p, &events);
    assert_eq!(
        actions,
        vec![
            Action::FetchMaps,
            Action::StoreMaps,
            Action::AwaitPollTick,
            Action::SpawnPoll { index: 0 },
            Action::AwaitPollTick,
            Action::SpawnPoll { index: 1 },
            Action::AwaitPollTick,
            Action::SpawnPoll { index: 2 },
            Action::JoinPolls,
            Action::AwaitCycle,
        ]
    );
    assert_eq!(p.phase(), Phase::Idle);
}

#[test]
fn empty_map_list_goes_straight_to_join() {
    let mut p = Poller::new();
    let actions = feed(
        &mut p,
        &[Event::CycleTick, Event::MapsFetched { count: 0 }, Event::MapsStored, Event::PollsJoined],
    );
    assert_eq!(
        actions,
        vec![Action::FetchMaps, Action::StoreMaps, Action::JoinPolls, Action::AwaitCycle]
    );
}

#[test]
fn shutdown_between_cycles_finishes() {
    let mut p = Poller::new();
    assert_eq!(p.step(Event::ShutdownRequested), Action::Finish);
    assert_eq!(p.phase(), Phase::Stopped);
}

#[test]
fn shutdown_while_pacing_joins_then_finishes() {
    let mut p = Poller::new();
    feed(
        &mut p,
        &[
            Event::CycleTick,
            Event::MapsFetched { count: 5 },
            Event::MapsStored,
            Event::PollTick,
            Event::PollSpawned,
        ],
    );
    assert_eq!(p.phase(), Phase::Pacing { count: 5, next: 1 });
    assert_eq!(p.step(Event::ShutdownRequested), Action::JoinPolls);
    assert_eq!(p.phase(), Phase::Joining { resume: false });
    assert_eq!(p.step(Event::PollsJoined), Action::Finish);
    assert_eq!(p.phase(), Phase::Stopped);
}

#[test]
fn fetch_failure_aborts() {
    let mut p = Poller::new();
    p.step(Event::CycleTick);
    assert_eq!(p.step(Event::FetchFailed), Action::Abort);
    assert_eq!(p.phase(), Phase::Failed);
}

#[test]
fn store_failure_aborts() {
    let mut p = Poller::new();
    feed(&mut p, &[Event::CycleTick, Event::MapsFetched { count: 2 }]);
    assert_eq!(p.step(Event::StoreFailed), Action::Abort);
    assert_eq!(p.phase(), Phase::Failed);
}

#[test]
fn final_phases_stay_final() {
    let all = [
        Event::ShutdownRequested,
        Event::CycleTick,
        Event::MapsFetched { count: 1 },
        Event::FetchFailed,
        Event::MapsStored,
        Event::StoreFailed,
        Event::PollTick,
        Event::PollSpawned,
        Event::PollsJoined,
    ];
    let mut stopped = Poller::new();
    stopped.step(Event::ShutdownRequested);
    assert!(feed(&mut stopped, &all).iter().all(|a| *a == Action::Finish));
    assert_eq!(stopped.phase(), Phase::Stopped);

    let mut failed = Poller::new();
    feed(&mut failed, &[Event::CycleTick, Event::FetchFailed]);
    assert!(feed(&mut failed, &all).iter().all(|a| *a == Action::Abort));
    assert_eq!(failed.phase(), Phase::Failed);
}

#[test]
fn unexpected_events_are_ignored() {
    let mut p = Poller::new();
    assert_eq!(p.step(Event::PollTick), Action::AwaitCycle);
    assert_eq!(p.step(Event::MapsStored), Action::AwaitCycle);
    assert_eq!(p.phase(), Phase::Idle);
    p.step(Event::CycleTick);
    // A shutdown is only seen while waiting on a timer.
    assert_eq!(p.step(Event::ShutdownRequested), Action::FetchMaps);
    assert_eq!(p.phase(), Phase::FetchingMaps);
}

#[test]
fn two_cycles_in_a_row() {
    let mut p = Poller::new();
    for _ in 0..2 {
        let actions = feed(
            &mut p,
            &[
                Event::CycleTick,
                Event::MapsFetched { count: 1 },
                Event::MapsStored,
                Event::PollTick,
                Event::PollSpawned,
                Event::PollsJoined,
            ],
        );
        assert_eq!(actions[3], Action::SpawnPoll { index: 0 });
        assert_eq!(p.phase(), Phase::Idle);
    }
}

use firmware_rs::config::POLL_INTERVAL_MS;
use firmware_rs::net::{IpConfigState, Ipv4Address, Ipv4Config};
use firmware_rs::supervisor::{Action, Event, Fatal, Phase, Supervisor};

fn lease() -> Ipv4Config {
    Ipv4Config {
        address: Ipv4Address(192, 168, 1, 57),
        prefix_len: 24,
        gateway: Some(Ipv4Address(192, 168, 1, 1)),
    }
}

/// A supervisor whose runners are up and whose first association attempt
/// is under way.
fn joining() -> Supervisor {
    let mut supervisor = Supervisor::new();
    assert_eq!(supervisor.step(Event::Boot), Some(Action::StartRadioRunner));
    assert_eq!(supervisor.step(Event::RadioRunnerStarted), Some(Action::StartStackRunner));
    assert_eq!(supervisor.step(Event::StackRunnerStarted), Some(Action::Join));
    assert_eq!(supervisor.phase(), Phase::Joining);
    supervisor
}

#[test]
fn new_supervisor_has_started_nothing() {
    let supervisor = Supervisor::new();
    assert_eq!(supervisor.phase(), Phase::Idle);
    assert_eq!(supervisor.ip_state(), IpConfigState::Unconfigured);
}

#[test]
fn runners_are_started_before_the_first_join() {
    let mut supervisor = Supervisor::new();
    assert_eq!(supervisor.step(Event::Boot), Some(Action::StartRadioRunner));
    assert_eq!(supervisor.phase(), Phase::StartingRadio);
    assert_eq!(supervisor.step(Event::RadioRunnerStarted), Some(Action::StartStackRunner));
    assert_eq!(supervisor.phase(), Phase::StartingStack);
    assert_eq!(supervisor.step(Event::StackRunnerStarted), Some(Action::Join));
    assert_eq!(supervisor.phase(), Phase::Joining);
}

#[test]
fn a_runner_is_not_started_twice() {
    let mut supervisor = joining();
    assert_eq!(supervisor.step(Event::Boot), None);
    assert_eq!(supervisor.step(Event::RadioRunnerStarted), None);
    assert_eq!(supervisor.step(Event::StackRunnerStarted), None);
    assert_eq!(supervisor.phase(), Phase::Joining);
}

#[test]
fn stack_runner_waits_for_radio_runner() {
    let mut supervisor = Supervisor::new();
    supervisor.step(Event::Boot);
    assert_eq!(supervisor.step(Event::StackRunnerStarted), None);
    assert_eq!(supervisor.phase(), Phase::StartingRadio);
}

#[test]
fn failed_join_is_retried_at_once_with_its_status() {
    let mut supervisor = joining();
    assert_eq!(
        supervisor.step(Event::JoinFailed { status: 3 }),
        Some(Action::Rejoin { status: 3 })
    );
    assert_eq!(supervisor.phase(), Phase::Joining);
    assert_eq!(
        supervisor.step(Event::JoinFailed { status: u32::MAX }),
        Some(Action::Rejoin { status: u32::MAX })
    );
    assert_eq!(supervisor.phase(), Phase::Joining);
}

#[test]
fn join_loop_never_gives_up() {
    let mut supervisor = joining();
    for attempt in 0..10_000u32 {
        assert_eq!(
            supervisor.step(Event::JoinFailed { status: attempt }),
            Some(Action::Rejoin { status: attempt })
        );
        assert_eq!(supervisor.phase(), Phase::Joining);
    }
    assert_eq!(supervisor.step(Event::Joined), Some(Action::PollConfig));
    assert_eq!(supervisor.phase(), Phase::PollingConfig);
}

#[test]
fn join_loop_is_left_once_after_failures_and_a_success() {
    let mut supervisor = joining();
    let events = vec![
        Event::JoinFailed { status: 1 },
        Event::JoinFailed { status: 2 },
        Event::JoinFailed { status: 3 },
        Event::Joined,
    ];
    let named = supervisor.drive(&events);
    assert_eq!(
        named,
        vec![
            Action::Rejoin { status: 1 },
            Action::Rejoin { status: 2 },
            Action::Rejoin { status: 3 },
            Action::PollConfig,
        ]
    );
    assert_eq!(supervisor.phase(), Phase::PollingConfig);
    // Joining is over: neither outcome of an attempt is expected any more.
    assert_eq!(supervisor.step(Event::Joined), None);
    assert_eq!(supervisor.step(Event::JoinFailed { status: 4 }), None);
    assert_eq!(supervisor.phase(), Phase::PollingConfig);
}

#[test]
fn only_a_join_result_moves_the_join_loop() {
    let mut supervisor = joining();
    for event in [
        Event::Boot,
        Event::RadioRunnerStarted,
        Event::StackRunnerStarted,
        Event::ConfigPolled { up: true },
        Event::ConfigPolled { up: false },
        Event::IntervalElapsed,
        Event::AddressRead(Some(lease())),
        Event::AddressRead(None),
    ] {
        assert_eq!(supervisor.step(event), None);
        assert_eq!(supervisor.phase(), Phase::Joining);
    }
}

#[test]
fn unconfigured_stack_is_polled_again_only_after_the_interval() {
    let mut supervisor = joining();
    assert_eq!(supervisor.step(Event::Joined), Some(Action::PollConfig));
    assert_eq!(
        supervisor.step(Event::ConfigPolled { up: false }),
        Some(Action::Sleep { millis: 100 })
    );
    assert_eq!(supervisor.phase(), Phase::Sleeping);
    // While suspended, no answer of the stack is taken.
    assert_eq!(supervisor.step(Event::ConfigPolled { up: true }), None);
    assert_eq!(supervisor.step(Event::ConfigPolled { up: false }), None);
    assert_eq!(supervisor.step(Event::AddressRead(Some(lease()))), None);
    assert_eq!(supervisor.phase(), Phase::Sleeping);
    assert_eq!(supervisor.step(Event::IntervalElapsed), Some(Action::PollConfig));
    assert_eq!(supervisor.phase(), Phase::PollingConfig);
}

#[test]
fn poll_interval_is_a_tenth_of_a_second() {
    assert_eq!(POLL_INTERVAL_MS, 100);
    let mut supervisor = joining();
    supervisor.step(Event::Joined);
    assert_eq!(
        supervisor.step(Event::ConfigPolled { up: false }),
        Some(Action::Sleep { millis: POLL_INTERVAL_MS })
    );
}

#[test]
fn every_poll_but_the_first_follows_a_sleep() {
    let mut supervisor = joining();
    let mut events = vec![Event::Joined];
    for _ in 0..50 {
        events.push(Event::ConfigPolled { up: false });
        events.push(Event::IntervalElapsed);
    }
    events.push(Event::ConfigPolled { up: true });
    let named = supervisor.drive(&events);
    assert_eq!(named.len(), 102);
    assert_eq!(named[0], Action::PollConfig);
    for i in 1..named.len() {
        if named[i] == Action::PollConfig {
            assert_eq!(named[i - 1], Action::Sleep { millis: 100 });
        }
    }
    assert_eq!(named[101], Action::ReadAddress);
    assert_eq!(supervisor.phase(), Phase::ReadingAddress);
}

#[test]
fn configured_stack_is_asked_for_its_address_without_sleeping() {
    let mut supervisor = joining();
    supervisor.step(Event::Joined);
    assert_eq!(supervisor.step(Event::ConfigPolled { up: true }), Some(Action::ReadAddress));
    assert_eq!(supervisor.phase(), Phase::ReadingAddress);
    assert_eq!(supervisor.step(Event::IntervalElapsed), None);
}

#[test]
fn address_of_the_stack_is_announced() {
    let mut supervisor = joining();
    supervisor.step(Event::Joined);
    supervisor.step(Event::ConfigPolled { up: true });
    assert_eq!(supervisor.ip_state(), IpConfigState::Unconfigured);
    assert_eq!(
        supervisor.step(Event::AddressRead(Some(lease()))),
        Some(Action::Announce(lease()))
    );
    assert_eq!(supervisor.phase(), Phase::Online(lease()));
    assert_eq!(supervisor.ip_state(), IpConfigState::Configured(lease()));
}

#[test]
fn configured_stack_without_address_halts() {
    let mut supervisor = joining();
    supervisor.step(Event::Joined);
    supervisor.step(Event::ConfigPolled { up: true });
    assert_eq!(
        supervisor.step(Event::AddressRead(None)),
        Some(Action::Halt(Fatal::ConfiguredWithoutAddress))
    );
    assert_eq!(supervisor.phase(), Phase::Halted(Fatal::ConfiguredWithoutAddress));
    assert_eq!(supervisor.ip_state(), IpConfigState::Unconfigured);
}

#[test]
fn nothing_follows_the_last_phases() {
    let all = [
        Event::Boot,
        Event::RadioRunnerStarted,
        Event::StackRunnerStarted,
        Event::Joined,
        Event::JoinFailed { status: 0 },
        Event::ConfigPolled { up: true },
        Event::ConfigPolled { up: false },
        Event::IntervalElapsed,
        Event::AddressRead(Some(lease())),
        Event::AddressRead(None),
    ];
    let mut online = joining();
    online.drive(&vec![
        Event::Joined,
        Event::ConfigPolled { up: true },
        Event::AddressRead(Some(lease())),
    ]);
    let mut halted = joining();
    halted.drive(&vec![Event::Joined, Event::ConfigPolled { up: true }, Event::AddressRead(None)]);
    for event in all {
        assert_eq!(online.step(event), None);
        assert_eq!(online.phase(), Phase::Online(lease()));
        assert_eq!(halted.step(event), None);
        assert_eq!(halted.phase(), Phase::Halted(Fatal::ConfiguredWithoutAddress));
    }
}

#[test]
fn drive_of_no_events_names_nothing() {
    let mut supervisor = Supervisor::new();
    assert_eq!(supervisor.drive(&Vec::new()), Vec::new());
    assert_eq!(supervisor.phase(), Phase::Idle);
}

#[test]
fn drive_skips_events_out_of_order() {
    let mut supervisor = Supervisor::new();
    let named = supervisor.drive(&vec![
        Event::Joined,
        Event::Boot,
        Event::IntervalElapsed,
        Event::RadioRunnerStarted,
    ]);
    assert_eq!(named, vec![Action::StartRadioRunner, Action::StartStackRunner]);
    assert_eq!(supervisor.phase(), Phase::StartingStack);
}

/// An access point that refuses twice and then accepts, and an address
/// server that answers after one polling interval.
#[test]
fn bring_up_round_trip() {
    let assigned = Ipv4Config {
        address: Ipv4Address(10, 0, 0, 42),
        prefix_len: 8,
        gateway: None,
    };
    let mut refusals_left = 2u32;
    let mut slept_ms = 0u64;
    let mut radio_runners = 0;
    let mut stack_runners = 0;
    let mut joined = false;
    let mut reported = None;
    let mut statuses = Vec::new();

    let mut supervisor = Supervisor::new();
    let mut event = Event::Boot;
    let mut steps = 0;
    loop {
        steps += 1;
        assert!(steps < 100, "the sequence does not end");
        let action = supervisor.step(event).expect("the event answers the action");
        event = match action {
            Action::StartRadioRunner => {
                radio_runners += 1;
                Event::RadioRunnerStarted
            }
            Action::StartStackRunner => {
                stack_runners += 1;
                Event::StackRunnerStarted
            }
            Action::Join | Action::Rejoin { .. } => {
                assert_eq!((radio_runners, stack_runners), (1, 1));
                if let Action::Rejoin { status } = action {
                    statuses.push(status);
                }
                if refusals_left > 0 {
                    refusals_left -= 1;
                    Event::JoinFailed { status: 100 + refusals_left }
                } else {
                    joined = true;
                    Event::Joined
                }
            }
            Action::PollConfig => {
                assert!(joined);
                Event::ConfigPolled { up: slept_ms >= POLL_INTERVAL_MS }
            }
            Action::Sleep { millis } => {
                slept_ms += millis;
                Event::IntervalElapsed
            }
            Action::ReadAddress => Event::AddressRead(Some(assigned)),
            Action::Announce(config) => {
                reported = Some(config);
                break;
            }
            Action::Halt(_) => panic!("the stack had an address"),
        };
    }
    assert_eq!(reported, Some(assigned));
    assert_eq!(supervisor.phase(), Phase::Online(assigned));
    assert_eq!(supervisor.ip_state(), IpConfigState::Configured(assigned));
    assert_eq!(statuses, vec![101, 100]);
    assert_eq!(slept_ms, 100);
    assert_eq!((radio_runners, stack_runners), (1, 1));
}

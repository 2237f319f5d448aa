//! The connectivity supervisor: starts the two background runners, joins
//! the access point, waits for an address and announces it.
//!
//! The supervisor does no I/O. [`Supervisor::step`] takes what came of the
//! last action and names the next one; the caller carries it out. Joining
//! is retried at once and without limit, and the wait for an address
//! suspends the caller between any two looks at the stack.

use vstd::prelude::*;
use crate::config::POLL_INTERVAL_MS;
use crate::net::{IpConfigState, Ipv4Config};

verus! {

/// A contradiction in what the IP stack reports; the device cannot go on.
#[derive(Clone, Copy, Debug, PartialEq, Eq)]
pub enum Fatal {
    /// The stack said it was configured and then had no address to give.
    ConfiguredWithoutAddress,
}

/// Where the bring-up sequence stands.
#[derive(Clone, Copy, Debug, PartialEq, Eq)]
pub enum Phase {
    /// Nothing has been started.
    Idle,
    /// The radio driver runner is being started.
    StartingRadio,
    /// The radio runner is up; the network stack runner is being started.
    StartingStack,
    /// Both runners are up; an association attempt is under way.
    Joining,
    /// Associated; the stack has been asked whether it is configured.
    PollingConfig,
    /// The stack was not configured; the caller is suspended.
    Sleeping,
    /// The stack was configured; its address has been asked for.
    ReadingAddress,
    /// The device holds this configuration.
    Online(Ipv4Config),
    /// The sequence stopped for good.
    Halted(Fatal),
}

/// What came of the action the supervisor named last.
#[derive(Clone, Copy, Debug, PartialEq, Eq)]
pub enum Event {
    /// The device has powered up.
    Boot,
    /// The radio driver runner is running as a task of its own.
    RadioRunnerStarted,
    /// The network stack runner is running as a task of its own.
    StackRunnerStarted,
    /// The access point accepted the association.
    Joined,
    /// The association attempt failed with this status.
    JoinFailed { status: u32 },
    /// The stack answered whether it holds a configuration.
    ConfigPolled { up: bool },
    /// The polling interval has passed.
    IntervalElapsed,
    /// The stack answered with its address, or with none.
    AddressRead(Option<Ipv4Config>),
}

/// What the caller is to do next.
#[derive(Clone, Copy, Debug, PartialEq, Eq)]
pub enum Action {
    /// Start the radio driver runner as a background task.
    StartRadioRunner,
    /// Start the network stack runner as a background task.
    StartStackRunner,
    /// Try to associate with the access point.
    Join,
    /// Report the failure status, then try to associate again at once.
    Rejoin { status: u32 },
    /// Ask the stack whether it holds a configuration.
    PollConfig,
    /// Suspend for this many milliseconds, then say so.
    Sleep { millis: u64 },
    /// Ask the stack for its address.
    ReadAddress,
    /// Report the address; the network is ready for use.
    Announce(Ipv4Config),
    /// Stop the device.
    Halt(Fatal),
}

/// The supervisor's rule: the phase and action that follow `event` in
/// `phase`, or `None` where `phase` does not expect `event`.
pub open spec fn transition(phase: Phase, event: Event) -> Option<(Phase, Action)> {
    match (phase, event) {
        (Phase::Idle, Event::Boot) => Some((Phase::StartingRadio, Action::StartRadioRunner)),
        (Phase::StartingRadio, Event::RadioRunnerStarted) => Some(
            (Phase::StartingStack, Action::StartStackRunner),
        ),
        (Phase::StartingStack, Event::StackRunnerStarted) => Some((Phase::Joining, Action::Join)),
        (Phase::Joining, Event::JoinFailed { status }) => Some(
            (Phase::Joining, Action::Rejoin { status }),
        ),
        (Phase::Joining, Event::Joined) => Some((Phase::PollingConfig, Action::PollConfig)),
        (Phase::PollingConfig, Event::ConfigPolled { up }) => if up {
            Some((Phase::ReadingAddress, Action::ReadAddress))
        } else {
            Some((Phase::Sleeping, Action::Sleep { millis: POLL_INTERVAL_MS }))
        },
        (Phase::Sleeping, Event::IntervalElapsed) => Some(
            (Phase::PollingConfig, Action::PollConfig),
        ),
        (Phase::ReadingAddress, Event::AddressRead(Some(config))) => Some(
            (Phase::Online(config), Action::Announce(config)),
        ),
        (Phase::ReadingAddress, Event::AddressRead(None)) => Some(
            (
                Phase::Halted(Fatal::ConfiguredWithoutAddress),
                Action::Halt(Fatal::ConfiguredWithoutAddress),
            ),
        ),
        _ => None,
    }
}

/// The phase after `event`: the one [`transition`] gives, or `phase`
/// itself where the event is not expected.
pub open spec fn phase_after(phase: Phase, event: Event) -> Phase {
    match transition(phase, event) {
        Some((next, _)) => next,
        None => phase,
    }
}

/// The phase reached from `phase` by `events`, taken in order.
pub open spec fn run(phase: Phase, events: Seq<Event>) -> Phase
    decreases events.len(),
{
    if events.len() == 0 {
        phase
    } else {
        phase_after(run(phase, events.drop_last()), events.last())
    }
}

/// The actions named on the way from `phase` through `events`, in order.
/// An event that is not expected names none.
pub open spec fn actions(phase: Phase, events: Seq<Event>) -> Seq<Action>
    decreases events.len(),
{
    if events.len() == 0 {
        Seq::empty()
    } else {
        let before = actions(phase, events.drop_last());
        match transition(run(phase, events.drop_last()), events.last()) {
            Some((_, action)) => before.push(action),
            None => before,
        }
    }
}

/// What a client of the network may assume in `phase`: a configuration
/// once the supervisor is online, none before.
pub open spec fn ip_state_in(phase: Phase) -> IpConfigState {
    match phase {
        Phase::Online(config) => IpConfigState::Configured(config),
        _ => IpConfigState::Unconfigured,
    }
}

/// True once both runners have been started.
pub open spec fn runners_up(phase: Phase) -> bool {
    !(phase is Idle || phase is StartingRadio || phase is StartingStack)
}

/// The bring-up sequence of one device.
pub struct Supervisor {
    phase: Phase,
}

impl View for Supervisor {
    type V = Phase;

    closed spec fn view(&self) -> Phase {
        self.phase
    }
}

impl Supervisor {
    /// A supervisor that has started nothing.
    pub fn new() -> (supervisor: Self)
        ensures
            supervisor@ == Phase::Idle,
    {
        Supervisor { phase: Phase::Idle }
    }

    /// The current phase.
    pub fn phase(&self) -> (phase: Phase)
        ensures
            phase == self@,
    {
        self.phase
    }

    /// The configuration state a client of the network is to be shown.
    pub fn ip_state(&self) -> (state: IpConfigState)
        ensures
            state == ip_state_in(self@),
    {
        match self.phase {
            Phase::Online(config) => IpConfigState::Configured(config),
            _ => IpConfigState::Unconfigured,
        }
    }

    /// Takes `event` and names the next action. An event the current phase
    /// does not expect changes nothing and names no action.
    pub fn step(&mut self, event: Event) -> (action: Option<Action>)
        ensures
            final(self)@ == phase_after(old(self)@, event),
            action == match transition(old(self)@, event) {
                Some((_, action)) => Some(action),
                None => None,
            },
    {
        let (next, action) = match (self.phase, event) {
            (Phase::Idle, Event::Boot) => (Phase::StartingRadio, Action::StartRadioRunner),
            (Phase::StartingRadio, Event::RadioRunnerStarted) => (
                Phase::StartingStack,
                Action::StartStackRunner,
            ),
            (Phase::StartingStack, Event::StackRunnerStarted) => (Phase::Joining, Action::Join),
            (Phase::Joining, Event::JoinFailed { status }) => (
                Phase::Joining,
                Action::Rejoin { status },
            ),
            (Phase::Joining, Event::Joined) => (Phase::PollingConfig, Action::PollConfig),
            (Phase::PollingConfig, Event::ConfigPolled { up: true }) => (
                Phase::ReadingAddress,
                Action::ReadAddress,
            ),
            (Phase::PollingConfig, Event::ConfigPolled { up: false }) => (
                Phase::Sleeping,
                Action::Sleep { millis: POLL_INTERVAL_MS },
            ),
            (Phase::Sleeping, Event::IntervalElapsed) => (Phase::PollingConfig, Action::PollConfig),
            (Phase::ReadingAddress, Event::AddressRead(Some(config))) => (
                Phase::Online(config),
                Action::Announce(config),
            ),
            (Phase::ReadingAddress, Event::AddressRead(None)) => (
                Phase::Halted(Fatal::ConfiguredWithoutAddress),
                Action::Halt(Fatal::ConfiguredWithoutAddress),
            ),
            _ => {
                return None;
            },
        };
        self.phase = next;
        Some(action)
    }

    /// Takes `events` in order and returns the actions they name.
    pub fn drive(&mut self, events: &Vec<Event>) -> (named: Vec<Action>)
        ensures
            final(self)@ == run(old(self)@, events@),
            named@ == actions(old(self)@, events@),
    {
        let mut named: Vec<Action> = Vec::new();
        let mut i: usize = 0;
        while i < events.len()
            invariant
                i <= events.len(),
                self@ == run(old(self)@, events@.take(i as int)),
                named@ == actions(old(self)@, events@.take(i as int)),
            decreases events.len() - i,
        {
            proof {
                let next = events@.take(i + 1);
                assert(next.drop_last() == events@.take(i as int));
            }
            if let Some(action) = self.step(events[i]) {
                named.push(action);
            }
            i += 1;
        }
        proof {
            assert(events@.take(events@.len() as int) == events@);
        }
        named
    }
}

/// Position of `phase` in the sequence: later phases have higher ranks, and
/// the two phases of the wait for an address share one.
pub open spec fn rank(phase: Phase) -> nat {
    match phase {
        Phase::Idle => 0,
        Phase::StartingRadio => 1,
        Phase::StartingStack => 2,
        Phase::Joining => 3,
        Phase::PollingConfig => 4,
        Phase::Sleeping => 4,
        Phase::ReadingAddress => 5,
        Phase::Online(_) => 6,
        Phase::Halted(_) => 6,
    }
}

/// Number of steps on the way from `phase` through `events` that leave
/// [`Phase::Joining`] for another phase.
pub open spec fn departures_from_join(phase: Phase, events: Seq<Event>) -> nat
    decreases events.len(),
{
    if events.len() == 0 {
        0
    } else {
        let before = run(phase, events.drop_last());
        let earlier = departures_from_join(phase, events.drop_last());
        if before is Joining && !(phase_after(before, events.last()) is Joining) {
            earlier + 1
        } else {
            earlier
        }
    }
}

/// Number of [`Action::PollConfig`] in `trace` since its last
/// [`Action::Sleep`], or in all of it where it holds none.
pub open spec fn polls_since_sleep(trace: Seq<Action>) -> nat
    decreases trace.len(),
{
    if trace.len() == 0 {
        0
    } else {
        match trace.last() {
            Action::Sleep { .. } => 0,
            Action::PollConfig => polls_since_sleep(trace.drop_last()) + 1,
            _ => polls_since_sleep(trace.drop_last()),
        }
    }
}

/// No step goes back: the phase after an event ranks at least as high as
/// the phase before it, and an event that is accepted in the last phases
/// does not exist.
pub proof fn phases_advance_in_order(phase: Phase, event: Event)
    ensures
        rank(phase_after(phase, event)) >= rank(phase),
        phase is Online || phase is Halted ==> transition(phase, event) is None,
{
}

/// However many events arrive, the phase reached ranks at least as high as
/// the phase the run began in.
pub proof fn runs_advance_in_order(phase: Phase, events: Seq<Event>)
    ensures
        rank(run(phase, events)) >= rank(phase),
    decreases events.len(),
{
    if events.len() > 0 {
        runs_advance_in_order(phase, events.drop_last());
        phases_advance_in_order(run(phase, events.drop_last()), events.last());
    }
}

/// The join loop is left on a successful association and on nothing else.
/// Whatever events arrive while joining: as long as none of them is
/// [`Event::Joined`] the supervisor is still joining and has never moved
/// on; once one of them is, it has moved on exactly once and does not
/// join again.
pub proof fn join_is_left_only_on_success(events: Seq<Event>)
    ensures
        !events.contains(Event::Joined) ==> run(Phase::Joining, events) == Phase::Joining
            && departures_from_join(Phase::Joining, events) == 0,
        events.contains(Event::Joined) ==> !(run(Phase::Joining, events) is Joining)
            && departures_from_join(Phase::Joining, events) == 1,
    decreases events.len(),
{
    if events.len() > 0 {
        let earlier = events.drop_last();
        join_is_left_only_on_success(earlier);
        runs_advance_in_order(Phase::Joining, earlier);
        phases_advance_in_order(run(Phase::Joining, earlier), events.last());
        if earlier.contains(Event::Joined) {
            let i = earlier.index_of(Event::Joined);
            assert(events[i] == Event::Joined);
        } else if events.last() != Event::Joined {
            assert forall|i: int| 0 <= i < events.len() implies events[i] != Event::Joined by {
                if i < earlier.len() {
                    assert(earlier[i] == events[i]);
                }
            }
        }
    }
}

/// Any number of failed attempts followed by one success: every failure is
/// answered by a retry that carries its status, the success by the first
/// look at the configuration, and the supervisor ends waiting for an
/// address.
pub proof fn failures_then_success_move_on_once(statuses: Seq<u32>)
    ensures
        ({
            let failures = Seq::new(statuses.len(), |i: int| Event::JoinFailed { status: statuses[i] });
            let retries = Seq::new(statuses.len(), |i: int| Action::Rejoin { status: statuses[i] });
            &&& run(Phase::Joining, failures) == Phase::Joining
            &&& actions(Phase::Joining, failures) == retries
            &&& run(Phase::Joining, failures.push(Event::Joined)) == Phase::PollingConfig
            &&& actions(Phase::Joining, failures.push(Event::Joined)) == retries.push(
                Action::PollConfig,
            )
            &&& departures_from_join(Phase::Joining, failures.push(Event::Joined)) == 1
        }),
    decreases statuses.len(),
{
    let failures = Seq::new(statuses.len(), |i: int| Event::JoinFailed { status: statuses[i] });
    let retries = Seq::new(statuses.len(), |i: int| Action::Rejoin { status: statuses[i] });
    if statuses.len() > 0 {
        let shorter = statuses.drop_last();
        failures_then_success_move_on_once(shorter);
        assert(failures.drop_last() == Seq::new(
            shorter.len(),
            |i: int| Event::JoinFailed { status: shorter[i] },
        ));
        assert(retries.drop_last() == Seq::new(
            shorter.len(),
            |i: int| Action::Rejoin { status: shorter[i] },
        ));
    }
    let all = failures.push(Event::Joined);
    assert(all.drop_last() == failures);
    assert(all.contains(Event::Joined)) by {
        assert(all[all.len() - 1] == Event::Joined);
    }
    join_is_left_only_on_success(all);
}

proof fn lemma_polls(phase: Phase, events: Seq<Event>)
    ensures
        polls_since_sleep(actions(phase, events)) <= 1,
        run(phase, events) is Sleeping || rank(run(phase, events)) <= 3 ==> polls_since_sleep(
            actions(phase, events),
        ) == 0,
        rank(run(phase, events)) <= 3 ==> rank(phase) <= 3,
    decreases events.len(),
{
    if events.len() > 0 {
        let earlier = events.drop_last();
        lemma_polls(phase, earlier);
        let before = run(phase, earlier);
        let trace = actions(phase, earlier);
        phases_advance_in_order(before, events.last());
        match transition(before, events.last()) {
            Some((_, action)) => {
                assert(trace.push(action).drop_last() == trace);
            },
            None => {},
        }
    }
}

/// The wait for an address never looks at the stack twice without
/// suspending in between: in the actions named on any run, from any phase,
/// at most one [`Action::PollConfig`] stands after the last
/// [`Action::Sleep`], and every suspension lasts the polling interval.
pub proof fn polls_are_separated_by_sleep(phase: Phase, events: Seq<Event>)
    ensures
        polls_since_sleep(actions(phase, events)) <= 1,
        forall|i: int|
            0 <= i < actions(phase, events).len() && #[trigger] actions(phase, events)[i] is Sleep
                ==> actions(phase, events)[i] == (Action::Sleep { millis: POLL_INTERVAL_MS }),
    decreases events.len(),
{
    lemma_polls(phase, events);
    if events.len() > 0 {
        polls_are_separated_by_sleep(phase, events.drop_last());
    }
}

/// A stack that is not configured suspends the caller: that answer is
/// followed by a sleep of the polling interval and by nothing else, and
/// while the caller sleeps only the end of the interval is expected, which
/// brings the next look at the stack.
pub proof fn unconfigured_stack_suspends_the_caller(event: Event)
    ensures
        transition(Phase::PollingConfig, Event::ConfigPolled { up: false }) == Some(
            (Phase::Sleeping, Action::Sleep { millis: POLL_INTERVAL_MS }),
        ),
        transition(Phase::Sleeping, event) is Some <==> event == Event::IntervalElapsed,
        transition(Phase::Sleeping, Event::IntervalElapsed) == Some(
            (Phase::PollingConfig, Action::PollConfig),
        ),
{
}

/// Each runner is started once, the radio's first and the stack's second,
/// and every other action comes after both: on any run from
/// [`Phase::Idle`] the first action is [`Action::StartRadioRunner`], the
/// second [`Action::StartStackRunner`], no later one is either, and a third
/// has been named exactly when both runners are up.
pub proof fn runners_start_once_and_first(events: Seq<Event>)
    ensures
        ({
            let named = actions(Phase::Idle, events);
            let phase = run(Phase::Idle, events);
            &&& named.len() > 0 ==> named[0] == Action::StartRadioRunner
            &&& named.len() > 1 ==> named[1] == Action::StartStackRunner
            &&& forall|i: int|
                2 <= i < named.len() ==> !(#[trigger] named[i] is StartRadioRunner) && !(
                named[i] is StartStackRunner)
            &&& phase is Idle <==> named.len() == 0
            &&& phase is StartingRadio <==> named.len() == 1
            &&& phase is StartingStack <==> named.len() == 2
            &&& runners_up(phase) <==> named.len() >= 3
        }),
    decreases events.len(),
{
    if events.len() > 0 {
        runners_start_once_and_first(events.drop_last());
    }
}

/// True where the first `n` of `events` hold a successful association.
spec fn joined_within(events: Seq<Event>, n: int) -> bool {
    exists|i: int| 0 <= i < n && i < events.len() && #[trigger] events[i] == Event::Joined
}

/// True where the first `n` of `events` hold, after a successful
/// association, the stack's word that it is configured.
spec fn configured_within(events: Seq<Event>, n: int) -> bool {
    exists|j: int|
        0 <= j < n && j < events.len() && #[trigger] events[j] == (Event::ConfigPolled {
            up: true,
        }) && joined_within(events, j)
}

/// True where `events` hold in this order: a successful association, the
/// stack's word that it is configured, and `config` read from it.
spec fn brought_online(events: Seq<Event>, config: Ipv4Config) -> bool {
    exists|k: int|
        0 <= k < events.len() && #[trigger] events[k] == Event::AddressRead(Some(config))
            && configured_within(events, k)
}

proof fn lemma_within_grows(events: Seq<Event>, n: int)
    requires
        events.len() > 0,
        0 <= n < events.len(),
    ensures
        joined_within(events.drop_last(), n) ==> joined_within(events, n),
        configured_within(events.drop_last(), n) ==> configured_within(events, n),
{
    let earlier = events.drop_last();
    if joined_within(earlier, n) {
        let i = choose|i: int| 0 <= i < n && i < earlier.len() && earlier[i] == Event::Joined;
        assert(events[i] == Event::Joined);
    }
    if configured_within(earlier, n) {
        let j = choose|j: int|
            0 <= j < n && j < earlier.len() && earlier[j] == (Event::ConfigPolled { up: true })
                && joined_within(earlier, j);
        let i = choose|i: int| 0 <= i < j && i < earlier.len() && earlier[i] == Event::Joined;
        assert(events[i] == Event::Joined);
        assert(events[j] == (Event::ConfigPolled { up: true }));
    }
}

proof fn lemma_order(events: Seq<Event>, config: Ipv4Config)
    ensures
        rank(run(Phase::Idle, events)) >= 4 ==> joined_within(events, events.len() as int),
        rank(run(Phase::Idle, events)) >= 5 ==> configured_within(events, events.len() as int),
        run(Phase::Idle, events) == Phase::Online(config) ==> brought_online(events, config),
    decreases events.len(),
{
    if events.len() > 0 {
        let earlier = events.drop_last();
        let last = events.len() - 1;
        lemma_order(earlier, config);
        let before = run(Phase::Idle, earlier);
        phases_advance_in_order(before, events.last());
        // What the events held before their last, they still hold.
        if joined_within(earlier, last) {
            lemma_within_grows(events, last);
        }
        if configured_within(earlier, last) {
            lemma_within_grows(events, last);
        }
        if before == Phase::Online(config) {
            let k = choose|k: int|
                0 <= k < earlier.len() && earlier[k] == Event::AddressRead(Some(config))
                    && configured_within(earlier, k);
            lemma_within_grows(events, k);
            assert(events[k] == Event::AddressRead(Some(config)));
        }
        // A step that reaches a phase was taken on the event that phase waits for.
        if rank(before) < 4 <= rank(run(Phase::Idle, events)) {
            assert(events[last] == Event::Joined);
        }
        if rank(before) < 5 <= rank(run(Phase::Idle, events)) {
            assert(events[last] == (Event::ConfigPolled { up: true }));
        }
        if !(before is Online) && run(Phase::Idle, events) == Phase::Online(config) {
            assert(events[last] == Event::AddressRead(Some(config)));
        }
    }
}

/// Nothing may use the network before it is configured, and the supervisor
/// shows a configuration only at the end of the whole sequence: where a
/// run from [`Phase::Idle`] lets a client see `config`, its events hold, in
/// this order, a successful association, the stack's word that it is
/// configured, and that very `config` read from the stack.
pub proof fn configuration_is_shown_last(events: Seq<Event>, config: Ipv4Config)
    requires
        ip_state_in(run(Phase::Idle, events)) == IpConfigState::Configured(config),
    ensures
        exists|i: int, j: int, k: int|
            0 <= i < j < k < events.len() && #[trigger] events[i] == Event::Joined
                && #[trigger] events[j] == (Event::ConfigPolled { up: true })
                && #[trigger] events[k] == Event::AddressRead(Some(config)),
{
    lemma_order(events, config);
    let k = choose|k: int|
        0 <= k < events.len() && events[k] == Event::AddressRead(Some(config))
            && configured_within(events, k);
    let j = choose|j: int|
        0 <= j < k && j < events.len() && events[j] == (Event::ConfigPolled { up: true })
            && joined_within(events, j);
    let i = choose|i: int| 0 <= i < j && i < events.len() && events[i] == Event::Joined;
    assert(events[i] == Event::Joined && events[j] == (Event::ConfigPolled { up: true })
        && events[k] == Event::AddressRead(Some(config)));
}

} // verus!

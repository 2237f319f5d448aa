//! The plain write path: one fixed request written to an open socket and
//! flushed, to see that the connection carries data at all.
//!
//! Whether a failure on this path stops the device is a choice, named by
//! [`FailurePolicy`] and made by whoever starts the probe.

use vstd::prelude::*;

verus! {

/// What a failure on the write path leads to.
#[derive(Clone, Copy, Debug, PartialEq, Eq)]
pub enum FailurePolicy {
    /// The device stops.
    Abort,
    /// The failure is reported and everything else goes on.
    Report,
}

/// The step of the write path that failed.
#[derive(Clone, Copy, Debug, PartialEq, Eq)]
pub enum ProbeFailure {
    /// The socket refused the request.
    Write,
    /// The socket took the request and failed to send it out.
    Flush,
}

/// Where the probe stands.
#[derive(Clone, Copy, Debug, PartialEq, Eq)]
pub enum ProbeState {
    /// The request is being written.
    Writing,
    /// The socket took `written` bytes and is being flushed.
    Flushing { written: usize },
    /// `written` bytes went out.
    Done { written: usize },
    /// The probe failed for good.
    Failed(ProbeFailure),
}

/// What came of the probe's last step.
#[derive(Clone, Copy, Debug, PartialEq, Eq)]
pub enum ProbeEvent {
    /// The socket took this many bytes.
    Wrote(usize),
    /// The write failed.
    WriteFailed,
    /// The socket was flushed.
    Flushed,
    /// The flush failed.
    FlushFailed,
}

/// What the caller is to do next.
#[derive(Clone, Copy, Debug, PartialEq, Eq)]
pub enum ProbeAction {
    /// Report that `written` bytes were taken, then flush the socket.
    Flush { written: usize },
    /// Nothing more: the probe is done.
    Finish,
    /// Report the failure and go on.
    Report(ProbeFailure),
    /// Stop the device.
    Abort(ProbeFailure),
}

/// A probe as contracts see it.
pub struct ProbeView {
    /// What a failure leads to.
    pub policy: FailurePolicy,
    /// Where the probe stands.
    pub state: ProbeState,
}

/// The action that answers `failure` under `policy`.
pub open spec fn failure_action(policy: FailurePolicy, failure: ProbeFailure) -> ProbeAction {
    match policy {
        FailurePolicy::Abort => ProbeAction::Abort(failure),
        FailurePolicy::Report => ProbeAction::Report(failure),
    }
}

/// The probe's rule: the state and action that follow `event`, or `None`
/// where the probe's state does not expect `event`.
pub open spec fn transition(probe: ProbeView, event: ProbeEvent) -> Option<
    (ProbeState, ProbeAction),
> {
    match (probe.state, event) {
        (ProbeState::Writing, ProbeEvent::Wrote(written)) => Some(
            (ProbeState::Flushing { written }, ProbeAction::Flush { written }),
        ),
        (ProbeState::Writing, ProbeEvent::WriteFailed) => Some(
            (
                ProbeState::Failed(ProbeFailure::Write),
                failure_action(probe.policy, ProbeFailure::Write),
            ),
        ),
        (ProbeState::Flushing { written }, ProbeEvent::Flushed) => Some(
            (ProbeState::Done { written }, ProbeAction::Finish),
        ),
        (ProbeState::Flushing { .. }, ProbeEvent::FlushFailed) => Some(
            (
                ProbeState::Failed(ProbeFailure::Flush),
                failure_action(probe.policy, ProbeFailure::Flush),
            ),
        ),
        _ => None,
    }
}

/// The request the probe writes: a `GET` for `/test` with a `Host` header
/// and no body.
pub fn request_text() -> (text: &'static str)
    ensures
        text@ == "GET /test HTTP/1.1\r\nHost: localhost\r\n\r\n"@,
{
    "GET /test HTTP/1.1\r\nHost: localhost\r\n\r\n"
}

/// One run of the write path.
pub struct Probe {
    policy: FailurePolicy,
    state: ProbeState,
}

impl View for Probe {
    type V = ProbeView;

    closed spec fn view(&self) -> ProbeView {
        ProbeView { policy: self.policy, state: self.state }
    }
}

impl Probe {
    /// A probe whose request is being written, with `policy` for its
    /// failures.
    pub fn new(policy: FailurePolicy) -> (probe: Self)
        ensures
            probe@ == (ProbeView { policy, state: ProbeState::Writing }),
    {
        Probe { policy, state: ProbeState::Writing }
    }

    /// What a failure leads to.
    pub fn policy(&self) -> (policy: FailurePolicy)
        ensures
            policy == self@.policy,
    {
        self.policy
    }

    /// Where the probe stands.
    pub fn state(&self) -> (state: ProbeState)
        ensures
            state == self@.state,
    {
        self.state
    }

    /// Takes `event` and names the next action. An event the current state
    /// does not expect changes nothing and names no action.
    pub fn step(&mut self, event: ProbeEvent) -> (action: Option<ProbeAction>)
        ensures
            final(self)@.policy == old(self)@.policy,
            match transition(old(self)@, event) {
                Some((state, named)) => final(self)@.state == state && action == Some(named),
                None => final(self)@.state == old(self)@.state && action is None,
            },
    {
        let (next, action) = match (self.state, event) {
            (ProbeState::Writing, ProbeEvent::Wrote(written)) => (
                ProbeState::Flushing { written },
                ProbeAction::Flush { written },
            ),
            (ProbeState::Writing, ProbeEvent::WriteFailed) => (
                ProbeState::Failed(ProbeFailure::Write),
                self.on_failure(ProbeFailure::Write),
            ),
            (ProbeState::Flushing { written }, ProbeEvent::Flushed) => (
                ProbeState::Done { written },
                ProbeAction::Finish,
            ),
            (ProbeState::Flushing { .. }, ProbeEvent::FlushFailed) => (
                ProbeState::Failed(ProbeFailure::Flush),
                self.on_failure(ProbeFailure::Flush),
            ),
            _ => {
                return None;
            },
        };
        self.state = next;
        Some(action)
    }

    fn on_failure(&self, failure: ProbeFailure) -> (action: ProbeAction)
        ensures
            action == failure_action(self@.policy, failure),
    {
        match self.policy {
            FailurePolicy::Abort => ProbeAction::Abort(failure),
            FailurePolicy::Report => ProbeAction::Report(failure),
        }
    }
}

/// The policy alone decides whether a failure stops the device: a step
/// names [`ProbeAction::Abort`] only under [`FailurePolicy::Abort`] and
/// [`ProbeAction::Report`] only under [`FailurePolicy::Report`], either of
/// them exactly when it ends in [`ProbeState::Failed`], and a probe that is
/// done or has failed expects no event.
pub proof fn policy_decides_what_failure_means(probe: ProbeView, event: ProbeEvent)
    ensures
        match transition(probe, event) {
            Some((state, action)) => {
                &&& action is Abort ==> probe.policy is Abort
                &&& action is Report ==> probe.policy is Report
                &&& state is Failed <==> action is Abort || action is Report
            },
            None => true,
        },
        probe.state is Done || probe.state is Failed ==> transition(probe, event) is None,
{
}

} // verus!

//! The secure request client: one request over TLS, once the network is
//! configured, with the response read into a buffer of fixed size.
//!
//! The client does no I/O. [`RequestClient::step`] takes what came of the
//! last action and names the next one. A request is attempted once: a
//! failure is reported and nothing is tried again.

use vstd::prelude::*;
use crate::buffer::{accepted, stored, stored_stays_within_capacity, ResponseBuffer};
use crate::net::IpConfigState;
use crate::supervisor::{ip_state_in, Supervisor};

verus! {

/// Whether the server's certificate chain is checked before the connection
/// is trusted. There is no default: whoever plans a request chooses.
#[derive(Clone, Copy, Debug, PartialEq, Eq)]
pub enum TlsVerification {
    /// Any certificate is accepted. Fit only for a closed, trusted network.
    Disabled,
    /// The certificate chain must be valid.
    Enforced,
}

/// The request methods this client sends; none of them carries a body.
#[derive(Clone, Copy, Debug, PartialEq, Eq)]
pub enum Method {
    Get,
    Head,
}

/// What is fixed about a request before it begins.
#[derive(Clone, Copy, Debug, PartialEq, Eq)]
pub struct RequestPlan {
    /// Method of the request.
    pub method: Method,
    /// Seed for the TLS session's randomness; must be unpredictable.
    pub seed: u64,
    /// Certificate policy of the TLS session.
    pub verification: TlsVerification,
}

/// The stage at which a request failed.
#[derive(Clone, Copy, Debug, PartialEq, Eq)]
pub enum FailureKind {
    /// The network had no configuration when the request was to begin.
    NotConfigured,
    /// The target could not be resolved to an address.
    Resolve,
    /// No TCP connection could be made.
    Connect,
    /// The TLS handshake failed.
    Handshake,
    /// The request could not be written.
    Write,
    /// The connection failed while the response was read.
    Receive,
    /// The response was larger than the buffer; its start was kept.
    Truncated,
}

/// Where a request stands.
#[derive(Clone, Copy, Debug, PartialEq, Eq)]
pub enum RequestState {
    /// Not begun.
    Idle,
    /// The target is being resolved.
    Resolving,
    /// The TCP connection is being made.
    Connecting,
    /// The TLS handshake is under way.
    Handshaking,
    /// The request is being written.
    Sending,
    /// The response is being read.
    AwaitingResponse,
    /// The whole response is in the buffer.
    Complete,
    /// The request failed for good.
    Failed(FailureKind),
}

/// What came of the action the client named last.
#[derive(Debug, PartialEq, Eq)]
pub enum RequestEvent {
    /// The request is to begin, on a network in this state.
    Start(IpConfigState),
    /// The I/O of the current stage succeeded.
    StageDone,
    /// The I/O of the current stage failed.
    StageFailed,
    /// These bytes of the response arrived.
    Received(Vec<u8>),
    /// The response has ended.
    EndOfResponse,
}

/// What the caller is to do next.
#[derive(Clone, Copy, Debug, PartialEq, Eq)]
pub enum RequestAction {
    /// Resolve the target to an address.
    Resolve,
    /// Open a TCP connection to the address.
    Connect,
    /// Perform the TLS handshake with this seed and certificate policy.
    Handshake { seed: u64, verification: TlsVerification },
    /// Write the request.
    Send { method: Method },
    /// Read the next bytes of the response.
    Receive,
    /// Hand over the response: this many bytes are in the buffer.
    Deliver { len: usize },
    /// Report the failure and go on with everything else.
    Report(FailureKind),
}

/// A request client as contracts see it.
pub struct ClientView {
    /// What was fixed when the client was made.
    pub plan: RequestPlan,
    /// The target of the request.
    pub url: Seq<char>,
    /// Where the request stands.
    pub state: RequestState,
    /// The bytes of the response held so far.
    pub response: Seq<u8>,
    /// The most bytes of the response that can be held.
    pub capacity: nat,
}

/// The failure that a failed stage ends in, for the stages that do I/O.
pub open spec fn failure_of(state: RequestState) -> Option<FailureKind> {
    match state {
        RequestState::Resolving => Some(FailureKind::Resolve),
        RequestState::Connecting => Some(FailureKind::Connect),
        RequestState::Handshaking => Some(FailureKind::Handshake),
        RequestState::Sending => Some(FailureKind::Write),
        RequestState::AwaitingResponse => Some(FailureKind::Receive),
        _ => None,
    }
}

/// The stage and action that follow a stage whose I/O succeeded, for the
/// stages that end on one success.
pub open spec fn success_of(plan: RequestPlan, state: RequestState) -> Option<
    (RequestState, RequestAction),
> {
    match state {
        RequestState::Resolving => Some((RequestState::Connecting, RequestAction::Connect)),
        RequestState::Connecting => Some(
            (
                RequestState::Handshaking,
                RequestAction::Handshake { seed: plan.seed, verification: plan.verification },
            ),
        ),
        RequestState::Handshaking => Some(
            (RequestState::Sending, RequestAction::Send { method: plan.method }),
        ),
        RequestState::Sending => Some((RequestState::AwaitingResponse, RequestAction::Receive)),
        _ => None,
    }
}

/// The client's rule: the client and action that follow `event`, or `None`
/// where the client's state does not expect `event`.
pub open spec fn transition(client: ClientView, event: RequestEvent) -> Option<
    (ClientView, RequestAction),
> {
    match event {
        RequestEvent::Start(net) => if client.state is Idle {
            if net is Configured {
                Some((ClientView { state: RequestState::Resolving, ..client }, RequestAction::Resolve))
            } else {
                Some(
                    (
                        ClientView {
                            state: RequestState::Failed(FailureKind::NotConfigured),
                            ..client
                        },
                        RequestAction::Report(FailureKind::NotConfigured),
                    ),
                )
            }
        } else {
            None
        },
        RequestEvent::StageDone => match success_of(client.plan, client.state) {
            Some((state, action)) => Some((ClientView { state, ..client }, action)),
            None => None,
        },
        RequestEvent::StageFailed => match failure_of(client.state) {
            Some(kind) => Some(
                (
                    ClientView { state: RequestState::Failed(kind), ..client },
                    RequestAction::Report(kind),
                ),
            ),
            None => None,
        },
        RequestEvent::Received(bytes) => if client.state is AwaitingResponse {
            let response = stored(client.response, client.capacity, bytes@);
            if accepted(client.response.len(), client.capacity, bytes@.len()) == bytes@.len() {
                Some((ClientView { response, ..client }, RequestAction::Receive))
            } else {
                Some(
                    (
                        ClientView {
                            state: RequestState::Failed(FailureKind::Truncated),
                            response,
                            ..client
                        },
                        RequestAction::Report(FailureKind::Truncated),
                    ),
                )
            }
        } else {
            None
        },
        RequestEvent::EndOfResponse => if client.state is AwaitingResponse {
            Some(
                (
                    ClientView { state: RequestState::Complete, ..client },
                    RequestAction::Deliver { len: client.response.len() as usize },
                ),
            )
        } else {
            None
        },
    }
}

/// The client after `event`: the one [`transition`] gives, or `client`
/// itself where the event is not expected.
pub open spec fn client_after(client: ClientView, event: RequestEvent) -> ClientView {
    match transition(client, event) {
        Some((next, _)) => next,
        None => client,
    }
}

/// The action `event` names, if the client's state expects it.
pub open spec fn action_on(client: ClientView, event: RequestEvent) -> Option<RequestAction> {
    match transition(client, event) {
        Some((_, action)) => Some(action),
        None => None,
    }
}

/// One request, from its plan to its outcome.
pub struct RequestClient {
    plan: RequestPlan,
    url: String,
    state: RequestState,
    response: ResponseBuffer,
}

impl View for RequestClient {
    type V = ClientView;

    closed spec fn view(&self) -> ClientView {
        ClientView {
            plan: self.plan,
            url: self.url@,
            state: self.state,
            response: self.response@,
            capacity: self.response.limit(),
        }
    }
}

impl RequestClient {
    /// A client that has not begun, for a request to `url` whose response
    /// is kept up to `capacity` bytes.
    pub fn new(plan: RequestPlan, url: String, capacity: usize) -> (client: Self)
        ensures
            client@ == (ClientView {
                plan,
                url: url@,
                state: RequestState::Idle,
                response: Seq::<u8>::empty(),
                capacity: capacity as nat,
            }),
    {
        RequestClient {
            plan,
            url,
            state: RequestState::Idle,
            response: ResponseBuffer::with_capacity(capacity),
        }
    }

    /// What was fixed when the client was made.
    pub fn plan(&self) -> (plan: RequestPlan)
        ensures
            plan == self@.plan,
    {
        self.plan
    }

    /// The target of the request.
    pub fn url(&self) -> (url: &str)
        ensures
            url@ == self@.url,
    {
        self.url.as_str()
    }

    /// Where the request stands.
    pub fn state(&self) -> (state: RequestState)
        ensures
            state == self@.state,
    {
        self.state
    }

    /// The bytes of the response held so far, never more than the
    /// capacity.
    pub fn response(&self) -> (bytes: &[u8])
        ensures
            bytes@ == self@.response,
            bytes@.len() <= self@.capacity,
    {
        self.response.bytes()
    }

    /// The most bytes of the response that can be held.
    pub fn capacity(&self) -> (capacity: usize)
        ensures
            capacity == self@.capacity,
    {
        self.response.capacity()
    }

    /// Begins the request on the network as `supervisor` shows it. The
    /// target is resolved if the bring-up has reached its end and the
    /// request had not begun; in every other case the network is not
    /// touched.
    pub fn begin(&mut self, supervisor: &Supervisor) -> (action: Option<RequestAction>)
        ensures
            final(self)@ == client_after(
                old(self)@,
                RequestEvent::Start(ip_state_in(supervisor@)),
            ),
            action == action_on(old(self)@, RequestEvent::Start(ip_state_in(supervisor@))),
            action == Some(RequestAction::Resolve) <==> old(self)@.state is Idle
                && supervisor@ is Online,
            action == Some(RequestAction::Report(FailureKind::NotConfigured)) <==> old(self)@.state
                is Idle && !(supervisor@ is Online),
            action is None <==> !(old(self)@.state is Idle),
    {
        self.step(RequestEvent::Start(supervisor.ip_state()))
    }

    /// Takes `event` and names the next action. An event the current state
    /// does not expect changes nothing and names no action. Whatever the
    /// event, the response held stays within the capacity.
    pub fn step(&mut self, event: RequestEvent) -> (action: Option<RequestAction>)
        ensures
            final(self)@ == client_after(old(self)@, event),
            action == action_on(old(self)@, event),
            final(self)@.response.len() <= final(self)@.capacity,
    {
        let held = self.response.len();
        let (next, action) = match event {
            RequestEvent::Start(net) => match self.state {
                RequestState::Idle => if net.is_configured() {
                    (RequestState::Resolving, RequestAction::Resolve)
                } else {
                    (
                        RequestState::Failed(FailureKind::NotConfigured),
                        RequestAction::Report(FailureKind::NotConfigured),
                    )
                },
                _ => {
                    return None;
                },
            },
            RequestEvent::StageDone => match self.state {
                RequestState::Resolving => (RequestState::Connecting, RequestAction::Connect),
                RequestState::Connecting => (
                    RequestState::Handshaking,
                    RequestAction::Handshake {
                        seed: self.plan.seed,
                        verification: self.plan.verification,
                    },
                ),
                RequestState::Handshaking => (
                    RequestState::Sending,
                    RequestAction::Send { method: self.plan.method },
                ),
                RequestState::Sending => (RequestState::AwaitingResponse, RequestAction::Receive),
                _ => {
                    return None;
                },
            },
            RequestEvent::StageFailed => {
                let kind = match self.state {
                    RequestState::Resolving => FailureKind::Resolve,
                    RequestState::Connecting => FailureKind::Connect,
                    RequestState::Handshaking => FailureKind::Handshake,
                    RequestState::Sending => FailureKind::Write,
                    RequestState::AwaitingResponse => FailureKind::Receive,
                    _ => {
                        return None;
                    },
                };
                (RequestState::Failed(kind), RequestAction::Report(kind))
            },
            RequestEvent::Received(bytes) => match self.state {
                RequestState::AwaitingResponse => {
                    let taken = self.response.store(bytes.as_slice());
                    if taken == bytes.len() {
                        (RequestState::AwaitingResponse, RequestAction::Receive)
                    } else {
                        (
                            RequestState::Failed(FailureKind::Truncated),
                            RequestAction::Report(FailureKind::Truncated),
                        )
                    }
                },
                _ => {
                    return None;
                },
            },
            RequestEvent::EndOfResponse => match self.state {
                RequestState::AwaitingResponse => (
                    RequestState::Complete,
                    RequestAction::Deliver { len: held },
                ),
                _ => {
                    return None;
                },
            },
        };
        self.state = next;
        Some(action)
    }
}

/// The client reached from `client` by `events`, taken in order.
pub open spec fn run(client: ClientView, events: Seq<RequestEvent>) -> ClientView
    decreases events.len(),
{
    if events.len() == 0 {
        client
    } else {
        client_after(run(client, events.drop_last()), events.last())
    }
}

/// The actions named on the way from `client` through `events`, in order.
pub open spec fn actions(client: ClientView, events: Seq<RequestEvent>) -> Seq<RequestAction>
    decreases events.len(),
{
    if events.len() == 0 {
        Seq::empty()
    } else {
        let before = actions(client, events.drop_last());
        match action_on(run(client, events.drop_last()), events.last()) {
            Some(action) => before.push(action),
            None => before,
        }
    }
}

/// All the bytes that `events` bring, in order of arrival.
pub open spec fn received(events: Seq<RequestEvent>) -> Seq<u8>
    decreases events.len(),
{
    if events.len() == 0 {
        Seq::empty()
    } else {
        match events.last() {
            RequestEvent::Received(bytes) => received(events.drop_last()) + bytes@,
            _ => received(events.drop_last()),
        }
    }
}

/// True for the actions that touch the network.
pub open spec fn uses_network(action: RequestAction) -> bool {
    !(action is Deliver || action is Report)
}

/// Position of `state` in a request: later stages have higher ranks, and
/// the two outcomes share the highest.
pub open spec fn stage_rank(state: RequestState) -> nat {
    match state {
        RequestState::Idle => 0,
        RequestState::Resolving => 1,
        RequestState::Connecting => 2,
        RequestState::Handshaking => 3,
        RequestState::Sending => 4,
        RequestState::AwaitingResponse => 5,
        RequestState::Complete => 6,
        RequestState::Failed(_) => 6,
    }
}

/// A request goes forward only, and a finished one is not taken up again:
/// no event lowers the rank of the state, and in [`RequestState::Complete`]
/// and [`RequestState::Failed`] no event is expected.
pub proof fn requests_advance_in_order(client: ClientView, event: RequestEvent)
    ensures
        stage_rank(client_after(client, event).state) >= stage_rank(client.state),
        client.state is Complete || client.state is Failed ==> transition(client, event) is None,
{
}

/// The response is never written past the capacity, and what was written
/// is never changed: after any events the plan, the target and the
/// capacity are what they were, the response held before is the start of
/// the response held after, and that still fits the capacity.
pub proof fn response_stays_within_capacity(client: ClientView, events: Seq<RequestEvent>)
    requires
        client.response.len() <= client.capacity,
    ensures
        run(client, events).response.len() <= client.capacity,
        client.response.is_prefix_of(run(client, events).response),
        run(client, events).capacity == client.capacity,
        run(client, events).plan == client.plan,
        run(client, events).url == client.url,
    decreases events.len(),
{
    if events.len() > 0 {
        response_stays_within_capacity(client, events.drop_last());
        let before = run(client, events.drop_last());
        match events.last() {
            RequestEvent::Received(bytes) => {
                stored_stays_within_capacity(before.response, before.capacity, bytes@);
            },
            _ => {},
        }
    }
}

/// A response is kept from its first byte up to the capacity, and is
/// called truncated exactly when it was longer: while a response is
/// awaited and only bytes arrive, the client holds the first bytes of all
/// that arrived, as many as fit, and has failed as truncated if and only
/// if some did not.
pub proof fn response_is_start_of_what_arrived(client: ClientView, events: Seq<RequestEvent>)
    requires
        client.state is AwaitingResponse,
        client.response.len() <= client.capacity,
        forall|i: int| 0 <= i < events.len() ==> #[trigger] events[i] is Received,
    ensures
        ({
            let all = client.response + received(events);
            let end = run(client, events);
            &&& all.len() <= client.capacity ==> end.response == all && end.state
                == RequestState::AwaitingResponse
            &&& all.len() > client.capacity ==> end.response == all.take(client.capacity as int)
                && end.state == RequestState::Failed(FailureKind::Truncated)
        }),
    decreases events.len(),
{
    if events.len() == 0 {
        assert(client.response + received(events) == client.response);
    } else {
        let earlier = events.drop_last();
        response_is_start_of_what_arrived(client, earlier);
        response_stays_within_capacity(client, earlier);
        let held = client.response + received(earlier);
        let bytes = events.last()->Received_0;
        let all = client.response + received(events);
        let capacity = client.capacity as int;
        assert(all == held + bytes@);
        if held.len() <= capacity {
            // Nothing was cut so far: the last bytes are stored, or cut at the capacity.
            stored_stays_within_capacity(held, client.capacity, bytes@);
            assert(all.len() > capacity ==> stored(held, client.capacity, bytes@) == all.take(
                capacity,
            ));
        } else {
            // The response was cut before: more bytes do not change its start.
            assert(held.take(capacity) == all.take(capacity));
        }
    }
}

proof fn lemma_network_use(client: ClientView, events: Seq<RequestEvent>)
    requires
        client.state is Idle,
    ensures
        run(client, events).state is Idle ==> actions(client, events).len() == 0,
        run(client, events).state == RequestState::Failed(FailureKind::NotConfigured)
            ==> actions(client, events) == seq![RequestAction::Report(FailureKind::NotConfigured)],
        !(run(client, events).state is Idle) && run(client, events).state != RequestState::Failed(
            FailureKind::NotConfigured,
        ) ==> actions(client, events).len() > 0 && actions(client, events)[0]
            == RequestAction::Resolve && exists|i: int|
            0 <= i < events.len() && #[trigger] events[i] is Start && events[i]->Start_0
                is Configured,
    decreases events.len(),
{
    if events.len() > 0 {
        let earlier = events.drop_last();
        lemma_network_use(client, earlier);
        let before = run(client, earlier);
        requests_advance_in_order(before, events.last());
        if !(before.state is Idle) && before.state != RequestState::Failed(
            FailureKind::NotConfigured,
        ) {
            let i = choose|i: int|
                0 <= i < earlier.len() && #[trigger] earlier[i] is Start && earlier[i]->Start_0
                    is Configured;
            assert(events[i] is Start && events[i]->Start_0 is Configured);
        } else if before.state is Idle && !(run(client, events).state is Idle) {
            // The first event that is taken is a start; it names the first action.
            assert(events[events.len() - 1] is Start);
            assert(actions(client, events) == seq![actions(client, events)[0]]);
        }
    }
}

/// The network is not touched before it is configured: a client that is
/// shown an unconfigured network when it is to begin fails at once, and
/// whatever events follow, the one action it ever names is the report of
/// that failure. Where a client names any other action, it was begun on a
/// configured network, and its first action was to resolve the target.
pub proof fn unconfigured_network_is_never_used(client: ClientView, events: Seq<RequestEvent>)
    requires
        client.state is Idle,
    ensures
        transition(client, RequestEvent::Start(IpConfigState::Unconfigured)) == Some(
            (
                ClientView { state: RequestState::Failed(FailureKind::NotConfigured), ..client },
                RequestAction::Report(FailureKind::NotConfigured),
            ),
        ),
        run(client, events).state == RequestState::Failed(FailureKind::NotConfigured) ==> actions(
            client,
            events,
        ) == seq![RequestAction::Report(FailureKind::NotConfigured)],
        (exists|k: int|
            0 <= k < actions(client, events).len() && uses_network(
                #[trigger] actions(client, events)[k],
            )) ==> actions(client, events)[0] == RequestAction::Resolve && exists|i: int|
            0 <= i < events.len() && #[trigger] events[i] is Start && events[i]->Start_0
                is Configured,
{
    lemma_network_use(client, events);
}

/// Position of `action` in a request, on the scale of [`stage_rank`]: an
/// action has the rank of the state it is named on entering.
pub open spec fn action_rank(action: RequestAction) -> nat {
    match action {
        RequestAction::Resolve => 1,
        RequestAction::Connect => 2,
        RequestAction::Handshake { .. } => 3,
        RequestAction::Send { .. } => 4,
        RequestAction::Receive => 5,
        RequestAction::Deliver { .. } => 6,
        RequestAction::Report(_) => 6,
    }
}

proof fn lemma_steps(client: ClientView, events: Seq<RequestEvent>)
    ensures
        forall|i: int|
            0 <= i < actions(client, events).len() ==> stage_rank(client.state) <= action_rank(
                #[trigger] actions(client, events)[i],
            ) <= stage_rank(run(client, events).state),
        forall|i: int|
            0 <= i < actions(client, events).len() && action_rank(
                #[trigger] actions(client, events)[i],
            ) == 6 ==> i == actions(client, events).len() - 1 && !(client.state is Complete
                || client.state is Failed),
        forall|i: int, j: int|
            0 <= i < j < actions(client, events).len() ==> action_rank(
                #[trigger] actions(client, events)[i],
            ) <= action_rank(#[trigger] actions(client, events)[j]),
        forall|i: int, j: int|
            0 <= i < j < actions(client, events).len() && action_rank(
                #[trigger] actions(client, events)[i],
            ) == action_rank(#[trigger] actions(client, events)[j]) ==> actions(client, events)[i]
                == RequestAction::Receive,
        forall|i: int|
            0 <= i < actions(client, events).len() && #[trigger] actions(client, events)[i]
                is Handshake ==> actions(client, events)[i] == (RequestAction::Handshake {
                seed: client.plan.seed,
                verification: client.plan.verification,
            }),
        run(client, events).plan == client.plan,
        stage_rank(client.state) <= stage_rank(run(client, events).state),
    decreases events.len(),
{
    if events.len() > 0 {
        let earlier = events.drop_last();
        lemma_steps(client, earlier);
        let before = run(client, earlier);
        requests_advance_in_order(before, events.last());
        match transition(before, events.last()) {
            Some((_, action)) => {
                // The new action ranks as the state it leads to, above all before it.
                assert(action_rank(action) == stage_rank(run(client, events).state));
            },
            None => {},
        }
    }
}

/// A request is attempted once and its steps come in order: of the
/// actions named on any run, a later one never ranks below an earlier one,
/// and two of them rank alike only where both ask for more of the
/// response. So the target is resolved, the connection made, the handshake
/// performed and the request written at most once each, an outcome is
/// named at most once and nothing after it. The one handshake uses the
/// seed and the certificate policy of the plan.
pub proof fn steps_are_named_once_and_in_order(client: ClientView, events: Seq<RequestEvent>)
    ensures
        forall|i: int, j: int|
            0 <= i < j < actions(client, events).len() ==> action_rank(
                #[trigger] actions(client, events)[i],
            ) <= action_rank(#[trigger] actions(client, events)[j]),
        forall|i: int, j: int|
            0 <= i < j < actions(client, events).len() && action_rank(
                #[trigger] actions(client, events)[i],
            ) == action_rank(#[trigger] actions(client, events)[j]) ==> actions(client, events)[i]
                == RequestAction::Receive && actions(client, events)[j] == RequestAction::Receive,
        forall|i: int|
            0 <= i < actions(client, events).len() && #[trigger] actions(client, events)[i]
                is Handshake ==> actions(client, events)[i] == (RequestAction::Handshake {
                seed: client.plan.seed,
                verification: client.plan.verification,
            }),
{
    lemma_steps(client, events);
}

} // verus!

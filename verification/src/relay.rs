//! The per-session connection relay, as a state machine over plain events.
//! Reading, parsing and writing messages is the work of the message codec and
//! the sockets, outside the library; the session loop reports each outcome as
//! a `RelayEvent` and performs the `RelayAction` the machine hands back. The
//! machine fixes the failure semantics: a malformed request costs one error
//! response and the session goes on, an upstream failure costs a `502` and
//! ends the session, a clean client close ends it silently, and the chosen
//! upstream never changes for the life of the session.

use vstd::prelude::*;

use crate::liveness::LivenessSet;
use crate::liveness::live_count;
use crate::select::SelectError;
use crate::select::pick_post;

verus! {

pub const STATUS_BAD_REQUEST: u16 = 400;

pub const STATUS_PAYLOAD_TOO_LARGE: u16 = 413;

pub const STATUS_TOO_MANY_REQUESTS: u16 = 429;

pub const STATUS_BAD_GATEWAY: u16 = 502;

pub const STATUS_SERVICE_UNAVAILABLE: u16 = 503;

/// The ways the message codec can fail to produce a request.
#[derive(Clone, Copy, Debug, PartialEq, Eq, Structural)]
pub enum ParseError {
    /// The stream ended before a full request arrived; the payload is how
    /// many bytes had arrived. Zero bytes is a clean end-of-stream.
    IncompleteRequest(usize),
    /// The bytes do not form a well-formed request head.
    MalformedRequest,
    /// The declared content length is not a plain number.
    InvalidContentLength,
    /// More body bytes arrived than the declared content length.
    ContentLengthMismatch,
    /// The declared content length exceeds what the proxy accepts.
    RequestBodyTooLarge,
    /// A lower-level I/O failure.
    ConnectionError,
}

/// The status a client is sent for each way a request can fail to parse.
pub open spec fn spec_status_for_parse_error(e: ParseError) -> u16 {
    match e {
        ParseError::IncompleteRequest(_) => STATUS_BAD_REQUEST,
        ParseError::MalformedRequest => STATUS_BAD_REQUEST,
        ParseError::InvalidContentLength => STATUS_BAD_REQUEST,
        ParseError::ContentLengthMismatch => STATUS_BAD_REQUEST,
        ParseError::RequestBodyTooLarge => STATUS_PAYLOAD_TOO_LARGE,
        ParseError::ConnectionError => STATUS_SERVICE_UNAVAILABLE,
    }
}

/// Maps a parse failure to the status of the client's error response:
/// malformed, incomplete and content-length troubles are the client's fault
/// (`400`), an oversized body is `413`, and an I/O failure is `503`.
pub fn status_for_parse_error(e: &ParseError) -> (s: u16)
    ensures
        s == spec_status_for_parse_error(*e),
{
    match e {
        ParseError::IncompleteRequest(_) => STATUS_BAD_REQUEST,
        ParseError::MalformedRequest => STATUS_BAD_REQUEST,
        ParseError::InvalidContentLength => STATUS_BAD_REQUEST,
        ParseError::ContentLengthMismatch => STATUS_BAD_REQUEST,
        ParseError::RequestBodyTooLarge => STATUS_PAYLOAD_TOO_LARGE,
        ParseError::ConnectionError => STATUS_SERVICE_UNAVAILABLE,
    }
}

/// Where a session stands in its request/response loop.
#[derive(Clone, Copy, Debug, PartialEq, Eq, Structural)]
pub enum RelayState {
    /// Reading the next request from the client.
    AwaitingRequest,
    /// Writing the request to the upstream.
    Forwarding,
    /// Reading the upstream's response.
    AwaitingResponse,
    /// Writing the response back to the client.
    Relaying,
    /// The session is over.
    Closed,
}

/// What the outside loop reports back: the outcome of the step it just
/// performed.
#[derive(Clone, Copy, Debug, PartialEq, Eq, Structural)]
pub enum RelayEvent {
    /// A well-formed request was read from the client.
    RequestRead,
    /// Reading a request failed in the given way.
    RequestFailed(ParseError),
    /// The request was written to the upstream.
    UpstreamWriteOk,
    /// Writing the request to the upstream failed.
    UpstreamWriteFailed,
    /// A response was read from the upstream.
    ResponseRead,
    /// Reading the upstream's response failed.
    UpstreamReadFailed,
    /// The response reached the client.
    ResponseSent,
    /// Writing the response to the client failed.
    ResponseSendFailed,
}

/// What the outside loop must do next.
#[derive(Clone, Copy, Debug, PartialEq, Eq, Structural)]
pub enum RelayAction {
    /// Append the client-address-forwarding header, serialize, and write the
    /// request to the upstream.
    ForwardRequest,
    /// Read one response from the upstream.
    ReadResponse,
    /// Write the upstream's response to the client.
    SendResponse,
    /// Send the client a well-formed error response with this status.
    SendError(u16),
    /// Nothing to emit.
    Idle,
}

/// One step of the relay machine: from a state and the reported event to the
/// next state and the action owed. Events that cannot arise in a state close
/// the session with nothing to emit.
pub open spec fn spec_relay_step(s: RelayState, e: RelayEvent) -> (RelayState, RelayAction) {
    match (s, e) {
        (RelayState::AwaitingRequest, RelayEvent::RequestRead) => (
            RelayState::Forwarding,
            RelayAction::ForwardRequest,
        ),
        (RelayState::AwaitingRequest, RelayEvent::RequestFailed(err)) => {
            if err == ParseError::IncompleteRequest(0usize) || err == ParseError::ConnectionError {
                (RelayState::Closed, RelayAction::Idle)
            } else {
                (RelayState::AwaitingRequest, RelayAction::SendError(
                    spec_status_for_parse_error(err),
                ))
            }
        },
        (RelayState::Forwarding, RelayEvent::UpstreamWriteOk) => (
            RelayState::AwaitingResponse,
            RelayAction::ReadResponse,
        ),
        (RelayState::Forwarding, RelayEvent::UpstreamWriteFailed) => (
            RelayState::Closed,
            RelayAction::SendError(STATUS_BAD_GATEWAY),
        ),
        (RelayState::AwaitingResponse, RelayEvent::ResponseRead) => (
            RelayState::Relaying,
            RelayAction::SendResponse,
        ),
        (RelayState::AwaitingResponse, RelayEvent::UpstreamReadFailed) => (
            RelayState::Closed,
            RelayAction::SendError(STATUS_BAD_GATEWAY),
        ),
        (RelayState::Relaying, RelayEvent::ResponseSent) => (
            RelayState::AwaitingRequest,
            RelayAction::Idle,
        ),
        (RelayState::Relaying, RelayEvent::ResponseSendFailed) => (
            RelayState::AwaitingRequest,
            RelayAction::Idle,
        ),
        _ => (RelayState::Closed, RelayAction::Idle),
    }
}

/// One step of the relay machine, executed.
pub fn relay_step(s: RelayState, e: RelayEvent) -> (r: (RelayState, RelayAction))
    ensures
        r == spec_relay_step(s, e),
{
    match (s, e) {
        (RelayState::AwaitingRequest, RelayEvent::RequestRead) => (
            RelayState::Forwarding,
            RelayAction::ForwardRequest,
        ),
        (RelayState::AwaitingRequest, RelayEvent::RequestFailed(err)) => {
            if err == ParseError::IncompleteRequest(0usize) || err == ParseError::ConnectionError {
                (RelayState::Closed, RelayAction::Idle)
            } else {
                let status = status_for_parse_error(&err);
                (RelayState::AwaitingRequest, RelayAction::SendError(status))
            }
        },
        (RelayState::Forwarding, RelayEvent::UpstreamWriteOk) => (
            RelayState::AwaitingResponse,
            RelayAction::ReadResponse,
        ),
        (RelayState::Forwarding, RelayEvent::UpstreamWriteFailed) => (
            RelayState::Closed,
            RelayAction::SendError(STATUS_BAD_GATEWAY),
        ),
        (RelayState::AwaitingResponse, RelayEvent::ResponseRead) => (
            RelayState::Relaying,
            RelayAction::SendResponse,
        ),
        (RelayState::AwaitingResponse, RelayEvent::UpstreamReadFailed) => (
            RelayState::Closed,
            RelayAction::SendError(STATUS_BAD_GATEWAY),
        ),
        (RelayState::Relaying, RelayEvent::ResponseSent) => (
            RelayState::AwaitingRequest,
            RelayAction::Idle,
        ),
        (RelayState::Relaying, RelayEvent::ResponseSendFailed) => (
            RelayState::AwaitingRequest,
            RelayAction::Idle,
        ),
        _ => (RelayState::Closed, RelayAction::Idle),
    }
}

/// One client session: the chosen upstream and where the relay loop stands.
/// The upstream is fixed when the session starts and reused for every request
/// of the session; no step changes it.
#[derive(Clone, Copy, Debug, PartialEq, Eq, Structural)]
pub struct Session {
    pub upstream: usize,
    pub state: RelayState,
}

impl Session {
    /// Advances the session by one reported event. The chosen upstream never
    /// changes: there is no mid-session re-selection.
    pub fn step(&mut self, e: RelayEvent) -> (a: RelayAction)
        ensures
            final(self).upstream == old(self).upstream,
            (final(self).state, a) == spec_relay_step(old(self).state, e),
    {
        let (next, action) = relay_step(self.state, e);
        self.state = next;
        action
    }
}

/// What starting a session promises: a successful pick opens a session on
/// that upstream, awaiting its first request; a failed pick is answered with
/// `502 Bad Gateway` and no session starts.
pub open spec fn session_start_post(pick: Result<usize, SelectError>, r: Result<
    Session,
    u16,
>) -> bool {
    match pick {
        Ok(i) => r is Ok && r->Ok_0.upstream == i && r->Ok_0.state == RelayState::AwaitingRequest,
        Err(_) => r == Err::<Session, u16>(STATUS_BAD_GATEWAY),
    }
}

/// Starts a session from the selector's outcome: with an upstream in hand the
/// session begins awaiting the first request; with none the client is owed a
/// `502 Bad Gateway` before the connection is dropped.
pub fn session_start(pick: Result<usize, SelectError>) -> (r: Result<Session, u16>)
    ensures
        session_start_post(pick, r),
{
    match pick {
        Ok(i) => Ok(Session { upstream: i, state: RelayState::AwaitingRequest }),
        Err(_) => Err(STATUS_BAD_GATEWAY),
    }
}

/// With no live upstream, any selection meeting the selector's contract fails
/// with `NoUpstreamAvailable`, and any session start meeting its contract
/// answers the client with `502`.
pub proof fn lemma_empty_liveness_gives_502(
    set: &LivenessSet,
    pick: Result<usize, SelectError>,
    start: Result<Session, u16>,
)
    requires
        live_count(set@) == 0,
        pick_post(set, pick),
        session_start_post(pick, start),
    ensures
        pick == Err::<usize, SelectError>(SelectError::NoUpstreamAvailable),
        start == Err::<Session, u16>(STATUS_BAD_GATEWAY),
{
    crate::liveness::lemma_live_count_zero(set@);
    if pick is Ok {
        assert(set.live(pick->Ok_0 as int));
    }
}

/// Runs the relay machine over a sequence of events: the final state, and the
/// actions emitted in order.
pub open spec fn relay_run(s0: RelayState, events: Seq<RelayEvent>) -> (RelayState, Seq<
    RelayAction,
>)
    decreases events.len(),
{
    if events.len() == 0 {
        (s0, Seq::empty())
    } else {
        let first = spec_relay_step(s0, events[0]);
        let rest = relay_run(first.0, events.drop_first());
        (rest.0, seq![first.1] + rest.1)
    }
}

/// Running one event sequence after another runs the second from where the
/// first ended, and emits the two action sequences in order.
pub proof fn lemma_relay_run_concat(s0: RelayState, e1: Seq<RelayEvent>, e2: Seq<RelayEvent>)
    ensures
        relay_run(s0, e1 + e2).0 == relay_run(relay_run(s0, e1).0, e2).0,
        relay_run(s0, e1 + e2).1 == relay_run(s0, e1).1 + relay_run(relay_run(s0, e1).0, e2).1,
    decreases e1.len(),
{
    if e1.len() == 0 {
        assert(e1 + e2 =~= e2);
        assert(relay_run(s0, e1).1 + relay_run(relay_run(s0, e1).0, e2).1 =~= relay_run(s0, e2).1);
    } else {
        let first = spec_relay_step(s0, (e1 + e2)[0]);
        assert((e1 + e2)[0] == e1[0]);
        assert((e1 + e2).drop_first() =~= e1.drop_first() + e2);
        lemma_relay_run_concat(first.0, e1.drop_first(), e2);
        assert(relay_run(s0, e1 + e2).1 =~= relay_run(s0, e1).1 + relay_run(
            relay_run(s0, e1).0,
            e2,
        ).1);
    }
}

/// The events of one fully successful request: read, forwarded, answered,
/// relayed.
pub open spec fn ok_cycle() -> Seq<RelayEvent> {
    seq![
        RelayEvent::RequestRead,
        RelayEvent::UpstreamWriteOk,
        RelayEvent::ResponseRead,
        RelayEvent::ResponseSent,
    ]
}

/// The actions one fully successful request costs: forward it, read the
/// response, send exactly one response to the client.
pub open spec fn ok_cycle_actions() -> Seq<RelayAction> {
    seq![
        RelayAction::ForwardRequest,
        RelayAction::ReadResponse,
        RelayAction::SendResponse,
        RelayAction::Idle,
    ]
}

/// One well-formed request, processed without failure, emits exactly one
/// response to the client and returns the machine to awaiting the next
/// request.
pub proof fn lemma_one_request_one_response(s0: RelayState)
    requires
        s0 == RelayState::AwaitingRequest,
    ensures
        relay_run(s0, ok_cycle()).0 == RelayState::AwaitingRequest,
        relay_run(s0, ok_cycle()).1 == ok_cycle_actions(),
{
    reveal_with_fuel(relay_run, 5);
    assert(ok_cycle().drop_first() =~= seq![
        RelayEvent::UpstreamWriteOk,
        RelayEvent::ResponseRead,
        RelayEvent::ResponseSent,
    ]);
    assert(ok_cycle().drop_first().drop_first() =~= seq![
        RelayEvent::ResponseRead,
        RelayEvent::ResponseSent,
    ]);
    assert(ok_cycle().drop_first().drop_first().drop_first() =~= seq![RelayEvent::ResponseSent]);
    assert(ok_cycle().drop_first().drop_first().drop_first().drop_first() =~= Seq::<
        RelayEvent,
    >::empty());
    assert(relay_run(s0, ok_cycle()).1 =~= ok_cycle_actions());
}

/// A client sending two well-formed requests in turn receives two responses,
/// in the order of the requests, and the machine ends back awaiting a third;
/// the whole exchange is one session, so it rides one upstream connection
/// (`Session::step` never changes the upstream).
pub proof fn lemma_two_requests_two_responses()
    ensures
        relay_run(RelayState::AwaitingRequest, ok_cycle() + ok_cycle()).0
            == RelayState::AwaitingRequest,
        relay_run(RelayState::AwaitingRequest, ok_cycle() + ok_cycle()).1 == ok_cycle_actions()
            + ok_cycle_actions(),
{
    lemma_one_request_one_response(RelayState::AwaitingRequest);
    lemma_relay_run_concat(RelayState::AwaitingRequest, ok_cycle(), ok_cycle());
}

} // verus!

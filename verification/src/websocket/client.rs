//! The decisions of the upstream side: which wire id a call gets, which
//! frame answers it, what a connection worker does next, and where the
//! manager sends a request. Sockets, queues and timers are driven by the
//! caller, which reports what happened and carries out what is decided here.

use serde_json::Value;
use std::collections::HashSet;
use vstd::prelude::*;

use crate::balancer::selection::select::is_best;
use crate::balancer::selection::select::pick;
use crate::balancer::selection::select::Weights;
use crate::rpc::types::Rpc;
use crate::websocket::error::Error;
use crate::websocket::json::as_str;
use crate::websocket::json::as_u64;
use crate::websocket::json::is_object;
use crate::websocket::json::json_as_str;
use crate::websocket::json::json_as_u64;
use crate::websocket::json::json_is_object;
use crate::websocket::json::json_member;
use crate::websocket::json::json_number;
use crate::websocket::json::json_parse;
use crate::websocket::json::json_text;
use crate::websocket::json::json_with_member;
use crate::websocket::json::member;
use crate::websocket::json::number;
use crate::websocket::json::parse;
use crate::websocket::json::render;
use crate::websocket::json::set_member;
use crate::websocket::types::request_texts;
use crate::websocket::types::IncomingResponse;
use crate::websocket::types::SubscriptionData;
use crate::websocket::types::WsconnMessage;

verus! {

/// `rand::random::<u32>()`: a number drawn from the thread's generator.
/// Every `u32` can come back, so nothing is claimed of it.
#[verifier::external_body]
fn random_u32() -> u32 {
    rand::random::<u32>()
}

/// The id that is `step` places after `candidate`, counting round the whole
/// range of ids.
pub open spec fn probe(candidate: u32, step: int) -> u32 {
    ((candidate + step) % 0x1_0000_0000) as u32
}

/// `id` is the first id at or after `candidate`, counting round, that is not
/// in `in_flight`.
pub open spec fn is_first_free(in_flight: Set<u32>, candidate: u32, id: u32) -> bool {
    exists|step: int|
        0 <= step < 0x1_0000_0000 && #[trigger] probe(candidate, step) == id
            && !in_flight.contains(id) && forall|earlier: int|
            0 <= earlier < step ==> in_flight.contains(#[trigger] probe(candidate, earlier))
}

/// The wire ids of the calls that are in flight. An id is handed out only
/// while no call in flight has it, so a reply is never taken for another
/// call's.
pub struct WireIds {
    in_flight: HashSet<u32>,
}

impl View for WireIds {
    type V = Set<u32>;

    closed spec fn view(&self) -> Set<u32> {
        self.in_flight@
    }
}

impl WireIds {
    /// No call is in flight.
    pub fn new() -> (ids: Self)
        ensures
            ids@ == Set::<u32>::empty(),
    {
        WireIds { in_flight: HashSet::new() }
    }

    /// Whether a call in flight has the wire id `id`.
    pub fn is_in_flight(&self, id: u32) -> (taken: bool)
        ensures
            taken == self@.contains(id),
    {
        broadcast use vstd::std_specs::hash::group_hash_axioms;

        self.in_flight.contains(&id)
    }

    /// Claims a wire id for a new call: `candidate` if it is free, else the
    /// next free id after it, counting round. Fails only when every id is in
    /// flight.
    pub fn claim(&mut self, candidate: u32) -> (id: Option<u32>)
        ensures
            match id {
                Some(id) => {
                    &&& !old(self)@.contains(id)
                    &&& is_first_free(old(self)@, candidate, id)
                    &&& final(self)@ == old(self)@.insert(id)
                },
                None => {
                    &&& forall|other: u32| old(self)@.contains(other)
                    &&& final(self)@ == old(self)@
                },
            },
    {
        broadcast use vstd::std_specs::hash::group_hash_axioms;

        let mut step: u64 = 0;
        while step < 0x1_0000_0000
            invariant
                step <= 0x1_0000_0000,
                self@ == old(self)@,
                forall|earlier: int|
                    0 <= earlier < step ==> self@.contains(#[trigger] probe(candidate, earlier)),
            decreases 0x1_0000_0000 - step,
        {
            let id = ((candidate as u64 + step) % 0x1_0000_0000) as u32;
            assert(id == probe(candidate, step as int));
            if !self.in_flight.contains(&id) {
                self.in_flight.insert(id);
                return Some(id);
            }
            step += 1;
        }
        proof {
            assert forall|other: u32| old(self)@.contains(other) by {
                let step: int = if other >= candidate {
                    other - candidate
                } else {
                    other + 0x1_0000_0000 - candidate
                };
                assert(probe(candidate, step) == other);
            }
        }
        None
    }

    /// Claims a wire id for a new call, starting the search at a random id.
    /// Fails only when every id is in flight.
    pub fn fresh(&mut self) -> (id: Option<u32>)
        ensures
            match id {
                Some(id) => !old(self)@.contains(id) && final(self)@ == old(self)@.insert(id),
                None => (forall|other: u32| old(self)@.contains(other)) && final(self)@ == old(
                    self,
                )@,
            },
    {
        let candidate = random_u32();
        self.claim(candidate)
    }

    /// Gives the wire id `id` back: its call is over.
    pub fn release(&mut self, id: u32)
        ensures
            final(self)@ == old(self)@.remove(id),
    {
        broadcast use vstd::std_specs::hash::group_hash_axioms;

        self.in_flight.remove(&id);
    }
}

/// A call that is in flight: the id that its caller gave it, and the id
/// under which it went out.
#[derive(Debug, PartialEq)]
pub struct PendingCall {
    pub caller_id: Value,
    pub wire_id: u32,
}

/// What a call in flight does with one event.
#[derive(Debug, PartialEq)]
pub enum CallEvent {
    /// A frame came in from some node.
    Frame(IncomingResponse),
    /// The call's deadline passed.
    TimedOut,
}

/// Where a call stands after an event.
#[derive(Debug, PartialEq)]
pub enum CallProgress {
    /// The event was not for this call: it goes on waiting.
    Waiting(PendingCall),
    /// The call is over, with its reply or with an error.
    Done(Result<Value, Error>),
}

/// The outcome of sending `call` out under `wire_id`: the record of the
/// pending call, and the request as it goes on the wire. A call that is no
/// JSON object cannot carry an id.
pub open spec fn call_rewritten(call: Value, wire_id: u32) -> Result<(PendingCall, Value), Error> {
    if json_is_object(call) {
        Ok(
            (
                PendingCall { caller_id: json_member(call, "id"@), wire_id },
                json_with_member(call, "id"@, json_number(wire_id)),
            ),
        )
    } else {
        Err(Error::ParseError)
    }
}

/// The reply to the caller that `response` makes: `response` with the
/// caller's own id put back.
pub open spec fn reply_restored(pending: PendingCall, response: Value) -> Result<Value, Error> {
    if json_is_object(response) {
        Ok(json_with_member(response, "id"@, pending.caller_id))
    } else {
        Err(Error::ParseError)
    }
}

/// Remembers the id of `call` and puts `wire_id` in its place.
pub fn rewrite_call(call: Value, wire_id: u32) -> (rewritten: Result<(PendingCall, Value), Error>)
    ensures
        rewritten == call_rewritten(call, wire_id),
        rewritten matches Ok(pair) ==> {
            &&& pair.0.caller_id == json_member(call, "id"@)
            &&& json_as_u64(json_member(pair.1, "id"@)) == Some(wire_id as u64)
        },
{
    if !is_object(&call) {
        return Err(Error::ParseError);
    }
    let caller_id = member(&call, "id").clone();
    let mut request = call;
    set_member(&mut request, "id", number(wire_id));
    Ok((PendingCall { caller_id, wire_id }, request))
}

/// Opens a call: reads the caller's `call` and prepares it for the wire under
/// `wire_id`. The request that comes back is to be handed to the upstream
/// manager; the pending call then takes the frames that come in, one by one,
/// through [`PendingCall::on_event`], until one of them ends it.
///
/// Fails with `ParseError` if `call` is not JSON, or is JSON but no object.
pub fn execute_ws_call(call: String, wire_id: u32) -> (begun: Result<(PendingCall, Value), Error>)
    ensures
        begun == match json_parse(call@) {
            Some(value) => call_rewritten(value, wire_id),
            None => Err(Error::ParseError),
        },
{
    match parse(call.as_str()) {
        Some(value) => rewrite_call(value, wire_id),
        None => Err(Error::ParseError),
    }
}

impl PendingCall {
    /// `response` is the reply to this call: its id is this call's wire id.
    pub open spec fn answers(&self, response: Value) -> bool {
        json_as_u64(json_member(response, "id"@)) == Some(self.wire_id as u64)
    }

    /// Whether `response` is the reply to this call.
    pub fn is_answer(&self, response: &Value) -> (answer: bool)
        ensures
            answer == self.answers(*response),
    {
        match as_u64(member(response, "id")) {
            Some(id) => id == self.wire_id as u64,
            None => false,
        }
    }

    /// Turns the upstream's `response` into the reply for the caller, by
    /// putting the caller's own id back.
    pub fn restore(self, response: Value) -> (reply: Result<Value, Error>)
        ensures
            reply == reply_restored(self, response),
            reply matches Ok(value) ==> json_member(value, "id"@) == self.caller_id,
    {
        if !is_object(&response) {
            return Err(Error::ParseError);
        }
        let mut reply = response;
        set_member(&mut reply, "id", self.caller_id);
        Ok(reply)
    }

    /// Takes one event in. A frame with this call's wire id ends the call
    /// with the reply; so does the deadline, with `Timeout`. Any other frame
    /// belongs to somebody else and leaves the call waiting.
    pub fn on_event(self, event: CallEvent) -> (progress: CallProgress)
        ensures
            progress == match event {
                CallEvent::TimedOut => CallProgress::Done(Err(Error::Timeout)),
                CallEvent::Frame(frame) => if self.answers(frame.content) {
                    CallProgress::Done(reply_restored(self, frame.content))
                } else {
                    CallProgress::Waiting(self)
                },
            },
            progress matches CallProgress::Done(Ok(value)) ==> json_member(value, "id"@)
                == self.caller_id,
    {
        match event {
            CallEvent::TimedOut => CallProgress::Done(Err(Error::Timeout)),
            CallEvent::Frame(frame) => {
                if self.is_answer(&frame.content) {
                    CallProgress::Done(self.restore(frame.content))
                } else {
                    CallProgress::Waiting(self)
                }
            },
        }
    }
}

/// A reply carries the id that its call came with: the id that
/// [`rewrite_call`] remembered is the one that [`PendingCall::restore`] puts
/// back.
pub proof fn lemma_reply_keeps_caller_id(
    call: Value,
    wire_id: u32,
    pending: PendingCall,
    request: Value,
    response: Value,
    reply: Value,
)
    requires
        call_rewritten(call, wire_id) == Ok::<(PendingCall, Value), Error>((pending, request)),
        reply_restored(pending, response) == Ok::<Value, Error>(reply),
        json_member(reply, "id"@) == pending.caller_id,
    ensures
        json_member(reply, "id"@) == json_member(call, "id"@),
{
}

/// The subscription that the frame `frame` is a notification of: the string
/// under `params.subscription`, where there is one.
pub open spec fn notified_subscription(frame: Value) -> Option<Seq<char>> {
    json_as_str(json_member(json_member(frame, "params"@), "subscription"@))
}

/// The subscription id that the reply `reply` confirms: its `result`, where
/// that is a string.
pub open spec fn confirmed_subscription(reply: Value) -> Option<Seq<char>> {
    json_as_str(json_member(reply, "result"@))
}

/// Reads from a frame which subscription it is a notification of. A frame
/// that names none is no notification.
pub fn subscription_of(frame: &Value) -> (id: Option<String>)
    ensures
        match id {
            Some(id) => notified_subscription(*frame) == Some(id@),
            None => notified_subscription(*frame) is None,
        },
{
    match as_str(member(member(frame, "params"), "subscription")) {
        Some(id) => Some(id.to_string()),
        None => None,
    }
}

/// Reads from the reply to a subscription request the id under which the
/// node will send the notifications.
pub fn confirmed_id(reply: &Value) -> (id: Option<String>)
    ensures
        match id {
            Some(id) => confirmed_subscription(*reply) == Some(id@),
            None => confirmed_subscription(*reply) is None,
        },
{
    match as_str(member(reply, "result")) {
        Some(id) => Some(id.to_string()),
        None => None,
    }
}

/// Whether `text` is an absolute URL, as `Url::parse` reads it.
pub uninterp spec fn url_parses(text: Seq<char>) -> bool;

/// `reqwest::Url::parse`: whether `text` parses as an absolute URL. The
/// answer depends on `text` alone.
#[verifier::external_body]
fn is_url(text: &str) -> (valid: bool)
    ensures
        valid == url_parses(text@),
{
    reqwest::Url::parse(text).is_ok()
}

/// The address at which a worker connects to `rpc`: the node's WebSocket
/// URL. A node without one, or with one that is no URL, cannot be reached.
pub fn ws_target(rpc: &Rpc) -> (target: Result<String, Error>)
    ensures
        match rpc.ws_url {
            Some(url) => if url_parses(url@) {
                target is Ok && target->Ok_0@ == url@
            } else {
                target == Err::<String, Error>(Error::ConnectFailed)
            },
            None => target == Err::<String, Error>(Error::ConnectFailed),
        },
{
    match &rpc.ws_url {
        Some(url) => {
            if is_url(url.as_str()) {
                Ok(url.clone())
            } else {
                Err(Error::ConnectFailed)
            }
        },
        None => Err(Error::ConnectFailed),
    }
}

/// How long a worker waits before it tries to connect again, in
/// milliseconds: `base` after the first failure, twice as long after each
/// further one, and never longer than `cap`.
#[derive(Debug, Clone, Copy, PartialEq, Eq, Structural)]
pub struct Backoff {
    pub base: u64,
    pub cap: u64,
}

impl Backoff {
    /// The longest wait after `attempt` earlier failures.
    pub open spec fn ceiling(&self, attempt: nat) -> int
        decreases attempt,
    {
        if attempt == 0 {
            if self.base < self.cap {
                self.base as int
            } else {
                self.cap as int
            }
        } else if 2 * self.ceiling((attempt - 1) as nat) < self.cap {
            2 * self.ceiling((attempt - 1) as nat)
        } else {
            self.cap as int
        }
    }

    /// The wait after `attempt` earlier failures, with the jitter `jitter`:
    /// between half the ceiling and the whole of it.
    pub open spec fn delay(&self, attempt: nat, jitter: u32) -> int {
        let ceiling = self.ceiling(attempt);
        ceiling - ceiling / 2 + (jitter as int) % (ceiling / 2 + 1)
    }

    /// The ceiling never exceeds the cap, and once it has reached the cap or
    /// is zero it stays there.
    pub proof fn lemma_ceiling(&self, attempt: nat, later: nat)
        requires
            attempt <= later,
        ensures
            0 <= self.ceiling(attempt) <= self.cap,
            self.ceiling(attempt) <= self.ceiling(later),
            self.ceiling(attempt) == self.cap ==> self.ceiling(later) == self.cap,
            self.ceiling(attempt) == 0 ==> self.ceiling(later) == 0,
        decreases later,
    {
        if attempt < later {
            self.lemma_ceiling(attempt, (later - 1) as nat);
        }
        if attempt > 0 {
            self.lemma_ceiling((attempt - 1) as nat, (attempt - 1) as nat);
        }
    }

    /// The longest wait after `attempt` earlier failures.
    pub fn ceiling_of(&self, attempt: u32) -> (ceiling: u64)
        ensures
            ceiling == self.ceiling(attempt as nat),
            ceiling <= self.cap,
    {
        let mut ceiling: u64 = if self.base < self.cap {
            self.base
        } else {
            self.cap
        };
        let mut done: u32 = 0;
        while done < attempt && 0 < ceiling && ceiling < self.cap
            invariant
                done <= attempt,
                ceiling == self.ceiling(done as nat),
                ceiling <= self.cap,
            decreases attempt - done,
        {
            ceiling = if ceiling < self.cap - ceiling {
                2 * ceiling
            } else {
                self.cap
            };
            done += 1;
        }
        proof {
            self.lemma_ceiling(done as nat, attempt as nat);
        }
        ceiling
    }

    /// The wait after `attempt` earlier failures, with the jitter `jitter`.
    pub fn delay_of(&self, attempt: u32, jitter: u32) -> (delay: u64)
        ensures
            delay == self.delay(attempt as nat, jitter),
            self.ceiling(attempt as nat) - self.ceiling(attempt as nat) / 2 <= delay
                <= self.ceiling(attempt as nat),
    {
        let ceiling = self.ceiling_of(attempt);
        let half = ceiling / 2;
        ceiling - half + jitter as u64 % (half + 1)
    }

    /// The wait after `attempt` earlier failures, with a jitter drawn at
    /// random.
    pub fn next_delay(&self, attempt: u32) -> (delay: u64)
        ensures
            self.ceiling(attempt as nat) - self.ceiling(attempt as nat) / 2 <= delay
                <= self.ceiling(attempt as nat),
            delay <= self.cap,
    {
        let jitter = random_u32();
        self.delay_of(attempt, jitter)
    }
}

/// Where a connection worker stands.
#[derive(Debug, Clone, Copy, PartialEq, Eq, Structural)]
pub enum WorkerState {
    /// It has no socket and is trying to get one; `attempt` tries have
    /// failed since it last had one.
    Connecting { attempt: u32 },
    /// The socket is up: frames go out and come in.
    Open,
    /// It was asked to close and is flushing what it has sent.
    Draining,
    /// It has closed the socket and is done.
    Closed,
    /// The socket failed under it.
    Broken,
}

/// What a connection worker is told.
#[derive(Debug, PartialEq)]
pub enum WorkerEvent {
    /// The socket is up.
    Connected,
    /// The attempt to connect failed.
    ConnectFailed,
    /// The manager queued this value for the node.
    Outbound(Value),
    /// The node sent this text frame.
    Inbound(String),
    /// Reading or writing the socket failed.
    IoError,
    /// Everything that was sent is flushed and the socket is closed.
    Drained,
    /// The reconnect signal is out.
    Resumed,
}

/// What a connection worker is to do next.
#[derive(Debug, PartialEq)]
pub enum WorkerAction {
    /// Try to open the socket.
    Connect,
    /// Start taking values from the queue and frames from the socket.
    Serve,
    /// Mark the node erroring, wait as long as the backoff says for this
    /// many earlier failures, then try to connect again.
    RetryAfter { attempt: u32, cause: Error },
    /// Send this text frame to the node.
    Send(String),
    /// Publish this frame to whoever listens.
    Publish(IncomingResponse),
    /// Log the error and drop the frame.
    Discard(Error),
    /// Flush what was sent and close the socket.
    Close,
    /// Mark the node erroring and publish the reconnect signal.
    SignalReconnect(Error),
    /// Stop: the worker is done.
    Stop,
    /// Nothing: the event means nothing in this state.
    Ignore,
}

/// `value` is the in-process request to close the connection: its `method`
/// is the string `close`. It is never sent to the node.
pub open spec fn is_close_request(value: Value) -> bool {
    json_as_str(json_member(value, "method"@)) == Some("close"@)
}

/// Whether `value` is the in-process request to close the connection.
pub fn is_close(value: &Value) -> (close: bool)
    ensures
        close == is_close_request(*value),
{
    match as_str(member(value, "method")) {
        Some(method) => method.to_string() == "close".to_string(),
        None => false,
    }
}

/// The state of a worker after `event`.
pub open spec fn next_state(state: WorkerState, event: WorkerEvent) -> WorkerState {
    match state {
        WorkerState::Connecting { attempt } => match event {
            WorkerEvent::Connected => WorkerState::Open,
            WorkerEvent::ConnectFailed => WorkerState::Connecting {
                attempt: if attempt < u32::MAX {
                    (attempt + 1) as u32
                } else {
                    attempt
                },
            },
            _ => state,
        },
        WorkerState::Open => match event {
            WorkerEvent::Outbound(value) => if is_close_request(value) {
                WorkerState::Draining
            } else {
                WorkerState::Open
            },
            WorkerEvent::IoError => WorkerState::Broken,
            _ => state,
        },
        WorkerState::Draining => match event {
            WorkerEvent::Drained => WorkerState::Closed,
            WorkerEvent::IoError => WorkerState::Closed,
            _ => state,
        },
        WorkerState::Closed => state,
        WorkerState::Broken => match event {
            WorkerEvent::Resumed => WorkerState::Connecting { attempt: 0 },
            _ => state,
        },
    }
}

/// `action` is what a worker for node `node_id` is to do when `event`
/// reaches it in `state`.
pub open spec fn action_fits(
    state: WorkerState,
    event: WorkerEvent,
    node_id: usize,
    action: WorkerAction,
) -> bool {
    match state {
        WorkerState::Connecting { attempt } => match event {
            WorkerEvent::Connected => action is Serve,
            WorkerEvent::ConnectFailed => action == (WorkerAction::RetryAfter {
                attempt,
                cause: Error::ConnectFailed,
            }),
            _ => action is Ignore,
        },
        WorkerState::Open => match event {
            WorkerEvent::Outbound(value) => if is_close_request(value) {
                action is Close
            } else {
                action is Send && action->Send_0@ == json_text(value)
            },
            WorkerEvent::Inbound(text) => match json_parse(text@) {
                Some(content) => action == WorkerAction::Publish(
                    IncomingResponse { content, node_id },
                ),
                None => action == WorkerAction::Discard(Error::ParseError),
            },
            WorkerEvent::IoError => action == WorkerAction::SignalReconnect(Error::IoBroken),
            _ => action is Ignore,
        },
        WorkerState::Draining => match event {
            WorkerEvent::Drained => action is Stop,
            WorkerEvent::IoError => action is Stop,
            _ => action is Ignore,
        },
        WorkerState::Closed => action is Stop,
        WorkerState::Broken => match event {
            WorkerEvent::Resumed => action is Connect,
            _ => action is Ignore,
        },
    }
}

/// One step of the worker for node `node_id`: takes `event` in `state`, and
/// says where the worker stands then and what it is to do.
///
/// A worker starts in `Connecting { attempt: 0 }` by trying to connect. Once
/// the socket is up it sends what is queued, in the order in which it was
/// queued, and publishes what comes in. The request to close drains and
/// ends it; a failure of the socket makes it signal a reconnect and start
/// over.
pub fn ws_conn(state: WorkerState, event: WorkerEvent, node_id: usize) -> (step: (
    WorkerState,
    WorkerAction,
))
    ensures
        step.0 == next_state(state, event),
        action_fits(state, event, node_id, step.1),
{
    match state {
        WorkerState::Connecting { attempt } => match event {
            WorkerEvent::Connected => (WorkerState::Open, WorkerAction::Serve),
            WorkerEvent::ConnectFailed => {
                let next = if attempt < u32::MAX {
                    attempt + 1
                } else {
                    attempt
                };
                (
                    WorkerState::Connecting { attempt: next },
                    WorkerAction::RetryAfter { attempt, cause: Error::ConnectFailed },
                )
            },
            _ => (state, WorkerAction::Ignore),
        },
        WorkerState::Open => match event {
            WorkerEvent::Outbound(value) => {
                if is_close(&value) {
                    (WorkerState::Draining, WorkerAction::Close)
                } else {
                    (WorkerState::Open, WorkerAction::Send(render(&value)))
                }
            },
            WorkerEvent::Inbound(text) => match parse(text.as_str()) {
                Some(content) => (
                    WorkerState::Open,
                    WorkerAction::Publish(IncomingResponse { content, node_id }),
                ),
                None => (WorkerState::Open, WorkerAction::Discard(Error::ParseError)),
            },
            WorkerEvent::IoError => (
                WorkerState::Broken,
                WorkerAction::SignalReconnect(Error::IoBroken),
            ),
            _ => (state, WorkerAction::Ignore),
        },
        WorkerState::Draining => match event {
            WorkerEvent::Drained => (WorkerState::Closed, WorkerAction::Stop),
            WorkerEvent::IoError => (WorkerState::Closed, WorkerAction::Stop),
            _ => (state, WorkerAction::Ignore),
        },
        WorkerState::Closed => (WorkerState::Closed, WorkerAction::Stop),
        WorkerState::Broken => match event {
            WorkerEvent::Resumed => (WorkerState::Connecting { attempt: 0 }, WorkerAction::Connect),
            _ => (state, WorkerAction::Ignore),
        },
    }
}

/// What the upstream manager is to do with a message.
#[derive(Debug, PartialEq)]
pub enum ManagerAction {
    /// Push `request` onto the outbound queue of the worker for `node_id`.
    Forward { node_id: usize, request: Value },
    /// Re-establish the broken workers and send each of these subscription
    /// requests upstream again.
    Replay { requests: Vec<String> },
}

/// One step of the upstream manager: decides what to do with `message`,
/// given the registry of nodes as it is now and the subscriptions that are
/// active.
///
/// A request goes to the node that [`pick`] chooses, unread. A reconnect
/// replays every registered subscription request.
pub fn ws_conn_manager(
    message: WsconnMessage,
    rpc_list: &Vec<Rpc>,
    weights: &Weights,
    subscriptions: &SubscriptionData,
) -> (action: ManagerAction)
    requires
        rpc_list@.len() > 0,
        subscriptions.wf(),
    ensures
        match message {
            WsconnMessage::Message(request) => {
                &&& action is Forward
                &&& action->request == request
                &&& is_best(rpc_list@, *weights, action->node_id as int)
            },
            WsconnMessage::Reconnect() => {
                &&& action is Replay
                &&& request_texts(action->requests@).no_duplicates()
                &&& request_texts(action->requests@).to_set() == subscriptions.incoming().dom()
            },
        },
{
    match message {
        WsconnMessage::Message(request) => {
            let (_, node_id) = pick(rpc_list, weights);
            ManagerAction::Forward { node_id, request }
        },
        WsconnMessage::Reconnect() => ManagerAction::Replay {
            requests: subscriptions.active_requests(),
        },
    }
}

} // verus!

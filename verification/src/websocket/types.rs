//! The messages that travel between the front-end, the upstream workers and
//! the downstream users, and the registry of subscriptions.

use serde_json::Value;
use std::collections::HashMap;
use std::collections::HashSet;
use tokio::sync::mpsc::UnboundedSender;
use vstd::prelude::*;
use vstd::std_specs::iter::IteratorSpec;

use crate::websocket::assoc::as_map;
use crate::websocket::assoc::has_key;
use crate::websocket::assoc::keys_distinct;
use crate::websocket::assoc::lemma_as_map_at;
use crate::websocket::assoc::lemma_as_map_empty;
use crate::websocket::assoc::lemma_as_map_push;
use crate::websocket::assoc::lemma_as_map_remove;
use crate::websocket::assoc::lemma_as_map_same_keys;
use crate::websocket::assoc::lemma_as_map_update;
use crate::websocket::error::Error;
use crate::websocket::json::json_as_str;
use crate::websocket::json::json_as_u64;
use crate::websocket::json::json_is_object;
use crate::websocket::json::null;

verus! {

/// `serde_json::Value`, a JSON document. The balancer forwards documents
/// without looking inside, so nothing of a value's content is visible here.
#[verifier::external_type_specification]
#[verifier::external_body]
pub struct ExValue(serde_json::Value);

/// `tokio::sync::mpsc::UnboundedSender`, the sending half of an unbounded
/// channel. Its state lives outside the verified code.
#[verifier::external_type_specification]
#[verifier::external_body]
#[verifier::reject_recursive_types(T)]
pub struct ExUnboundedSender<T>(tokio::sync::mpsc::UnboundedSender<T>);

/// `<serde_json::Value as Clone>::clone`: the copy is the same document.
pub assume_specification[ <Value as Clone>::clone ](value: &Value) -> (copy: Value)
    ensures
        copy == *value,
;

/// `<UnboundedSender<T> as Clone>::clone`: another handle to the same
/// channel. Nothing is claimed of it.
pub assume_specification<T>[ <UnboundedSender<T> as Clone>::clone ](
    sender: &UnboundedSender<T>,
) -> UnboundedSender<T>
;

/// What the core hands to a downstream user: the direct reply to a call, or
/// a notification of a subscription.
#[derive(Debug, PartialEq)]
pub enum RequestResult {
    Call(Value),
    Subscription(Value),
}

impl Clone for RequestResult {
    fn clone(&self) -> (copy: Self)
        ensures
            copy == *self,
    {
        match self {
            RequestResult::Call(call) => RequestResult::Call(call.clone()),
            RequestResult::Subscription(sub) => RequestResult::Subscription(sub.clone()),
        }
    }
}

impl RequestResult {
    /// The JSON document that the message carries.
    pub open spec fn content(self) -> Value {
        match self {
            RequestResult::Call(call) => call,
            RequestResult::Subscription(sub) => sub,
        }
    }
}

impl From<RequestResult> for Value {
    fn from(req: RequestResult) -> (value: Value) {
        match req {
            RequestResult::Call(call) => call,
            RequestResult::Subscription(sub) => sub,
        }
    }
}

impl vstd::std_specs::convert::FromSpecImpl<RequestResult> for Value {
    open spec fn obeys_from_spec() -> bool {
        true
    }

    open spec fn from_spec(req: RequestResult) -> Value {
        req.content()
    }
}

/// What the front-end hands to the upstream manager.
#[derive(Debug, PartialEq)]
pub enum WsconnMessage {
    /// An outbound JSON-RPC request.
    Message(Value),
    /// A request to re-establish broken connections and to replay the
    /// active subscriptions.
    Reconnect(),
}

impl From<WsconnMessage> for Value {
    /// The request that the message carries; `null` for a reconnect, which
    /// carries none.
    fn from(msg: WsconnMessage) -> (value: Value)
        ensures
            msg matches WsconnMessage::Message(request) ==> value == request,
            msg is Reconnect ==> {
                &&& !json_is_object(value)
                &&& json_as_u64(value) is None
                &&& json_as_str(value) is None
            },
    {
        match msg {
            WsconnMessage::Message(msg) => msg,
            WsconnMessage::Reconnect() => null(),
        }
    }
}

impl vstd::std_specs::convert::FromSpecImpl<WsconnMessage> for Value {
    open spec fn obeys_from_spec() -> bool {
        false
    }

    open spec fn from_spec(msg: WsconnMessage) -> Value {
        match msg {
            WsconnMessage::Message(request) => request,
            WsconnMessage::Reconnect() => arbitrary(),
        }
    }
}

/// A channel to a node is gone; the field is the node's index.
#[derive(Debug, Clone, Copy, PartialEq, Eq, Structural)]
pub enum WsChannelErr {
    Closed(usize),
}

/// A downstream user: the channel on which the core pushes call results and
/// notifications.
#[derive(Debug)]
pub struct UserData {
    pub message_channel: UnboundedSender<RequestResult>,
}

impl Clone for UserData {
    fn clone(&self) -> Self {
        UserData { message_channel: self.message_channel.clone() }
    }
}

/// `UnboundedSender::send`: puts `message` on the channel without waiting.
/// Whether that succeeds depends on the receiving half alone, which may have
/// been closed or dropped, so nothing is claimed of the answer.
#[verifier::external_body]
fn push_message(channel: &UnboundedSender<RequestResult>, message: RequestResult) -> (sent: bool) {
    channel.send(message).is_ok()
}

/// What became of one notification for one user.
#[derive(Debug, Clone, Copy, PartialEq, Eq, Structural)]
pub struct Delivery {
    /// The user that the notification was pushed to.
    pub user_id: u32,
    /// Whether the user's channel took it. A channel that did not is closed:
    /// that user has left and can be removed.
    pub sent: bool,
}

impl Delivery {
    /// The push as a result: `SendFailed` where the channel was closed.
    pub fn outcome(&self) -> (outcome: Result<(), Error>)
        ensures
            outcome == if self.sent {
                Ok::<(), Error>(())
            } else {
                Err::<(), Error>(Error::SendFailed)
            },
    {
        if self.sent {
            Ok(())
        } else {
            Err(Error::SendFailed)
        }
    }
}

/// The users of `report`, in its order.
pub open spec fn delivery_ids(report: Seq<Delivery>) -> Seq<u32> {
    report.map_values(|delivery: Delivery| delivery.user_id)
}

/// One physical subscription: a stream of notifications that one node sends
/// under one subscription id.
#[derive(Debug, PartialEq, Eq, Hash)]
pub struct NodeSubInfo {
    pub node_id: usize,
    pub subscription_id: String,
}

/// The mathematical value of a [`NodeSubInfo`].
pub struct NodeSub {
    pub node_id: usize,
    pub subscription_id: Seq<char>,
}

impl View for NodeSubInfo {
    type V = NodeSub;

    open spec fn view(&self) -> NodeSub {
        NodeSub { node_id: self.node_id, subscription_id: self.subscription_id@ }
    }
}

impl Clone for NodeSubInfo {
    fn clone(&self) -> (copy: Self)
        ensures
            copy == *self,
    {
        NodeSubInfo { node_id: self.node_id, subscription_id: self.subscription_id.clone() }
    }
}

impl NodeSubInfo {
    /// Whether this is the subscription `subscription_id` of node `node_id`.
    pub fn is(&self, node_id: usize, subscription_id: &String) -> (same: bool)
        ensures
            same == (self@ == (NodeSub { node_id, subscription_id: subscription_id@ })),
    {
        self.node_id == node_id && self.subscription_id == *subscription_id
    }
}

/// A frame that came in from a node.
#[derive(Debug, PartialEq)]
pub struct IncomingResponse {
    pub content: Value,
    pub node_id: usize,
}

impl Clone for IncomingResponse {
    fn clone(&self) -> (copy: Self)
        ensures
            copy == *self,
    {
        IncomingResponse { content: self.content.clone(), node_id: self.node_id }
    }
}

/// The users that follow one physical subscription.
struct Subscribers {
    node: NodeSubInfo,
    users: HashSet<u32>,
}

/// A subscription request that is live upstream, and the physical
/// subscription that serves it.
struct Registration {
    request: String,
    node: NodeSubInfo,
}

/// Every subscriber set of `subscriptions` without `user_id`.
pub open spec fn without_user(subscriptions: Map<NodeSub, Set<u32>>, user_id: u32) -> Map<
    NodeSub,
    Set<u32>,
> {
    Map::new(
        |node: NodeSub| subscriptions.contains_key(node),
        |node: NodeSub| subscriptions[node].remove(user_id),
    )
}

/// The subscriber sets of `subscriptions` after `user_id` has left every
/// physical subscription whose id is `subscription_id`, on whatever node.
pub open spec fn without_subscriber(
    subscriptions: Map<NodeSub, Set<u32>>,
    user_id: u32,
    subscription_id: Seq<char>,
) -> Map<NodeSub, Set<u32>> {
    Map::new(
        |node: NodeSub| subscriptions.contains_key(node),
        |node: NodeSub|
            if node.subscription_id == subscription_id {
                subscriptions[node].remove(user_id)
            } else {
                subscriptions[node]
            },
    )
}

/// The registrations of `incoming` without those that `node` serves.
pub open spec fn without_node(incoming: Map<Seq<char>, NodeSub>, node: NodeSub) -> Map<
    Seq<char>,
    NodeSub,
> {
    Map::new(
        |request: Seq<char>| incoming.contains_key(request) && incoming[request] != node,
        |request: Seq<char>| incoming[request],
    )
}

/// Every member of every subscriber set of `subscriptions` is in `users`.
pub open spec fn all_connected(subscriptions: Map<NodeSub, Set<u32>>, users: Set<u32>) -> bool {
    forall|node: NodeSub, user_id: u32|
        subscriptions.contains_key(node) && (#[trigger] subscriptions[node].contains(user_id))
            ==> users.contains(user_id)
}

/// No request of `incoming` is served by `node`.
pub open spec fn serves_nothing(incoming: Map<Seq<char>, NodeSub>, node: NodeSub) -> bool {
    forall|request: Seq<char>|
        incoming.contains_key(request) ==> (#[trigger] incoming[request]) != node
}

/// The subscriber sets after `request` has moved to the subscription `node`:
/// where `request` was registered and its subscription had subscribers on
/// record, they follow `node` too.
pub open spec fn rebound(
    subscriptions: Map<NodeSub, Set<u32>>,
    incoming: Map<Seq<char>, NodeSub>,
    request: Seq<char>,
    node: NodeSub,
) -> Map<NodeSub, Set<u32>> {
    if incoming.contains_key(request) && subscriptions.contains_key(incoming[request]) {
        subscriptions.insert(
            node,
            (if subscriptions.contains_key(node) {
                subscriptions[node]
            } else {
                Set::empty()
            }).union(subscriptions[incoming[request]]),
        )
    } else {
        subscriptions
    }
}

/// The texts of `requests`, in their order.
pub open spec fn request_texts(requests: Seq<String>) -> Seq<Seq<char>> {
    requests.map_values(|request: String| request@)
}

/// The registry of downstream users and of the subscriptions they follow.
///
/// It is three maps: the users by id, the subscriber set of each physical
/// subscription, and the physical subscription that serves each subscription
/// request. Users and subscriptions refer to each other by id only.
pub struct SubscriptionData {
    users: HashMap<u32, UserData>,
    subscriptions: Vec<Subscribers>,
    incoming_subscriptions: Vec<Registration>,
}

impl SubscriptionData {
    spec fn subscription_pairs(&self) -> Seq<(NodeSub, Set<u32>)> {
        self.subscriptions@.map_values(|entry: Subscribers| (entry.node@, entry.users@))
    }

    spec fn incoming_pairs(&self) -> Seq<(Seq<char>, NodeSub)> {
        self.incoming_subscriptions@.map_values(
            |entry: Registration| (entry.request@, entry.node@),
        )
    }

    /// The registry is well formed: no physical subscription and no request
    /// is recorded twice. Every operation keeps it so.
    pub closed spec fn wf(&self) -> bool {
        &&& keys_distinct(self.subscription_pairs())
        &&& keys_distinct(self.incoming_pairs())
    }

    /// The connected users, by id.
    pub closed spec fn users(&self) -> Map<u32, UserData> {
        self.users@
    }

    /// The subscriber set of each physical subscription that is recorded.
    pub closed spec fn subscriptions(&self) -> Map<NodeSub, Set<u32>> {
        as_map(self.subscription_pairs())
    }

    /// The physical subscription that serves each registered request.
    pub closed spec fn incoming(&self) -> Map<Seq<char>, NodeSub> {
        as_map(self.incoming_pairs())
    }

    /// The users that follow `node`: none where `node` is not recorded.
    pub open spec fn subscribers(&self, node: NodeSub) -> Set<u32> {
        if self.subscriptions().contains_key(node) {
            self.subscriptions()[node]
        } else {
            Set::empty()
        }
    }

    /// `node` is recorded and nobody follows it any more.
    pub open spec fn is_idle(&self, node: NodeSub) -> bool {
        self.subscriptions().contains_key(node) && self.subscriptions()[node].is_empty()
    }

    /// The users that a notification of `node` goes to: its subscribers that
    /// are connected.
    pub open spec fn dispatch_targets(&self, node: NodeSub) -> Set<u32> {
        self.subscribers(node).intersect(self.users().dom())
    }

    /// Every subscriber of every physical subscription is a connected user.
    pub open spec fn subscribers_connected(&self) -> bool {
        all_connected(self.subscriptions(), self.users().dom())
    }

    /// No registered request is served by `node`.
    pub open spec fn is_retired(&self, node: NodeSub) -> bool {
        serves_nothing(self.incoming(), node)
    }

    /// An empty registry.
    pub fn new() -> (registry: Self)
        ensures
            registry.wf(),
            registry.users() == Map::<u32, UserData>::empty(),
            registry.subscriptions() == Map::<NodeSub, Set<u32>>::empty(),
            registry.incoming() == Map::<Seq<char>, NodeSub>::empty(),
            registry.subscribers_connected(),
    {
        let registry = SubscriptionData {
            users: HashMap::new(),
            subscriptions: Vec::new(),
            incoming_subscriptions: Vec::new(),
        };
        proof {
            lemma_as_map_empty(registry.subscription_pairs());
            lemma_as_map_empty(registry.incoming_pairs());
        }
        registry
    }

    /// Records the user `user_id`. A user that was recorded under this id
    /// is replaced.
    pub fn add_user(&mut self, user_id: u32, user_data: UserData)
        requires
            old(self).wf(),
        ensures
            final(self).wf(),
            final(self).users() == old(self).users().insert(user_id, user_data),
            final(self).subscriptions() == old(self).subscriptions(),
            final(self).incoming() == old(self).incoming(),
            old(self).subscribers_connected() ==> final(self).subscribers_connected(),
    {
        broadcast use vstd::std_specs::hash::group_hash_axioms;

        self.users.insert(user_id, user_data);
    }

    /// Whether a user is recorded under `user_id`.
    pub fn has_user(&self, user_id: u32) -> (known: bool)
        ensures
            known == self.users().contains_key(user_id),
    {
        broadcast use vstd::std_specs::hash::group_hash_axioms;

        self.users.contains_key(&user_id)
    }

    /// Forgets the user `user_id` and takes the id out of every subscriber
    /// set.
    pub fn remove_user(&mut self, user_id: u32)
        requires
            old(self).wf(),
        ensures
            final(self).wf(),
            final(self).users() == old(self).users().remove(user_id),
            final(self).subscriptions() == without_user(old(self).subscriptions(), user_id),
            final(self).incoming() == old(self).incoming(),
            forall|node: NodeSub| !(#[trigger] final(self).subscribers(node)).contains(user_id),
            old(self).subscribers_connected() ==> final(self).subscribers_connected(),
            !old(self).users().contains_key(user_id) && (forall|node: NodeSub|
                !(#[trigger] old(self).subscribers(node)).contains(user_id)) ==> {
                &&& final(self).users() == old(self).users()
                &&& final(self).subscriptions() == old(self).subscriptions()
            },
    {
        broadcast use vstd::std_specs::hash::group_hash_axioms;

        self.users.remove(&user_id);
        let count = self.subscriptions.len();
        let mut i: usize = 0;
        while i < count
            invariant
                i <= count,
                count == self.subscriptions@.len(),
                count == old(self).subscriptions@.len(),
                self.incoming_subscriptions == old(self).incoming_subscriptions,
                self.users@ == old(self).users@.remove(user_id),
                forall|j: int|
                    0 <= j < count ==> (#[trigger] self.subscriptions@[j]).node
                        == old(self).subscriptions@[j].node,
                forall|j: int|
                    0 <= j < i ==> (#[trigger] self.subscriptions@[j]).users@ == old(
                        self,
                    ).subscriptions@[j].users@.remove(user_id),
                forall|j: int|
                    i <= j < count ==> (#[trigger] self.subscriptions@[j]).users@ == old(
                        self,
                    ).subscriptions@[j].users@,
            decreases count - i,
        {
            self.subscriptions[i].users.remove(&user_id);
            i += 1;
        }
        proof {
            let before = old(self).subscription_pairs();
            let after = self.subscription_pairs();
            lemma_as_map_same_keys(before, after);
            assert(as_map(after) =~= without_user(as_map(before), user_id));
            if !old(self).users().contains_key(user_id) && (forall|node: NodeSub|
                !(#[trigger] old(self).subscribers(node)).contains(user_id)) {
                assert(self.users() =~= old(self).users());
                assert forall|node: NodeSub| #[trigger]
                    as_map(before).contains_key(node) implies as_map(before)[node].remove(user_id)
                    == as_map(before)[node] by {
                    assert(!old(self).subscribers(node).contains(user_id));
                    assert(as_map(before)[node].remove(user_id) =~= as_map(before)[node]);
                }
                assert(as_map(after) =~= as_map(before));
            }
        }
    }
    /// The position of the request `request` among the registrations.
    fn find_request(&self, request: &String) -> (found: Option<usize>)
        ensures
            match found {
                Some(i) => i < self.incoming_subscriptions@.len() && self.incoming_pairs()[i as int].0
                    == request@,
                None => !has_key(self.incoming_pairs(), request@),
            },
    {
        let count = self.incoming_subscriptions.len();
        let mut i: usize = 0;
        while i < count
            invariant
                i <= count,
                count == self.incoming_subscriptions@.len(),
                forall|j: int| 0 <= j < i ==> (#[trigger] self.incoming_pairs()[j]).0 != request@,
            decreases count - i,
        {
            if self.incoming_subscriptions[i].request == *request {
                return Some(i);
            }
            i += 1;
        }
        None
    }

    /// The position of the physical subscription `subscription_id` of node
    /// `node_id` among the subscriber sets.
    fn find_node(&self, node_id: usize, subscription_id: &String) -> (found: Option<usize>)
        ensures
            match found {
                Some(i) => i < self.subscriptions@.len() && self.subscription_pairs()[i as int].0
                    == (NodeSub { node_id, subscription_id: subscription_id@ }),
                None => !has_key(
                    self.subscription_pairs(),
                    NodeSub { node_id, subscription_id: subscription_id@ },
                ),
            },
    {
        let count = self.subscriptions.len();
        let mut i: usize = 0;
        while i < count
            invariant
                i <= count,
                count == self.subscriptions@.len(),
                forall|j: int|
                    0 <= j < i ==> (#[trigger] self.subscription_pairs()[j]).0 != (NodeSub {
                        node_id,
                        subscription_id: subscription_id@,
                    }),
            decreases count - i,
        {
            if self.subscriptions[i].node.is(node_id, subscription_id) {
                return Some(i);
            }
            i += 1;
        }
        None
    }

    /// Whether `user_id` follows the subscription `subscription_id` of node
    /// `node_id`.
    pub fn is_subscribed(&self, user_id: u32, node_id: usize, subscription_id: &String) -> (member:
        bool)
        requires
            self.wf(),
        ensures
            member == self.subscribers(NodeSub { node_id, subscription_id: subscription_id@ }).contains(
                user_id,
            ),
    {
        broadcast use vstd::std_specs::hash::group_hash_axioms;

        match self.find_node(node_id, subscription_id) {
            Some(position) => {
                proof {
                    lemma_as_map_at(self.subscription_pairs(), position as int);
                }
                self.subscriptions[position].users.contains(&user_id)
            },
            None => false,
        }
    }

    /// Whether the subscription `subscription_id` of node `node_id` is
    /// recorded, with or without subscribers.
    pub fn has_subscription(&self, node_id: usize, subscription_id: &String) -> (recorded: bool)
        requires
            self.wf(),
        ensures
            recorded == self.subscriptions().contains_key(
                NodeSub { node_id, subscription_id: subscription_id@ },
            ),
    {
        match self.find_node(node_id, subscription_id) {
            Some(position) => {
                proof {
                    lemma_as_map_at(self.subscription_pairs(), position as int);
                }
                true
            },
            None => false,
        }
    }

    /// Records that the request `subscription_request` is served by the
    /// subscription `subscription_id` of node `node_id`. A request that was
    /// registered before now points to the new subscription.
    pub fn register_subscription(
        &mut self,
        subscription_request: String,
        subscription_id: String,
        node_id: usize,
    )
        requires
            old(self).wf(),
        ensures
            final(self).wf(),
            final(self).incoming() == old(self).incoming().insert(
                subscription_request@,
                NodeSub { node_id, subscription_id: subscription_id@ },
            ),
            final(self).users() == old(self).users(),
            final(self).subscriptions() == old(self).subscriptions(),
            old(self).subscribers_connected() ==> final(self).subscribers_connected(),
    {
        let node = NodeSubInfo { node_id, subscription_id };
        let ghost before = self.incoming_pairs();
        match self.find_request(&subscription_request) {
            Some(i) => {
                self.incoming_subscriptions[i].node = node;
                proof {
                    lemma_as_map_update(before, i as int, node@);
                    assert(self.incoming_pairs() =~= before.update(
                        i as int,
                        (before[i as int].0, node@),
                    ));
                }
            },
            None => {
                self.incoming_subscriptions.push(
                    Registration { request: subscription_request, node },
                );
                proof {
                    lemma_as_map_push(before, subscription_request@, node@);
                    assert(self.incoming_pairs() =~= before.push((subscription_request@, node@)));
                }
            },
        }
    }

    /// Forgets the request `subscription_request`.
    pub fn unregister_subscription(&mut self, subscription_request: String)
        requires
            old(self).wf(),
        ensures
            final(self).wf(),
            final(self).incoming() == old(self).incoming().remove(subscription_request@),
            final(self).users() == old(self).users(),
            final(self).subscriptions() == old(self).subscriptions(),
            old(self).subscribers_connected() ==> final(self).subscribers_connected(),
    {
        let ghost before = self.incoming_pairs();
        match self.find_request(&subscription_request) {
            Some(i) => {
                self.incoming_subscriptions.remove(i);
                proof {
                    lemma_as_map_remove(before, i as int);
                    assert(self.incoming_pairs() =~= before.remove(i as int));
                }
            },
            None => {
                assert(self.incoming() =~= self.incoming().remove(subscription_request@));
            },
        }
    }

    /// The physical subscription that serves the request
    /// `subscription_request`, if the request is registered.
    pub fn lookup_subscription(&self, subscription_request: &String) -> (node: Option<NodeSubInfo>)
        requires
            self.wf(),
        ensures
            match node {
                Some(node) => self.incoming().contains_key(subscription_request@)
                    && self.incoming()[subscription_request@] == node@,
                None => !self.incoming().contains_key(subscription_request@),
            },
    {
        match self.find_request(subscription_request) {
            Some(i) => {
                proof {
                    lemma_as_map_at(self.incoming_pairs(), i as int);
                }
                Some(self.incoming_subscriptions[i].node.clone())
            },
            None => None,
        }
    }

    /// Adds `user_id` to the subscribers of the physical subscription that
    /// serves the request `subscription`, and returns the subscription id
    /// that the user is to see. Fails if the request is not registered.
    pub fn subscribe_user(&mut self, user_id: u32, subscription: String) -> (id: Result<
        String,
        Error,
    >)
        requires
            old(self).wf(),
        ensures
            final(self).wf(),
            final(self).users() == old(self).users(),
            final(self).incoming() == old(self).incoming(),
            !old(self).incoming().contains_key(subscription@) ==> {
                &&& id == Err::<String, Error>(Error::UnknownSubscription)
                &&& final(self).subscriptions() == old(self).subscriptions()
            },
            old(self).incoming().contains_key(subscription@) ==> {
                let node = old(self).incoming()[subscription@];
                &&& id is Ok
                &&& id->Ok_0@ == node.subscription_id
                &&& final(self).subscriptions() == old(self).subscriptions().insert(
                    node,
                    old(self).subscribers(node).insert(user_id),
                )
                &&& final(self).subscribers(node).contains(user_id)
            },
            old(self).subscribers_connected() && old(self).users().contains_key(user_id)
                ==> final(self).subscribers_connected(),
    {
        broadcast use vstd::std_specs::hash::group_hash_axioms;

        let found = self.find_request(&subscription);
        match found {
            None => Err(Error::UnknownSubscription),
            Some(i) => {
                proof {
                    lemma_as_map_at(self.incoming_pairs(), i as int);
                }
                let node = self.incoming_subscriptions[i].node.clone();
                let id = node.subscription_id.clone();
                let ghost before = self.subscription_pairs();
                match self.find_node(node.node_id, &node.subscription_id) {
                    Some(j) => {
                        proof {
                            lemma_as_map_at(before, j as int);
                        }
                        self.subscriptions[j].users.insert(user_id);
                        proof {
                            lemma_as_map_update(before, j as int, before[j as int].1.insert(user_id));
                            assert(self.subscription_pairs() =~= before.update(
                                j as int,
                                (before[j as int].0, before[j as int].1.insert(user_id)),
                            ));
                        }
                    },
                    None => {
                        let mut users: HashSet<u32> = HashSet::new();
                        users.insert(user_id);
                        self.subscriptions.push(Subscribers { node, users });
                        proof {
                            lemma_as_map_push(before, node@, Set::<u32>::empty().insert(user_id));
                            assert(self.subscription_pairs() =~= before.push(
                                (node@, Set::<u32>::empty().insert(user_id)),
                            ));
                        }
                    },
                }
                Ok(id)
            },
        }
    }

    /// Takes `user_id` out of every physical subscription whose id is
    /// `subscription_id`, on whatever node it lives.
    pub fn unsubscribe_user(&mut self, user_id: u32, subscription_id: String)
        requires
            old(self).wf(),
        ensures
            final(self).wf(),
            final(self).users() == old(self).users(),
            final(self).incoming() == old(self).incoming(),
            final(self).subscriptions() == without_subscriber(
                old(self).subscriptions(),
                user_id,
                subscription_id@,
            ),
            forall|node: NodeSub|
                node.subscription_id == subscription_id@ ==> !(#[trigger] final(self).subscribers(
                    node,
                )).contains(user_id),
            old(self).subscribers_connected() ==> final(self).subscribers_connected(),
    {
        broadcast use vstd::std_specs::hash::group_hash_axioms;

        let count = self.subscriptions.len();
        let mut i: usize = 0;
        while i < count
            invariant
                i <= count,
                count == self.subscriptions@.len(),
                count == old(self).subscriptions@.len(),
                self.incoming_subscriptions == old(self).incoming_subscriptions,
                self.users == old(self).users,
                forall|j: int|
                    0 <= j < count ==> (#[trigger] self.subscriptions@[j]).node
                        == old(self).subscriptions@[j].node,
                forall|j: int|
                    0 <= j < i ==> (#[trigger] self.subscriptions@[j]).users@ == (if old(
                        self,
                    ).subscriptions@[j].node.subscription_id@ == subscription_id@ {
                        old(self).subscriptions@[j].users@.remove(user_id)
                    } else {
                        old(self).subscriptions@[j].users@
                    }),
                forall|j: int|
                    i <= j < count ==> (#[trigger] self.subscriptions@[j]).users@ == old(
                        self,
                    ).subscriptions@[j].users@,
            decreases count - i,
        {
            if self.subscriptions[i].node.subscription_id == subscription_id {
                self.subscriptions[i].users.remove(&user_id);
            }
            i += 1;
        }
        proof {
            let before = old(self).subscription_pairs();
            let after = self.subscription_pairs();
            lemma_as_map_same_keys(before, after);
            assert(as_map(after) =~= without_subscriber(
                as_map(before),
                user_id,
                subscription_id@,
            ));
        }
    }
    /// Retires the physical subscription `subscription_id` of node `node_id`:
    /// forgets every request that it serves.
    pub fn retire_subscription(&mut self, node_id: usize, subscription_id: &String)
        requires
            old(self).wf(),
        ensures
            final(self).wf(),
            final(self).users() == old(self).users(),
            final(self).subscriptions() == old(self).subscriptions(),
            final(self).incoming() == without_node(
                old(self).incoming(),
                NodeSub { node_id, subscription_id: subscription_id@ },
            ),
            final(self).is_retired(NodeSub { node_id, subscription_id: subscription_id@ }),
            old(self).subscribers_connected() ==> final(self).subscribers_connected(),
    {
        let ghost node = NodeSub { node_id, subscription_id: subscription_id@ };
        let mut i: usize = 0;
        while i < self.incoming_subscriptions.len()
            invariant
                i <= self.incoming_subscriptions@.len(),
                node == (NodeSub { node_id, subscription_id: subscription_id@ }),
                self.users == old(self).users,
                self.subscriptions == old(self).subscriptions,
                keys_distinct(self.incoming_pairs()),
                without_node(as_map(self.incoming_pairs()), node) == without_node(
                    old(self).incoming(),
                    node,
                ),
                forall|j: int| 0 <= j < i ==> (#[trigger] self.incoming_pairs()[j]).1 != node,
            decreases self.incoming_subscriptions@.len() - i,
        {
            let ghost before = self.incoming_pairs();
            if self.incoming_subscriptions[i].node.is(node_id, subscription_id) {
                self.incoming_subscriptions.remove(i);
                proof {
                    assert(before[i as int].1 == node);
                    lemma_as_map_at(before, i as int);
                    lemma_as_map_remove(before, i as int);
                    assert(self.incoming_pairs() =~= before.remove(i as int));
                    assert(without_node(as_map(before).remove(before[i as int].0), node)
                        =~= without_node(as_map(before), node));
                    assert forall|j: int| 0 <= j < i implies (#[trigger] self.incoming_pairs()[j]).1
                        != node by {
                        assert(self.incoming_pairs()[j] == before[j]);
                    }
                }
            } else {
                assert(before[i as int].1 != node);
                i += 1;
            }
        }
        proof {
            let pairs = self.incoming_pairs();
            assert forall|request: Seq<char>| #[trigger]
                as_map(pairs).contains_key(request) implies as_map(pairs)[request] != node by {
                let j = crate::websocket::assoc::index_of(pairs, request);
                lemma_as_map_at(pairs, j);
            }
            assert(without_node(as_map(pairs), node) =~= as_map(pairs));
        }
    }

    /// Adds the users `ids` to the subscribers of the entry at `position`.
    fn add_subscribers(&mut self, position: usize, ids: &Vec<u32>)
        requires
            position < old(self).subscriptions@.len(),
        ensures
            final(self).users == old(self).users,
            final(self).incoming_subscriptions == old(self).incoming_subscriptions,
            final(self).subscription_pairs() == old(self).subscription_pairs().update(
                position as int,
                (
                    old(self).subscription_pairs()[position as int].0,
                    old(self).subscription_pairs()[position as int].1.union(ids@.to_set()),
                ),
            ),
    {
        broadcast use vstd::std_specs::hash::group_hash_axioms;

        let mut i: usize = 0;
        while i < ids.len()
            invariant
                i <= ids@.len(),
                position < self.subscriptions@.len(),
                self.subscriptions@.len() == old(self).subscriptions@.len(),
                self.users == old(self).users,
                self.incoming_subscriptions == old(self).incoming_subscriptions,
                forall|j: int|
                    0 <= j < self.subscriptions@.len() && j != position
                        ==> #[trigger] self.subscriptions@[j] == old(self).subscriptions@[j],
                self.subscriptions@[position as int].node == old(
                    self,
                ).subscriptions@[position as int].node,
                self.subscriptions@[position as int].users@ == old(
                    self,
                ).subscriptions@[position as int].users@.union(ids@.take(i as int).to_set()),
            decreases ids@.len() - i,
        {
            proof {
                assert(ids@.take(i as int + 1) =~= ids@.take(i as int).push(ids@[i as int]));
                lemma_push_to_set(ids@.take(i as int), ids@[i as int]);
                assert(old(self).subscriptions@[position as int].users@.union(
                    ids@.take(i as int).to_set(),
                ).insert(ids@[i as int]) =~= old(self).subscriptions@[position as int].users@.union(
                    ids@.take(i as int + 1).to_set(),
                ));
            }
            self.subscriptions[position].users.insert(ids[i]);
            i += 1;
        }
        proof {
            assert(ids@.take(i as int) =~= ids@);
            assert(ids@.take(0).to_set() =~= Set::<u32>::empty());
            let before = old(self).subscription_pairs();
            assert(self.subscription_pairs()[position as int].1 =~= before[position as int].1.union(
                ids@.to_set(),
            ));
            assert(self.subscription_pairs() =~= before.update(
                position as int,
                (before[position as int].0, before[position as int].1.union(ids@.to_set())),
            ));
        }
    }

    /// Moves the request `subscription_request` to the subscription
    /// `subscription_id` of node `node_id`, as after a reconnect: the request
    /// is registered there, and whoever followed the subscription that served
    /// it until now follows the new one as well.
    pub fn rebind_subscription(
        &mut self,
        subscription_request: String,
        subscription_id: String,
        node_id: usize,
    )
        requires
            old(self).wf(),
        ensures
            final(self).wf(),
            final(self).users() == old(self).users(),
            final(self).incoming() == old(self).incoming().insert(
                subscription_request@,
                NodeSub { node_id, subscription_id: subscription_id@ },
            ),
            final(self).subscriptions() == rebound(
                old(self).subscriptions(),
                old(self).incoming(),
                subscription_request@,
                NodeSub { node_id, subscription_id: subscription_id@ },
            ),
            old(self).subscribers_connected() ==> final(self).subscribers_connected(),
    {
        let ghost node = NodeSub { node_id, subscription_id: subscription_id@ };
        let served_by = self.lookup_subscription(&subscription_request);
        self.register_subscription(subscription_request, subscription_id.clone(), node_id);
        let served_by = match served_by {
            Some(served_by) => served_by,
            None => {
                return ;
            },
        };
        let source = match self.find_node(served_by.node_id, &served_by.subscription_id) {
            Some(source) => source,
            None => {
                return ;
            },
        };
        proof {
            lemma_as_map_at(self.subscription_pairs(), source as int);
        }
        let ids = self.subscribers_at(source);
        let ghost before = self.subscription_pairs();
        match self.find_node(node_id, &subscription_id) {
            Some(target) => {
                proof {
                    lemma_as_map_at(before, target as int);
                    lemma_as_map_update(
                        before,
                        target as int,
                        before[target as int].1.union(ids@.to_set()),
                    );
                }
                self.add_subscribers(target, &ids);
            },
            None => {
                let target = self.subscriptions.len();
                self.subscriptions.push(
                    Subscribers {
                        node: NodeSubInfo { node_id, subscription_id },
                        users: HashSet::new(),
                    },
                );
                let ghost pushed = self.subscription_pairs();
                proof {
                    lemma_as_map_push(before, node, Set::<u32>::empty());
                    assert(pushed =~= before.push((node, Set::<u32>::empty())));
                    lemma_as_map_update(
                        pushed,
                        target as int,
                        Set::<u32>::empty().union(ids@.to_set()),
                    );
                }
                self.add_subscribers(target, &ids);
                proof {
                    assert(Set::<u32>::empty().union(ids@.to_set()) =~= ids@.to_set());
                    assert(self.subscriptions() =~= as_map(before).insert(node, ids@.to_set()));
                    assert(old(self).subscribers(node).union(ids@.to_set()) =~= ids@.to_set());
                }
            },
        }
    }

    /// The requests that are registered, each once.
    pub fn active_requests(&self) -> (requests: Vec<String>)
        requires
            self.wf(),
        ensures
            request_texts(requests@).no_duplicates(),
            request_texts(requests@).to_set() == self.incoming().dom(),
    {
        let mut requests: Vec<String> = Vec::new();
        let count = self.incoming_subscriptions.len();
        let mut i: usize = 0;
        while i < count
            invariant
                i <= count,
                count == self.incoming_subscriptions@.len(),
                requests@.len() == i,
                forall|j: int|
                    0 <= j < i ==> (#[trigger] requests@[j])@ == self.incoming_pairs()[j].0,
            decreases count - i,
        {
            requests.push(self.incoming_subscriptions[i].request.clone());
            i += 1;
        }
        proof {
            let pairs = self.incoming_pairs();
            let texts = request_texts(requests@);
            assert forall|a: int, b: int| 0 <= a < texts.len() && 0 <= b < texts.len() && a
                != b implies texts[a] != texts[b] by {
                assert(texts[a] == requests@[a]@ && texts[b] == requests@[b]@);
                if a < b {
                    assert(pairs[a].0 != pairs[b].0);
                } else {
                    assert(pairs[b].0 != pairs[a].0);
                }
            }
            assert forall|text: Seq<char>| texts.to_set().contains(text) <==> as_map(
                pairs,
            ).dom().contains(text) by {
                if texts.contains(text) {
                    let j = choose|j: int| 0 <= j < texts.len() && texts[j] == text;
                    assert(texts[j] == requests@[j]@);
                    assert(pairs[j].0 == text);
                }
                if has_key(pairs, text) {
                    let j = crate::websocket::assoc::index_of(pairs, text);
                    assert(texts[j] == requests@[j]@);
                }
            }
            assert(texts.to_set() =~= self.incoming().dom());
        }
        requests
    }

    /// The subscribers of the entry at position `position`, each once.
    fn subscribers_at(&self, position: usize) -> (ids: Vec<u32>)
        requires
            position < self.subscriptions@.len(),
        ensures
            ids@.no_duplicates(),
            ids@.to_set() == self.subscription_pairs()[position as int].1,
    {
        broadcast use vstd::std_specs::hash::group_hash_axioms;

        let users = &self.subscriptions[position].users;
        let mut ids: Vec<u32> = Vec::new();
        for user_id in it: users.iter()
            invariant
                ids@.len() == it.index(),
                forall|j: int| 0 <= j < ids@.len() ==> ids@[j] == *it.seq()[j],
        {
            ids.push(*user_id);
        }
        assert(ids@ =~= users.iter().remaining().unref());
        ids
    }

    /// Pushes the notification `message` of the physical subscription
    /// `subscription_id` of node `node_id` to each of its subscribers that is
    /// connected, once, and reports what became of each push. A channel that
    /// is closed does not stop the others.
    ///
    /// A call result is refused. Where the subscription is recorded and
    /// nobody follows it any more, it is retired.
    pub fn dispatch_to_subscribers(
        &mut self,
        subscription_id: &str,
        node_id: usize,
        message: &RequestResult,
    ) -> (report: Result<Vec<Delivery>, Error>)
        requires
            old(self).wf(),
        ensures
            final(self).wf(),
            final(self).users() == old(self).users(),
            final(self).subscriptions() == old(self).subscriptions(),
            message is Call ==> {
                &&& report == Err::<Vec<Delivery>, Error>(Error::MisroutedCall)
                &&& final(self).incoming() == old(self).incoming()
            },
            message is Subscription ==> {
                let node = NodeSub { node_id, subscription_id: subscription_id@ };
                &&& report is Ok
                &&& delivery_ids(report->Ok_0@).no_duplicates()
                &&& delivery_ids(report->Ok_0@).to_set() == old(self).dispatch_targets(node)
                &&& final(self).incoming() == if old(self).is_idle(node) {
                    without_node(old(self).incoming(), node)
                } else {
                    old(self).incoming()
                }
                &&& forall|i: int|
                    0 <= i < report->Ok_0@.len() ==> old(self).subscribers(node).contains(
                        (#[trigger] report->Ok_0@[i]).user_id,
                    )
                &&& old(self).subscribers(node).is_empty() ==> report->Ok_0@.len() == 0
                &&& old(self).is_idle(node) ==> final(self).is_retired(node)
            },
            old(self).subscribers_connected() ==> final(self).subscribers_connected(),
    {
        broadcast use vstd::std_specs::hash::group_hash_axioms;

        if let RequestResult::Call(_) = message {
            return Err(Error::MisroutedCall);
        }
        let subscription_id = subscription_id.to_string();
        let ghost node = NodeSub { node_id, subscription_id: subscription_id@ };
        let mut report: Vec<Delivery> = Vec::new();
        let position = match self.find_node(node_id, &subscription_id) {
            Some(position) => position,
            None => {
                assert(delivery_ids(report@).to_set() =~= self.dispatch_targets(node));
                return Ok(report);
            },
        };
        proof {
            lemma_as_map_at(self.subscription_pairs(), position as int);
        }
        if self.subscriptions[position].users.is_empty() {
            self.retire_subscription(node_id, &subscription_id);
            assert(delivery_ids(report@).to_set() =~= old(self).dispatch_targets(node));
            return Ok(report);
        }
        let ids = self.subscribers_at(position);
        let mut i: usize = 0;
        while i < ids.len()
            invariant
                i <= ids@.len(),
                ids@.no_duplicates(),
                *self == *old(self),
                delivery_ids(report@).no_duplicates(),
                forall|user_id: u32|
                    delivery_ids(report@).contains(user_id) <==> (ids@.take(i as int).contains(
                        user_id,
                    ) && self.users@.contains_key(user_id)),
            decreases ids@.len() - i,
        {
            let user_id = ids[i];
            let ghost before = delivery_ids(report@);
            assert(ids@.take(i as int + 1) =~= ids@.take(i as int).push(user_id));
            assert(!ids@.take(i as int).contains(user_id));
            if let Some(user) = self.users.get(&user_id) {
                let sent = push_message(&user.message_channel, message.clone());
                report.push(Delivery { user_id, sent });
                proof {
                    assert(delivery_ids(report@) =~= before.push(user_id));
                    assert forall|other: u32|
                        delivery_ids(report@).contains(other) <==> (ids@.take(
                            i as int + 1,
                        ).contains(other) && self.users@.contains_key(other)) by {
                        lemma_push_contains(before, user_id, other);
                        lemma_push_contains(ids@.take(i as int), user_id, other);
                    }
                    lemma_push_no_duplicates(before, user_id);
                }
            } else {
                proof {
                    assert forall|other: u32|
                        delivery_ids(report@).contains(other) <==> (ids@.take(
                            i as int + 1,
                        ).contains(other) && self.users@.contains_key(other)) by {
                        lemma_push_contains(ids@.take(i as int), user_id, other);
                    }
                }
            }
            i += 1;
        }
        proof {
            assert(ids@.take(i as int) =~= ids@);
            assert(delivery_ids(report@).to_set() =~= self.dispatch_targets(node));
            assert forall|k: int| 0 <= k < report@.len() implies self.subscribers(node).contains(
                (#[trigger] report@[k]).user_id,
            ) by {
                assert(delivery_ids(report@)[k] == report@[k].user_id);
                assert(delivery_ids(report@).contains(report@[k].user_id));
                assert(ids@.to_set().contains(report@[k].user_id));
            }
        }
        Ok(report)
    }
}

/// What `items.push(last)` contains.
proof fn lemma_push_contains<T>(items: Seq<T>, last: T, item: T)
    ensures
        items.push(last).contains(item) <==> (items.contains(item) || item == last),
{
    let after = items.push(last);
    if items.contains(item) {
        let i = choose|i: int| 0 <= i < items.len() && items[i] == item;
        assert(after[i] == item);
    }
    if item == last {
        assert(after[items.len() as int] == item);
    }
    if after.contains(item) {
        let i = choose|i: int| 0 <= i < after.len() && after[i] == item;
        if i < items.len() {
            assert(items[i] == item);
        }
    }
}

/// The items of `items.push(last)` are those of `items`, and `last`.
proof fn lemma_push_to_set<T>(items: Seq<T>, last: T)
    ensures
        items.push(last).to_set() =~= items.to_set().insert(last),
{
    assert forall|item: T|
        items.push(last).to_set().contains(item) <==> items.to_set().insert(last).contains(
            item,
        ) by {
        lemma_push_contains(items, last, item);
    }
}

/// Appending an item that is new keeps a sequence free of duplicates.
proof fn lemma_push_no_duplicates<T>(items: Seq<T>, last: T)
    requires
        items.no_duplicates(),
        !items.contains(last),
    ensures
        items.push(last).no_duplicates(),
{
    let after = items.push(last);
    assert forall|i: int, j: int| 0 <= i < after.len() && 0 <= j < after.len() && i
        != j implies after[i] != after[j] by {
        if i < items.len() && j < items.len() {
        } else if i < items.len() {
            assert(items.contains(items[i]));
        } else {
            assert(items.contains(items[j]));
        }
    }
}

} // verus!


//! Laws that relate several operations of the subscription registry. Each is
//! stated over the states before and after the operations, as the
//! operations' own contracts describe them.

use vstd::prelude::*;

use crate::websocket::types::without_subscriber;
use crate::websocket::types::NodeSub;
use crate::websocket::types::SubscriptionData;

verus! {

/// Registering a request that was not registered, then unregistering it,
/// leaves the registrations as they were.
pub proof fn lemma_register_then_unregister(
    before: SubscriptionData,
    registered: SubscriptionData,
    after: SubscriptionData,
    request: Seq<char>,
    node: NodeSub,
)
    requires
        !before.incoming().contains_key(request),
        registered.incoming() == before.incoming().insert(request, node),
        after.incoming() == registered.incoming().remove(request),
    ensures
        after.incoming() == before.incoming(),
{
    assert(after.incoming() =~= before.incoming());
}

/// Subscribing a user to a registered request, then unsubscribing the user
/// from the subscription id that came back, leaves every subscriber set as
/// it was, provided that the user followed no subscription of that id
/// before.
pub proof fn lemma_subscribe_then_unsubscribe(
    before: SubscriptionData,
    subscribed: SubscriptionData,
    after: SubscriptionData,
    user_id: u32,
    request: Seq<char>,
)
    requires
        before.incoming().contains_key(request),
        forall|other: NodeSub|
            other.subscription_id == before.incoming()[request].subscription_id ==> !(
            #[trigger] before.subscribers(other)).contains(user_id),
        subscribed.subscriptions() == before.subscriptions().insert(
            before.incoming()[request],
            before.subscribers(before.incoming()[request]).insert(user_id),
        ),
        after.subscriptions() == without_subscriber(
            subscribed.subscriptions(),
            user_id,
            before.incoming()[request].subscription_id,
        ),
    ensures
        forall|other: NodeSub| #[trigger] after.subscribers(other) == before.subscribers(other),
{
    let node = before.incoming()[request];
    assert forall|other: NodeSub| #[trigger] after.subscribers(other) == before.subscribers(
        other,
    ) by {
        assert(!before.subscribers(other).contains(user_id) || other.subscription_id
            != node.subscription_id);
        if other == node {
            assert(after.subscribers(other) =~= before.subscribers(other));
        } else if other.subscription_id == node.subscription_id {
            assert(after.subscribers(other) =~= before.subscribers(other));
        } else {
            assert(after.subscribers(other) =~= before.subscribers(other));
        }
    }
}

} // verus!

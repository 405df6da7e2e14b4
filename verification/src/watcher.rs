//! The node watcher: which nodes are online, and which of them just changed.

use std::collections::HashMap;

use vstd::prelude::*;

use crate::notice::Transition;

verus! {

/// How long, in seconds, a node may go unreported before it counts as offline.
/// One shared heartbeat for every protocol: WebSocket sessions, and agents that
/// only post and have no session at all.
pub const ONLINE_WINDOW: i64 = 120;

/// How often, in seconds, the watcher re-evaluates every node's online state.
pub const WATCH_TICK: u64 = 30;

/// What the watcher reads of a node: its id, its name, and when it last
/// reported, in seconds after the start of 1970, or zero.
#[derive(Debug)]
pub struct Node {
    pub id: i64,
    pub name: String,
    pub last_seen: i64,
}

/// A node that last reported at `last_seen` counts as online at `now`.
pub open spec fn online(last_seen: i64, now: i64) -> bool {
    last_seen > 0 && now - last_seen <= ONLINE_WINDOW
}

/// Whether a node counts as online at `now`: until it has gone unreported for
/// `ONLINE_WINDOW`. Every report path stamps `last_seen`, so a blip that
/// reconnects within the window never counts as a disconnect.
pub fn is_online(node: &Node, now: i64) -> (r: bool)
    ensures
        r == online(node.last_seen, now),
{
    node.last_seen > 0 && now as i128 - node.last_seen as i128 <= ONLINE_WINDOW as i128
}

/// The change that the state `now_online` of the node `id` is against the
/// states seen last. The first sight of a node is no change.
pub open spec fn change(last: Map<i64, bool>, id: i64, now_online: bool) -> Option<Transition> {
    if last.dom().contains(id) && last[id] != now_online {
        Some(
            if now_online {
                Transition::Up
            } else {
                Transition::Down
            },
        )
    } else {
        None
    }
}

/// The online state of each node, as it was seen last.
pub struct NodeWatcher {
    pub last: HashMap<i64, bool>,
}

impl View for NodeWatcher {
    type V = Map<i64, bool>;

    open spec fn view(&self) -> Map<i64, bool> {
        self.last@
    }
}

impl NodeWatcher {
    /// A watcher that has seen no node.
    pub fn new() -> (r: NodeWatcher)
        ensures
            r@ == Map::<i64, bool>::empty(),
    {
        NodeWatcher { last: HashMap::new() }
    }

    /// Looks at a node at the moment `now`, and says whether its state changed
    /// since it was seen last. The first sight of a node only records its
    /// state: a hub restart would otherwise report every connected node as
    /// freshly up.
    pub fn observe(&mut self, node: &Node, now: i64) -> (r: Option<Transition>)
        ensures
            r == change(old(self)@, node.id, online(node.last_seen, now)),
            final(self)@ == old(self)@.insert(node.id, online(node.last_seen, now)),
    {
        broadcast use vstd::std_specs::hash::group_hash_axioms;

        let now_online: bool = is_online(node, now);
        let transition = match self.last.get(&node.id) {
            Some(previous) => if *previous != now_online {
                if now_online {
                    Some(Transition::Up)
                } else {
                    Some(Transition::Down)
                }
            } else {
                None
            },
            None => None,
        };
        self.last.insert(node.id, now_online);
        transition
    }
}

/// The states seen last after a history of observations, each a node's id and
/// whether it was online.
pub open spec fn seen(history: Seq<(i64, bool)>) -> Map<i64, bool>
    decreases history.len(),
{
    if history.len() == 0 {
        Map::empty()
    } else {
        seen(history.drop_last()).insert(history.last().0, history.last().1)
    }
}

/// The changes of the node `id` that a history of observations reports.
pub open spec fn changes(history: Seq<(i64, bool)>, id: i64) -> Seq<Transition>
    decreases history.len(),
{
    if history.len() == 0 {
        Seq::empty()
    } else {
        let before = changes(history.drop_last(), id);
        if history.last().0 != id {
            before
        } else {
            match change(seen(history.drop_last()), id, history.last().1) {
                Some(transition) => before.push(transition),
                None => before,
            }
        }
    }
}

/// The last change of a node leads to the state seen last.
proof fn lemma_last_change(history: Seq<(i64, bool)>, id: i64)
    ensures
        changes(history, id).len() > 0 ==> {
            &&& seen(history).dom().contains(id)
            &&& changes(history, id).last() == if seen(history)[id] {
                Transition::Up
            } else {
                Transition::Down
            }
        },
    decreases history.len(),
{
    if history.len() > 0 {
        lemma_last_change(history.drop_last(), id);
    }
}

/// The changes of a node alternate: an up is followed by a down, and a down by
/// an up, in every history of observations.
pub proof fn law_changes_alternate(history: Seq<(i64, bool)>, id: i64)
    ensures
        forall|i: int|
            0 <= i < changes(history, id).len() - 1 ==> #[trigger] changes(history, id)[i]
                != changes(history, id)[i + 1],
    decreases history.len(),
{
    if history.len() > 0 {
        law_changes_alternate(history.drop_last(), id);
        lemma_last_change(history.drop_last(), id);
    }
}

/// Until a node has changed, the state seen last is that of its first sight.
proof fn lemma_unchanged(history: Seq<(i64, bool)>, id: i64, at: int)
    requires
        0 <= at < history.len(),
        history[at].0 == id,
        forall|j: int| 0 <= j < at ==> (#[trigger] history[j]).0 != id,
        changes(history, id).len() == 0,
    ensures
        seen(history).dom().contains(id),
        seen(history)[id] == history[at].1,
    decreases history.len(),
{
    if at < history.len() - 1 {
        lemma_unchanged(history.drop_last(), id, at);
    }
}

/// Before its first sight, nothing has been seen of a node.
proof fn lemma_unseen(history: Seq<(i64, bool)>, id: i64)
    requires
        forall|j: int| 0 <= j < history.len() ==> (#[trigger] history[j]).0 != id,
    ensures
        !seen(history).dom().contains(id),
        changes(history, id).len() == 0,
    decreases history.len(),
{
    if history.len() > 0 {
        assert(history[history.len() - 1].0 != id);
        lemma_unseen(history.drop_last(), id);
    }
}

/// The first change of a node leads away from the state of its first sight: it
/// is a down exactly if the node was first seen online.
pub proof fn law_first_change_leaves_the_first_state(
    history: Seq<(i64, bool)>,
    id: i64,
    at: int,
)
    requires
        0 <= at < history.len(),
        history[at].0 == id,
        forall|j: int| 0 <= j < at ==> (#[trigger] history[j]).0 != id,
        changes(history, id).len() > 0,
    ensures
        changes(history, id)[0] == Transition::Down <==> history[at].1,
    decreases history.len(),
{
    let before = history.drop_last();
    if at == history.len() - 1 {
        lemma_unseen(before, id);
    } else if changes(before, id).len() > 0 {
        law_first_change_leaves_the_first_state(before, id, at);
    } else {
        lemma_unchanged(before, id, at);
    }
}

/// The first sight of a node says nothing, whatever its state.
pub proof fn law_first_sight_is_silent(last: Map<i64, bool>, id: i64, now_online: bool)
    requires
        !last.dom().contains(id),
    ensures
        change(last, id, now_online) is None,
{
}

/// A blip never counts as a disconnect: a node that was online and has
/// reported within the window is not reported as changed.
pub proof fn law_blip_is_silent(last: Map<i64, bool>, id: i64, last_seen: i64, now: i64)
    requires
        last.dom().contains(id),
        last[id],
        last_seen > 0,
        now - last_seen <= ONLINE_WINDOW,
    ensures
        change(last, id, online(last_seen, now)) is None,
{
}

/// A node that stops reporting is declared down once the window lapses, and
/// only once: a later look at the same node finds no change.
pub proof fn law_silence_is_declared_once(
    last: Map<i64, bool>,
    id: i64,
    last_seen: i64,
    now: i64,
    later: i64,
)
    requires
        last.dom().contains(id),
        last[id],
        now - last_seen > ONLINE_WINDOW,
        later >= now,
    ensures
        change(last, id, online(last_seen, now)) == Some(Transition::Down),
        change(
            last.insert(id, online(last_seen, now)),
            id,
            online(last_seen, later),
        ) is None,
{
}

} // verus!

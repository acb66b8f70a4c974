//! The flock: a named group of agents, known to it by their ids.

use crate::identity::{instance_id_value, ObjectId, UNSET_FLOCK_ID};
use godot::obj::InstanceId;
use std::collections::HashSet;
use vstd::prelude::*;
use vstd::std_specs::iter::IteratorSpec;

verus! {

/// What a flock is, mathematically: its own id and the set of member ids.
pub struct FlockView {
    pub id: i64,
    pub members: Set<i64>,
}

/// What the per-tick pass does with one member once the host has tried to
/// resolve its id.
#[derive(Clone, Copy, Debug, PartialEq, Eq, Structural)]
pub enum TickAction {
    /// The agent is alive and a member: it receives a force this tick.
    Steer,
    /// Nothing is applied for this id.
    Skip,
}

impl FlockView {
    /// The flock after `boid_id` has been registered.
    pub open spec fn registered(self, boid_id: i64) -> FlockView {
        FlockView { id: self.id, members: self.members.insert(boid_id) }
    }

    /// The flock after `boid_id` has been unregistered.
    pub open spec fn unregistered(self, boid_id: i64) -> FlockView {
        FlockView { id: self.id, members: self.members.remove(boid_id) }
    }

    /// The flock after the per-tick pass has looked at `boid_id`, which the
    /// host resolved as alive (`live`) or dead: a dead id is dropped.
    pub open spec fn resolved(self, boid_id: i64, live: bool) -> FlockView {
        if live {
            self
        } else {
            self.unregistered(boid_id)
        }
    }

    /// What the per-tick pass does for `boid_id`: only a living member is steered.
    pub open spec fn action_for(self, boid_id: i64, live: bool) -> TickAction {
        if live && self.members.contains(boid_id) {
            TickAction::Steer
        } else {
            TickAction::Skip
        }
    }
}

/// A group of agents. The flock holds the ids of its members, never the
/// agents themselves.
pub struct Flock2D {
    id: ObjectId,
    members: HashSet<i64>,
}

impl View for Flock2D {
    type V = FlockView;

    closed spec fn view(&self) -> FlockView {
        FlockView { id: self.id@, members: self.members@ }
    }
}

impl Flock2D {
    /// An empty flock under the instance id that the host assigned to it.
    pub fn new(instance_id: InstanceId) -> (flock: Flock2D)
        ensures
            flock@ == (FlockView { id: instance_id_value(instance_id), members: Set::empty() }),
            flock@.id != UNSET_FLOCK_ID,
    {
        Flock2D { id: ObjectId::new(instance_id), members: HashSet::new() }
    }

    /// The id of this flock. It is never [`UNSET_FLOCK_ID`].
    pub fn get_id(&self) -> (id: i64)
        ensures
            id == self@.id,
            id != UNSET_FLOCK_ID,
    {
        self.id.raw()
    }

    /// Adds `boid_id` to the members. Registering a member again changes nothing.
    pub fn register_boid(&mut self, boid_id: i64)
        ensures
            final(self)@ == old(self)@.registered(boid_id),
    {
        self.members.insert(boid_id);
    }

    /// Removes `boid_id` from the members. Returns whether it was one; `false`
    /// means that the id was unknown and nothing changed.
    pub fn unregister_boid(&mut self, boid_id: i64) -> (known: bool)
        ensures
            final(self)@ == old(self)@.unregistered(boid_id),
            known == old(self)@.members.contains(boid_id),
    {
        let known: bool = self.members.remove(&boid_id);
        proof {
            if !known {
                assert(self.members@ =~= old(self).members@);
            }
        }
        known
    }

    /// Whether `boid_id` is a member.
    pub fn contains(&self, boid_id: i64) -> (found: bool)
        ensures
            found == self@.members.contains(boid_id),
    {
        self.members.contains(&boid_id)
    }

    /// The number of members.
    pub fn len(&self) -> (n: usize)
        ensures
            n == self@.members.len(),
    {
        self.members.len()
    }

    /// Whether the flock has no member.
    pub fn is_empty(&self) -> (empty: bool)
        ensures
            empty == self@.members.is_empty(),
    {
        self.members.is_empty()
    }

    /// The member ids as they stand now, each exactly once, in no particular
    /// order. Later changes to the flock do not show in the returned list.
    pub fn iter_members(&self) -> (ids: Vec<i64>)
        ensures
            ids@.no_duplicates(),
            ids@.to_set() == self@.members,
    {
        let mut ids: Vec<i64> = Vec::new();
        let ghost keys: Seq<i64> = self.members.iter().remaining().unref();
        proof {
            assert(self.members.iter().remaining().no_duplicates());
            assert(keys.no_duplicates());
        }
        for id in it: self.members.iter()
            invariant
                it.seq().unref() == keys,
                ids@ == keys.take(it.index() as int),
        {
            ids.push(*id);
            assert(ids@ =~= keys.take(it.index() + 1));
        }
        assert(ids@ =~= keys);
        ids
    }

    /// One step of the per-tick pass: the host has tried to resolve `boid_id`
    /// and reports whether the agent is alive. A dead id is dropped from the
    /// members; a living member is to be steered; anything else is skipped.
    pub fn resolve(&mut self, boid_id: i64, live: bool) -> (action: TickAction)
        ensures
            final(self)@ == old(self)@.resolved(boid_id, live),
            action == old(self)@.action_for(boid_id, live),
    {
        if live {
            if self.contains(boid_id) {
                TickAction::Steer
            } else {
                TickAction::Skip
            }
        } else {
            self.unregister_boid(boid_id);
            TickAction::Skip
        }
    }

    /// The per-tick pass. Takes the members as they stand at the start, asks
    /// `is_live` about each, drops those that are dead and returns the others:
    /// the agents that receive a force this tick. After the pass the members
    /// are exactly the returned ids.
    pub fn tick<F: Fn(i64) -> bool>(&mut self, is_live: F) -> (steered: Vec<i64>)
        requires
            forall|id: i64| old(self)@.members.contains(id) ==> is_live.requires((id,)),
        ensures
            final(self)@.id == old(self)@.id,
            final(self)@.members == steered@.to_set(),
            steered@.no_duplicates(),
            final(self)@.members.subset_of(old(self)@.members),
            forall|id: i64| #[trigger]
                final(self)@.members.contains(id) ==> is_live.ensures((id,), true),
            forall|id: i64|
                old(self)@.members.contains(id) && !final(self)@.members.contains(id)
                    ==> #[trigger] is_live.ensures((id,), false),
    {
        let snapshot: Vec<i64> = self.iter_members();
        let mut steered: Vec<i64> = Vec::new();
        let mut i: usize = 0;
        proof {
            assert(snapshot@.skip(0) =~= snapshot@);
            assert forall|id: i64| self@.members.contains(id) implies snapshot@.skip(0).contains(
                id,
            ) by {
                assert(snapshot@.to_set().contains(id));
            }
        }
        while i < snapshot.len()
            invariant
                i <= snapshot.len(),
                snapshot@.no_duplicates(),
                snapshot@.to_set() == old(self)@.members,
                forall|id: i64| old(self)@.members.contains(id) ==> is_live.requires((id,)),
                self@.id == old(self)@.id,
                steered@.no_duplicates(),
                forall|id: i64| #[trigger]
                    steered@.contains(id) ==> snapshot@.take(i as int).contains(id),
                forall|id: i64|
                    self@.members.contains(id) <==> (steered@.contains(id) || snapshot@.skip(
                        i as int,
                    ).contains(id)),
                forall|id: i64| #[trigger] steered@.contains(id) ==> is_live.ensures((id,), true),
                forall|id: i64|
                    old(self)@.members.contains(id) && !self@.members.contains(id)
                        ==> #[trigger] is_live.ensures((id,), false),
            decreases snapshot.len() - i,
        {
            let id: i64 = snapshot[i];
            let ghost taken = snapshot@.take(i as int);
            let ghost taken_next = snapshot@.take(i + 1);
            let ghost rest = snapshot@.skip(i as int);
            let ghost rest_next = snapshot@.skip(i + 1);
            let ghost members_before = self@.members;
            let ghost steered_before = steered@;
            proof {
                assert(snapshot@.to_set().contains(id));
                assert(rest[0] == id);
                assert(rest.contains(id));
                assert(!taken.contains(id)) by {
                    if taken.contains(id) {
                        let k = choose|k: int| 0 <= k < taken.len() && taken[k] == id;
                        assert(snapshot@[k] == id);
                    }
                }
                assert(!steered@.contains(id));
                assert(!rest_next.contains(id)) by {
                    if rest_next.contains(id) {
                        let k = choose|k: int| 0 <= k < rest_next.len() && rest_next[k] == id;
                        assert(snapshot@[i + 1 + k] == id);
                    }
                }
                assert forall|x: i64| taken.contains(x) implies taken_next.contains(x) by {
                    let k = choose|k: int| 0 <= k < taken.len() && taken[k] == x;
                    assert(taken_next[k] == x);
                }
                assert(taken_next[i as int] == id);
                assert(taken_next.contains(id));
                assert forall|x: i64| rest.contains(x) && x != id implies rest_next.contains(
                    x,
                ) by {
                    let k = choose|k: int| 0 <= k < rest.len() && rest[k] == x;
                    assert(rest_next[k - 1] == x);
                }
                assert forall|x: i64| rest_next.contains(x) implies rest.contains(x) by {
                    let k = choose|k: int| 0 <= k < rest_next.len() && rest_next[k] == x;
                    assert(rest[k + 1] == x);
                }
            }
            let live: bool = is_live(id);
            self.resolve(id, live);
            if live {
                steered.push(id);
                proof {
                    assert(steered@ == steered_before.push(id));
                    assert(steered@[steered_before.len() as int] == id);
                    assert forall|x: i64| steered_before.contains(x) implies steered@.contains(
                        x,
                    ) by {
                        let k = choose|k: int|
                            0 <= k < steered_before.len() && steered_before[k] == x;
                        assert(steered@[k] == x);
                    }
                    assert forall|x: i64| steered@.contains(x) implies steered_before.contains(x)
                        || x == id by {
                        let k = choose|k: int| 0 <= k < steered@.len() && steered@[k] == x;
                        if k < steered_before.len() {
                            assert(steered_before[k] == x);
                        }
                    }
                }
            }
            i = i + 1;
            proof {
                assert(snapshot@.take(i as int) == taken_next);
                assert(snapshot@.skip(i as int) == rest_next);
                assert forall|x: i64| #[trigger] steered@.contains(x) implies snapshot@.take(
                    i as int,
                ).contains(x) by {
                    if steered_before.contains(x) {
                        assert(taken.contains(x));
                    } else {
                        assert(x == id);
                    }
                }
                assert forall|x: i64| #[trigger] steered@.contains(x) implies is_live.ensures(
                    (x,),
                    true,
                ) by {
                    if !steered_before.contains(x) {
                        assert(x == id && live);
                    }
                }
                assert forall|x: i64|
                    self@.members.contains(x) <==> (steered@.contains(x) || snapshot@.skip(
                        i as int,
                    ).contains(x)) by {
                    if x == id {
                        assert(members_before.contains(id));
                        if live {
                            assert(steered@.contains(id));
                        }
                    } else {
                        assert(self@.members.contains(x) == members_before.contains(x));
                        assert(steered@.contains(x) == steered_before.contains(x));
                        assert(rest.contains(x) == rest_next.contains(x));
                    }
                }
            }
        }
        proof {
            assert(snapshot@.skip(i as int) =~= Seq::<i64>::empty());
            assert(self@.members =~= steered@.to_set());
            assert forall|id: i64| self@.members.contains(id) implies old(
                self,
            )@.members.contains(id) by {
                assert(steered@.contains(id));
                let k = choose|k: int|
                    0 <= k < snapshot@.take(i as int).len() && snapshot@.take(i as int)[k] == id;
                assert(snapshot@[k] == id);
                assert(snapshot@.to_set().contains(id));
            }
        }
        steered
    }
}

/// Registering an id a second time changes nothing: the member set holds it once.
pub proof fn lemma_register_idempotent(flock: FlockView, boid_id: i64)
    ensures
        flock.registered(boid_id).registered(boid_id) == flock.registered(boid_id),
        flock.registered(boid_id).members.contains(boid_id),
{
    assert(flock.members.insert(boid_id).insert(boid_id) =~= flock.members.insert(boid_id));
}

/// Unregistering an id that is not a member changes nothing.
pub proof fn lemma_unregister_unknown(flock: FlockView, boid_id: i64)
    requires
        !flock.members.contains(boid_id),
    ensures
        flock.unregistered(boid_id) == flock,
{
    assert(flock.members.remove(boid_id) =~= flock.members);
}

} // verus!

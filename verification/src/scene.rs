//! The scene as the core sees it: the agents and flocks that are alive, and
//! the events by which the host changes them.
//!
//! Nothing here runs. The module states, over the same functions in which the
//! contracts of [`Boid2D`](crate::boid::Boid2D) and
//! [`Flock2D`](crate::flock::Flock2D) are written, what holds of every scene
//! that the host can reach by creating, placing, steering and freeing agents
//! and flocks.

use crate::boid::{BoidView, Lifecycle};
use crate::flock::FlockView;
use crate::identity::UNSET_FLOCK_ID;
use crate::properties::BoidProperties;
use crate::scalar::Vector2;
use vstd::prelude::*;

verus! {

/// The agents and flocks that are alive, by id, and every id the host has
/// handed out so far. The host never hands out an id twice, and never the
/// unset value.
pub struct Scene {
    pub boids: Map<i64, BoidView>,
    pub flocks: Map<i64, FlockView>,
    pub issued: Set<i64>,
}

/// One thing the host does to the scene.
pub enum SceneEvent {
    /// A flock is made under the id `id`.
    SpawnFlock { id: i64 },
    /// An agent is made under the id `id`.
    SpawnBoid { id: i64 },
    /// The agent `boid` enters the scene under the object `parent`, if any,
    /// and is handed `props`.
    EnterTree { boid: i64, parent: Option<i64>, props: BoidProperties },
    /// The agent `boid` leaves the scene.
    ExitTree { boid: i64 },
    /// The agent `boid` is freed without having left the scene.
    FreeBoid { boid: i64 },
    /// The flock `flock` is freed.
    FreeFlock { flock: i64 },
    /// The velocity of the agent `boid` is replaced.
    SetVelocity { boid: i64, vel: Vector2 },
    /// A force is applied to the agent `boid`; the arithmetic gave `steered`.
    ApplyForce { boid: i64, steered: Vector2 },
    /// The per-tick pass of the flock `flock` looks up the id `boid`.
    Resolve { flock: i64, boid: i64 },
}

impl Scene {
    /// The scene before the host has made anything.
    pub open spec fn empty() -> Scene {
        Scene { boids: Map::empty(), flocks: Map::empty(), issued: Set::empty() }
    }

    /// Whether `id` names a living agent.
    pub open spec fn has_boid(self, id: i64) -> bool {
        self.boids.dom().contains(id)
    }

    /// Whether `id` names a living flock.
    pub open spec fn has_flock(self, id: i64) -> bool {
        self.flocks.dom().contains(id)
    }

    /// Whether the id `id` is in the member set of the living flock `flock`.
    pub open spec fn member_of(self, id: i64, flock: i64) -> bool {
        self.has_flock(flock) && self.flocks[flock].members.contains(id)
    }

    /// The scene after the agent `boid` has entered it under `parent`.
    pub open spec fn enter_tree(self, boid: i64, parent: Option<i64>, props: BoidProperties) -> Scene {
        if !self.has_boid(boid) || self.boids[boid].is_attached() {
            self
        } else if parent is Some && self.has_flock(parent->0) {
            let flock = parent->0;
            Scene {
                boids: self.boids.insert(boid, self.boids[boid].attached(flock, props)),
                flocks: self.flocks.insert(flock, self.flocks[flock].registered(boid)),
                ..self
            }
        } else {
            Scene { boids: self.boids.insert(boid, self.boids[boid].orphaned(props)), ..self }
        }
    }

    /// The scene after the agent `boid` has left it. The agent looks its flock
    /// up by id; if the flock is still alive, the agent's id leaves its members.
    pub open spec fn exit_tree(self, boid: i64) -> Scene {
        if !self.has_boid(boid) {
            self
        } else {
            let agent = self.boids[boid];
            let flock = agent.flock_id();
            let boids = self.boids.insert(boid, agent.detached());
            if agent.is_attached() && self.has_flock(flock) {
                Scene {
                    boids,
                    flocks: self.flocks.insert(flock, self.flocks[flock].unregistered(boid)),
                    ..self
                }
            } else {
                Scene { boids, ..self }
            }
        }
    }

    /// The scene after the per-tick pass of `flock` has looked up the id `boid`.
    pub open spec fn resolve(self, flock: i64, boid: i64) -> Scene {
        if !self.has_flock(flock) {
            self
        } else {
            Scene {
                flocks: self.flocks.insert(
                    flock,
                    self.flocks[flock].resolved(boid, self.has_boid(boid)),
                ),
                ..self
            }
        }
    }

    /// The scene after one event. An event that the host cannot cause (an id
    /// handed out twice, an agent that enters the scene while it is in a
    /// flock, an event for an object that is not alive) changes nothing.
    pub open spec fn step(self, event: SceneEvent) -> Scene {
        match event {
            SceneEvent::SpawnFlock { id } => if self.issued.contains(id) || id == UNSET_FLOCK_ID {
                self
            } else {
                Scene {
                    flocks: self.flocks.insert(id, FlockView { id, members: Set::empty() }),
                    issued: self.issued.insert(id),
                    ..self
                }
            },
            SceneEvent::SpawnBoid { id } => if self.issued.contains(id) || id == UNSET_FLOCK_ID {
                self
            } else {
                Scene {
                    boids: self.boids.insert(id, BoidView::fresh(id)),
                    issued: self.issued.insert(id),
                    ..self
                }
            },
            SceneEvent::EnterTree { boid, parent, props } => self.enter_tree(boid, parent, props),
            SceneEvent::ExitTree { boid } => self.exit_tree(boid),
            SceneEvent::FreeBoid { boid } => Scene { boids: self.boids.remove(boid), ..self },
            SceneEvent::FreeFlock { flock } => Scene { flocks: self.flocks.remove(flock), ..self },
            SceneEvent::SetVelocity { boid, vel } => if self.has_boid(boid) {
                Scene { boids: self.boids.insert(boid, self.boids[boid].with_velocity(vel)), ..self }
            } else {
                self
            },
            SceneEvent::ApplyForce { boid, steered } => if self.has_boid(boid) {
                Scene {
                    boids: self.boids.insert(boid, self.boids[boid].integrated(steered)),
                    ..self
                }
            } else {
                self
            },
            SceneEvent::Resolve { flock, boid } => self.resolve(flock, boid),
        }
    }

    /// The scene after a sequence of events, starting from `self`.
    pub open spec fn run(self, events: Seq<SceneEvent>) -> Scene
        decreases events.len(),
    {
        if events.len() == 0 {
            self
        } else {
            self.run(events.drop_last()).step(events.last())
        }
    }

    /// Every object is filed under its own id, every id in use has been
    /// handed out, the unset value has not, and no id names both an agent
    /// and a flock.
    pub open spec fn ids_sound(self) -> bool {
        &&& !self.issued.contains(UNSET_FLOCK_ID)
        &&& forall|id: i64| #[trigger]
            self.has_boid(id) ==> self.boids[id].id == id && self.issued.contains(id)
        &&& forall|id: i64| #[trigger]
            self.has_flock(id) ==> self.flocks[id].id == id && self.issued.contains(id)
                && !self.has_boid(id)
        &&& forall|id: i64, flock: i64| #[trigger]
            self.member_of(id, flock) ==> self.issued.contains(id)
        &&& forall|id: i64| #[trigger]
            self.has_boid(id) && self.boids[id].is_attached() ==> self.issued.contains(
                self.boids[id].flock_id(),
            )
    }

    /// A living agent that belongs to a living flock is among that flock's members.
    pub open spec fn agents_registered(self) -> bool {
        forall|id: i64| #[trigger]
            self.has_boid(id) && self.boids[id].is_attached() && self.has_flock(
                self.boids[id].flock_id(),
            ) ==> self.member_of(id, self.boids[id].flock_id())
    }

    /// A member of a living flock that is alive belongs to that flock.
    pub open spec fn members_attached(self) -> bool {
        forall|id: i64, flock: i64| #[trigger]
            self.member_of(id, flock) && self.has_boid(id) ==> self.boids[id].stage == (
            Lifecycle::Attached { flock_id: flock })
    }

    /// No id is among the members of two living flocks.
    pub open spec fn single_flock(self) -> bool {
        forall|id: i64, first: i64, second: i64|
            #[trigger] self.member_of(id, first) && #[trigger] self.member_of(id, second) ==> first
                == second
    }

    /// What holds of every scene the host can reach.
    pub open spec fn coupled(self) -> bool {
        &&& self.ids_sound()
        &&& self.agents_registered()
        &&& self.members_attached()
        &&& self.single_flock()
    }
}

/// The coupling of a scene, as far as it concerns one id and one flock.
spec fn coupled_at(scene: Scene, id: i64, flock: i64) -> bool {
    &&& !scene.issued.contains(UNSET_FLOCK_ID)
    &&& scene.has_boid(id) ==> scene.boids[id].id == id && scene.issued.contains(id)
    &&& scene.has_flock(flock) ==> scene.flocks[flock].id == flock && scene.issued.contains(flock)
        && !scene.has_boid(flock)
    &&& scene.member_of(id, flock) ==> scene.issued.contains(id)
    &&& scene.has_boid(id) && scene.boids[id].is_attached() ==> scene.issued.contains(
        scene.boids[id].flock_id(),
    )
    &&& scene.has_boid(id) && scene.boids[id].is_attached() && scene.has_flock(
        scene.boids[id].flock_id(),
    ) ==> scene.member_of(id, scene.boids[id].flock_id())
    &&& scene.member_of(id, flock) && scene.has_boid(id) ==> scene.boids[id].stage == (
    Lifecycle::Attached { flock_id: flock })
}

/// A coupled scene is coupled at every id and flock.
proof fn lemma_coupling_at(scene: Scene, id: i64, flock: i64)
    requires
        scene.coupled(),
    ensures
        coupled_at(scene, id, flock),
{
}

/// A scene that is coupled at every id and flock, and in which no id is
/// among the members of two flocks, is coupled.
proof fn lemma_coupling_from_points(scene: Scene)
    requires
        forall|id: i64, flock: i64| #[trigger] coupled_at(scene, id, flock),
        scene.single_flock(),
    ensures
        scene.coupled(),
{
    assert forall|id: i64| #[trigger] scene.has_boid(id) implies scene.boids[id].id == id
        && scene.issued.contains(id) by {
        assert(coupled_at(scene, id, id));
    }
    assert forall|id: i64| #[trigger] scene.has_flock(id) implies scene.flocks[id].id == id
        && scene.issued.contains(id) && !scene.has_boid(id) by {
        assert(coupled_at(scene, id, id));
    }
    assert forall|id: i64, flock: i64| #[trigger]
        scene.member_of(id, flock) implies scene.issued.contains(id) by {
        assert(coupled_at(scene, id, flock));
    }
    assert forall|id: i64| #[trigger]
        scene.has_boid(id) && scene.boids[id].is_attached() implies scene.issued.contains(
        scene.boids[id].flock_id(),
    ) by {
        assert(coupled_at(scene, id, id));
    }
    assert(!scene.issued.contains(UNSET_FLOCK_ID)) by {
        assert(coupled_at(scene, UNSET_FLOCK_ID, UNSET_FLOCK_ID));
    }
    assert(scene.ids_sound());
    assert forall|id: i64| #[trigger]
        scene.has_boid(id) && scene.boids[id].is_attached() && scene.has_flock(
            scene.boids[id].flock_id(),
        ) implies scene.member_of(id, scene.boids[id].flock_id()) by {
        assert(coupled_at(scene, id, id));
    }
    assert forall|id: i64, flock: i64| #[trigger]
        scene.member_of(id, flock) && scene.has_boid(id) implies scene.boids[id].stage == (
    Lifecycle::Attached { flock_id: flock }) by {
        assert(coupled_at(scene, id, flock));
    }
}

/// Replacing a living agent by one with the same id and the same place in
/// the life cycle keeps the scene coupled.
proof fn lemma_same_stage_keeps_coupling(scene: Scene, boid: i64, agent: BoidView)
    requires
        scene.coupled(),
        scene.has_boid(boid),
        agent.id == scene.boids[boid].id,
        agent.stage == scene.boids[boid].stage,
    ensures
        (Scene { boids: scene.boids.insert(boid, agent), ..scene }).coupled(),
{
    let next = Scene { boids: scene.boids.insert(boid, agent), ..scene };
    assert forall|id: i64, first: i64, second: i64|
        next.member_of(id, first) && next.member_of(id, second) implies first == second by {
        assert(scene.member_of(id, first) && scene.member_of(id, second));
    }
    assert forall|id: i64, flock: i64| #[trigger] coupled_at(next, id, flock) by {
        lemma_coupling_at(scene, id, flock);
    }
    lemma_coupling_from_points(next);
}

/// Making a flock under an id that was never handed out keeps the scene coupled.
proof fn lemma_spawn_flock_keeps_coupling(scene: Scene, id: i64)
    requires
        scene.coupled(),
    ensures
        scene.step(SceneEvent::SpawnFlock { id }).coupled(),
{
    let next = scene.step(SceneEvent::SpawnFlock { id });
    if !scene.issued.contains(id) && id != UNSET_FLOCK_ID {
        assert forall|x: i64, first: i64, second: i64|
            next.member_of(x, first) && next.member_of(x, second) implies first == second by {
            assert(scene.member_of(x, first) && scene.member_of(x, second));
        }
        assert forall|x: i64, flock: i64| #[trigger] coupled_at(next, x, flock) by {
            lemma_coupling_at(scene, x, flock);
            lemma_coupling_at(scene, id, flock);
            lemma_coupling_at(scene, flock, flock);
        }
        lemma_coupling_from_points(next);
    }
}

/// Making an agent under an id that was never handed out keeps the scene coupled.
proof fn lemma_spawn_boid_keeps_coupling(scene: Scene, id: i64)
    requires
        scene.coupled(),
    ensures
        scene.step(SceneEvent::SpawnBoid { id }).coupled(),
{
    let next = scene.step(SceneEvent::SpawnBoid { id });
    if !scene.issued.contains(id) && id != UNSET_FLOCK_ID {
        assert forall|x: i64, first: i64, second: i64|
            next.member_of(x, first) && next.member_of(x, second) implies first == second by {
            assert(scene.member_of(x, first) && scene.member_of(x, second));
        }
        assert forall|x: i64, flock: i64| #[trigger] coupled_at(next, x, flock) by {
            lemma_coupling_at(scene, x, flock);
            lemma_coupling_at(scene, id, flock);
            lemma_coupling_at(scene, flock, flock);
        }
        lemma_coupling_from_points(next);
    }
}

/// An agent entering the scene keeps it coupled.
proof fn lemma_enter_tree_keeps_coupling(
    scene: Scene,
    boid: i64,
    parent: Option<i64>,
    props: BoidProperties,
)
    requires
        scene.coupled(),
    ensures
        scene.enter_tree(boid, parent, props).coupled(),
{
    let next = scene.enter_tree(boid, parent, props);
    if scene.has_boid(boid) && !scene.boids[boid].is_attached() {
        if parent is Some && scene.has_flock(parent->0) {
            let target = parent->0;
            assert forall|x: i64, first: i64, second: i64|
                next.member_of(x, first) && next.member_of(x, second) implies first == second by {
                lemma_coupling_at(scene, x, first);
                lemma_coupling_at(scene, x, second);
                if x != boid {
                    assert(scene.member_of(x, first) && scene.member_of(x, second));
                } else {
                    assert(!scene.member_of(boid, first));
                    assert(!scene.member_of(boid, second));
                }
            }
            assert forall|x: i64, flock: i64| #[trigger] coupled_at(next, x, flock) by {
                lemma_coupling_at(scene, x, flock);
                lemma_coupling_at(scene, boid, flock);
                lemma_coupling_at(scene, x, target);
                lemma_coupling_at(scene, boid, target);
                lemma_coupling_at(scene, flock, flock);
            }
            lemma_coupling_from_points(next);
        } else {
            lemma_same_stage_keeps_coupling(scene, boid, scene.boids[boid].orphaned(props));
        }
    }
}

/// An agent leaving the scene keeps it coupled.
proof fn lemma_exit_tree_keeps_coupling(scene: Scene, boid: i64)
    requires
        scene.coupled(),
    ensures
        scene.exit_tree(boid).coupled(),
{
    let next = scene.exit_tree(boid);
    if scene.has_boid(boid) {
        let home = scene.boids[boid].flock_id();
        assert forall|x: i64, flock: i64|
            next.member_of(x, flock) implies scene.member_of(x, flock) by {}
        assert forall|x: i64, first: i64, second: i64|
            next.member_of(x, first) && next.member_of(x, second) implies first == second by {
            assert(scene.member_of(x, first) && scene.member_of(x, second));
        }
        assert forall|x: i64, flock: i64| #[trigger] coupled_at(next, x, flock) by {
            lemma_coupling_at(scene, x, flock);
            lemma_coupling_at(scene, boid, flock);
            lemma_coupling_at(scene, x, home);
            lemma_coupling_at(scene, boid, home);
            lemma_coupling_at(scene, flock, flock);
            if x != boid && scene.has_boid(x) {
                let other = scene.boids[x].flock_id();
                lemma_coupling_at(scene, x, other);
                assert(next.boids[x] == scene.boids[x]);
                if scene.boids[x].is_attached() && scene.has_flock(other) {
                    assert(scene.member_of(x, other));
                    assert(next.member_of(x, other));
                }
            }
        }
        lemma_coupling_from_points(next);
    }
}

/// Freeing an agent keeps the scene coupled.
proof fn lemma_free_boid_keeps_coupling(scene: Scene, boid: i64)
    requires
        scene.coupled(),
    ensures
        scene.step(SceneEvent::FreeBoid { boid }).coupled(),
{
    let next = scene.step(SceneEvent::FreeBoid { boid });
    assert forall|x: i64, first: i64, second: i64|
        next.member_of(x, first) && next.member_of(x, second) implies first == second by {
        assert(scene.member_of(x, first) && scene.member_of(x, second));
    }
    assert forall|x: i64, flock: i64| #[trigger] coupled_at(next, x, flock) by {
        lemma_coupling_at(scene, x, flock);
        lemma_coupling_at(scene, flock, flock);
    }
    lemma_coupling_from_points(next);
}

/// Freeing a flock keeps the scene coupled.
proof fn lemma_free_flock_keeps_coupling(scene: Scene, flock: i64)
    requires
        scene.coupled(),
    ensures
        scene.step(SceneEvent::FreeFlock { flock }).coupled(),
{
    let next = scene.step(SceneEvent::FreeFlock { flock });
    assert forall|x: i64, first: i64, second: i64|
        next.member_of(x, first) && next.member_of(x, second) implies first == second by {
        assert(scene.member_of(x, first) && scene.member_of(x, second));
    }
    assert forall|x: i64, other: i64| #[trigger] coupled_at(next, x, other) by {
        lemma_coupling_at(scene, x, other);
        lemma_coupling_at(scene, other, other);
        if scene.has_boid(x) {
            lemma_coupling_at(scene, x, scene.boids[x].flock_id());
        }
    }
    lemma_coupling_from_points(next);
}

/// A look-up by the per-tick pass keeps the scene coupled.
proof fn lemma_resolve_keeps_coupling(scene: Scene, flock: i64, boid: i64)
    requires
        scene.coupled(),
    ensures
        scene.resolve(flock, boid).coupled(),
{
    let next = scene.resolve(flock, boid);
    if scene.has_flock(flock) {
        assert forall|x: i64, other: i64|
            next.member_of(x, other) implies scene.member_of(x, other) by {}
        assert forall|x: i64, first: i64, second: i64|
            next.member_of(x, first) && next.member_of(x, second) implies first == second by {
            assert(scene.member_of(x, first) && scene.member_of(x, second));
        }
        assert forall|x: i64, other: i64| #[trigger] coupled_at(next, x, other) by {
            lemma_coupling_at(scene, x, other);
            lemma_coupling_at(scene, other, other);
            lemma_coupling_at(scene, x, flock);
            if scene.has_boid(x) {
                let home = scene.boids[x].flock_id();
                lemma_coupling_at(scene, x, home);
                if scene.boids[x].is_attached() && scene.has_flock(home) {
                    assert(scene.member_of(x, home));
                    assert(next.member_of(x, home));
                }
            }
        }
        lemma_coupling_from_points(next);
    }
}

/// One event takes a coupled scene to a coupled scene.
pub proof fn lemma_step_keeps_coupling(scene: Scene, event: SceneEvent)
    requires
        scene.coupled(),
    ensures
        scene.step(event).coupled(),
{
    match event {
        SceneEvent::SpawnFlock { id } => lemma_spawn_flock_keeps_coupling(scene, id),
        SceneEvent::SpawnBoid { id } => lemma_spawn_boid_keeps_coupling(scene, id),
        SceneEvent::EnterTree { boid, parent, props } => lemma_enter_tree_keeps_coupling(
            scene,
            boid,
            parent,
            props,
        ),
        SceneEvent::ExitTree { boid } => lemma_exit_tree_keeps_coupling(scene, boid),
        SceneEvent::FreeBoid { boid } => lemma_free_boid_keeps_coupling(scene, boid),
        SceneEvent::FreeFlock { flock } => lemma_free_flock_keeps_coupling(scene, flock),
        SceneEvent::SetVelocity { boid, vel } => {
            if scene.has_boid(boid) {
                lemma_same_stage_keeps_coupling(scene, boid, scene.boids[boid].with_velocity(vel));
            }
        },
        SceneEvent::ApplyForce { boid, steered } => {
            if scene.has_boid(boid) {
                lemma_same_stage_keeps_coupling(
                    scene,
                    boid,
                    scene.boids[boid].integrated(steered),
                );
            }
        },
        SceneEvent::Resolve { flock, boid } => lemma_resolve_keeps_coupling(scene, flock, boid),
    }
}

/// Every scene reached from a coupled one is coupled.
pub proof fn lemma_run_keeps_coupling(scene: Scene, events: Seq<SceneEvent>)
    requires
        scene.coupled(),
    ensures
        scene.run(events).coupled(),
    decreases events.len(),
{
    if events.len() > 0 {
        lemma_run_keeps_coupling(scene, events.drop_last());
        lemma_step_keeps_coupling(scene.run(events.drop_last()), events.last());
    }
}

/// Every scene the host can reach from nothing is coupled.
pub proof fn lemma_reachable_coupled(events: Seq<SceneEvent>)
    ensures
        Scene::empty().run(events).coupled(),
{
    lemma_coupling_from_points(Scene::empty());
    lemma_run_keeps_coupling(Scene::empty(), events);
}

/// Membership is two-sided. In every scene the host can reach, a living
/// agent that belongs to a living flock is among that flock's members, and a
/// living agent that is among a flock's members belongs to that flock.
pub proof fn lemma_membership_duality(events: Seq<SceneEvent>, boid: i64, flock: i64)
    ensures
        ({
            let scene = Scene::empty().run(events);
            let belongs = scene.boids[boid].stage == (Lifecycle::Attached { flock_id: flock });
            &&& scene.has_boid(boid) && scene.has_flock(flock) && belongs
                ==> scene.flocks[flock].members.contains(boid)
            &&& scene.has_boid(boid) && scene.has_flock(flock)
                && scene.flocks[flock].members.contains(boid) ==> belongs
                && scene.boids[boid].flock_id() == flock
        }),
{
    let scene = Scene::empty().run(events);
    lemma_reachable_coupled(events);
    lemma_coupling_at(scene, boid, flock);
}

/// An agent is in one flock at most. In every scene the host can reach, no id
/// is among the members of two living flocks.
pub proof fn lemma_single_flock(events: Seq<SceneEvent>, id: i64, first: i64, second: i64)
    ensures
        ({
            let scene = Scene::empty().run(events);
            scene.member_of(id, first) && scene.member_of(id, second) ==> first == second
        }),
{
    lemma_reachable_coupled(events);
}

/// The flock id of an agent is the unset value exactly while the agent is in
/// no flock. In every scene the host can reach, the id of the flock that a
/// living agent belongs to is not the unset value.
pub proof fn lemma_flock_id_unset_iff_unattached(events: Seq<SceneEvent>, boid: i64)
    ensures
        ({
            let scene = Scene::empty().run(events);
            scene.has_boid(boid) ==> (scene.boids[boid].flock_id() == UNSET_FLOCK_ID
                <==> !scene.boids[boid].is_attached())
        }),
{
    let scene = Scene::empty().run(events);
    lemma_reachable_coupled(events);
    lemma_coupling_at(scene, boid, boid);
}

/// An event that finds an agent in a flock and leaves it in one changes
/// neither its properties nor its flock.
pub proof fn lemma_step_keeps_properties(scene: Scene, event: SceneEvent, boid: i64)
    requires
        scene.has_boid(boid),
        scene.boids[boid].is_attached(),
        scene.step(event).has_boid(boid),
        scene.step(event).boids[boid].is_attached(),
    ensures
        scene.step(event).boids[boid].props == scene.boids[boid].props,
        scene.step(event).boids[boid].stage == scene.boids[boid].stage,
        scene.step(event).boids[boid].id == scene.boids[boid].id,
{
}

/// Properties do not change between attach and detach. Over any sequence of
/// events during which an agent is alive and in a flock throughout, it has
/// at the end the properties, and the flock, that it had at the start.
pub proof fn lemma_properties_immutable(start: Scene, events: Seq<SceneEvent>, boid: i64)
    requires
        forall|k: int|
            0 <= k <= events.len() ==> {
                let scene = #[trigger] start.run(events.take(k));
                scene.has_boid(boid) && scene.boids[boid].is_attached()
            },
    ensures
        start.run(events).boids[boid].props == start.boids[boid].props,
        start.run(events).boids[boid].stage == start.boids[boid].stage,
    decreases events.len(),
{
    if events.len() == 0 {
        assert(events.take(0) =~= events);
    } else {
        let shorter = events.drop_last();
        assert forall|k: int| 0 <= k <= shorter.len() implies {
            let scene = #[trigger] start.run(shorter.take(k));
            scene.has_boid(boid) && scene.boids[boid].is_attached()
        } by {
            assert(shorter.take(k) =~= events.take(k));
        }
        lemma_properties_immutable(start, shorter, boid);
        assert(events.take(events.len() as int) =~= events);
        assert(events.take(events.len() - 1) =~= shorter);
        let before = start.run(events.take(events.len() - 1));
        let after = start.run(events.take(events.len() as int));
        assert(after == before.step(events.last()));
        lemma_step_keeps_properties(before, events.last(), boid);
    }
}

} // verus!

//! The agent: its identity, its place in the life cycle, the limits it moves
//! under and its velocity.

use crate::flock::Flock2D;
use crate::identity::{instance_id_value, ObjectId, UNSET_FLOCK_ID};
use crate::properties::{lemma_default_not_valid, BoidProperties};
use crate::scalar::{Scalar, Vector2, Vector3};
use godot::obj::InstanceId;
use vstd::prelude::*;

verus! {

/// Where an agent stands in its life cycle.
#[derive(Clone, Copy, Debug, PartialEq, Eq, Structural)]
pub enum Lifecycle {
    /// Not yet part of any flock.
    Unattached,
    /// A member of the flock with this id.
    Attached { flock_id: i64 },
    /// Has left its flock.
    Dead,
}

/// What went wrong when an agent entered the scene.
#[derive(Clone, Copy, Debug, PartialEq, Eq, Structural)]
pub enum BoidError {
    /// The agent has no parent, or its parent is not a flock. The agent
    /// belongs to no flock and no steering will ever reach it.
    NoFlockParent { boid_id: i64 },
    /// The agent joined its flock, but the properties it was given are not
    /// valid: it stays where it is until it is given others.
    InvalidProperty { boid_id: i64 },
}

/// What an agent is, mathematically.
pub struct BoidView {
    pub id: i64,
    pub stage: Lifecycle,
    pub props: BoidProperties,
    pub vel: Vector2,
}

impl BoidView {
    /// An agent as the host has just made it: in no flock, at rest, with the
    /// default properties.
    pub open spec fn fresh(id: i64) -> BoidView {
        BoidView {
            id,
            stage: Lifecycle::Unattached,
            props: BoidProperties::spec_default(),
            vel: Vector2::spec_zero(),
        }
    }

    /// Whether the agent is a member of some flock.
    pub open spec fn is_attached(self) -> bool {
        self.stage is Attached
    }

    /// The id of the flock the agent belongs to, or [`UNSET_FLOCK_ID`].
    pub open spec fn flock_id(self) -> i64 {
        match self.stage {
            Lifecycle::Attached { flock_id } => flock_id,
            _ => UNSET_FLOCK_ID,
        }
    }

    /// Whether the agent cannot move because its properties are not valid.
    pub open spec fn inert(self) -> bool {
        !self.props.valid()
    }

    /// The agent after it has joined the flock `flock_id`, taking `props` as
    /// its properties.
    pub open spec fn attached(self, flock_id: i64, props: BoidProperties) -> BoidView {
        BoidView { stage: Lifecycle::Attached { flock_id }, props, ..self }
    }

    /// The agent after it has entered the scene without a flock to join: it
    /// takes `props` and stays out of every flock.
    pub open spec fn orphaned(self, props: BoidProperties) -> BoidView {
        BoidView { props, ..self }
    }

    /// The agent after it has left the scene.
    pub open spec fn detached(self) -> BoidView {
        BoidView { stage: Lifecycle::Dead, ..self }
    }

    /// The agent with its velocity replaced.
    pub open spec fn with_velocity(self, vel: Vector2) -> BoidView {
        BoidView { vel, ..self }
    }

    /// The agent after one integration step whose arithmetic gave `steered`.
    /// An inert agent comes to rest instead.
    pub open spec fn integrated(self, steered: Vector2) -> BoidView {
        if self.inert() {
            self.with_velocity(Vector2::spec_zero())
        } else {
            self.with_velocity(steered)
        }
    }

    /// What entering the scene reports: the missing flock first, then
    /// properties that are not valid.
    pub open spec fn enter_result(self, has_flock: bool, props: BoidProperties) -> Result<
        (),
        BoidError,
    > {
        if !has_flock {
            Err(BoidError::NoFlockParent { boid_id: self.id })
        } else if !props.valid() {
            Err(BoidError::InvalidProperty { boid_id: self.id })
        } else {
            Ok(())
        }
    }

    /// Whether leaving the scene takes the agent's id out of `flock`: the
    /// agent must belong to that very flock, and the flock must know it.
    pub open spec fn leaves(self, flock: crate::flock::FlockView) -> bool {
        self.stage == (Lifecycle::Attached { flock_id: flock.id }) && flock.members.contains(
            self.id,
        )
    }
}

/// One agent of the simulation.
pub struct Boid2D {
    id: ObjectId,
    stage: Lifecycle,
    props: BoidProperties,
    vel: Vector2,
}

impl View for Boid2D {
    type V = BoidView;

    closed spec fn view(&self) -> BoidView {
        BoidView { id: self.id@, stage: self.stage, props: self.props, vel: self.vel }
    }
}

impl Boid2D {
    /// The flock an agent belongs to has an instance id, which is never the unset value.
    #[verifier::type_invariant]
    spec fn flock_is_set(self) -> bool {
        self.stage matches Lifecycle::Attached { flock_id } ==> flock_id != UNSET_FLOCK_ID
    }

    /// A new agent under the instance id that the host assigned to it. It is
    /// in no flock and at rest, and it is inert until it is given properties.
    pub fn new(instance_id: InstanceId) -> (boid: Boid2D)
        ensures
            boid@ == BoidView::fresh(instance_id_value(instance_id)),
            boid@.id != UNSET_FLOCK_ID,
            boid@.inert(),
    {
        proof {
            lemma_default_not_valid();
        }
        Boid2D {
            id: ObjectId::new(instance_id),
            stage: Lifecycle::Unattached,
            props: BoidProperties::default(),
            vel: Vector2::zero(),
        }
    }

    /// The current velocity.
    pub fn get_velocity(&self) -> (vel: Vector2)
        ensures
            vel == self@.vel,
    {
        self.vel
    }

    /// Replaces the velocity. The speed limit is not applied here.
    pub fn set_velocity(&mut self, new_velocity: Vector2)
        ensures
            final(self)@ == old(self)@.with_velocity(new_velocity),
    {
        proof {
            use_type_invariant(&*self);
        }
        self.vel = new_velocity;
    }

    /// The id of this agent. It is never [`UNSET_FLOCK_ID`].
    pub fn get_id(&self) -> (id: i64)
        ensures
            id == self@.id,
            id != UNSET_FLOCK_ID,
    {
        self.id.raw()
    }

    /// The id of the flock this agent belongs to, or [`UNSET_FLOCK_ID`] while
    /// it belongs to none. The two cannot be confused: a flock's id is never
    /// the unset value.
    pub fn get_flock_id(&self) -> (flock_id: i64)
        ensures
            flock_id == self@.flock_id(),
            flock_id == UNSET_FLOCK_ID <==> !self@.is_attached(),
    {
        proof {
            use_type_invariant(self);
        }
        match self.stage {
            Lifecycle::Attached { flock_id } => flock_id,
            _ => UNSET_FLOCK_ID,
        }
    }

    /// Where the agent stands in its life cycle.
    pub fn lifecycle(&self) -> (stage: Lifecycle)
        ensures
            stage == self@.stage,
    {
        self.stage
    }

    /// Whether the agent is a member of some flock.
    pub fn is_attached(&self) -> (attached: bool)
        ensures
            attached == self@.is_attached(),
    {
        match self.stage {
            Lifecycle::Attached { .. } => true,
            _ => false,
        }
    }

    /// Whether the agent cannot move because its properties are not valid.
    pub fn is_inert(&self) -> (inert: bool)
        ensures
            inert == self@.inert(),
    {
        !self.props.is_valid()
    }

    /// The velocity as a vector in space, with `z = 0`.
    pub fn get_boid_velocity(&self) -> (vel: Vector3)
        ensures
            vel == self@.vel.spec_lift(),
    {
        self.vel.lift()
    }

    /// The properties the agent took when it last entered the scene.
    pub fn get_boid_properties(&self) -> (props: &BoidProperties)
        ensures
            *props == self@.props,
    {
        &self.props
    }

    /// The agent enters the scene. `parent` is the flock it was placed under,
    /// or `None` if it has no parent or its parent is not a flock.
    ///
    /// Under a flock the agent registers with it and takes `properties`; the
    /// flock's id becomes its flock id. Without one it takes `properties` and
    /// stays out of every flock. The result names the first thing that is
    /// amiss, if anything is.
    pub fn enter_tree(&mut self, parent: Option<&mut Flock2D>, properties: &BoidProperties) -> (result:
        Result<(), BoidError>)
        requires
            !old(self)@.is_attached(),
        ensures
            match parent {
                Some(flock) => {
                    &&& final(self)@ == old(self)@.attached(flock@.id, *properties)
                    &&& final(flock)@ == flock@.registered(old(self)@.id)
                },
                None => final(self)@ == old(self)@.orphaned(*properties),
            },
            result == old(self)@.enter_result(parent is Some, *properties),
    {
        proof {
            use_type_invariant(&*self);
        }
        self.props = *properties;
        let id: i64 = self.id.raw();
        match parent {
            Some(flock) => {
                flock.register_boid(id);
                self.stage = Lifecycle::Attached { flock_id: flock.get_id() };
                if properties.is_valid() {
                    Ok(())
                } else {
                    Err(BoidError::InvalidProperty { boid_id: id })
                }
            },
            None => Err(BoidError::NoFlockParent { boid_id: id }),
        }
    }

    /// The agent leaves the scene. `flock` is what the agent's flock id
    /// resolved to, or `None` if it resolved to nothing.
    ///
    /// The agent is dead afterwards and belongs to no flock. If it belonged to
    /// `flock`, its id is taken out of the members; any other flock is left as
    /// it is. Returns whether an id was taken out.
    pub fn exit_tree(&mut self, flock: Option<&mut Flock2D>) -> (unregistered: bool)
        ensures
            final(self)@ == old(self)@.detached(),
            flock matches Some(f) ==> final(f)@ == (if old(self)@.stage == (Lifecycle::Attached {
                flock_id: f@.id,
            }) {
                f@.unregistered(old(self)@.id)
            } else {
                f@
            }),
            unregistered == (flock matches Some(f) && old(self)@.leaves(f@)),
    {
        proof {
            use_type_invariant(&*self);
        }
        let stage: Lifecycle = self.stage;
        let id: i64 = self.id.raw();
        self.stage = Lifecycle::Dead;
        match flock {
            Some(f) => {
                match stage {
                    Lifecycle::Attached { flock_id } => {
                        if flock_id == f.get_id() {
                            f.unregister_boid(id)
                        } else {
                            false
                        }
                    },
                    _ => false,
                }
            },
            None => false,
        }
    }

    /// Completes one integration step. `steered` is the outcome of the step's
    /// arithmetic: the velocity with the force added and the magnitude held
    /// to the speed limit. It becomes the velocity, unless the agent is inert:
    /// then the agent comes to rest. Returns the new velocity, by which the
    /// host moves the agent.
    pub fn integrate(&mut self, steered: Vector2) -> (delta: Vector2)
        ensures
            final(self)@ == old(self)@.integrated(steered),
            delta == final(self)@.vel,
    {
        proof {
            use_type_invariant(&*self);
        }
        if self.props.is_valid() {
            self.vel = steered;
        } else {
            self.vel = Vector2::zero();
        }
        self.vel
    }

    /// Applies a steering force. The force is projected onto the plane; then
    /// `steer` is given the velocity, the projected force and the speed limit
    /// and does the arithmetic: it adds the force to the velocity and holds
    /// the magnitude of the sum to the limit. What it returns becomes the
    /// velocity. Returns the new velocity, by which the host moves the agent.
    ///
    /// An inert agent comes to rest and `steer` is not called.
    pub fn apply_force<F: FnOnce(Vector2, Vector2, Scalar) -> Vector2>(
        &mut self,
        force: Vector3,
        steer: F,
    ) -> (delta: Vector2)
        requires
            !old(self)@.inert() ==> steer.requires(
                (old(self)@.vel, force.spec_xy(), old(self)@.props.max_speed()),
            ),
        ensures
            final(self)@ == old(self)@.integrated(delta),
            delta == final(self)@.vel,
            !old(self)@.inert() ==> steer.ensures(
                (old(self)@.vel, force.spec_xy(), old(self)@.props.max_speed()),
                delta,
            ),
    {
        if self.props.is_valid() {
            let steered: Vector2 = steer(self.vel, force.xy(), self.props.max_speed());
            self.integrate(steered)
        } else {
            self.integrate(Vector2::zero())
        }
    }
}

} // verus!

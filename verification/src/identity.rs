//! Identities. The host names every object by an instance id; the core
//! works with the id as a plain integer.

use vstd::prelude::*;

verus! {

/// The host's instance id, taken as it is: nothing is known of what is inside.
#[verifier::external_type_specification]
#[verifier::external_body]
pub struct ExInstanceId(godot::obj::InstanceId);

/// The integer that `godot::obj::InstanceId::to_i64` gives for an instance id.
pub uninterp spec fn instance_id_value(id: godot::obj::InstanceId) -> i64;

/// What [`Boid2D::get_flock_id`](crate::boid::Boid2D::get_flock_id) returns
/// while the agent belongs to no flock. No instance id has this value.
pub const UNSET_FLOCK_ID: i64 = 0;

/// Calls `godot::obj::InstanceId::to_i64`, which reads the id as a signed
/// integer. Believed, not proved: the integer depends on the id alone, and
/// it is not zero, since an instance id holds a non-zero number and the
/// conversion keeps its bits.
#[verifier::external_body]
pub(crate) fn instance_id_to_i64(id: godot::obj::InstanceId) -> (raw: i64)
    ensures
        raw == instance_id_value(id),
        raw != UNSET_FLOCK_ID,
{
    id.to_i64()
}

/// The id of an object, as the core keeps it: the instance id read as an
/// integer. It is never [`UNSET_FLOCK_ID`].
#[derive(Clone, Copy, Debug)]
pub(crate) struct ObjectId {
    raw: i64,
}

impl View for ObjectId {
    type V = i64;

    closed spec fn view(&self) -> i64 {
        self.raw
    }
}

impl ObjectId {
    #[verifier::type_invariant]
    spec fn is_set(self) -> bool {
        self.raw != UNSET_FLOCK_ID
    }

    /// The id that stands for `instance_id`.
    pub(crate) fn new(instance_id: godot::obj::InstanceId) -> (id: ObjectId)
        ensures
            id@ == instance_id_value(instance_id),
            id@ != UNSET_FLOCK_ID,
    {
        ObjectId { raw: instance_id_to_i64(instance_id) }
    }

    /// The id as an integer.
    pub(crate) fn raw(&self) -> (raw: i64)
        ensures
            raw == self@,
            raw != UNSET_FLOCK_ID,
    {
        proof {
            use_type_invariant(self);
        }
        self.raw
    }
}

} // verus!

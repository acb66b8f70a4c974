//! The physical limits of an agent.

use crate::scalar::Scalar;
use vstd::prelude::*;

verus! {

/// The limits an agent moves under. A plain value: it is compared field by
/// field, copied freely and never changed after it has been made.
#[derive(Clone, Copy, Debug, PartialEq, Eq, Structural)]
pub struct BoidProperties {
    max_speed: Scalar,
}

impl BoidProperties {
    /// The upper bound on the magnitude of the velocity.
    pub closed spec fn spec_max_speed(&self) -> Scalar {
        self.max_speed
    }

    /// The properties an agent holds before any have been given to it. Their
    /// speed limit is zero, so they are not [`valid`](BoidProperties::valid).
    pub closed spec fn spec_default() -> BoidProperties {
        BoidProperties { max_speed: Scalar::spec_zero() }
    }

    /// Whether the properties describe an agent that can move: the speed
    /// limit is a number greater than zero.
    pub open spec fn valid(self) -> bool {
        self.max_speed().positive_finite()
    }

    /// Properties with the given speed limit. Any value is taken as it is;
    /// [`is_valid`](BoidProperties::is_valid) tells whether an agent can move under it.
    pub fn new(max_speed: Scalar) -> (props: BoidProperties)
        ensures
            props.max_speed() == max_speed,
    {
        BoidProperties { max_speed }
    }

    /// The upper bound on the magnitude of the velocity.
    #[verifier::when_used_as_spec(spec_max_speed)]
    pub fn max_speed(&self) -> (limit: Scalar)
        ensures
            limit == self.max_speed(),
    {
        self.max_speed
    }

    /// Decides [`valid`](BoidProperties::valid).
    pub fn is_valid(&self) -> (ok: bool)
        ensures
            ok == self.valid(),
    {
        self.max_speed.is_positive_finite()
    }
}

impl Default for BoidProperties {
    fn default() -> (props: BoidProperties)
        ensures
            props == BoidProperties::spec_default(),
    {
        BoidProperties { max_speed: Scalar::zero() }
    }
}

/// The default properties have a speed limit of zero and are therefore not valid.
pub proof fn lemma_default_not_valid()
    ensures
        BoidProperties::spec_default().max_speed() == Scalar::spec_zero(),
        !BoidProperties::spec_default().valid(),
{
    assert((0u32 >> 23) & 0xFF == 0) by (bit_vector);
    assert(0u32 & 0x7F_FFFF == 0) by (bit_vector);
}

} // verus!

//! Pipeline transforms.
use vstd::prelude::*;
use crate::proto::{FunctionSpec, PTransform};
use crate::urns::{FLATTEN_URN, IMPULSE_BUFFER};

verus! {

/// Merges several collections into one.
pub struct Flatten {}

impl Flatten {
    pub fn new() -> (r: Flatten)
        ensures
            r == (Flatten {}),
    {
        Flatten {}
    }

    /// Writes the flatten function spec into the transform's description:
    /// the flatten URN, with the impulse bytes as payload.
    pub fn expand_internal(&self, transform_proto: &mut PTransform)
        ensures
            final(transform_proto).spec is Some,
            final(transform_proto).spec->0.urn@ == FLATTEN_URN@,
            final(transform_proto).spec->0.payload@ == IMPULSE_BUFFER@,
            final(transform_proto).outputs == old(transform_proto).outputs,
    {
        let mut payload: Vec<u8> = Vec::new();
        let mut i: usize = 0;
        while i < IMPULSE_BUFFER.len()
            invariant
                0 <= i <= IMPULSE_BUFFER@.len(),
                payload@ == IMPULSE_BUFFER@.subrange(0, i as int),
            decreases IMPULSE_BUFFER@.len() - i,
        {
            payload.push(IMPULSE_BUFFER[i]);
            i = i + 1;
        }
        proof {
            assert(payload@ =~= IMPULSE_BUFFER@);
        }
        let spec = FunctionSpec { urn: FLATTEN_URN.to_owned(), payload };
        transform_proto.spec = Some(spec);
    }
}

impl Default for Flatten {
    fn default() -> (r: Flatten)
        ensures
            r == (Flatten {}),
    {
        Flatten::new()
    }
}

} // verus!

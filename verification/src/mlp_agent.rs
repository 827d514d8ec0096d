//! An agent whose policy is a multilayer perceptron kept as plain matrices.

use vstd::prelude::*;
use crate::mlp::Mlp;

verus! {

/// An agent that acts by a multilayer perceptron.
#[derive(Clone, Debug)]
pub struct MlpAgent {
    mlp: Mlp,
}

impl MlpAgent {
    /// The network of the agent.
    pub closed spec fn spec_mlp(&self) -> Mlp {
        self.mlp
    }

    /// An agent that acts by the given network.
    pub fn new(mlp: Mlp) -> (r: Self)
        ensures
            r.spec_mlp() == mlp,
    {
        Self { mlp }
    }

    /// The network of the agent.
    pub fn mlp(&self) -> (r: &Mlp)
        ensures
            *r == self.spec_mlp(),
    {
        &self.mlp
    }
}

} // verus!

//! What every inference engine offers to the server.

use vstd::prelude::*;

use crate::status::Status;
use crate::tensor::Tensor;

verus! {

/// A loaded model. It is shared by the requests to it, and runs one inference at a
/// time on inputs in the declared order, giving outputs in the declared order.
pub trait Backend {
    /// The platform that the model reports.
    fn platform(&self) -> &'static str;

    /// Runs one inference on checked inputs.
    fn infer(&self, inputs: Vec<Tensor>) -> Result<Vec<Tensor>, Status>;
}

} // verus!

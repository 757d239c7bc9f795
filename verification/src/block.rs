use vstd::prelude::*;

verus! {

/// A trait for a block in the transformer.
///
/// Every layer offers a forward computation and a backward (gradient)
/// computation.  A backward call is only meaningful immediately after the
/// forward call whose output gradient it is passed, and the gradient it
/// returns always has the shape of that forward call's input.
pub trait Block {
    type Input;

    type Output;

    /// Forward propagates input through the block.
    fn forward_propagate(&mut self, value: Self::Input) -> Self::Output;

    /// Back propagates error through the block.
    fn back_propagate(&mut self, error: Self::Output) -> Self::Input;
}

} // verus!

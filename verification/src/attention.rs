use vstd::prelude::*;

verus! {

/// A single-headed attention block.
///
/// This is the bare single-head interface; the working scaled dot-product
/// attention layer runs on floating-point matrices and therefore lives
/// outside this verified core.
pub struct Attention {
    _foobar: usize,
}

impl Attention {
    /// The stored marker value.
    pub closed spec fn marker(self) -> usize {
        self._foobar
    }

    /// Create a new single-headed attention block with the given parameters.
    pub fn new(_foobar: usize) -> (block: Attention)
        ensures
            block.marker() == 0,
    {
        let foobar: usize = 0;

        let block: Attention = Attention { _foobar: foobar };

        block
    }
}

} // verus!

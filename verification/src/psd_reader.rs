use vstd::prelude::*;

verus! {

/// Reading scenes from layered image files: not supported yet, so it
/// does nothing.
pub fn psd_read() {
}

} // verus!

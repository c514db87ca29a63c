//! Spin-loop hints as values: a `SpinHint` exists only where a hint was made.
use vstd::prelude::*;

verus! {

/// Evidence that one spin-loop hint was made. Nothing outside this module can build one,
/// and it occupies no memory.
pub struct SpinHint {
    made: (),
}

/// `core::hint::spin_loop`: a busy-wait hint to the processor. It returns nothing and
/// changes no state the library reads; the token it hands back records that the hint was
/// made. No clause is claimed of it.
#[verifier::external_body]
pub(crate) fn spin_loop_hint() -> (hint: SpinHint) {
    core::hint::spin_loop();
    SpinHint { made: () }
}

} // verus!

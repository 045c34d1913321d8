use vstd::prelude::*;

verus! {

/// The CPU exceptions the kernel handles.
#[derive(Debug, Clone, Copy, PartialEq, Eq, Structural)]
#[allow(non_camel_case_types)]
pub enum Exception {
    EXCEPTION_BREAKPOINT,
    EXCEPTION_DOUBLE_FAULT,
}

} // verus!

//! The chip as the provider of the device's credentials.
use crate::mfi::MfiChip;
use vstd::prelude::*;

verus! {

/// What hands the chip's certificate and signatures to the phone.
#[derive(Clone, Copy, Debug, PartialEq, Eq, Structural)]
pub struct HardwareMfiProvider {
    pub chip: MfiChip,
}

impl HardwareMfiProvider {
    /// The provider of the device's chip.
    pub fn new() -> (r: HardwareMfiProvider)
        ensures
            r == (HardwareMfiProvider { chip: MfiChip {} }),
    {
        HardwareMfiProvider { chip: MfiChip::new() }
    }
}

} // verus!

use vstd::prelude::*;

verus! {

/// Host-side settings of the emulator.
pub struct Config {
    /// Side, in host pixels, of one CHIP-8 pixel.
    pub scale_factor: u32,
}

impl Config {
    pub fn new(scale_factor: u32) -> (r: Config)
        ensures
            r.scale_factor == scale_factor,
    {
        Config { scale_factor }
    }
}

} // verus!

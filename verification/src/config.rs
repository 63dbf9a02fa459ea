//! Start-up configuration: the prompting for certificate, key, directory
//! and password-file paths is interactive I/O and lives in the surrounding
//! application; the configuration value itself starts empty here.

use vstd::prelude::*;

verus! {

/// The interactive configuration of an endpoint at start-up.
pub struct Configure {}

impl Configure {
    pub fn new() -> (r: Configure) {
        Configure {  }
    }
}

} // verus!

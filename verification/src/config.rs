//! Process-wide configuration and the header the bridge sends when a
//! distro-side helper connects: which WSL distro this bridge serves, and who
//! is connecting.

use vstd::prelude::*;

verus! {

/// The bridge's configuration.
pub struct Config {
    pub distro_name: String,
}

impl Config {
    /// The name of the WSL distro whose paths and shares this bridge
    /// translates.
    pub fn distro_name(&self) -> (r: &str)
        ensures
            r@ == self.distro_name@,
    {
        self.distro_name.as_str()
    }
}

/// The identification a distro-side helper sends when it connects.
pub struct DistroInfo {
    pub distro_name: String,
    pub user_name: String,
    pub home_folder: String,
}

impl DistroInfo {
    pub fn new(distro_name: String, user_name: String, home_folder: String) -> (r: Self)
        ensures
            r.distro_name == distro_name,
            r.user_name == user_name,
            r.home_folder == home_folder,
    {
        Self { distro_name, home_folder, user_name }
    }
}

} // verus!

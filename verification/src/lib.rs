//! Verified decision logic of a desktop manager for Android Virtual Devices.
use vstd::prelude::*;

pub mod text;
pub mod number;
pub mod case;
pub mod config;
pub mod types;
pub mod avd;
pub mod paths;
pub mod env;
pub mod launch;
pub mod sdk_packages;
pub mod progress;
pub mod install;
pub mod system;
pub mod registry;
pub mod laws;
mod readback;

verus! {

} // verus!

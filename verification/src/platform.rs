//! What the agent reports about the machine it runs on, per platform.

use vstd::prelude::*;
use vstd::string::StringExecFns;

verus! {

/// A platform's identity, as the agent reports it.
pub trait PlatformInfo {
    fn os_name(&self) -> String;

    fn os_version(&self) -> String;

    fn hostname(&self) -> String;
}

pub struct LinuxPlatform;

pub struct MacOSPlatform;

pub struct WindowsPlatform;

impl PlatformInfo for LinuxPlatform {
    fn os_name(&self) -> String {
        String::from_str("Linux")
    }

    fn os_version(&self) -> String {
        String::from_str("Unknown")
    }

    fn hostname(&self) -> String {
        String::from_str("localhost")
    }
}

impl PlatformInfo for MacOSPlatform {
    fn os_name(&self) -> String {
        String::from_str("macOS")
    }

    fn os_version(&self) -> String {
        String::from_str("Unknown")
    }

    fn hostname(&self) -> String {
        String::from_str("localhost")
    }
}

impl PlatformInfo for WindowsPlatform {
    fn os_name(&self) -> String {
        String::from_str("Windows")
    }

    fn os_version(&self) -> String {
        String::from_str("10")
    }

    fn hostname(&self) -> String {
        String::from_str("localhost")
    }
}

} // verus!

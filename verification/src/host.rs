//! Small fixed facts about the host installation: where the elevated
//! helper is installed, and how the authentication agent's presence is
//! reported.

use vstd::prelude::*;

verus! {

/// Where the elevated helper is installed system-wide.
pub fn installed_helper_path() -> (r: String)
    ensures
        r@ == "/usr/local/lib/sillyvpn/sillyvpn-helper"@,
{
    String::from_str("/usr/local/lib/sillyvpn/sillyvpn-helper")
}

/// Whether an authentication agent runs, with a line for the user.
#[derive(Debug)]
pub struct PolkitStatus {
    pub running: bool,
    pub detail: String,
}

/// Builds the report from the probe's verdict.
pub fn polkit_status(running: bool) -> (r: PolkitStatus)
    ensures
        r.running == running,
        running ==> r.detail@ == "polkit-agent is running"@,
        !running ==> r.detail@ == "polkit-agent is not running"@,
{
    if running {
        PolkitStatus { running, detail: String::from_str("polkit-agent is running") }
    } else {
        PolkitStatus { running, detail: String::from_str("polkit-agent is not running") }
    }
}

} // verus!

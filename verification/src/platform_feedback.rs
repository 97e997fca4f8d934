//! Hooks into the platform for answer feedback and application updates.
//! Outside Android these do nothing.
use vstd::prelude::*;

verus! {

/// Plays the answer sound and vibration where the platform offers them.
pub fn trigger_answer_feedback(_correct: bool, _sound_enabled: bool) {
}

/// Prepares the platform's feedback and update bridges.
pub fn init_platform_bridges() {
}

/// Asks the platform to check for an update.
pub fn trigger_update_check() {
}

/// Asks the platform to download and install the update at `_url`.
pub fn trigger_update_install(_url: &str) {
}

} // verus!

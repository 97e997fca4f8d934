use vstd::prelude::*;

verus! {

/// Global configuration constants for the application.
pub struct AppConfig;

impl AppConfig {
    /// The name of the application displayed in the UI and window title.
    pub const APP_NAME: &'static str = "Lexivo";

    /// The current version of the application.
    pub const APP_VERSION: &'static str = "1.0.0";

    pub const DONATE_URL: &'static str = "https://buymeacoffee.com/asptechinc";

    pub const GITHUB_REPO: &'static str = "https://github.com/ASPTechInc/Lexivo";

    pub const GITHUB_ISSUES: &'static str = "https://github.com/ASPTechInc/Lexivo/issues";

    pub const GITHUB_RELEASES: &'static str =
        "https://api.github.com/repos/ASPTechInc/Lexivo/releases/latest";

    /// Length of a round, in whole seconds, when the question count has no
    /// dedicated time limit.
    pub const ROUND_TIME_SECS: u32 = 60;

    /// Length of such a round, in milliseconds.
    pub const ROUND_TIME_MS: u32 = 60_000;

    /// Points that revealing one letter of the answer costs.
    pub const LETTER_REVEAL_COST_POINTS: u32 = 5;

    /// How long a feedback message stays visible, in milliseconds.
    pub const MESSAGE_DURATION_MS: u32 = 3000;
}

} // verus!

//! The command-line flags, as plain resolved values. Parsing them from the
//! process arguments happens outside the library.

use vstd::prelude::*;

verus! {

/// The feature flags a user may pass on the command line.
#[derive(Debug)]
pub struct Args {
    pub project_name: Option<String>,
    pub default: bool,
    pub ts: bool,
    pub jsx: bool,
    pub router: bool,
    pub pinia: bool,
    pub tests: bool,
    pub vitest: bool,
    pub cypress: bool,
    pub playwright: bool,
    pub eslint: bool,
    pub eslint_with_prettier: bool,
    pub force: bool,
}

/// Whether any feature flag was passed: interactive questions are then
/// skipped and the flags decide.
pub open spec fn feature_flags_used(a: Args) -> bool {
    ||| a.default
    ||| a.ts
    ||| a.jsx
    ||| a.router
    ||| a.pinia
    ||| a.tests
    ||| a.vitest
    ||| a.cypress
    ||| a.playwright
    ||| a.eslint
}

impl Args {
    /// Whether any feature flag was passed.
    pub fn is_feature_flags_used(&self) -> (r: bool)
        ensures
            r == feature_flags_used(*self),
    {
        self.default || self.ts || self.jsx || self.router || self.pinia || self.tests
            || self.vitest || self.cypress || self.playwright || self.eslint
    }
}

} // verus!

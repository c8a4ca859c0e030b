//! The resolution of the interactive prompt flow: from the command-line
//! flags and the answers the user gave, decide every setting of the run.
//! Asking the questions is I/O and happens outside the library; this module
//! holds the decisions.

use vstd::prelude::*;

use crate::args::{feature_flags_used, Args};
use crate::utils::{is_valid_package_name, valid_package_name};

verus! {

/// The end-to-end testing solution chosen.
#[derive(Debug, Clone, Copy)]
pub enum E2eTesting {
    No,
    Cypress,
    Playwright,
}

/// The answers collected from the user, together with what was learned about
/// the target directory. An answer to a question that is never asked is
/// ignored.
pub struct UserInput {
    /// Answer to the project-name question.
    pub project_name: String,
    /// Whether the target directory is absent or empty, so that no
    /// overwrite confirmation is needed.
    pub dir_can_skip_emptying: bool,
    /// Answer to the overwrite confirmation.
    pub should_overwrite: bool,
    /// Answer to the package-name question.
    pub package_name: String,
    /// Answers to the per-feature questions.
    pub needs_type_script: bool,
    pub needs_jsx: bool,
    pub needs_router: bool,
    pub needs_pinia: bool,
    pub needs_vitest: bool,
    pub needs_e2e_testing: E2eTesting,
    pub needs_eslint: bool,
    pub needs_prettier: bool,
}

/// Why the prompt flow stopped instead of producing a configuration.
#[derive(Debug, Clone, Copy, PartialEq, Eq, Structural)]
pub enum PromptError {
    /// The target directory was not empty and the user declined to empty it.
    Cancelled,
    /// Neither the project name nor the answering package name was valid.
    InvalidPackageName,
}

/// The fully resolved settings of one scaffolding run.
#[derive(Debug)]
pub struct Prompts {
    pub project_name: String,
    pub should_overwrite: bool,
    pub package_name: String,
    pub needs_type_script: bool,
    pub needs_jsx: bool,
    pub needs_router: bool,
    pub needs_pinia: bool,
    pub needs_vitest: bool,
    pub needs_e2e_testing: E2eTesting,
    pub needs_eslint: bool,
    pub needs_prettier: bool,
}

/// The project name of the run: the positional argument, or the answer.
pub open spec fn chosen_project_name(a: Args, i: UserInput) -> Seq<char> {
    match a.project_name {
        Some(n) => n@,
        None => i.project_name@,
    }
}

/// Whether the overwrite confirmation is skipped.
pub open spec fn overwrite_question_skipped(a: Args, i: UserInput) -> bool {
    i.dir_can_skip_emptying || a.force
}

/// The run is cancelled when the confirmation is asked and declined.
pub open spec fn run_cancelled(a: Args, i: UserInput) -> bool {
    !overwrite_question_skipped(a, i) && !i.should_overwrite
}

/// The package name cannot be settled when neither the project name nor the
/// answer to the package-name question is valid.
pub open spec fn package_name_failed(a: Args, i: UserInput) -> bool {
    !valid_package_name(chosen_project_name(a, i)) && !valid_package_name(i.package_name@)
}

/// The package name of the run.
pub open spec fn chosen_package_name(a: Args, i: UserInput) -> Seq<char> {
    if valid_package_name(chosen_project_name(a, i)) {
        chosen_project_name(a, i)
    } else {
        i.package_name@
    }
}

impl Prompts {
    /// Resolves the whole prompt flow. When feature flags are used, the
    /// per-feature questions are not asked and the flags decide; otherwise
    /// the collected answers decide. The run fails when the user declines to
    /// overwrite a non-empty directory, or when no valid package name can be
    /// settled.
    pub fn new(args: &Args, input: &UserInput) -> (r: Result<Prompts, PromptError>)
        ensures
            r is Err <==> (run_cancelled(*args, *input) || package_name_failed(*args, *input)),
            run_cancelled(*args, *input) ==> r == Result::<Prompts, PromptError>::Err(
                PromptError::Cancelled,
            ),
            !run_cancelled(*args, *input) && package_name_failed(*args, *input) ==> r
                == Result::<Prompts, PromptError>::Err(PromptError::InvalidPackageName),
            r matches Ok(p) ==> {
                &&& p.project_name@ == chosen_project_name(*args, *input)
                &&& p.should_overwrite == !overwrite_question_skipped(*args, *input)
                &&& p.package_name@ == chosen_package_name(*args, *input)
                &&& p.needs_type_script == (if feature_flags_used(*args) {
                    args.ts
                } else {
                    input.needs_type_script
                })
                &&& p.needs_jsx == (if feature_flags_used(*args) {
                    args.jsx
                } else {
                    input.needs_jsx
                })
                &&& p.needs_router == (if feature_flags_used(*args) {
                    args.router
                } else {
                    input.needs_router
                })
                &&& p.needs_pinia == (if feature_flags_used(*args) {
                    args.pinia
                } else {
                    input.needs_pinia
                })
                &&& p.needs_vitest == (if feature_flags_used(*args) {
                    args.vitest
                } else {
                    input.needs_vitest
                })
                &&& p.needs_e2e_testing == (if feature_flags_used(*args) {
                    E2eTesting::No
                } else {
                    input.needs_e2e_testing
                })
                &&& p.needs_eslint == (if feature_flags_used(*args) {
                    args.eslint
                } else {
                    input.needs_eslint
                })
                &&& p.needs_prettier == (if feature_flags_used(*args) || !p.needs_eslint {
                    args.eslint_with_prettier
                } else {
                    input.needs_prettier
                })
            },
    {
        let project_name = match &args.project_name {
            Some(name) => name.clone(),
            None => input.project_name.clone(),
        };

        let is_feature_flags_used = args.is_feature_flags_used();

        let show_should_overwrite = input.dir_can_skip_emptying || args.force;

        let should_overwrite = if show_should_overwrite {
            false
        } else {
            if !input.should_overwrite {
                return Err(PromptError::Cancelled);
            }
            true
        };

        let package_name = if is_valid_package_name(&project_name) {
            project_name.clone()
        } else {
            let name = input.package_name.clone();
            if is_valid_package_name(&name) {
                name
            } else {
                return Err(PromptError::InvalidPackageName);
            }
        };

        let needs_type_script = if is_feature_flags_used {
            args.ts
        } else {
            input.needs_type_script
        };

        let needs_jsx = if is_feature_flags_used {
            args.jsx
        } else {
            input.needs_jsx
        };

        let needs_router = if is_feature_flags_used {
            args.router
        } else {
            input.needs_router
        };

        let needs_pinia = if is_feature_flags_used {
            args.pinia
        } else {
            input.needs_pinia
        };

        let needs_vitest = if is_feature_flags_used {
            args.vitest
        } else {
            input.needs_vitest
        };

        let needs_e2e_testing = if is_feature_flags_used {
            E2eTesting::No
        } else {
            input.needs_e2e_testing
        };

        let needs_eslint = if is_feature_flags_used {
            args.eslint
        } else {
            input.needs_eslint
        };

        let needs_prettier = if is_feature_flags_used || !needs_eslint {
            args.eslint_with_prettier
        } else {
            input.needs_prettier
        };

        Ok(
            Prompts {
                project_name,
                should_overwrite,
                package_name,
                needs_type_script,
                needs_jsx,
                needs_router,
                needs_pinia,
                needs_vitest,
                needs_e2e_testing,
                needs_eslint,
                needs_prettier,
            },
        )
    }
}

} // verus!

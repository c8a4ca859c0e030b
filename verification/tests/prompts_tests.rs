//! Tests of the prompt-flow resolution.

use create_vue::args::Args;
use create_vue::prompts::{E2eTesting, PromptError, Prompts, UserInput};

fn base_args() -> Args {
    Args {
        project_name: None,
        default: false,
        ts: false,
        jsx: false,
        router: false,
        pinia: false,
        tests: false,
        vitest: false,
        cypress: false,
        playwright: false,
        eslint: false,
        eslint_with_prettier: false,
        force: false,
    }
}

fn base_input() -> UserInput {
    UserInput {
        project_name: "my-vue-app".to_string(),
        dir_can_skip_emptying: true,
        should_overwrite: false,
        package_name: "my-vue-app".to_string(),
        needs_type_script: false,
        needs_jsx: false,
        needs_router: false,
        needs_pinia: false,
        needs_vitest: false,
        needs_e2e_testing: E2eTesting::No,
        needs_eslint: false,
        needs_prettier: false,
    }
}

#[test]
fn answers_decide_when_no_flags_are_used() {
    let args = base_args();
    let mut input = base_input();
    input.needs_type_script = true;
    input.needs_eslint = true;
    input.needs_prettier = true;
    let p = Prompts::new(&args, &input).unwrap();
    assert_eq!(p.project_name, "my-vue-app");
    assert_eq!(p.package_name, "my-vue-app");
    assert!(!p.should_overwrite);
    assert!(p.needs_type_script);
    assert!(p.needs_eslint);
    assert!(p.needs_prettier);
    assert!(matches!(p.needs_e2e_testing, E2eTesting::No));
}

#[test]
fn flags_silence_the_questions() {
    let mut args = base_args();
    args.project_name = Some("cli-app".to_string());
    args.ts = true;
    let mut input = base_input();
    input.needs_router = true;  // answered, but never asked
    let p = Prompts::new(&args, &input).unwrap();
    assert_eq!(p.project_name, "cli-app");
    assert!(p.needs_type_script);
    assert!(!p.needs_router);
}

#[test]
fn declining_the_overwrite_cancels_the_run() {
    let args = base_args();
    let mut input = base_input();
    input.dir_can_skip_emptying = false;
    input.should_overwrite = false;
    assert!(matches!(
        Prompts::new(&args, &input),
        Err(PromptError::Cancelled)
    ));

    input.should_overwrite = true;
    let p = Prompts::new(&args, &input).unwrap();
    assert!(p.should_overwrite);
}

#[test]
fn invalid_names_fall_back_to_the_answer_or_fail() {
    let args = base_args();
    let mut input = base_input();
    input.project_name = "My App".to_string();
    input.package_name = "my-app".to_string();
    let p = Prompts::new(&args, &input).unwrap();
    assert_eq!(p.project_name, "My App");
    assert_eq!(p.package_name, "my-app");

    input.package_name = "Still Bad".to_string();
    assert!(matches!(
        Prompts::new(&args, &input),
        Err(PromptError::InvalidPackageName)
    ));
}

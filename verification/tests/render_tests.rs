//! Tests of the manifest sorter and the template copier's file policy.

use create_vue::json::to_json_pretty;
use create_vue::render::{
    merge_ignore, merge_manifests, plan_file, should_skip_dir, sort_pkg, transform_file_name,
    FileAction,
};
use create_vue::value::StructuredValue;

fn obj(pairs: Vec<(&str, StructuredValue)>) -> StructuredValue {
    StructuredValue::Obj(pairs.into_iter().map(|(k, v)| (k.to_string(), v)).collect())
}

fn s(text: &str) -> StructuredValue {
    StructuredValue::Str(text.to_string())
}

#[test]
fn sorter_orders_dependency_sections_ascending() {
    let m = obj(vec![
        ("name", s("demo")),
        ("devDependencies", obj(vec![("b", s("1")), ("a", s("2"))])),
        ("version", s("0.0.0")),
    ]);
    let sorted = sort_pkg(&m);
    assert_eq!(
        to_json_pretty(&sorted),
        "{\n  \"name\": \"demo\",\n  \"version\": \"0.0.0\",\n  \"devDependencies\": {\n    \"a\": \"2\",\n    \"b\": \"1\"\n  }\n}"
    );
}

#[test]
fn sorter_is_idempotent() {
    let m = obj(vec![
        ("dependencies", obj(vec![("z", s("1")), ("y", s("2"))])),
        ("name", s("demo")),
        ("optionalDependencies", obj(vec![("q", s("3"))])),
    ]);
    let once = sort_pkg(&m);
    let twice = sort_pkg(&once);
    assert_eq!(to_json_pretty(&once), to_json_pretty(&twice));
}

#[test]
fn dotfile_names_are_rewritten_globally() {
    assert_eq!(transform_file_name(&"_gitignore".to_string()), ".gitignore");
    assert_eq!(
        transform_file_name(&"_foo.bar_baz".to_string()),
        ".foo.bar.baz"
    );
    // a name that does not start with the sentinel is untouched
    assert_eq!(
        transform_file_name(&"foo_bar".to_string()),
        "foo_bar"
    );
}

#[test]
fn node_modules_directories_are_skipped() {
    assert!(should_skip_dir(&"node_modules".to_string()));
    assert!(!should_skip_dir(&"src".to_string()));
}

#[test]
fn manifest_files_are_always_merged_never_created() {
    // even when the destination has no manifest yet, the policy is a merge:
    // a missing destination manifest is a fatal error for the caller, not a
    // silent create
    assert!(matches!(
        plan_file(&"package.json".to_string(), false),
        FileAction::MergeManifest
    ));
    assert!(matches!(
        plan_file(&"package.json".to_string(), true),
        FileAction::MergeManifest
    ));
    match plan_file(&"_gitignore".to_string(), true) {
        FileAction::AppendIgnore(dest) => assert_eq!(dest, ".gitignore"),
        other => panic!("unexpected action {:?}", other),
    }
    match plan_file(&"_gitignore".to_string(), false) {
        FileAction::Write(dest) => assert_eq!(dest, ".gitignore"),
        other => panic!("unexpected action {:?}", other),
    }
    match plan_file(&"main.js".to_string(), true) {
        FileAction::Write(dest) => assert_eq!(dest, "main.js"),
        other => panic!("unexpected action {:?}", other),
    }
}

#[test]
fn ignore_files_append_destination_first() {
    let merged = merge_ignore(&"node_modules".to_string(), &"dist".to_string());
    assert_eq!(merged, "node_modules\ndist");
}

#[test]
fn manifest_merge_overlays_template_and_sorts() {
    let dest = obj(vec![
        ("name", s("demo")),
        ("devDependencies", obj(vec![("vite", s("^3.0.0"))])),
    ]);
    let src = obj(vec![
        ("devDependencies", obj(vec![("eslint", s("^8.22.0"))])),
    ]);
    let merged = merge_manifests(&dest, &src);
    assert_eq!(
        to_json_pretty(&merged),
        "{\n  \"name\": \"demo\",\n  \"devDependencies\": {\n    \"eslint\": \"^8.22.0\",\n    \"vite\": \"^3.0.0\"\n  }\n}"
    );
}

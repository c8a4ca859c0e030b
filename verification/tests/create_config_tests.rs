//! Tests of the configuration synthesizer and its output file bundle.

use create_vue::create_eslint_config::{ConfigFile, CreateConfig, PkgConfig, StyleGuide};
use create_vue::json::to_json_pretty;
use create_vue::value::StructuredValue;

fn file_text(f: &ConfigFile) -> Option<String> {
    f.1.clone()
}

fn dev_dependency_names(pkg: &PkgConfig) -> Vec<String> {
    match pkg.get(&"devDependencies".to_string()) {
        Some(StructuredValue::Obj(pairs)) => pairs.iter().map(|p| p.0.clone()).collect(),
        other => panic!("devDependencies missing or not an object: {:?}", other),
    }
}

#[test]
fn main_test() {
    let config = CreateConfig {
        style_guide: StyleGuide::Airbnb,
        has_typescript: true,
        needs_prettier: true,
        additional_config: None,
        additional_dependencies: None,
    };
    let (pkg, files) = config.create();
    let pkg_text = to_json_pretty(&pkg.0);
    let files_text = format!(
        "{}:{:?}\n{}:{:?}\n{}:{:?}\n",
        files.editorconfig.0,
        files.editorconfig.1,
        files.eslintrc.0,
        files.eslintrc.1,
        files.prettierrc.0,
        files.prettierrc.1
    );
    println!("pkg:\n{}\n  file:\n{}", pkg_text, files_text)
}

#[test]
fn airbnb_typed_formatter_scenario() {
    let config = CreateConfig {
        style_guide: StyleGuide::Airbnb,
        has_typescript: true,
        needs_prettier: true,
        additional_config: None,
        additional_dependencies: None,
    };
    let (pkg, files) = config.create();

    let names = dev_dependency_names(&pkg);
    assert_eq!(
        names,
        vec![
            "eslint".to_string(),
            "eslint-plugin-vue".to_string(),
            "@rushstack/eslint-patch".to_string(),
            "@vue/eslint-config-airbnb-with-typescript".to_string(),
            "prettier".to_string(),
            "@vue/eslint-config-prettier".to_string(),
        ]
    );
    assert_eq!(names.len(), 6);

    // the compatibility patch activation line comes first, then the module
    // export whose extends array ends with the formatter's rule set
    let eslintrc = file_text(&files.eslintrc).unwrap();
    let expected = "require('@rushstack/eslint-patch/modern-module-resolution')\\n\\nmodule.exports = {\n  \"root\": true,\n  \"extends\": [\n    \"plugin:vue/essential\",\n    \"@vue/eslint-config-airbnb-with-typescript\",\n    \"@vue/eslint-config-prettier\"\n  ]\n}\n";
    assert_eq!(eslintrc, expected);

    // the Airbnb editor settings are emitted, the default ones are not
    let editor = file_text(&files.editorconfig).unwrap();
    assert!(editor.contains("max_line_length = 100"));

    // formatter settings are emitted as serialized JSON
    let prettier = file_text(&files.prettierrc).unwrap();
    assert!(prettier.starts_with("{\n  \"$schema\""));
    assert!(prettier.contains("\"printWidth\": 100"));
    assert!(prettier.contains("\"singleQuote\": true"));
}

#[test]
fn default_style_guide_sets_env_and_parser_options() {
    let config = CreateConfig {
        style_guide: StyleGuide::Default,
        has_typescript: false,
        needs_prettier: false,
        additional_config: None,
        additional_dependencies: None,
    };
    let (pkg, files) = config.create();

    let names = dev_dependency_names(&pkg);
    assert_eq!(
        names,
        vec!["eslint".to_string(), "eslint-plugin-vue".to_string()]
    );

    assert_eq!(file_text(&files.editorconfig), None);
    assert_eq!(file_text(&files.prettierrc), None);

    let eslintrc = file_text(&files.eslintrc).unwrap();
    let expected = "/* eslint-env node */\nmodule.exports = {\n  \"root\": true,\n  \"extends\": [\n    \"plugin:vue/essential\",\n    \"eslint:recommended\"\n  ],\n  \"parserOptions\": {\n    \"ecmaVersion\": \"latest\"\n  }\n}\n";
    assert_eq!(eslintrc, expected);
}

#[test]
fn additional_dependencies_overlay_wins() {
    let extra = StructuredValue::Obj(vec![(
        "devDependencies".to_string(),
        StructuredValue::Obj(vec![(
            "eslint-plugin-cypress".to_string(),
            StructuredValue::Str("^2.12.1".to_string()),
        )]),
    )]);
    let config = CreateConfig {
        style_guide: StyleGuide::Standard,
        has_typescript: false,
        needs_prettier: false,
        additional_config: None,
        additional_dependencies: Some(extra),
    };
    let (pkg, _files) = config.create();
    let names = dev_dependency_names(&pkg);
    assert_eq!(
        names,
        vec![
            "eslint".to_string(),
            "eslint-plugin-vue".to_string(),
            "@vue/eslint-config-standard".to_string(),
            "eslint-plugin-cypress".to_string(),
        ]
    );
    assert!(pkg.has_dependency("eslint-plugin-cypress"));
    assert!(!pkg.has_dependency("@rushstack/eslint-patch"));
}

#[test]
fn placeholder_is_replaced_with_alias_setting() {
    let extra = StructuredValue::Obj(vec![(
        "settings".to_string(),
        StructuredValue::Str("CREATE_ALIAS_SETTING_PLACEHOLDER".to_string()),
    )]);
    let config = CreateConfig {
        style_guide: StyleGuide::Airbnb,
        has_typescript: false,
        needs_prettier: false,
        additional_config: Some(extra),
        additional_dependencies: None,
    };
    let (_pkg, files) = config.create();
    let eslintrc = file_text(&files.eslintrc).unwrap();
    assert!(eslintrc.contains("...require('@vue/eslint-config-airbnb/createAliasSetting')"));
    assert!(!eslintrc.contains("CREATE_ALIAS_SETTING_PLACEHOLDER"));
}

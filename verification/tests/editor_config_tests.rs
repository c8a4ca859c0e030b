//! Tests of the fixed editor and formatter settings tables.

use create_vue::create_eslint_config::StyleGuide;
use create_vue::editor_config::{create_config, Editorconfilgs, Prettierconfigs};
use create_vue::json::to_json_pretty;

#[test]
fn editor_settings_vary_by_style_guide() {
    let configs = Editorconfilgs::new();
    let airbnb = configs.get(&StyleGuide::Airbnb);
    assert!(airbnb.starts_with("root = true\n"));
    assert!(airbnb.contains("max_line_length = 100"));
    let standard = configs.get(&StyleGuide::Standard);
    assert!(standard.starts_with("root = true\n"));
    assert!(!standard.contains("max_line_length"));
    assert_eq!(configs.get(&StyleGuide::Default), "");
}

#[test]
fn formatter_settings_are_identical_for_both_guides() {
    let configs = Prettierconfigs::new();
    let airbnb = to_json_pretty(&configs.get(&StyleGuide::Airbnb));
    let standard = to_json_pretty(&configs.get(&StyleGuide::Standard));
    assert_eq!(airbnb, standard);
    assert!(airbnb.contains("\"arrowParens\": \"always\""));
    assert!(airbnb.contains("\"endOfLine\": \"lf\""));
    assert!(airbnb.contains("\"tabWidth\": 2"));
    assert!(airbnb.contains("\"useTabs\": false"));
    assert_eq!(to_json_pretty(&configs.get(&StyleGuide::Default)), "{}");

    let pair = create_config();
    assert_eq!(to_json_pretty(&pair[0]), airbnb);
    assert_eq!(to_json_pretty(&pair[1]), standard);
}

#[test]
fn style_guide_labels() {
    assert_eq!(StyleGuide::Default.label(), "default");
    assert_eq!(StyleGuide::Airbnb.label(), "airbnb");
    assert_eq!(StyleGuide::Standard.label(), "standard");
}

//! Tests of package-name validation and normalization.

use create_vue::utils::{is_valid_package_name, to_valid_package_name};

#[test]
fn test_is_valid_pageage_name() {
    assert_eq!(is_valid_package_name(&String::from("_dsdsd")), false);
    assert_eq!(is_valid_package_name(&String::from(".dsdsd")), false);
    assert_eq!(is_valid_package_name(&String::from(r"d\sdsd")), false);
    assert_eq!(is_valid_package_name(&String::from("d!sdsd")), false);
    assert_eq!(is_valid_package_name(&String::from("d`sdsd")), false);
    assert_eq!(is_valid_package_name(&String::from("d(sdsd")), false);
    assert_eq!(is_valid_package_name(&String::from("d)sdsd")), false);
    assert_eq!(is_valid_package_name(&String::from("ds'dsd")), false);
}

#[test]
fn test_to_valid_package_name() {
    assert_eq!(
        to_valid_package_name(&String::from(" dsdsd")),
        "dsdsd".to_string()
    );
    assert_eq!(
        to_valid_package_name(&String::from("d sdsd")),
        "d-sdsd".to_string()
    );

    assert_eq!(
        to_valid_package_name(&String::from("d%%%sdsd")),
        "d-sdsd".to_string()
    );
}

#[test]
fn scoped_package_names_are_accepted() {
    assert!(is_valid_package_name(&String::from("my-app")));
    assert!(is_valid_package_name(&String::from("@scope/my-app")));
    assert!(is_valid_package_name(&String::from("@s/a")));
    assert_eq!(is_valid_package_name(&String::from("@scope/")), false);
    assert_eq!(is_valid_package_name(&String::from("@/name")), false);
    assert_eq!(is_valid_package_name(&String::from("@scope")), false);
    assert_eq!(is_valid_package_name(&String::from("")), false);
    assert_eq!(is_valid_package_name(&String::from("My-App")), false);
}

#[test]
fn normalization_collapses_runs_and_strips_one_leading_sentinel() {
    assert_eq!(to_valid_package_name(&String::from("  a  b  ")), "a-b");
    assert_eq!(to_valid_package_name(&String::from(".hidden")), "hidden");
    assert_eq!(to_valid_package_name(&String::from("_x")), "x");
    assert_eq!(to_valid_package_name(&String::from("My App")), "-y-pp");
}

//! Tests of settings-profile selection for debug and release builds.

use turf::settings::{ClassNameGeneration, Settings};

fn settings_with_template(template: &str) -> Settings {
    let mut settings = Settings::default();
    settings.class_names = ClassNameGeneration {
        template: String::from(template),
        excludes: vec![],
    };
    settings
}

fn class_names(template: &str) -> ClassNameGeneration {
    ClassNameGeneration {
        template: String::from(template),
        excludes: vec![],
    }
}

#[test]
fn settings_use_dev_settings_for_debug_build() {
    let dev_settings = settings_with_template("abc");
    let prod_settings = settings_with_template("def");

    let selected_settings =
        Settings::choose_settings(Some(dev_settings), Some(prod_settings), true);

    assert_eq!(selected_settings.class_names, class_names("abc"));
}

#[test]
fn settings_use_prod_settings_for_debug_build_when_no_dev_settings_where_given() {
    let prod_settings = settings_with_template("def");

    let selected_settings = Settings::choose_settings(None, Some(prod_settings), true);

    assert_eq!(selected_settings.class_names, class_names("def"));
}

#[test]
fn settings_use_prod_settings_for_release_build() {
    let dev_settings = settings_with_template("abc");
    let prod_settings = settings_with_template("def");

    let selected_settings =
        Settings::choose_settings(Some(dev_settings), Some(prod_settings), false);

    assert_eq!(selected_settings.class_names, class_names("def"));
}

#[test]
fn settings_do_not_use_dev_settings_for_release_build() {
    let dev_settings = settings_with_template("abc");

    let selected_settings = Settings::choose_settings(Some(dev_settings), None, false);

    assert_ne!(selected_settings.class_names, class_names("abc"));
}

#[test]
fn default_settings_match_documented_defaults() {
    let settings = Settings::default();
    assert_eq!(settings.debug, false);
    assert_eq!(settings.minify, true);
    assert!(settings.load_paths.is_empty());
    assert_eq!(settings.class_names, class_names("class-<id>"));
    assert!(settings.file_output.is_none());
}

//! Tests of the whole compilation pipeline: SCSS compilation, hashing,
//! transformation and the settings-profile selection, fed with the source
//! text directly.

use turf::manifest::{ManifestWithPackage, MetadataWithTurfSettings, PackageWithMetadata};
use turf::settings::{ClassNameGeneration, Settings};
use turf::{style_sheet, Error, StyleSheetKind};

const MYSTYLE_SCSS: &str = ".test {\n  color: #333;\n}\n";

fn mystyle_source() -> StyleSheetKind {
    StyleSheetKind::File {
        path: String::from("use_default_settings/src/mystyle.scss"),
        contents: String::from(MYSTYLE_SCSS),
    }
}

fn profile(template: &str, minify: bool) -> Settings {
    let mut settings = Settings::default();
    settings.minify = minify;
    settings.class_names = ClassNameGeneration {
        template: String::from(template),
        excludes: vec![],
    };
    settings
}

fn manifest_with_profiles() -> ManifestWithPackage {
    ManifestWithPackage {
        package: Some(PackageWithMetadata {
            metadata: Some(MetadataWithTurfSettings {
                turf: Some(profile("prod-<original_name>", true)),
                turf_dev: Some(profile("dev-<original_name>", false)),
            }),
        }),
    }
}

#[test]
fn use_default_settings() {
    let result = style_sheet(mystyle_source(), Settings::default()).unwrap();
    assert!(result.css.ends_with("{color:#333}"));
    assert!(result.css.starts_with(".class-"));
    assert!(result
        .css
        .starts_with(&format!(".{}", result.class_names.get("test").unwrap())));
}

#[test]
fn use_correct_settings() {
    let debug_settings = Settings::from_manifest(manifest_with_profiles(), true);
    let debug_result = style_sheet(mystyle_source(), debug_settings).unwrap();
    assert_eq!(debug_result.css, ".dev-test {\n  color: #333;\n}\n");

    let release_settings = Settings::from_manifest(manifest_with_profiles(), false);
    let release_result = style_sheet(mystyle_source(), release_settings).unwrap();
    assert_eq!(release_result.css, ".prod-test{color:#333}");
}

#[test]
fn empty_file_path_is_rejected() {
    let source = StyleSheetKind::File {
        path: String::new(),
        contents: String::from(MYSTYLE_SCSS),
    };
    let err = style_sheet(source, Settings::default()).unwrap_err();
    assert!(matches!(err, Error::NoInputFile));
}

#[test]
fn scss_compilation_error_is_reported() {
    let source = StyleSheetKind::Inline(String::from(".broken { color: $undefined-variable; }"));
    let err = style_sheet(source, Settings::default()).unwrap_err();
    assert!(matches!(err, Error::CssCompilation(_)));
}

#[test]
fn inline_scss_is_compiled() {
    let source = StyleSheetKind::Inline(String::from(
        "$some-color: #69e69d;\n.test {\n  color: $some-color;\n}\n",
    ));
    let mut settings = Settings::default();
    settings.minify = false;
    let result = style_sheet(source, settings).unwrap();
    assert!(result.css.starts_with(".class-"));
    assert!(result.css.ends_with(" {\n  color: #69e69d;\n}\n"));
    assert!(result
        .css
        .starts_with(&format!(".{}", result.class_names.get("test").unwrap())));
}

#[test]
fn nested_scss_selectors_are_rewritten() {
    let source = StyleSheetKind::Inline(String::from(
        ".outer {\n  color: red;\n  .inner {\n    color: blue;\n  }\n}\n",
    ));
    let result = style_sheet(source, Settings::default()).unwrap();
    let outer = result.class_names.get("outer").unwrap().clone();
    let inner = result.class_names.get("inner").unwrap().clone();
    assert_eq!(
        result.css,
        format!(".{o}{{color:red}}.{o} .{i}{{color:blue}}", o = outer, i = inner)
    );
}

#[test]
fn untracked_load_paths_are_handed_out_once() {
    let mut load_paths_seen = false;
    let discovered = vec![String::from("a.scss"), String::from("b.scss")];
    let first = turf::get_untracked_load_paths(&mut load_paths_seen, discovered.clone());
    assert_eq!(first, discovered);
    assert!(load_paths_seen);
    let second = turf::get_untracked_load_paths(&mut load_paths_seen, discovered);
    assert!(second.is_empty());
}

//! Tests of the selector transformer: default and custom templates, nested
//! selector forms, hash placeholders and exclusion patterns.

use turf::settings::{ClassNameGeneration, Settings};
use turf::transformer::{
    apply_template, transform_stylesheet, transform_stylesheet_with_seed, TransformationError,
};

fn settings_with_template(template: &str) -> Settings {
    let mut settings = Settings::default();
    settings.class_names = ClassNameGeneration {
        template: String::from(template),
        excludes: vec![],
    };
    settings
}

#[test]
fn transformer_basic_visitor() {
    let style = r#"
            .test {
                color: red;
            }
        "#;
    let transformation_result = transform_stylesheet(
        style,
        "SGVsbG8gdHVyZiB3b3JsZCBvZiBzdHlsZQ",
        Settings::default(),
    )
    .unwrap();

    assert!(transformation_result.0.starts_with(".class-"));
    assert!(transformation_result.0.ends_with("{color:red}"));
    assert!(transformation_result.0.starts_with(&format!(
        ".{}",
        transformation_result.1.get("test").unwrap()
    )));
}

#[test]
fn inner_selector_visitor() {
    let style = r#"
            .test:not(.withoutme) {
                color: red;
            }
        "#;
    let transformation_result = transform_stylesheet(
        style,
        "SGVsbG8gdHVyZiB3b3JsZCBvZiBzdHlsZQ",
        Settings::default(),
    )
    .unwrap();

    assert!(transformation_result.0.starts_with(".class-"));
    assert!(transformation_result.0.ends_with("{color:red}"));
    assert!(transformation_result.0.starts_with(&format!(
        ".{}:not(.class-",
        transformation_result.1.get("test").unwrap()
    )));
    assert!(transformation_result.0.starts_with(&format!(
        ".{}:not(.{})",
        transformation_result.1.get("test").unwrap(),
        transformation_result.1.get("withoutme").unwrap()
    )));
}

#[test]
fn transformer_custom_template() {
    let style = r#"
            .test {
                color: red;
            }
        "#;
    let settings =
        settings_with_template("fancy_style-<original_name>-<style_sheet_hash_short>-<id>");
    let transformation_result =
        transform_stylesheet(style, "SGVsbG8gdHVyZiB3b3JsZCBvZiBzdHlsZQ", settings).unwrap();

    assert!(transformation_result
        .0
        .starts_with(".fancy_style-test-SGVsbG8g-"));
    assert!(transformation_result.0.ends_with("{color:red}"));
    assert!(transformation_result.0.starts_with(&format!(
        ".{}",
        transformation_result.1.get("test").unwrap()
    )));
}

#[test]
fn transformer_custom_template_without_id() {
    let style = r#"
            .test {
                color: red;
            }
        "#;
    let settings = settings_with_template("fancy_style-<original_name>");
    let transformation_result =
        transform_stylesheet(style, "SGVsbG8gdHVyZiB3b3JsZCBvZiBzdHlsZQ", settings).unwrap();

    assert_eq!(transformation_result.0, ".fancy_style-test{color:red}");
    assert!(transformation_result.0.starts_with(&format!(
        ".{}",
        transformation_result.1.get("test").unwrap()
    )));
}

#[test]
fn custom_template_with_hashes() {
    let style = r#"
            .test {
                color: red;
            }
        "#;
    let settings = settings_with_template(
        "<style_sheet_hash>-<style_sheet_hash_short>-<name_hash>-<name_hash_short>-<original_name>",
    );
    let transformation_result =
        transform_stylesheet(style, "SGVsbG8gdHVyZiB3b3JsZCBvZiBzdHlsZQ", settings).unwrap();

    assert_eq!(
        transformation_result.0,
        ".SGVsbG8gdHVyZiB3b3JsZCBvZiBzdHlsZQ-SGVsbG8g-6c78e0e3bd51d358d01e758642b85fb8-6c78e-test{color:red}"
    );
    assert!(transformation_result.0.starts_with(&format!(
        ".{}",
        transformation_result.1.get("test").unwrap()
    )));
}

#[test]
fn idempotent_mapping_across_occurrences() {
    let style = ".alpha { color: red; }\n.beta { color: blue; }\n.alpha:not(.beta) { margin: 0; }";
    let (css, map) = transform_stylesheet(style, "HASHHASH", Settings::default()).unwrap();
    let alpha = map.get("alpha").unwrap();
    let beta = map.get("beta").unwrap();
    assert_eq!(map.len(), 2);
    assert_eq!(
        css,
        format!(
            ".{a}{{color:red}}.{b}{{color:blue}}.{a}:not(.{b}){{margin:0}}",
            a = alpha,
            b = beta
        )
    );
}

#[test]
fn excluded_class_names_keep_their_name() {
    let style = ".keep-me { color: red; }\n.rename-me { color: blue; }";
    let mut settings = Settings::default();
    settings.class_names = ClassNameGeneration {
        template: String::from("class-<id>"),
        excludes: vec![String::from("^keep")],
    };
    let (css, map) = transform_stylesheet(style, "HASHHASH", settings).unwrap();
    assert_eq!(map.get("keep-me").unwrap(), "keep-me");
    assert!(css.starts_with(".keep-me{color:red}.class-"));
    assert_ne!(map.get("rename-me").unwrap(), "rename-me");
    assert!(map.get("rename-me").unwrap().starts_with("class-"));
}

#[test]
fn hash_placeholders_used_verbatim() {
    let style = ".test { color: red; }";
    let settings = settings_with_template("<style_sheet_hash>");
    let (css, _) = transform_stylesheet(style, "0123456789abcdef", settings).unwrap();
    assert_eq!(css, ".0123456789abcdef{color:red}");

    let settings = settings_with_template("x<style_sheet_hash_short>");
    let (css, _) = transform_stylesheet(style, "0123456789abcdef", settings).unwrap();
    assert_eq!(css, ".x01234567{color:red}");
}

#[test]
fn deterministic_for_fixed_seed() {
    let style = ".one { color: red; }\n.two:is(.three) { margin: 0; }";
    let settings1 = Settings::default();
    let settings2 = Settings::default();
    let (css1, map1) =
        transform_stylesheet_with_seed(style, "HASHHASH", &settings1, 41).unwrap();
    let (css2, map2) =
        transform_stylesheet_with_seed(style, "HASHHASH", &settings2, 41).unwrap();
    assert_eq!(css1, css2);
    assert_eq!(map1.entries().len(), map2.entries().len());
    for (k, v) in map1.entries() {
        assert_eq!(map2.get(k).unwrap(), v);
    }
}

#[test]
fn generated_ids_start_with_identifier_character() {
    let style = ".test { color: red; }";
    for seed in 0..64u64 {
        let settings = Settings::default();
        let (_, map) = transform_stylesheet_with_seed(style, "HASHHASH", &settings, seed).unwrap();
        let generated = map.get("test").unwrap();
        let id = generated.strip_prefix("class-").unwrap();
        assert_eq!(id.len(), 6);
        let first = id.chars().next().unwrap();
        assert!(first.is_ascii_alphabetic() || first == '_');
        for c in id.chars() {
            assert!(c.is_ascii_alphanumeric() || c == '_' || c == '-');
        }
    }
}

#[test]
fn parse_error_is_reported() {
    let style = ".broken {";
    let err = transform_stylesheet(style, "HASHHASH", Settings::default()).unwrap_err();
    assert!(matches!(err, TransformationError::CssParse(_)));
}

#[test]
fn invalid_exclude_pattern_is_reported() {
    let style = ".test { color: red; }";
    let mut settings = Settings::default();
    settings.class_names = ClassNameGeneration {
        template: String::from("class-<id>"),
        excludes: vec![String::from("(")],
    };
    let err = transform_stylesheet(style, "HASHHASH", settings).unwrap_err();
    assert!(matches!(err, TransformationError::Initialization(_)));
}

#[test]
fn apply_template_substitutes_all_placeholders() {
    let out = apply_template(
        "pre-<original_name>-<id>-<style_sheet_hash>-<style_sheet_hash_short>-post",
        "test",
        "ABCDEF",
        "0123456789abcdef",
    );
    assert_eq!(out, "pre-test-ABCDEF-0123456789abcdef-01234567-post");
}

#[test]
fn apply_template_leaves_unknown_placeholders() {
    let out = apply_template("a-<unknown>-b", "test", "ABCDEF", "0123456789abcdef");
    assert_eq!(out, "a-<unknown>-b");
}

#[test]
fn apply_template_name_hash() {
    // The 128-bit name hash of "test", as the xxh3 algorithm defines it.
    let out = apply_template("<name_hash>|<name_hash_short>", "test", "ABCDEF", "HASHHASH");
    assert_eq!(out, "6c78e0e3bd51d358d01e758642b85fb8|6c78e");
}

#[test]
fn media_query_blocks_are_traversed() {
    let style = "@media screen {\n  .inner { color: red; }\n}\n";
    let settings = settings_with_template("m-<original_name>");
    let (css, map) = transform_stylesheet(style, "HASHHASH", settings).unwrap();
    assert_eq!(css, "@media screen{.m-inner{color:red}}");
    assert_eq!(map.get("inner").unwrap(), "m-inner");
}

#[test]
fn expanded_output_keeps_structure() {
    let style = ".test { color: red; }";
    let mut settings = Settings::default();
    settings.minify = false;
    settings.class_names = ClassNameGeneration {
        template: String::from("fancy_style-<original_name>"),
        excludes: vec![],
    };
    let (css, _) = transform_stylesheet(style, "HASHHASH", settings).unwrap();
    assert_eq!(css, ".fancy_style-test {\n  color: red;\n}\n");
}

#[test]
fn statements_and_comments_pass_through() {
    let style = "@import \"x.css\";\n/* note */\n.a { color: red; }";
    let settings = settings_with_template("g-<original_name>");
    let (css, _) = transform_stylesheet(style, "HASHHASH", settings).unwrap();
    assert_eq!(css, "@import \"x.css\";.g-a{color:red}");

    let mut settings = settings_with_template("g-<original_name>");
    settings.minify = false;
    let (css, _) = transform_stylesheet(style, "HASHHASH", settings).unwrap();
    assert_eq!(css, "@import \"x.css\";\n/* note */\n.g-a {\n  color: red;\n}\n");
}

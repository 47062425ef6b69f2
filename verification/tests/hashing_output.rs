//! Tests of the content hasher and of output-file naming.

use turf::file_output::separate_css_file_name;
use turf::hashing::hash_style_sheet;
use turf::StyleSheetKind;

fn inline(text: &str) -> StyleSheetKind {
    StyleSheetKind::Inline(String::from(text))
}

#[test]
fn hash_is_deterministic_and_fixed_format() {
    let h1 = hash_style_sheet(&inline("test"));
    let h2 = hash_style_sheet(&inline("test"));
    assert_eq!(h1, h2);
    // 64 hexadecimal characters re-encoded as unpadded base64: 86 characters.
    assert_eq!(h1.len(), 86);
    for c in h1.chars() {
        assert!(c.is_ascii_alphanumeric() || c == '-' || c == '_');
    }
}

#[test]
fn hash_depends_on_content_not_on_kind() {
    let file = StyleSheetKind::File {
        path: String::from("some/dir/style.scss"),
        contents: String::from("test"),
    };
    assert_eq!(hash_style_sheet(&file), hash_style_sheet(&inline("test")));
    assert_ne!(hash_style_sheet(&inline("a")), hash_style_sheet(&inline("b")));
}

#[test]
fn separate_file_names() {
    let file = StyleSheetKind::File {
        path: String::from("a/b/mystyle.scss"),
        contents: String::from("x"),
    };
    assert_eq!(separate_css_file_name(&file), "mystyle.css");

    let bare = StyleSheetKind::File {
        path: String::from("noext"),
        contents: String::from("x"),
    };
    assert_eq!(separate_css_file_name(&bare), "noext.css");

    let name = separate_css_file_name(&inline("test"));
    assert!(name.ends_with(".css"));
    let hex = name.strip_suffix(".css").unwrap();
    assert!(!hex.is_empty());
    for c in hex.chars() {
        assert!(c.is_ascii_hexdigit());
    }
    assert_eq!(name, separate_css_file_name(&inline("test")));
    assert_ne!(name, separate_css_file_name(&inline("other")));
}

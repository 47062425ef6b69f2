//! Build-time SCSS compilation with collision-resistant class-name rewriting.
//!
//! The crate compiles SCSS source to CSS, rewrites every class selector to a
//! generated identifier derived from a configurable name template, and hands
//! the caller the final CSS together with a map from original class names to
//! generated ones.  The selector rewriting — parsing the compiled CSS into a
//! selector-level model, replacing every class component through the
//! class-name generator, and printing it back, minified or expanded — is
//! specified exactly; hashing, random ids and exclusion matching go through
//! the outside crates they name.

use vstd::prelude::*;

pub mod class_map;
pub mod css;
pub mod css_compilation;
pub mod css_parse;
pub mod css_print;
pub mod css_scan;
pub mod file_output;
pub mod hashing;
pub mod manifest;
pub mod path;
pub mod rand;
pub mod settings;
pub mod text;
pub mod transformer;

use crate::class_map::ClassNameMap;
use crate::css::ItemView;
use crate::css_compilation::CssCompilationError;
use crate::css_parse::{ParseErrorKind, parse_items};
use crate::file_output::CssFileWriteError;
use crate::hashing::{HashingError, content_hash_of, hash_style_sheet, style_sheet_source_bytes};
use crate::path::PathResolutionError;
use crate::settings::{Settings, SettingsError};
use crate::transformer::{
    TransformationError,
    regex_patterns_ok,
    transform_result_spec,
    transform_stylesheet,
};

verus! {

/// Everything that can go wrong over one compilation call.
#[derive(Debug)]
pub enum Error {
    /// The external SCSS compiler rejected the source.
    CssCompilation(CssCompilationError),
    /// The style sheet source could not be read for hashing.
    Hashing(HashingError),
    /// The compiled CSS did not parse, or the pass could not start.
    CssTransformation(TransformationError),
    /// A file-backed source was named by an empty path.
    NoInputFile,
    /// A path could not be resolved.
    PathResolution(PathResolutionError),
    /// A CSS output file could not be written.
    CssFileWrite(CssFileWriteError),
    /// The settings could not be obtained.
    Settings(SettingsError),
}

/// A style sheet source: an on-disk SCSS file, with its path and the
/// contents read from it, or inline SCSS text.
#[derive(Debug)]
pub enum StyleSheetKind {
    File { path: String, contents: String },
    Inline(String),
}

/// The result of one compilation: the final CSS text, the class-name map,
/// and the source it came from.
#[derive(Debug)]
pub struct CompiledStyleSheet {
    pub css: String,
    pub class_names: ClassNameMap,
    pub original_style_sheet: StyleSheetKind,
}

/// Compiles one style sheet with the given settings: content hash, SCSS
/// compilation, selector transformation.  On success the CSS text and map
/// are exactly the transformation of some compiler output under some seed,
/// keyed by the source's content hash; each error names the stage that
/// failed: the SCSS compiler's rejection under `CssCompilation`, and under
/// `CssTransformation` either a genuine specification-parser rejection or an
/// initialization failure, where a rejected exclusion list always fails.
/// Writing configured file output is the caller's edge, under the names
/// that [`crate::file_output`] fixes.
pub fn style_sheet_with_compile_options(style_sheet_input: StyleSheetKind, settings: Settings)
    -> (r: Result<CompiledStyleSheet, Error>)
    ensures
        r is Ok ==> regex_patterns_ok(settings.class_names.excludes.deep_view()),
        !regex_patterns_ok(settings.class_names.excludes.deep_view()) ==> r is Err,
        match r {
            Ok(compiled) => {
                &&& compiled.class_names.wf()
                &&& compiled.original_style_sheet == style_sheet_input
                &&& exists|compiled_css: Seq<char>, seed: u64|
                    transform_result_spec(
                        compiled_css,
                        settings.class_names.template@,
                        settings.class_names.excludes.deep_view(),
                        content_hash_of(style_sheet_source_bytes(style_sheet_input)),
                        settings.minify,
                        seed,
                    ) == Ok::<(Seq<char>, Map<Seq<char>, Seq<char>>), (ParseErrorKind, int)>(
                        (compiled.css@, compiled.class_names@),
                    )
            },
            Err(e) => {
                &&& e is CssCompilation || e is CssTransformation
                &&& match e {
                    Error::CssTransformation(te) => match te {
                        TransformationError::Initialization(ie) => ie is RegexError
                            ==> !regex_patterns_ok(settings.class_names.excludes.deep_view()),
                        TransformationError::CssParse(pe) => exists|compiled_css: Seq<char>|
                            parse_items(compiled_css, 0, 0) == Err::<
                                Seq<ItemView>,
                                (ParseErrorKind, int),
                            >((pe.kind, pe.position as int)),
                    },
                    _ => true,
                }
            },
        },
{
    let ghost template_v = settings.class_names.template@;
    let ghost excludes_v = settings.class_names.excludes.deep_view();
    let ghost minify_v = settings.minify;
    let hash = hash_style_sheet(&style_sheet_input);
    let ghost hash_v = hash@;
    let css = match crate::css_compilation::compile_style_sheet(&style_sheet_input, &settings) {
        Ok(css) => css,
        Err(e) => {
            return Err(Error::CssCompilation(e));
        },
    };
    let (style_sheet_css, class_names) = match transform_stylesheet(
        css.as_str(),
        hash.as_str(),
        settings,
    ) {
        Ok(pair) => pair,
        Err(e) => {
            proof {
                if e is CssParse {
                    let pe = e->CssParse_0;
                    let tr0 = transform_result_spec(
                        css@,
                        template_v,
                        excludes_v,
                        hash_v,
                        minify_v,
                        0u64,
                    );
                    assert(tr0 == Err::<
                        (Seq<char>, Map<Seq<char>, Seq<char>>),
                        (ParseErrorKind, int),
                    >((pe.kind, pe.position as int)));
                    assert(parse_items(css@, 0, 0) == Err::<Seq<ItemView>, (ParseErrorKind, int)>(
                        (pe.kind, pe.position as int),
                    ));
                    assert(exists|compiled_css: Seq<char>|
                        parse_items(compiled_css, 0, 0) == Err::<Seq<ItemView>, (ParseErrorKind, int)>(
                            (pe.kind, pe.position as int),
                        )) by {
                        assert(parse_items(css@, 0, 0) == Err::<
                            Seq<ItemView>,
                            (ParseErrorKind, int),
                        >((pe.kind, pe.position as int)));
                    }
                }
            }
            return Err(Error::CssTransformation(e));
        },
    };
    Ok(
        CompiledStyleSheet {
            css: style_sheet_css,
            class_names,
            original_style_sheet: style_sheet_input,
        },
    )
}

/// Whether a source is file-backed with an empty path.
pub open spec fn has_empty_file_path(s: StyleSheetKind) -> bool {
    match s {
        StyleSheetKind::File { path, contents } => path@.len() == 0,
        StyleSheetKind::Inline(_) => false,
    }
}

/// Compiles one style sheet: rejects a file-backed source with an empty
/// path, and otherwise runs the compilation pipeline.  `NoInputFile` is
/// returned exactly for the empty path; the other errors name their stage
/// as [`style_sheet_with_compile_options`] fixes them.
pub fn style_sheet(source: StyleSheetKind, settings: Settings) -> (r: Result<
    CompiledStyleSheet,
    Error,
>)
    ensures
        has_empty_file_path(source) <==> (r is Err && r->Err_0 is NoInputFile),
        r is Ok ==> regex_patterns_ok(settings.class_names.excludes.deep_view()),
        !regex_patterns_ok(settings.class_names.excludes.deep_view()) ==> r is Err,
        match r {
            Ok(compiled) => {
                &&& compiled.class_names.wf()
                &&& compiled.original_style_sheet == source
                &&& exists|compiled_css: Seq<char>, seed: u64|
                    transform_result_spec(
                        compiled_css,
                        settings.class_names.template@,
                        settings.class_names.excludes.deep_view(),
                        content_hash_of(style_sheet_source_bytes(source)),
                        settings.minify,
                        seed,
                    ) == Ok::<(Seq<char>, Map<Seq<char>, Seq<char>>), (ParseErrorKind, int)>(
                        (compiled.css@, compiled.class_names@),
                    )
            },
            Err(e) => {
                &&& e is CssCompilation || e is CssTransformation || e is NoInputFile
                &&& match e {
                    Error::CssTransformation(te) => match te {
                        TransformationError::Initialization(ie) => ie is RegexError
                            ==> !regex_patterns_ok(settings.class_names.excludes.deep_view()),
                        TransformationError::CssParse(pe) => exists|compiled_css: Seq<char>|
                            parse_items(compiled_css, 0, 0) == Err::<
                                Seq<ItemView>,
                                (ParseErrorKind, int),
                            >((pe.kind, pe.position as int)),
                    },
                    _ => true,
                }
            },
        },
{
    let empty_file_path = match &source {
        StyleSheetKind::File { path, contents } => path.as_str().unicode_len() == 0,
        StyleSheetKind::Inline(_) => false,
    };
    if empty_file_path {
        return Err(Error::NoInputFile);
    }
    style_sheet_with_compile_options(source, settings)
}

/// Decides which load paths still need compile-time tracking: the first
/// call of a process hands back all the files discovered under the
/// configured load paths and marks them tracked; every later call hands
/// back none.  The caller owns the tracked flag (shared across its process)
/// and the directory walk that produced `discovered_files`.
pub fn get_untracked_load_paths(load_paths_tracked: &mut bool, discovered_files: Vec<String>)
    -> (r: Vec<String>)
    ensures
        *final(load_paths_tracked) == true,
        *old(load_paths_tracked) == true ==> r@.len() == 0,
        *old(load_paths_tracked) == false ==> r@ == discovered_files@,
{
    if *load_paths_tracked {
        Vec::new()
    } else {
        *load_paths_tracked = true;
        discovered_files
    }
}

} // verus!

//! SCSS compilation, delegated to the external SCSS compiler: inline text
//! and file contents both go through string compilation, with the source
//! file's directory added to the load paths so that relative imports
//! resolve.

use vstd::prelude::*;
use crate::StyleSheetKind;
use crate::settings::Settings;
use crate::text::{chars_of, string_of, copy_range};

verus! {

/// An SCSS compilation failure: the compiler's report, together with the
/// source path for file-backed sources.
#[derive(Debug)]
pub enum CssCompilationError {
    File { message: String, path: String },
    Inline { message: String },
}

/// Relies on `grass::from_string` with `grass::Options` set to expanded
/// output style and the given load paths; a failure's report is returned as
/// text.  The result depends on the SCSS text and on what the load paths
/// hold on disk, so nothing is promised of it.
#[verifier::external_body]
fn grass_compile(scss: &str, load_paths: &Vec<String>) -> (r: Result<String, String>)
{
    let options = grass::Options::default().style(grass::OutputStyle::Expanded).load_paths(
        load_paths,
    );
    grass::from_string(scss.to_string(), &options).map_err(|e| e.to_string())
}

/// The position after the last `/` before `i`, or zero when there is none.
pub open spec fn base_name_start(s: Seq<char>, i: int) -> int
    decreases i,
{
    if i <= 0 {
        0
    } else if s[i - 1] == '/' {
        i
    } else {
        base_name_start(s, i - 1)
    }
}

/// The directory part of a path: everything before the last `/`, empty when
/// there is no `/`.
pub open spec fn dir_of(p: Seq<char>) -> Seq<char> {
    let b = base_name_start(p, p.len() as int);
    if b > 0 {
        p.take(b - 1)
    } else {
        Seq::<char>::empty()
    }
}

proof fn lemma_base_name_start_bounds(s: Seq<char>, i: int)
    requires
        0 <= i <= s.len(),
    ensures
        0 <= base_name_start(s, i) <= i,
    decreases i,
{
    if i > 0 && s[i - 1] != '/' {
        lemma_base_name_start_bounds(s, i - 1);
    }
}

/// Finds where the base name of a path starts.
pub fn find_base_name_start(p: &Vec<char>) -> (r: usize)
    ensures
        r == base_name_start(p@, p@.len() as int),
        r <= p@.len(),
{
    proof {
        lemma_base_name_start_bounds(p@, p@.len() as int);
    }
    let mut i: usize = p.len();
    while i > 0
        invariant
            0 <= i <= p@.len(),
            base_name_start(p@, p@.len() as int) == base_name_start(p@, i as int),
        decreases i,
    {
        if p[i - 1] == '/' {
            return i;
        }
        i = i - 1;
    }
    0
}

/// The directory part of a path.
pub fn parent_dir(path: &str) -> (r: String)
    ensures
        r@ == dir_of(path@),
{
    let p = chars_of(path);
    let b = find_base_name_start(&p);
    if b > 0 {
        let d = copy_range(&p, 0, b - 1);
        proof {
            assert(p@.subrange(0, b - 1) =~= p@.take(b - 1));
        }
        string_of(&d)
    } else {
        string_of(&Vec::new())
    }
}

/// Compiles a style sheet source to CSS through the external SCSS
/// compiler.  File-backed sources are compiled from their contents, with
/// the file's directory put in front of the configured load paths; the
/// compiler decides success, and a failure carries its report, tagged with
/// the source path for file-backed sources.
pub fn compile_style_sheet(style_sheet: &StyleSheetKind, settings: &Settings) -> (r: Result<
    String,
    CssCompilationError,
>)
    ensures
        match r {
            Ok(_) => true,
            Err(e) => match e {
                CssCompilationError::File { message, path } => style_sheet is File && path@
                    == style_sheet->File_path@,
                CssCompilationError::Inline { message } => style_sheet is Inline,
            },
        },
{
    match style_sheet {
        StyleSheetKind::File { path, contents } => {
            let mut load_paths: Vec<String> = Vec::new();
            let dir = parent_dir(path.as_str());
            if dir.as_str().unicode_len() > 0 {
                load_paths.push(dir);
            }
            let mut k: usize = 0;
            while k < settings.load_paths.len()
                decreases settings.load_paths@.len() - k,
            {
                load_paths.push(settings.load_paths[k].clone());
                k = k + 1;
            }
            match grass_compile(contents.as_str(), &load_paths) {
                Ok(css) => Ok(css),
                Err(message) => Err(
                    CssCompilationError::File { message, path: path.clone() },
                ),
            }
        },
        StyleSheetKind::Inline(text) => {
            match grass_compile(text.as_str(), &settings.load_paths) {
                Ok(css) => Ok(css),
                Err(message) => Err(CssCompilationError::Inline { message }),
            }
        },
    }
}

} // verus!

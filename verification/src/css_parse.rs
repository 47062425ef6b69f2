//! The CSS parser: turns the text of a compiled style sheet into the flat
//! item model of [`crate::css`].  Every executable function is proved equal
//! to a specification parser over the character sequence.

use vstd::prelude::*;
use crate::css::{ComponentView, CssItem, Declaration, DeclarationView, ItemView, SelectorComponent, comps_view, decls_view, items_view, is_delim, is_ident_start, is_selector_pseudo, delim_char, ident_start, selector_pseudo};
use crate::css_scan::{space_run, ident_run, string_run, bracket_run, paren_run, skip_spaces, skip_ident, skip_string, skip_bracket, skip_paren, is_space_exec, lemma_string_run_bound, lemma_bracket_run_bound, lemma_paren_run_bound, lemma_ident_run_bound, comment_end, find_comment_end, colon_pos, find_colon};
use crate::text::{is_space, copy_range, trim, trim_spec};

verus! {

/// Why parsing failed.
#[derive(Clone, Copy, Debug, PartialEq, Eq, Structural)]
pub enum ParseErrorKind {
    /// A closing brace without an open block, or a missing closing brace.
    UnbalancedBrace,
    /// A comment that never closes.
    UnterminatedComment,
    /// A quoted string that never closes.
    UnterminatedString,
    /// A declaration block that never closes.
    UnterminatedBlock,
    /// An opening brace inside a declaration block.
    UnexpectedBrace,
    /// A declaration without a colon.
    MissingColon,
}

/// A parse failure, with the character position it was noticed at.
#[derive(Debug)]
pub struct CssParseError {
    pub kind: ParseErrorKind,
    pub position: usize,
}

/// End of the raw selector token starting at `i`: a quoted string, an
/// attribute matcher, a parenthesis group, a pseudo-class (whose argument
/// list is entered, rather than skipped, exactly for the recognized
/// selector-bearing forms), or a plain run of characters.
pub open spec fn raw_end(s: Seq<char>, i: int) -> int
    recommends
        0 <= i < s.len(),
{
    let c = s[i];
    if c == '"' || c == '\'' {
        i + 1 + string_run(s, i + 1, c, false)
    } else if c == '[' {
        i + 1 + bracket_run(s, i + 1)
    } else if c == '(' {
        i + 1 + paren_run(s, i + 1, 1)
    } else if c == ')' {
        i + 1
    } else if c == ':' {
        let istart: int = if i + 2 <= s.len() && s[i + 1] == ':' {
            i + 2
        } else {
            i + 1
        };
        let e1 = istart + ident_run(s, istart);
        if e1 < s.len() && s[e1] == '(' {
            if is_selector_pseudo(s.subrange(istart, e1)) {
                e1 + 1
            } else {
                e1 + 1 + paren_run(s, e1 + 1, 1)
            }
        } else {
            e1
        }
    } else {
        i + 1 + plain_run(s, i + 1)
    }
}

/// A character that continues a plain raw run.
pub open spec fn is_plain(c: char) -> bool {
    !is_space(c) && !is_delim(c) && c != '.' && c != ':' && c != '[' && c != '"' && c != '\''
        && c != '(' && c != ')'
}

/// Length of the plain-character run starting at `i`.
pub open spec fn plain_run(s: Seq<char>, i: int) -> nat
    decreases s.len() - i when i <= s.len()
{
    if 0 <= i < s.len() && is_plain(s[i]) {
        (1 + plain_run(s, i + 1)) as nat
    } else {
        0
    }
}

pub proof fn lemma_plain_run_bound(s: Seq<char>, i: int)
    requires
        0 <= i <= s.len(),
    ensures
        i + plain_run(s, i) <= s.len(),
    decreases s.len() - i,
{
    if i < s.len() && is_plain(s[i]) {
        lemma_plain_run_bound(s, i + 1);
    }
}

/// Executable form of [`is_plain`].
pub fn plain_char(c: char) -> (r: bool)
    ensures
        r == is_plain(c),
{
    !is_space_exec(c) && !delim_char(c) && c != '.' && c != ':' && c != '[' && c != '"' && c != '\''
        && c != '(' && c != ')'
}

/// Skips plain characters starting at `i`.
pub fn skip_plain(s: &Vec<char>, i: usize) -> (r: usize)
    requires
        i <= s.len(),
    ensures
        r == i + plain_run(s@, i as int),
        r <= s.len(),
{
    let mut j: usize = i;
    while j < s.len() && plain_char(s[j])
        invariant
            i <= j <= s.len(),
            i + plain_run(s@, i as int) == j + plain_run(s@, j as int),
        decreases s.len() - j,
    {
        j = j + 1;
    }
    j
}

pub proof fn lemma_raw_end_bound(s: Seq<char>, i: int)
    requires
        0 <= i < s.len(),
    ensures
        i < raw_end(s, i) <= s.len(),
{
    let c = s[i];
    if c == '"' || c == '\'' {
        lemma_string_run_bound(s, i + 1, c, false);
    } else if c == '[' {
        lemma_bracket_run_bound(s, i + 1);
    } else if c == '(' {
        lemma_paren_run_bound(s, i + 1, 1);
    } else if c == ')' {
    } else if c == ':' {
        let istart: int = if i + 2 <= s.len() && s[i + 1] == ':' {
            i + 2
        } else {
            i + 1
        };
        lemma_ident_run_bound(s, istart);
        let e1 = istart + ident_run(s, istart);
        if e1 < s.len() && s[e1] == '(' {
            if !is_selector_pseudo(s.subrange(istart, e1)) {
                lemma_paren_run_bound(s, e1 + 1, 1);
            }
        }
    } else {
        lemma_plain_run_bound(s, i + 1);
    }
}

/// Finds the end of the raw selector token starting at `i`.
pub fn raw_token_end(s: &Vec<char>, i: usize) -> (r: usize)
    requires
        i < s.len(),
    ensures
        r == raw_end(s@, i as int),
        i < r <= s.len(),
{
    proof {
        lemma_raw_end_bound(s@, i as int);
    }
    let c = s[i];
    if c == '"' || c == '\'' {
        skip_string(s, i + 1, c)
    } else if c == '[' {
        skip_bracket(s, i + 1)
    } else if c == '(' {
        skip_paren(s, i + 1, 1)
    } else if c == ')' {
        i + 1
    } else if c == ':' {
        let istart: usize = if i + 1 < s.len() && s[i + 1] == ':' {
            i + 2
        } else {
            i + 1
        };
        let e1 = skip_ident(s, istart);
        if e1 < s.len() && s[e1] == '(' {
            if selector_pseudo(s, istart, e1) {
                e1 + 1
            } else {
                skip_paren(s, e1 + 1, 1)
            }
        } else {
            e1
        }
    } else {
        skip_plain(s, i + 1)
    }
}

/// The selector components of the prelude text `p`, from position `i` on.
pub open spec fn components(p: Seq<char>, i: int) -> Seq<ComponentView>
    decreases p.len() - i when 0 <= i
{
    if !(0 <= i < p.len()) {
        Seq::<ComponentView>::empty()
    } else if is_space(p[i]) {
        let e = i + space_run(p, i);
        if e <= p.len() {
            seq![ComponentView::Space] + components(p, e)
        } else {
            seq![ComponentView::Space]
        }
    } else if is_delim(p[i]) {
        seq![ComponentView::Delim(p[i])] + components(p, i + 1)
    } else if p[i] == '.' && i + 1 < p.len() && is_ident_start(p[i + 1]) {
        let e = i + 1 + ident_run(p, i + 1);
        if e <= p.len() {
            seq![ComponentView::Class(p.subrange(i + 1, e))] + components(p, e)
        } else {
            seq![ComponentView::Class(p.subrange(i + 1, p.len() as int))]
        }
    } else {
        let e = raw_end(p, i);
        if i < e <= p.len() {
            seq![ComponentView::Raw(p.subrange(i, e))] + components(p, e)
        } else {
            seq![ComponentView::Raw(p.subrange(i, p.len() as int))]
        }
    }
}

/// Tokenizes a rule prelude into selector components.
pub fn parse_components(p: &Vec<char>) -> (r: Vec<SelectorComponent>)
    ensures
        comps_view(r@) == components(p@, 0),
{
    let mut out: Vec<SelectorComponent> = Vec::new();
    let mut i: usize = 0;
    proof {
        assert(comps_view(out@) + components(p@, 0) =~= components(p@, 0));
    }
    while i < p.len()
        invariant
            0 <= i <= p.len(),
            components(p@, 0) == comps_view(out@) + components(p@, i as int),
        decreases p.len() - i,
    {
        let ghost out0 = out@;
        let ghost i0 = i as int;
        let c = p[i];
        if is_space_exec(c) {
            let e = skip_spaces(p, i);
            out.push(SelectorComponent::Space);
            proof {
                assert(components(p@, i0) == seq![ComponentView::Space] + components(p@, e as int));
            }
            i = e;
        } else if delim_char(c) {
            out.push(SelectorComponent::Delim(c));
            proof {
                assert(components(p@, i0) == seq![ComponentView::Delim(c)] + components(
                    p@,
                    i0 + 1,
                ));
            }
            i = i + 1;
        } else if c == '.' && i + 1 < p.len() && ident_start(p[i + 1]) {
            let e = skip_ident(p, i + 1);
            let name = copy_range(p, i + 1, e);
            out.push(SelectorComponent::Class(name));
            proof {
                assert(components(p@, i0) == seq![
                    ComponentView::Class(p@.subrange(i0 + 1, e as int)),
                ] + components(p@, e as int));
            }
            i = e;
        } else {
            let e = raw_token_end(p, i);
            let text = copy_range(p, i, e);
            out.push(SelectorComponent::Raw(text));
            proof {
                assert(components(p@, i0) == seq![
                    ComponentView::Raw(p@.subrange(i0, e as int)),
                ] + components(p@, e as int));
            }
            i = e;
        }
        proof {
            let x = out@.last();
            assert(out@ =~= out0.push(x));
            assert(comps_view(out0.push(x)) =~= comps_view(out0).push(x@));
            assert(comps_view(out0) + (seq![x@] + components(p@, i as int)) =~= comps_view(out0)
                .push(x@) + components(p@, i as int));
        }
    }
    proof {
        assert(components(p@, i as int) =~= Seq::<ComponentView>::empty());
        assert(comps_view(out@) + Seq::<ComponentView>::empty() =~= comps_view(out@));
    }
    out
}


/// The scanner for a rule prelude: stops at the first `{`, `;` or `}`
/// outside quoted strings, or at the end of the text.
pub open spec fn scan_prelude(s: Seq<char>, i: int, instr: Option<char>, esc: bool) -> Result<
    int,
    (ParseErrorKind, int),
>
    decreases s.len() - i when i <= s.len()
{
    if !(0 <= i < s.len()) {
        match instr {
            Some(_) => Err((ParseErrorKind::UnterminatedString, s.len() as int)),
            None => Ok(s.len() as int),
        }
    } else {
        match instr {
            Some(q) => {
                if esc {
                    scan_prelude(s, i + 1, Some(q), false)
                } else if s[i] == '\\' {
                    scan_prelude(s, i + 1, Some(q), true)
                } else if s[i] == q {
                    scan_prelude(s, i + 1, None, false)
                } else {
                    scan_prelude(s, i + 1, Some(q), false)
                }
            },
            None => {
                if s[i] == '{' || s[i] == ';' || s[i] == '}' {
                    Ok(i)
                } else if s[i] == '"' || s[i] == '\'' {
                    scan_prelude(s, i + 1, Some(s[i]), false)
                } else {
                    scan_prelude(s, i + 1, None, false)
                }
            },
        }
    }
}

pub proof fn lemma_scan_prelude_ok(s: Seq<char>, i: int, instr: Option<char>, esc: bool)
    requires
        0 <= i <= s.len(),
    ensures
        match scan_prelude(s, i, instr, esc) {
            Ok(p) => i <= p <= s.len() && (p == s.len() || s[p] == '{' || s[p] == ';' || s[p]
                == '}'),
            Err(_) => true,
        },
    decreases s.len() - i,
{
    if 0 <= i < s.len() {
        lemma_scan_prelude_ok(s, i + 1, Some(' '), false);
        lemma_scan_prelude_ok(s, i + 1, Some('"'), false);
        lemma_scan_prelude_ok(s, i + 1, Some('\''), false);
        lemma_scan_prelude_ok(s, i + 1, None, false);
        match instr {
            Some(q) => {
                lemma_scan_prelude_ok(s, i + 1, Some(q), false);
                lemma_scan_prelude_ok(s, i + 1, Some(q), true);
            },
            None => {
            },
        }
    }
}

/// Scans a rule prelude from `i` on.
pub fn scan_prelude_at(s: &Vec<char>, i: usize) -> (r: Result<usize, CssParseError>)
    requires
        i <= s.len(),
    ensures
        match r {
            Ok(p) => scan_prelude(s@, i as int, None, false) == Ok::<int, (ParseErrorKind, int)>(
                p as int,
            ) && i <= p <= s.len() && (p == s.len() || s@[p as int] == '{' || s@[p as int] == ';'
                || s@[p as int] == '}'),
            Err(e) => scan_prelude(s@, i as int, None, false) == Err::<int, (ParseErrorKind, int)>(
                (e.kind, e.position as int),
            ),
        },
{
    proof {
        lemma_scan_prelude_ok(s@, i as int, None, false);
    }
    let mut j: usize = i;
    let mut instr: Option<char> = None;
    let mut esc: bool = false;
    loop
        invariant
            i <= j <= s.len(),
            scan_prelude(s@, i as int, None, false) == scan_prelude(s@, j as int, instr, esc),
        decreases s.len() - j,
    {
        let ghost gj = j as int;
        let ghost ginstr = instr;
        let ghost gesc = esc;
        if j >= s.len() {
            match instr {
                Some(_) => {
                    return Err(
                        CssParseError { kind: ParseErrorKind::UnterminatedString, position: s.len() },
                    );
                },
                None => {
                    proof {
                        lemma_scan_prelude_ok(s@, i as int, None, false);
                    }
                    return Ok(s.len());
                },
            }
        }
        let c = s[j];
        match instr {
            Some(q) => {
                if esc {
                    esc = false;
                } else if c == '\\' {
                    esc = true;
                } else if c == q {
                    instr = None;
                    esc = false;
                }
                j = j + 1;
            },
            None => {
                if c == '{' || c == ';' || c == '}' {
                    proof {
                        lemma_scan_prelude_ok(s@, i as int, None, false);
                    }
                    return Ok(j);
                } else if c == '"' || c == '\'' {
                    instr = Some(c);
                    esc = false;
                    j = j + 1;
                } else {
                    j = j + 1;
                }
            },
        }
        proof {
            reveal_with_fuel(scan_prelude, 2);
            assert(scan_prelude(s@, gj, ginstr, gesc) == scan_prelude(s@, j as int, instr, esc));
        }
    }
}

/// The scanner for one declaration: stops at the first `;` or `}` outside
/// quoted strings and parentheses; an opening brace there is an error, and
/// so is running off the end.
pub open spec fn scan_decl(s: Seq<char>, i: int, depth: int, instr: Option<char>, esc: bool)
    -> Result<int, (ParseErrorKind, int)>
    decreases s.len() - i when i <= s.len()
{
    if !(0 <= i < s.len()) {
        match instr {
            Some(_) => Err((ParseErrorKind::UnterminatedString, s.len() as int)),
            None => Err((ParseErrorKind::UnterminatedBlock, s.len() as int)),
        }
    } else {
        match instr {
            Some(q) => {
                if esc {
                    scan_decl(s, i + 1, depth, Some(q), false)
                } else if s[i] == '\\' {
                    scan_decl(s, i + 1, depth, Some(q), true)
                } else if s[i] == q {
                    scan_decl(s, i + 1, depth, None, false)
                } else {
                    scan_decl(s, i + 1, depth, Some(q), false)
                }
            },
            None => {
                if (s[i] == ';' || s[i] == '}') && depth <= 0 {
                    Ok(i)
                } else if s[i] == '{' && depth <= 0 {
                    Err((ParseErrorKind::UnexpectedBrace, i))
                } else if s[i] == '(' {
                    scan_decl(s, i + 1, depth + 1, None, false)
                } else if s[i] == ')' {
                    scan_decl(s, i + 1, if depth > 0 { depth - 1 } else { 0 }, None, false)
                } else if s[i] == '"' || s[i] == '\'' {
                    scan_decl(s, i + 1, depth, Some(s[i]), false)
                } else {
                    scan_decl(s, i + 1, depth, None, false)
                }
            },
        }
    }
}

pub proof fn lemma_scan_decl_ok(s: Seq<char>, i: int, depth: int, instr: Option<char>, esc: bool)
    requires
        0 <= i <= s.len(),
    ensures
        match scan_decl(s, i, depth, instr, esc) {
            Ok(p) => i <= p < s.len() && (s[p] == ';' || s[p] == '}'),
            Err(_) => true,
        },
    decreases s.len() - i,
{
    if 0 <= i < s.len() {
        lemma_scan_decl_ok(s, i + 1, depth, None, false);
        lemma_scan_decl_ok(s, i + 1, depth + 1, None, false);
        lemma_scan_decl_ok(s, i + 1, if depth > 0 { depth - 1 } else { 0 }, None, false);
        lemma_scan_decl_ok(s, i + 1, depth, Some('"'), false);
        lemma_scan_decl_ok(s, i + 1, depth, Some('\''), false);
        match instr {
            Some(q) => {
                lemma_scan_decl_ok(s, i + 1, depth, Some(q), false);
                lemma_scan_decl_ok(s, i + 1, depth, Some(q), true);
            },
            None => {
            },
        }
    }
}

/// Scans one declaration from `i` on.
pub fn scan_decl_at(s: &Vec<char>, i: usize) -> (r: Result<usize, CssParseError>)
    requires
        i <= s.len(),
    ensures
        match r {
            Ok(p) => scan_decl(s@, i as int, 0, None, false) == Ok::<int, (ParseErrorKind, int)>(
                p as int,
            ) && i <= p < s.len() && (s@[p as int] == ';' || s@[p as int] == '}'),
            Err(e) => scan_decl(s@, i as int, 0, None, false) == Err::<int, (ParseErrorKind, int)>(
                (e.kind, e.position as int),
            ),
        },
{
    proof {
        lemma_scan_decl_ok(s@, i as int, 0, None, false);
    }
    let mut j: usize = i;
    let mut depth: usize = 0;
    let mut instr: Option<char> = None;
    let mut esc: bool = false;
    loop
        invariant
            i <= j <= s.len(),
            depth <= j,
            scan_decl(s@, i as int, 0, None, false) == scan_decl(
                s@,
                j as int,
                depth as int,
                instr,
                esc,
            ),
        decreases s.len() - j,
    {
        if j >= s.len() {
            match instr {
                Some(_) => {
                    return Err(
                        CssParseError { kind: ParseErrorKind::UnterminatedString, position: s.len() },
                    );
                },
                None => {
                    return Err(
                        CssParseError { kind: ParseErrorKind::UnterminatedBlock, position: s.len() },
                    );
                },
            }
        }
        let c = s[j];
        match instr {
            Some(q) => {
                if esc {
                    esc = false;
                } else if c == '\\' {
                    esc = true;
                } else if c == q {
                    instr = None;
                    esc = false;
                }
                j = j + 1;
            },
            None => {
                if (c == ';' || c == '}') && depth == 0 {
                    proof {
                        lemma_scan_decl_ok(s@, i as int, 0, None, false);
                    }
                    return Ok(j);
                } else if c == '{' && depth == 0 {
                    return Err(
                        CssParseError { kind: ParseErrorKind::UnexpectedBrace, position: j },
                    );
                } else if c == '(' {
                    depth = depth + 1;
                    j = j + 1;
                } else if c == ')' {
                    if depth > 0 {
                        depth = depth - 1;
                    }
                    j = j + 1;
                } else if c == '"' || c == '\'' {
                    instr = Some(c);
                    esc = false;
                    j = j + 1;
                } else {
                    j = j + 1;
                }
            },
        }
        proof {
            reveal_with_fuel(scan_decl, 2);
        }
    }
}


/// Prepends already-parsed declarations to a parse result.
pub open spec fn prepend_decls(
    pre: Seq<DeclarationView>,
    r: Result<(Seq<DeclarationView>, int), (ParseErrorKind, int)>,
) -> Result<(Seq<DeclarationView>, int), (ParseErrorKind, int)> {
    match r {
        Ok((rest, end)) => Ok((pre + rest, end)),
        Err(e) => Err(e),
    }
}

/// Parses the inside of a declaration block starting at `i`, up to and over
/// its closing brace; yields the declarations and the position just after
/// the brace.
pub open spec fn parse_declarations(s: Seq<char>, i: int) -> Result<
    (Seq<DeclarationView>, int),
    (ParseErrorKind, int),
>
    decreases s.len() - i when 0 <= i
{
    let j = i + space_run(s, i);
    if j >= s.len() {
        Err((ParseErrorKind::UnterminatedBlock, s.len() as int))
    } else if s[j] == '}' {
        Ok((Seq::<DeclarationView>::empty(), j + 1))
    } else {
        match scan_decl(s, j, 0, None, false) {
            Err(e) => Err(e),
            Ok(p) => {
                if !(j <= p < s.len()) {
                    Err((ParseErrorKind::UnterminatedBlock, s.len() as int))
                } else if p == j {
                    parse_declarations(s, j + 1)
                } else {
                    let chunk = s.subrange(j, p);
                    match colon_pos(chunk, 0) {
                        None => Err((ParseErrorKind::MissingColon, j)),
                        Some(c) => {
                            let d = DeclarationView {
                                property: trim_spec(chunk.take(c)),
                                value: trim_spec(chunk.skip(c + 1)),
                            };
                            if s[p] == ';' {
                                prepend_decls(seq![d], parse_declarations(s, p + 1))
                            } else {
                                Ok((seq![d], p + 1))
                            }
                        },
                    }
                }
            },
        }
    }
}

pub proof fn lemma_parse_declarations_ok(s: Seq<char>, i: int)
    requires
        0 <= i,
    ensures
        match parse_declarations(s, i) {
            Ok((ds, end)) => i < end <= s.len(),
            Err(_) => true,
        },
    decreases s.len() - i,
{
    let j = i + space_run(s, i);
    if j < s.len() && s[j] != '}' {
        match scan_decl(s, j, 0, None, false) {
            Err(_) => {},
            Ok(p) => {
                if j <= p < s.len() {
                    if p == j {
                        lemma_parse_declarations_ok(s, j + 1);
                    } else if s[p] == ';' {
                        lemma_parse_declarations_ok(s, p + 1);
                    }
                }
            },
        }
    }
}

/// Parses a declaration block.
pub fn parse_declarations_at(s: &Vec<char>, start: usize) -> (r: Result<
    (Vec<Declaration>, usize),
    CssParseError,
>)
    requires
        start <= s.len(),
    ensures
        match r {
            Ok((ds, end)) => parse_declarations(s@, start as int) == Ok::<
                (Seq<DeclarationView>, int),
                (ParseErrorKind, int),
            >((decls_view(ds@), end as int)) && start < end <= s.len(),
            Err(e) => parse_declarations(s@, start as int) == Err::<
                (Seq<DeclarationView>, int),
                (ParseErrorKind, int),
            >((e.kind, e.position as int)),
        },
{
    proof {
        lemma_parse_declarations_ok(s@, start as int);
    }
    let mut out: Vec<Declaration> = Vec::new();
    let mut cur: usize = start;
    loop
        invariant
            start <= cur <= s.len(),
            prepend_decls(decls_view(out@), parse_declarations(s@, cur as int))
                == parse_declarations(s@, start as int),
        decreases s.len() - cur,
    {
        let ghost cur0 = cur as int;
        let ghost out0 = out@;
        let j = skip_spaces(s, cur);
        if j >= s.len() {
            return Err(CssParseError { kind: ParseErrorKind::UnterminatedBlock, position: s.len() });
        }
        if s[j] == '}' {
            proof {
                assert(decls_view(out@) + Seq::<DeclarationView>::empty() =~= decls_view(out@));
            }
            return Ok((out, j + 1));
        }
        match scan_decl_at(s, j) {
            Err(e) => {
                return Err(e);
            },
            Ok(p) => {
                if p == j {
                    cur = j + 1;
                } else {
                    let chunk = copy_range(s, j, p);
                    match find_colon(&chunk, 0) {
                        None => {
                            proof {
                                assert(chunk@ == s@.subrange(j as int, p as int));
                            }
                            return Err(
                                CssParseError { kind: ParseErrorKind::MissingColon, position: j },
                            );
                        },
                        Some(c) => {
                            let head = copy_range(&chunk, 0, c);
                            let prop = trim(&head);
                            let tail = copy_range(&chunk, c + 1, chunk.len());
                            let val = trim(&tail);
                            let d = Declaration { property: prop, value: val };
                            proof {
                                assert(chunk@.take(c as int) =~= chunk@.subrange(0, c as int));
                                assert(chunk@.skip(c + 1) =~= chunk@.subrange(
                                    c + 1,
                                    chunk@.len() as int,
                                ));
                            }
                            if s[p] == ';' {
                                let ghost dv = d@;
                                out.push(d);
                                proof {
                                    assert(parse_declarations(s@, cur0) == prepend_decls(
                                        seq![dv],
                                        parse_declarations(s@, p + 1),
                                    ));
                                    assert(decls_view(out@) =~= decls_view(out0).push(dv));
                                    lemma_prepend_decls_assoc(
                                        decls_view(out0),
                                        dv,
                                        parse_declarations(s@, p + 1),
                                    );
                                }
                                cur = p + 1;
                            } else {
                                let ghost dv = d@;
                                out.push(d);
                                proof {
                                    assert(parse_declarations(s@, cur0) == Ok::<
                                        (Seq<DeclarationView>, int),
                                        (ParseErrorKind, int),
                                    >((seq![dv], p + 1)));
                                    assert(decls_view(out@) =~= decls_view(out0) + seq![dv]);
                                }
                                return Ok((out, p + 1));
                            }
                        },
                    }
                }
            },
        }
    }
}

proof fn lemma_prepend_decls_assoc(
    pre: Seq<DeclarationView>,
    x: DeclarationView,
    r: Result<(Seq<DeclarationView>, int), (ParseErrorKind, int)>,
)
    ensures
        prepend_decls(pre, prepend_decls(seq![x], r)) == prepend_decls(pre.push(x), r),
{
    match r {
        Ok((rest, end)) => {
            assert(pre + (seq![x] + rest) =~= pre.push(x) + rest);
        },
        Err(_) => {},
    }
}


/// Prepends already-parsed items to a parse result.
pub open spec fn prepend_items(
    pre: Seq<ItemView>,
    r: Result<Seq<ItemView>, (ParseErrorKind, int)>,
) -> Result<Seq<ItemView>, (ParseErrorKind, int)> {
    match r {
        Ok(rest) => Ok(pre + rest),
        Err(e) => Err(e),
    }
}

/// Parses the items of a style sheet from position `i` on, inside `depth`
/// open at-rule blocks.
pub open spec fn parse_items(s: Seq<char>, i: int, depth: int) -> Result<
    Seq<ItemView>,
    (ParseErrorKind, int),
>
    decreases s.len() - i when 0 <= i
{
    let j = i + space_run(s, i);
    if j >= s.len() {
        if depth == 0 {
            Ok(Seq::<ItemView>::empty())
        } else {
            Err((ParseErrorKind::UnbalancedBrace, s.len() as int))
        }
    } else if s[j] == '}' {
        if depth > 0 {
            prepend_items(seq![ItemView::AtClose], parse_items(s, j + 1, depth - 1))
        } else {
            Err((ParseErrorKind::UnbalancedBrace, j))
        }
    } else if s[j] == '/' && j + 1 < s.len() && s[j + 1] == '*' {
        match comment_end(s, j + 2) {
            None => Err((ParseErrorKind::UnterminatedComment, j)),
            Some(e) => {
                if j < e <= s.len() {
                    prepend_items(
                        seq![ItemView::Comment(s.subrange(j, e))],
                        parse_items(s, e, depth),
                    )
                } else {
                    Err((ParseErrorKind::UnterminatedComment, j))
                }
            },
        }
    } else {
        match scan_prelude(s, j, None, false) {
            Err(e) => Err(e),
            Ok(p) => {
                if !(j <= p <= s.len()) {
                    Err((ParseErrorKind::UnbalancedBrace, j))
                } else if p >= s.len() {
                    prepend_items(
                        seq![ItemView::Statement(trim_spec(s.subrange(j, p)))],
                        parse_items(s, s.len() as int, depth),
                    )
                } else if s[p] == ';' {
                    if p == j {
                        parse_items(s, p + 1, depth)
                    } else {
                        prepend_items(
                            seq![ItemView::Statement(trim_spec(s.subrange(j, p)))],
                            parse_items(s, p + 1, depth),
                        )
                    }
                } else if s[p] == '}' {
                    if p > i {
                        prepend_items(
                            seq![ItemView::Statement(trim_spec(s.subrange(j, p)))],
                            parse_items(s, p, depth),
                        )
                    } else {
                        Err((ParseErrorKind::UnbalancedBrace, j))
                    }
                } else {
                    if s[j] == '@' {
                        prepend_items(
                            seq![ItemView::AtOpen(trim_spec(s.subrange(j, p)))],
                            parse_items(s, p + 1, depth + 1),
                        )
                    } else {
                        let sel = components(trim_spec(s.subrange(j, p)), 0);
                        match parse_declarations(s, p + 1) {
                            Err(e) => Err(e),
                            Ok((decls, end)) => {
                                if i < end <= s.len() {
                                    prepend_items(
                                        seq![ItemView::Rule { selector: sel, declarations: decls }],
                                        parse_items(s, end, depth),
                                    )
                                } else {
                                    Err((ParseErrorKind::UnbalancedBrace, j))
                                }
                            },
                        }
                    }
                }
            },
        }
    }
}

proof fn lemma_items_step(
    out0: Seq<CssItem>,
    x: CssItem,
    s: Seq<char>,
    i0: int,
    d0: int,
    i1: int,
    d1: int,
)
    requires
        parse_items(s, i0, d0) == prepend_items(seq![x@], parse_items(s, i1, d1)),
        prepend_items(items_view(out0), parse_items(s, i0, d0)) == parse_items(s, 0, 0),
    ensures
        prepend_items(items_view(out0.push(x)), parse_items(s, i1, d1)) == parse_items(s, 0, 0),
{
    assert(items_view(out0.push(x)) =~= items_view(out0).push(x@));
    match parse_items(s, i1, d1) {
        Ok(rest) => {
            assert(items_view(out0) + (seq![x@] + rest) =~= items_view(out0).push(x@) + rest);
        },
        Err(_) => {},
    }
}

/// Parses a style sheet into its items.  The result is exactly what the
/// specification parser [`parse_items`] yields on the text.
pub fn parse_css(css: &Vec<char>) -> (r: Result<Vec<CssItem>, CssParseError>)
    ensures
        match r {
            Ok(items) => parse_items(css@, 0, 0) == Ok::<Seq<ItemView>, (ParseErrorKind, int)>(
                items_view(items@),
            ),
            Err(e) => parse_items(css@, 0, 0) == Err::<Seq<ItemView>, (ParseErrorKind, int)>(
                (e.kind, e.position as int),
            ),
        },
{
    let mut out: Vec<CssItem> = Vec::new();
    let mut i: usize = 0;
    let mut depth: usize = 0;
    proof {
        assert(items_view(out@) + parse_items(css@, 0, 0)->Ok_0 =~= parse_items(css@, 0, 0)->Ok_0);
    }
    loop
        invariant
            0 <= i <= css.len(),
            depth <= i,
            prepend_items(items_view(out@), parse_items(css@, i as int, depth as int))
                == parse_items(css@, 0, 0),
        decreases css.len() - i,
    {
        let ghost i0 = i as int;
        let ghost d0 = depth as int;
        let ghost out0 = out@;
        let j = skip_spaces(css, i);
        if j >= css.len() {
            if depth == 0 {
                proof {
                    assert(items_view(out@) + Seq::<ItemView>::empty() =~= items_view(out@));
                }
                return Ok(out);
            }
            return Err(
                CssParseError { kind: ParseErrorKind::UnbalancedBrace, position: css.len() },
            );
        }
        let c = css[j];
        if c == '}' {
            if depth > 0 {
                out.push(CssItem::AtClose);
                proof {
                    lemma_items_step(out0, CssItem::AtClose, css@, i0, d0, j + 1, d0 - 1);
                }
                depth = depth - 1;
                i = j + 1;
            } else {
                return Err(CssParseError { kind: ParseErrorKind::UnbalancedBrace, position: j });
            }
        } else if c == '/' && j + 1 < css.len() && css[j + 1] == '*' {
            match find_comment_end(css, j + 2) {
                None => {
                    return Err(
                        CssParseError { kind: ParseErrorKind::UnterminatedComment, position: j },
                    );
                },
                Some(e) => {
                    let text = copy_range(css, j, e);
                    let item = CssItem::Comment(text);
                    out.push(item);
                    proof {
                        lemma_items_step(out0, out@.last(), css@, i0, d0, e as int, d0);
                    }
                    i = e;
                },
            }
        } else {
            match scan_prelude_at(css, j) {
                Err(e) => {
                    return Err(e);
                },
                Ok(p) => {
                    if p >= css.len() {
                        let chunk = copy_range(css, j, p);
                        let text = trim(&chunk);
                        let item = CssItem::Statement(text);
                        out.push(item);
                        proof {
                            lemma_items_step(
                                out0,
                                out@.last(),
                                css@,
                                i0,
                                d0,
                                css@.len() as int,
                                d0,
                            );
                        }
                        i = css.len();
                    } else if css[p] == ';' {
                        if p == j {
                            i = p + 1;
                        } else {
                            let chunk = copy_range(css, j, p);
                            let text = trim(&chunk);
                            let item = CssItem::Statement(text);
                            out.push(item);
                            proof {
                                lemma_items_step(
                                    out0,
                                    out@.last(),
                                    css@,
                                    i0,
                                    d0,
                                    p + 1,
                                    d0,
                                );
                            }
                            i = p + 1;
                        }
                    } else if css[p] == '}' {
                        let chunk = copy_range(css, j, p);
                        let text = trim(&chunk);
                        let item = CssItem::Statement(text);
                        out.push(item);
                        proof {
                            lemma_items_step(
                                out0,
                                out@.last(),
                                css@,
                                i0,
                                d0,
                                p as int,
                                d0,
                            );
                        }
                        i = p;
                    } else {
                        if c == '@' {
                            let chunk = copy_range(css, j, p);
                            let text = trim(&chunk);
                            let item = CssItem::AtOpen(text);
                            out.push(item);
                            proof {
                                lemma_items_step(
                                    out0,
                                    out@.last(),
                                    css@,
                                    i0,
                                    d0,
                                    p + 1,
                                    d0 + 1,
                                );
                            }
                            depth = depth + 1;
                            i = p + 1;
                        } else {
                            let chunk = copy_range(css, j, p);
                            let prelude = trim(&chunk);
                            let sel = parse_components(&prelude);
                            match parse_declarations_at(css, p + 1) {
                                Err(e) => {
                                    return Err(e);
                                },
                                Ok((decls, end)) => {
                                    let item = CssItem::Rule { selector: sel, declarations: decls };
                                    out.push(item);
                                    proof {
                                        lemma_items_step(
                                            out0,
                                            out@.last(),
                                            css@,
                                            i0,
                                            d0,
                                            end as int,
                                            d0,
                                        );
                                    }
                                    i = end;
                                },
                            }
                        }
                    }
                },
            }
        }
    }
}


/// Law (nested-selector coverage, negation instance): the tokenizer enters
/// the negation's argument list.  The selector `.test:not(.withoutme)`
/// tokenizes to a class, the verbatim `:not(` head, a second class — the one
/// inside the negation — and the closing parenthesis, so the visitor reaches
/// both class components.
pub proof fn lemma_negation_argument_is_entered()
    ensures
        components(".test:not(.withoutme)"@, 0) =~= seq![
            ComponentView::Class("test"@),
            ComponentView::Raw(":not("@),
            ComponentView::Class("withoutme"@),
            ComponentView::Raw(")"@),
        ],
{
    reveal_strlit(".test:not(.withoutme)");
    reveal_strlit("test");
    reveal_strlit("withoutme");
    reveal_strlit("not");
    reveal_strlit(":not(");
    reveal_strlit(")");
    let p = ".test:not(.withoutme)"@;
    assert(p.len() == 21);
    assert(ident_run(p, 5) == 0);
    assert(ident_run(p, 4) == 1);
    assert(ident_run(p, 3) == 2);
    assert(ident_run(p, 2) == 3);
    assert(ident_run(p, 1) == 4);
    assert(p.subrange(1, 5) =~= "test"@);
    assert(ident_run(p, 9) == 0);
    assert(ident_run(p, 8) == 1);
    assert(ident_run(p, 7) == 2);
    assert(ident_run(p, 6) == 3);
    assert(p.subrange(6, 9) =~= "not"@);
    assert(is_selector_pseudo(p.subrange(6, 9)));
    assert(raw_end(p, 5) == 10);
    assert(p.subrange(5, 10) =~= ":not("@);
    assert(ident_run(p, 20) == 0);
    assert(ident_run(p, 19) == 1);
    assert(ident_run(p, 18) == 2);
    assert(ident_run(p, 17) == 3);
    assert(ident_run(p, 16) == 4);
    assert(ident_run(p, 15) == 5);
    assert(ident_run(p, 14) == 6);
    assert(ident_run(p, 13) == 7);
    assert(ident_run(p, 12) == 8);
    assert(ident_run(p, 11) == 9);
    assert(p.subrange(11, 20) =~= "withoutme"@);
    assert(raw_end(p, 20) == 21);
    assert(p.subrange(20, 21) =~= ")"@);
    assert(components(p, 21) =~= Seq::<ComponentView>::empty());
    assert(components(p, 20) =~= seq![ComponentView::Raw(")"@)]);
    assert(components(p, 10) =~= seq![ComponentView::Class("withoutme"@), ComponentView::Raw(")"@)]);
    assert(components(p, 5) =~= seq![
        ComponentView::Raw(":not("@),
        ComponentView::Class("withoutme"@),
        ComponentView::Raw(")"@),
    ]);
    assert(components(p, 0) =~= seq![
        ComponentView::Class("test"@),
        ComponentView::Raw(":not("@),
        ComponentView::Class("withoutme"@),
        ComponentView::Raw(")"@),
    ]);
}

} // verus!

//! Low-level scanners over character sequences: white-space runs, quoted
//! strings, bracket and parenthesis groups, identifiers and comments.  Each
//! scanner exists twice, as a specification function stepping one character
//! at a time and as an executable loop proved equal to it.

use vstd::prelude::*;
use crate::text::is_space;
use crate::css::is_ident_char;

verus! {

/// Length of the white-space run starting at `i`.
pub open spec fn space_run(s: Seq<char>, i: int) -> nat
    decreases s.len() - i when i <= s.len()
{
    if 0 <= i < s.len() && is_space(s[i]) {
        (1 + space_run(s, i + 1)) as nat
    } else {
        0
    }
}

pub proof fn lemma_space_run_bound(s: Seq<char>, i: int)
    requires
        0 <= i <= s.len(),
    ensures
        i + space_run(s, i) <= s.len(),
    decreases s.len() - i,
{
    if i < s.len() && is_space(s[i]) {
        lemma_space_run_bound(s, i + 1);
    }
}

/// Skips white space starting at `i`.
pub fn skip_spaces(s: &Vec<char>, i: usize) -> (r: usize)
    requires
        i <= s.len(),
    ensures
        r == i + space_run(s@, i as int),
        r <= s.len(),
{
    let mut j: usize = i;
    while j < s.len() && is_space_exec(s[j])
        invariant
            i <= j <= s.len(),
            i + space_run(s@, i as int) == j + space_run(s@, j as int),
        decreases s.len() - j,
    {
        j = j + 1;
    }
    j
}

/// Executable white-space test (mirrors [`crate::text::is_space`]).
pub fn is_space_exec(c: char) -> (r: bool)
    ensures
        r == is_space(c),
{
    c == ' ' || c == '\n' || c == '\t' || c == '\r'
}

/// Length of the identifier-character run starting at `i`.
pub open spec fn ident_run(s: Seq<char>, i: int) -> nat
    decreases s.len() - i when i <= s.len()
{
    if 0 <= i < s.len() && is_ident_char(s[i]) {
        (1 + ident_run(s, i + 1)) as nat
    } else {
        0
    }
}

pub proof fn lemma_ident_run_bound(s: Seq<char>, i: int)
    requires
        0 <= i <= s.len(),
    ensures
        i + ident_run(s, i) <= s.len(),
    decreases s.len() - i,
{
    if i < s.len() && is_ident_char(s[i]) {
        lemma_ident_run_bound(s, i + 1);
    }
}

/// Skips identifier characters starting at `i`.
pub fn skip_ident(s: &Vec<char>, i: usize) -> (r: usize)
    requires
        i <= s.len(),
    ensures
        r == i + ident_run(s@, i as int),
        r <= s.len(),
{
    let mut j: usize = i;
    while j < s.len() && crate::css::ident_char(s[j])
        invariant
            i <= j <= s.len(),
            i + ident_run(s@, i as int) == j + ident_run(s@, j as int),
        decreases s.len() - j,
    {
        j = j + 1;
    }
    j
}

/// Number of characters consumed from `i` until just after the quote `q`
/// closes the string, honouring backslash escapes; to the end of the
/// sequence when the string never closes.  At entry the opening quote has
/// already been consumed, and `esc` says whether the previous character was
/// an unconsumed backslash.
pub open spec fn string_run(s: Seq<char>, i: int, q: char, esc: bool) -> nat
    decreases s.len() - i when i <= s.len()
{
    if !(0 <= i < s.len()) {
        0
    } else if esc {
        (1 + string_run(s, i + 1, q, false)) as nat
    } else if s[i] == '\\' {
        (1 + string_run(s, i + 1, q, true)) as nat
    } else if s[i] == q {
        1
    } else {
        (1 + string_run(s, i + 1, q, false)) as nat
    }
}

pub proof fn lemma_string_run_bound(s: Seq<char>, i: int, q: char, esc: bool)
    requires
        0 <= i <= s.len(),
    ensures
        i + string_run(s, i, q, esc) <= s.len(),
    decreases s.len() - i,
{
    if i < s.len() {
        lemma_string_run_bound(s, i + 1, q, false);
        lemma_string_run_bound(s, i + 1, q, true);
    }
}

/// Skips to just after the closing quote, or to the end.
pub fn skip_string(s: &Vec<char>, i: usize, q: char) -> (r: usize)
    requires
        i <= s.len(),
    ensures
        r == i + string_run(s@, i as int, q, false),
        r <= s.len(),
{
    let mut j: usize = i;
    let mut esc: bool = false;
    loop
        invariant
            i <= j <= s.len(),
            i + string_run(s@, i as int, q, false) == j + string_run(s@, j as int, q, esc),
        decreases s.len() - j,
    {
        if j >= s.len() {
            return j;
        }
        if esc {
            esc = false;
            j = j + 1;
        } else if s[j] == '\\' {
            esc = true;
            j = j + 1;
        } else if s[j] == q {
            return j + 1;
        } else {
            j = j + 1;
        }
    }
}

/// Number of characters consumed from `i` until just after the bracket
/// group closes with `]`, skipping quoted strings; to the end when it never
/// closes.  The opening `[` has already been consumed.
pub open spec fn bracket_run(s: Seq<char>, i: int) -> nat
    decreases s.len() - i when i <= s.len()
{
    if !(0 <= i < s.len()) {
        0
    } else if s[i] == ']' {
        1
    } else if s[i] == '"' || s[i] == '\'' {
        let e = 1 + string_run(s, i + 1, s[i], false);
        if i + e <= s.len() {
            (e + bracket_run(s, i + e)) as nat
        } else {
            e as nat
        }
    } else {
        (1 + bracket_run(s, i + 1)) as nat
    }
}

pub proof fn lemma_bracket_run_bound(s: Seq<char>, i: int)
    requires
        0 <= i <= s.len(),
    ensures
        i + bracket_run(s, i) <= s.len(),
    decreases s.len() - i,
{
    if 0 <= i < s.len() {
        if s[i] == ']' {
        } else if s[i] == '"' || s[i] == '\'' {
            lemma_string_run_bound(s, i + 1, s[i], false);
            let e = 1 + string_run(s, i + 1, s[i], false);
            if i + e <= s.len() {
                if e > 0 {
                    lemma_bracket_run_bound(s, i + e);
                }
            }
        } else {
            lemma_bracket_run_bound(s, i + 1);
        }
    }
}

/// Skips to just after the closing `]`, or to the end.
pub fn skip_bracket(s: &Vec<char>, i: usize) -> (r: usize)
    requires
        i <= s.len(),
    ensures
        r == i + bracket_run(s@, i as int),
        r <= s.len(),
{
    let mut j: usize = i;
    loop
        invariant
            i <= j <= s.len(),
            i + bracket_run(s@, i as int) == j + bracket_run(s@, j as int),
        decreases s.len() - j,
    {
        if j >= s.len() {
            return j;
        }
        let c = s[j];
        if c == ']' {
            return j + 1;
        } else if c == '"' || c == '\'' {
            proof {
                lemma_string_run_bound(s@, j + 1, c, false);
            }
            let e = skip_string(s, j + 1, c);
            proof {
                assert(bracket_run(s@, j as int) == (1 + string_run(s@, j + 1, c, false))
                    + bracket_run(s@, e as int));
            }
            j = e;
        } else {
            j = j + 1;
        }
    }
}

/// Number of characters consumed from `i` until the parenthesis depth
/// `depth` falls to zero, skipping quoted strings; to the end when the
/// group never closes.
pub open spec fn paren_run(s: Seq<char>, i: int, depth: int) -> nat
    decreases s.len() - i when i <= s.len()
{
    if !(0 <= i < s.len()) {
        0
    } else if s[i] == '(' {
        (1 + paren_run(s, i + 1, depth + 1)) as nat
    } else if s[i] == ')' {
        if depth <= 1 {
            1
        } else {
            (1 + paren_run(s, i + 1, depth - 1)) as nat
        }
    } else if s[i] == '"' || s[i] == '\'' {
        let e = 1 + string_run(s, i + 1, s[i], false);
        if i + e <= s.len() {
            (e + paren_run(s, i + e, depth)) as nat
        } else {
            e as nat
        }
    } else {
        (1 + paren_run(s, i + 1, depth)) as nat
    }
}

pub proof fn lemma_paren_run_bound(s: Seq<char>, i: int, depth: int)
    requires
        0 <= i <= s.len(),
    ensures
        i + paren_run(s, i, depth) <= s.len(),
    decreases s.len() - i,
{
    if 0 <= i < s.len() {
        if s[i] == '(' {
            lemma_paren_run_bound(s, i + 1, depth + 1);
        } else if s[i] == ')' {
            if depth > 1 {
                lemma_paren_run_bound(s, i + 1, depth - 1);
            }
        } else if s[i] == '"' || s[i] == '\'' {
            lemma_string_run_bound(s, i + 1, s[i], false);
            let e = 1 + string_run(s, i + 1, s[i], false);
            if i + e <= s.len() && e > 0 {
                lemma_paren_run_bound(s, i + e, depth);
            }
        } else {
            lemma_paren_run_bound(s, i + 1, depth);
        }
    }
}

/// Skips to just after the parenthesis group closes, or to the end.
/// Overflow of the tracked depth cannot occur: it is bounded by the
/// remaining length.
pub fn skip_paren(s: &Vec<char>, i: usize, depth: usize) -> (r: usize)
    requires
        i <= s.len(),
        depth >= 1,
        depth <= i,
    ensures
        r == i + paren_run(s@, i as int, depth as int),
        r <= s.len(),
{
    let mut j: usize = i;
    let mut d: usize = depth;
    loop
        invariant
            i <= j <= s.len(),
            1 <= d <= j,
            i + paren_run(s@, i as int, depth as int) == j + paren_run(s@, j as int, d as int),
        decreases s.len() - j,
    {
        if j >= s.len() {
            return j;
        }
        let c = s[j];
        if c == '(' {
            d = d + 1;
            j = j + 1;
        } else if c == ')' {
            if d <= 1 {
                return j + 1;
            }
            d = d - 1;
            j = j + 1;
        } else if c == '"' || c == '\'' {
            proof {
                lemma_string_run_bound(s@, j + 1, c, false);
            }
            let e = skip_string(s, j + 1, c);
            proof {
                assert(paren_run(s@, j as int, d as int) == (1 + string_run(s@, j + 1, c, false))
                    + paren_run(s@, e as int, d as int));
            }
            j = e;
        } else {
            j = j + 1;
        }
    }
}

/// Position just after the closing `*/` of a comment whose body starts at
/// `i`, or `None` when the comment never closes.
pub open spec fn comment_end(s: Seq<char>, i: int) -> Option<int>
    decreases s.len() - i when i <= s.len()
{
    if i + 2 > s.len() {
        None
    } else if s[i] == '*' && s[i + 1] == '/' {
        Some(i + 2)
    } else {
        comment_end(s, i + 1)
    }
}

pub proof fn lemma_comment_end_bound(s: Seq<char>, i: int)
    requires
        0 <= i <= s.len(),
    ensures
        match comment_end(s, i) {
            Some(e) => i < e <= s.len(),
            None => true,
        },
    decreases s.len() - i,
{
    if i + 2 <= s.len() && !(s[i] == '*' && s[i + 1] == '/') {
        lemma_comment_end_bound(s, i + 1);
    }
}

/// Finds the end of the comment body starting at `i`.
pub fn find_comment_end(s: &Vec<char>, i: usize) -> (r: Option<usize>)
    requires
        i <= s.len(),
    ensures
        match r {
            Some(e) => comment_end(s@, i as int) == Some(e as int) && i < e <= s.len(),
            None => comment_end(s@, i as int) is None,
        },
{
    proof {
        lemma_comment_end_bound(s@, i as int);
    }
    let mut j: usize = i;
    loop
        invariant
            i <= j <= s.len(),
            comment_end(s@, i as int) == comment_end(s@, j as int),
        decreases s.len() - j,
    {
        if s.len() < 2 || j > s.len() - 2 {
            return None;
        }
        if s[j] == '*' && s[j + 1] == '/' {
            proof {
                lemma_comment_end_bound(s@, i as int);
            }
            return Some(j + 2);
        }
        j = j + 1;
    }
}

/// Position of the first `:` at or after `i`, or `None`.
pub open spec fn colon_pos(s: Seq<char>, i: int) -> Option<int>
    decreases s.len() - i when i <= s.len()
{
    if !(0 <= i < s.len()) {
        None
    } else if s[i] == ':' {
        Some(i)
    } else {
        colon_pos(s, i + 1)
    }
}

pub proof fn lemma_colon_pos_bound(s: Seq<char>, i: int)
    requires
        0 <= i <= s.len(),
    ensures
        match colon_pos(s, i) {
            Some(e) => i <= e < s.len() && s[e] == ':',
            None => true,
        },
    decreases s.len() - i,
{
    if 0 <= i < s.len() && s[i] != ':' {
        lemma_colon_pos_bound(s, i + 1);
    }
}

/// Finds the first `:` at or after `i`.
pub fn find_colon(s: &Vec<char>, i: usize) -> (r: Option<usize>)
    requires
        i <= s.len(),
    ensures
        match r {
            Some(e) => colon_pos(s@, i as int) == Some(e as int) && i <= e < s.len(),
            None => colon_pos(s@, i as int) is None,
        },
{
    let mut j: usize = i;
    while j < s.len()
        invariant
            i <= j <= s.len(),
            colon_pos(s@, i as int) == colon_pos(s@, j as int),
        decreases s.len() - j,
    {
        if s[j] == ':' {
            return Some(j);
        }
        j = j + 1;
    }
    None
}

} // verus!

//! The selector-level model of a style sheet.
//!
//! A parsed style sheet is a flat sequence of items: style rules, verbatim
//! statements, comments, and explicit markers for the opening and closing of
//! nested at-rule blocks.  A style rule's selector is a sequence of
//! components; the class components are the ones the transformer rewrites,
//! and the tokenizer decides, form by form, whether the inside of a
//! functional pseudo-class (`:not(...)`, `:is(...)`, `::slotted(...)`,
//! `:host(...)`, ...) is itself selector material or is carried verbatim.

use vstd::prelude::*;

verus! {

/// One atomic part of a selector.
pub enum SelectorComponent {
    /// A class selector `.name`, held without the leading dot.
    Class(Vec<char>),
    /// A separator with meaning for minification: `,`, `>`, `+` or `~`.
    Delim(char),
    /// A run of white space between components.
    Space,
    /// Verbatim selector text: element names, ids, attribute matchers,
    /// pseudo-classes and the parentheses of the recognized nesting forms.
    Raw(Vec<char>),
}

/// The mathematical value of a [`SelectorComponent`].
pub enum ComponentView {
    Class(Seq<char>),
    Delim(char),
    Space,
    Raw(Seq<char>),
}

impl View for SelectorComponent {
    type V = ComponentView;

    open spec fn view(&self) -> ComponentView {
        match self {
            SelectorComponent::Class(n) => ComponentView::Class(n@),
            SelectorComponent::Delim(c) => ComponentView::Delim(*c),
            SelectorComponent::Space => ComponentView::Space,
            SelectorComponent::Raw(t) => ComponentView::Raw(t@),
        }
    }
}

/// The view of a whole component list.
pub open spec fn comps_view(v: Seq<SelectorComponent>) -> Seq<ComponentView> {
    v.map_values(|c: SelectorComponent| c@)
}

/// One `property: value` declaration of a style rule.
pub struct Declaration {
    pub property: Vec<char>,
    pub value: Vec<char>,
}

/// The mathematical value of a [`Declaration`].
pub struct DeclarationView {
    pub property: Seq<char>,
    pub value: Seq<char>,
}

impl View for Declaration {
    type V = DeclarationView;

    open spec fn view(&self) -> DeclarationView {
        DeclarationView { property: self.property@, value: self.value@ }
    }
}

/// The view of a whole declaration list.
pub open spec fn decls_view(v: Seq<Declaration>) -> Seq<DeclarationView> {
    v.map_values(|d: Declaration| d@)
}

/// One item of a parsed style sheet, in document order.
pub enum CssItem {
    /// A style rule: a selector component list and its declaration block.
    Rule { selector: Vec<SelectorComponent>, declarations: Vec<Declaration> },
    /// A statement carried verbatim, without its terminating semicolon: an
    /// at-statement such as `@import "x"`, or a bare declaration inside an
    /// at-rule block such as `@font-face`.
    Statement(Vec<char>),
    /// The head of a nested at-rule block, e.g. `@media screen`, without the
    /// opening brace.
    AtOpen(Vec<char>),
    /// The closing brace of a nested at-rule block.
    AtClose,
    /// A comment, with its `/*` and `*/` markers.
    Comment(Vec<char>),
}

/// The mathematical value of a [`CssItem`].
pub enum ItemView {
    Rule { selector: Seq<ComponentView>, declarations: Seq<DeclarationView> },
    Statement(Seq<char>),
    AtOpen(Seq<char>),
    AtClose,
    Comment(Seq<char>),
}

impl View for CssItem {
    type V = ItemView;

    open spec fn view(&self) -> ItemView {
        match self {
            CssItem::Rule { selector, declarations } => ItemView::Rule {
                selector: comps_view(selector@),
                declarations: decls_view(declarations@),
            },
            CssItem::Statement(t) => ItemView::Statement(t@),
            CssItem::AtOpen(t) => ItemView::AtOpen(t@),
            CssItem::AtClose => ItemView::AtClose,
            CssItem::Comment(t) => ItemView::Comment(t@),
        }
    }
}

/// The view of a whole item list.
pub open spec fn items_view(v: Seq<CssItem>) -> Seq<ItemView> {
    v.map_values(|it: CssItem| it@)
}

/// A character that may appear inside a CSS identifier.
pub open spec fn is_ident_char(c: char) -> bool {
    (48 <= c as u32 && c as u32 <= 57)  // 0-9
    || (65 <= c as u32 && c as u32 <= 90)  // A-Z
    || (97 <= c as u32 && c as u32 <= 122)  // a-z
    || c == '-' || c == '_' || c as u32 > 127
}

/// A character that may start a CSS identifier; a digit may not.
pub open spec fn is_ident_start(c: char) -> bool {
    is_ident_char(c) && !(48 <= c as u32 && c as u32 <= 57)
}

/// Executable form of [`is_ident_char`].
pub fn ident_char(c: char) -> (r: bool)
    ensures
        r == is_ident_char(c),
{
    let u = c as u32;
    (48 <= u && u <= 57) || (65 <= u && u <= 90) || (97 <= u && u <= 122) || c == '-' || c == '_'
        || u > 127
}

/// Executable form of [`is_ident_start`].
pub fn ident_start(c: char) -> (r: bool)
    ensures
        r == is_ident_start(c),
{
    let u = c as u32;
    ident_char(c) && !(48 <= u && u <= 57)
}

/// A selector separator around which minification may drop white space.
pub open spec fn is_delim(c: char) -> bool {
    c == ',' || c == '>' || c == '+' || c == '~'
}

/// Executable form of [`is_delim`].
pub fn delim_char(c: char) -> (r: bool)
    ensures
        r == is_delim(c),
{
    c == ',' || c == '>' || c == '+' || c == '~'
}

/// The functional pseudo-class names whose argument is itself a selector
/// list, so that class names inside it are rewritten too.  These are the
/// negation, `:where`/`:is`/`:has`, the `:matches`/`:any` grouping family,
/// shadow-DOM `::slotted` and the `:host`/`:host-context` forms.
pub open spec fn is_selector_pseudo(name: Seq<char>) -> bool {
    name == "not"@ || name == "is"@ || name == "where"@ || name == "has"@ || name == "matches"@
        || name == "any"@ || name == "-webkit-any"@ || name == "-moz-any"@ || name == "slotted"@
        || name == "host"@ || name == "host-context"@
}

/// Compares the characters of `v` between `a` and `b` with the characters
/// of `w`.
pub fn range_is(v: &Vec<char>, a: usize, b: usize, w: &str) -> (r: bool)
    requires
        a <= b <= v.len(),
    ensures
        r == (v@.subrange(a as int, b as int) == w@),
{
    let wc = crate::text::chars_of(w);
    if b - a != wc.len() {
        proof {
            assert(v@.subrange(a as int, b as int).len() == b - a);
        }
        return false;
    }
    let mut k: usize = 0;
    while k < wc.len()
        invariant
            0 <= k <= wc.len(),
            a <= b <= v.len(),
            b - a == wc.len(),
            wc@ == w@,
            forall|j: int| 0 <= j < k ==> v@[a + j] == w@[j],
        decreases wc.len() - k,
    {
        if v[a + k] != wc[k] {
            proof {
                assert(v@.subrange(a as int, b as int)[k as int] == v@[a + k]);
            }
            return false;
        }
        k = k + 1;
    }
    proof {
        assert(v@.subrange(a as int, b as int) =~= w@);
    }
    true
}

/// Whether `v[a..b]` is one of the recognized selector-bearing pseudo-class
/// names.
pub fn selector_pseudo(v: &Vec<char>, a: usize, b: usize) -> (r: bool)
    requires
        a <= b <= v.len(),
    ensures
        r == is_selector_pseudo(v@.subrange(a as int, b as int)),
{
    range_is(v, a, b, "not") || range_is(v, a, b, "is") || range_is(v, a, b, "where") || range_is(
        v,
        a,
        b,
        "has",
    ) || range_is(v, a, b, "matches") || range_is(v, a, b, "any") || range_is(
        v,
        a,
        b,
        "-webkit-any",
    ) || range_is(v, a, b, "-moz-any") || range_is(v, a, b, "slotted") || range_is(v, a, b, "host")
        || range_is(v, a, b, "host-context")
}

} // verus!

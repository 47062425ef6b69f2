//! The CSS printer: serializes the item model back to text, either minified
//! (`.a{color:red}`) or expanded, with each selector and declaration on its
//! own line and nested blocks indented by two spaces.

use vstd::prelude::*;
use crate::css::{
    ComponentView,
    CssItem,
    DeclarationView,
    ItemView,
    SelectorComponent,
    Declaration,
    comps_view,
    decls_view,
    items_view,
};

verus! {

/// `n` spaces.
pub open spec fn spaces(n: int) -> Seq<char>
    decreases n,
{
    if n <= 0 {
        Seq::<char>::empty()
    } else {
        spaces(n - 1).push(' ')
    }
}

/// The indentation for block depth `d`: two spaces per level.
pub open spec fn indent(d: int) -> Seq<char> {
    spaces(2 * d)
}

/// Appends `2 * d` spaces.
pub fn push_indent(out: &mut Vec<char>, d: usize)
    ensures
        final(out)@ == old(out)@ + indent(d as int),
{
    let ghost base = out@;
    let n: u128 = 2 * (d as u128);
    let mut k: u128 = 0;
    while k < n
        invariant
            0 <= k <= n,
            n == 2 * (d as u128),
            out@ == base + spaces(k as int),
        decreases n - k,
    {
        out.push(' ');
        k = k + 1;
        proof {
            assert(base + spaces(k - 1).push(' ') =~= (base + spaces(k - 1)).push(' '));
        }
    }
}

/// Appends the characters of `v`.
pub fn push_all(out: &mut Vec<char>, v: &Vec<char>)
    ensures
        final(out)@ == old(out)@ + v@,
{
    let ghost base = out@;
    let mut k: usize = 0;
    while k < v.len()
        invariant
            0 <= k <= v.len(),
            out@ == base + v@.take(k as int),
        decreases v.len() - k,
    {
        out.push(v[k]);
        k = k + 1;
        proof {
            assert(base + v@.take(k as int) =~= (base + v@.take(k - 1)).push(v@[k - 1]));
        }
    }
    proof {
        assert(base + v@.take(v@.len() as int) =~= base + v@);
    }
}

/// The expanded text of one selector component.
pub open spec fn comp_exp(c: ComponentView) -> Seq<char> {
    match c {
        ComponentView::Class(n) => seq!['.'] + n,
        ComponentView::Delim(ch) => seq![ch],
        ComponentView::Space => seq![' '],
        ComponentView::Raw(t) => t,
    }
}

/// The expanded text of the first `n` selector components.
pub open spec fn comps_exp(cs: Seq<ComponentView>, n: int) -> Seq<char>
    decreases n,
{
    if n <= 0 {
        Seq::<char>::empty()
    } else {
        comps_exp(cs, n - 1) + comp_exp(cs[n - 1])
    }
}

/// The minified text of the component at index `i`: white space next to a
/// separator is dropped, everything else prints as in expanded form.
pub open spec fn comp_min(cs: Seq<ComponentView>, i: int) -> Seq<char> {
    match cs[i] {
        ComponentView::Space => {
            if (i > 0 && cs[i - 1] is Delim) || (i + 1 < cs.len() && cs[i + 1] is Delim) {
                Seq::<char>::empty()
            } else {
                seq![' ']
            }
        },
        _ => comp_exp(cs[i]),
    }
}

/// The minified text of the first `n` selector components.
pub open spec fn comps_min(cs: Seq<ComponentView>, n: int) -> Seq<char>
    decreases n,
{
    if n <= 0 {
        Seq::<char>::empty()
    } else {
        comps_min(cs, n - 1) + comp_min(cs, n - 1)
    }
}

/// One expanded declaration line: indentation, `property: value;`, newline.
pub open spec fn decl_exp(d: DeclarationView, dpt: int) -> Seq<char> {
    indent(dpt) + d.property + seq![':', ' '] + d.value + seq![';', '\n']
}

/// The first `n` expanded declaration lines.
pub open spec fn decls_exp(ds: Seq<DeclarationView>, dpt: int, n: int) -> Seq<char>
    decreases n,
{
    if n <= 0 {
        Seq::<char>::empty()
    } else {
        decls_exp(ds, dpt, n - 1) + decl_exp(ds[n - 1], dpt)
    }
}

/// One minified declaration: `property:value`.
pub open spec fn decl_min(d: DeclarationView) -> Seq<char> {
    d.property + seq![':'] + d.value
}

/// The first `n` minified declarations, separated by `;`.
pub open spec fn decls_min(ds: Seq<DeclarationView>, n: int) -> Seq<char>
    decreases n,
{
    if n <= 0 {
        Seq::<char>::empty()
    } else if n == 1 {
        decl_min(ds[0])
    } else {
        decls_min(ds, n - 1) + seq![';'] + decl_min(ds[n - 1])
    }
}

/// The text of one item printed at block depth `d`.
pub open spec fn item_text(it: ItemView, d: int, minify: bool) -> Seq<char> {
    match it {
        ItemView::Rule { selector, declarations } => {
            if minify {
                comps_min(selector, selector.len() as int) + seq!['{'] + decls_min(
                    declarations,
                    declarations.len() as int,
                ) + seq!['}']
            } else {
                indent(d) + comps_exp(selector, selector.len() as int) + seq![' ', '{', '\n']
                    + decls_exp(declarations, d + 1, declarations.len() as int) + indent(d) + seq![
                    '}',
                    '\n',
                ]
            }
        },
        ItemView::Statement(t) => {
            if minify {
                t + seq![';']
            } else {
                indent(d) + t + seq![';', '\n']
            }
        },
        ItemView::AtOpen(t) => {
            if minify {
                t + seq!['{']
            } else {
                indent(d) + t + seq![' ', '{', '\n']
            }
        },
        ItemView::AtClose => {
            if minify {
                seq!['}']
            } else {
                indent(if d > 0 { d - 1 } else { 0 }) + seq!['}', '\n']
            }
        },
        ItemView::Comment(t) => {
            if minify {
                Seq::<char>::empty()
            } else {
                indent(d) + t + seq!['\n']
            }
        },
    }
}

/// The block depth in front of item `n`.
pub open spec fn depth_before(items: Seq<ItemView>, n: int) -> int
    decreases n,
{
    if n <= 0 {
        0
    } else {
        let d = depth_before(items, n - 1);
        match items[n - 1] {
            ItemView::AtOpen(_) => d + 1,
            ItemView::AtClose => if d > 0 {
                d - 1
            } else {
                0
            },
            _ => d,
        }
    }
}

/// The text of the first `n` items.
pub open spec fn items_text(items: Seq<ItemView>, minify: bool, n: int) -> Seq<char>
    decreases n,
{
    if n <= 0 {
        Seq::<char>::empty()
    } else {
        items_text(items, minify, n - 1) + item_text(
            items[n - 1],
            depth_before(items, n - 1),
            minify,
        )
    }
}

/// The whole style sheet, printed.
pub open spec fn print_spec(items: Seq<ItemView>, minify: bool) -> Seq<char> {
    items_text(items, minify, items.len() as int)
}

/// Appends the expanded text of all components.
fn push_comps_exp(out: &mut Vec<char>, cs: &Vec<SelectorComponent>)
    ensures
        final(out)@ == old(out)@ + comps_exp(comps_view(cs@), cs@.len() as int),
{
    let ghost base = out@;
    let ghost cv = comps_view(cs@);
    let mut k: usize = 0;
    while k < cs.len()
        invariant
            0 <= k <= cs.len(),
            cv == comps_view(cs@),
            out@ == base + comps_exp(cv, k as int),
        decreases cs.len() - k,
    {
        let ghost pre = out@;
        match &cs[k] {
            SelectorComponent::Class(n) => {
                out.push('.');
                push_all(out, n);
                proof {
                    assert(pre + (seq!['.'] + n@) =~= (pre.push('.')) + n@);
                }
            },
            SelectorComponent::Delim(ch) => {
                out.push(*ch);
                proof {
                    assert(pre + seq![*ch] =~= pre.push(*ch));
                }
            },
            SelectorComponent::Space => {
                out.push(' ');
                proof {
                    assert(pre + seq![' '] =~= pre.push(' '));
                }
            },
            SelectorComponent::Raw(t) => {
                push_all(out, t);
            },
        }
        proof {
            assert(cv[k as int] == cs@[k as int]@);
            assert(out@ == pre + comp_exp(cv[k as int]));
            assert(base + comps_exp(cv, k as int) + comp_exp(cv[k as int]) =~= base + comps_exp(
                cv,
                k + 1,
            ));
        }
        k = k + 1;
    }
}

/// Appends the minified text of all components.
fn push_comps_min(out: &mut Vec<char>, cs: &Vec<SelectorComponent>)
    ensures
        final(out)@ == old(out)@ + comps_min(comps_view(cs@), cs@.len() as int),
{
    let ghost base = out@;
    let ghost cv = comps_view(cs@);
    let mut k: usize = 0;
    while k < cs.len()
        invariant
            0 <= k <= cs.len(),
            cv == comps_view(cs@),
            out@ == base + comps_min(cv, k as int),
        decreases cs.len() - k,
    {
        let ghost pre = out@;
        let is_sp = matches!(&cs[k], SelectorComponent::Space);
        if is_sp {
            let prev_delim = k > 0 && matches!(&cs[k - 1], SelectorComponent::Delim(_));
            let next_delim = k + 1 < cs.len() && matches!(&cs[k + 1], SelectorComponent::Delim(_));
            proof {
                assert(cv[k as int] is Space);
            }
            if !(prev_delim || next_delim) {
                out.push(' ');
                proof {
                    assert(pre + seq![' '] =~= pre.push(' '));
                }
            }
            proof {
                assert(out@ == pre + comp_min(cv, k as int));
            }
        } else {
            match &cs[k] {
                SelectorComponent::Class(n) => {
                    out.push('.');
                    push_all(out, n);
                    proof {
                        assert(pre + (seq!['.'] + n@) =~= (pre.push('.')) + n@);
                    }
                },
                SelectorComponent::Delim(ch) => {
                    out.push(*ch);
                    proof {
                        assert(pre + seq![*ch] =~= pre.push(*ch));
                    }
                },
                SelectorComponent::Space => {
                },
                SelectorComponent::Raw(t) => {
                    push_all(out, t);
                },
            }
            proof {
                assert(cv[k as int] == cs@[k as int]@);
                assert(out@ == pre + comp_min(cv, k as int));
            }
        }
        proof {
            assert(base + comps_min(cv, k as int) + comp_min(cv, k as int) =~= base + comps_min(
                cv,
                k + 1,
            ));
        }
        k = k + 1;
    }
}

/// Appends the expanded lines of all declarations at depth `dpt`.
fn push_decls_exp(out: &mut Vec<char>, ds: &Vec<Declaration>, dpt: usize)
    ensures
        final(out)@ == old(out)@ + decls_exp(decls_view(ds@), dpt as int, ds@.len() as int),
{
    let ghost base = out@;
    let ghost dv = decls_view(ds@);
    let mut k: usize = 0;
    while k < ds.len()
        invariant
            0 <= k <= ds.len(),
            dv == decls_view(ds@),
            out@ == base + decls_exp(dv, dpt as int, k as int),
        decreases ds.len() - k,
    {
        let ghost pre = out@;
        push_indent(out, dpt);
        push_all(out, &ds[k].property);
        out.push(':');
        out.push(' ');
        push_all(out, &ds[k].value);
        out.push(';');
        out.push('\n');
        proof {
            assert(dv[k as int] == ds@[k as int]@);
            assert(out@ =~= pre + decl_exp(dv[k as int], dpt as int));
            assert(base + decls_exp(dv, dpt as int, k as int) + decl_exp(dv[k as int], dpt as int)
                =~= base + decls_exp(dv, dpt as int, k + 1));
        }
        k = k + 1;
    }
}

/// Appends the minified text of all declarations.
fn push_decls_min(out: &mut Vec<char>, ds: &Vec<Declaration>)
    ensures
        final(out)@ == old(out)@ + decls_min(decls_view(ds@), ds@.len() as int),
{
    let ghost base = out@;
    let ghost dv = decls_view(ds@);
    let mut k: usize = 0;
    while k < ds.len()
        invariant
            0 <= k <= ds.len(),
            dv == decls_view(ds@),
            out@ == base + decls_min(dv, k as int),
        decreases ds.len() - k,
    {
        let ghost pre = out@;
        if k > 0 {
            out.push(';');
        }
        push_all(out, &ds[k].property);
        out.push(':');
        push_all(out, &ds[k].value);
        proof {
            assert(dv[k as int] == ds@[k as int]@);
            if k == 0 {
                assert(out@ =~= pre + decl_min(dv[0]));
                assert(base + decls_min(dv, 0int) + decl_min(dv[0]) =~= base + decls_min(dv, 1int));
            } else {
                assert(out@ =~= pre + (seq![';'] + decl_min(dv[k as int])));
                assert(base + decls_min(dv, k as int) + (seq![';'] + decl_min(dv[k as int])) =~= base
                    + decls_min(dv, k + 1));
            }
        }
        k = k + 1;
    }
}

/// Prints the item model back to CSS text; exactly [`print_spec`].
#[verifier::rlimit(100)]
pub fn print_css(items: &Vec<CssItem>, minify: bool) -> (r: Vec<char>)
    ensures
        r@ == print_spec(items_view(items@), minify),
{
    let mut out: Vec<char> = Vec::new();
    let ghost iv = items_view(items@);
    let mut depth: usize = 0;
    let mut k: usize = 0;
    while k < items.len()
        invariant
            0 <= k <= items.len(),
            iv == items_view(items@),
            depth <= k,
            depth as int == depth_before(iv, k as int),
            out@ == items_text(iv, minify, k as int),
        decreases items.len() - k,
    {
        let ghost pre = out@;
        let ghost d0 = depth as int;
        match &items[k] {
            CssItem::Rule { selector, declarations } => {
                if minify {
                    push_comps_min(&mut out, selector);
                    out.push('{');
                    push_decls_min(&mut out, declarations);
                    out.push('}');
                    proof {
                        assert(iv[k as int] == items@[k as int]@);
                        assert(out@ =~= pre + item_text(iv[k as int], d0, minify));
                    }
                } else {
                    push_indent(&mut out, depth);
                    push_comps_exp(&mut out, selector);
                    out.push(' ');
                    out.push('{');
                    out.push('\n');
                    push_decls_exp(&mut out, declarations, depth + 1);
                    push_indent(&mut out, depth);
                    out.push('}');
                    out.push('\n');
                    proof {
                        assert(iv[k as int] == items@[k as int]@);
                        assert(out@ =~= pre + item_text(iv[k as int], d0, minify));
                    }
                }
            },
            CssItem::Statement(t) => {
                if minify {
                    push_all(&mut out, t);
                    out.push(';');
                } else {
                    push_indent(&mut out, depth);
                    push_all(&mut out, t);
                    out.push(';');
                    out.push('\n');
                }
                proof {
                    assert(iv[k as int] == items@[k as int]@);
                    assert(out@ =~= pre + item_text(iv[k as int], d0, minify));
                }
            },
            CssItem::AtOpen(t) => {
                if minify {
                    push_all(&mut out, t);
                    out.push('{');
                } else {
                    push_indent(&mut out, depth);
                    push_all(&mut out, t);
                    out.push(' ');
                    out.push('{');
                    out.push('\n');
                }
                proof {
                    assert(iv[k as int] == items@[k as int]@);
                    assert(out@ =~= pre + item_text(iv[k as int], d0, minify));
                }
                depth = depth + 1;
            },
            CssItem::AtClose => {
                let d1 = if depth > 0 {
                    depth - 1
                } else {
                    0
                };
                if minify {
                    out.push('}');
                } else {
                    push_indent(&mut out, d1);
                    out.push('}');
                    out.push('\n');
                }
                proof {
                    assert(iv[k as int] == items@[k as int]@);
                    assert(out@ =~= pre + item_text(iv[k as int], d0, minify));
                }
                depth = d1;
            },
            CssItem::Comment(t) => {
                if minify {
                } else {
                    push_indent(&mut out, depth);
                    push_all(&mut out, t);
                    out.push('\n');
                }
                proof {
                    assert(iv[k as int] == items@[k as int]@);
                    assert(out@ =~= pre + item_text(iv[k as int], d0, minify));
                }
            },
        }
        proof {
            assert(items_text(iv, minify, k + 1) == items_text(iv, minify, k as int) + item_text(
                iv[k as int],
                depth_before(iv, k as int),
                minify,
            ));
        }
        k = k + 1;
    }
    proof {
        assert(iv.len() == items@.len());
    }
    out
}

} // verus!

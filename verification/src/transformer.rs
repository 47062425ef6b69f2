//! The selector transformer: walks the parsed style sheet, replaces every
//! class-selector name through the class-name generator, and re-serializes
//! the result.  The generator applies the exclusion patterns, draws a random
//! id, and substitutes the naming template's placeholders.

use vstd::prelude::*;
use crate::class_map::ClassNameMap;
use crate::css::{ComponentView, CssItem, ItemView, SelectorComponent, comps_view, items_view};
use crate::css_parse::{CssParseError, ParseErrorKind, parse_css, parse_items, components, lemma_negation_argument_is_entered};
use crate::css_print::{print_css, print_spec};
use crate::rand::{pcg32_seeded, rand32_seeded, random_seed, random_id_spec, next_class_id};
use crate::settings::Settings;
use crate::text::{
    chars_of,
    string_of,
    copy_range,
    replace,
    replace_all,
    prefix,
    prefix_spec,
    hex_u128,
    hex_string,
};

verus! {

/// The compiled form of the exclusion pattern set.
#[verifier::external_type_specification]
#[verifier::external_body]
pub struct ExRegexSet(regex::RegexSet);

/// The patterns a compiled set was built from.
pub uninterp spec fn regex_set_patterns(rs: regex::RegexSet) -> Seq<Seq<char>>;

/// Whether at least one of the patterns matches the text; what
/// `regex::RegexSet::is_match` decides, a function of the patterns and the
/// text alone.
pub uninterp spec fn regex_any_match(patterns: Seq<Seq<char>>, text: Seq<char>) -> bool;

/// Whether the pattern engine accepts a pattern list: every pattern is
/// valid syntax and the compiled set stays within the engine's built-in
/// size limits.  What `regex::RegexSet::new` decides, a function of the
/// pattern list alone.
pub uninterp spec fn regex_patterns_ok(patterns: Seq<Seq<char>>) -> bool;

/// Relies on `regex::RegexSet::new`: building succeeds exactly when the
/// engine accepts the pattern list, and then the compiled set holds exactly
/// the given patterns; on failure the engine's report is returned as text.
#[verifier::external_body]
pub fn regex_set_new(patterns: &Vec<String>) -> (r: Result<regex::RegexSet, String>)
    ensures
        r is Ok <==> regex_patterns_ok(patterns.deep_view()),
        match r {
            Ok(rs) => regex_set_patterns(rs) == patterns.deep_view(),
            Err(_) => true,
        },
{
    regex::RegexSet::new(patterns).map_err(|e| e.to_string())
}

/// Relies on `regex::RegexSet::is_match`: whether any pattern of the set
/// matches the text.
#[verifier::external_body]
pub fn regex_set_is_match(set: &regex::RegexSet, text: &str) -> (r: bool)
    ensures
        r == regex_any_match(regex_set_patterns(*set), text@),
{
    set.is_match(text)
}

/// The 128-bit hash that `xxhash_rust::xxh3::xxh3_128` computes, a function
/// of the input bytes alone.
pub uninterp spec fn xxh3_128_of(bytes: Seq<u8>) -> u128;

/// Relies on `xxhash_rust::xxh3::xxh3_128`: the hash of the bytes.
#[verifier::external_body]
pub fn xxh3_128(bytes: &[u8]) -> (r: u128)
    ensures
        r == xxh3_128_of(bytes@),
{
    xxhash_rust::xxh3::xxh3_128(bytes)
}

/// The per-class-name hash used by the `<name_hash>` placeholder: the
/// 128-bit hash of the name's UTF-8 bytes, in lowercase hexadecimal without
/// leading zeros.
pub open spec fn name_hash_of(name: Seq<char>) -> Seq<char> {
    hex_string(xxh3_128_of(vstd::utf8::encode_utf8(name)) as int)
}

/// Computes the per-class-name hash text.
pub fn name_hash_chars(name: &str) -> (r: Vec<char>)
    ensures
        r@ == name_hash_of(name@),
{
    let h = xxh3_128(name.as_bytes());
    hex_u128(h)
}

/// The template with all placeholders substituted, each by a literal
/// left-to-right replacement in this order: the original name, the random
/// id, the name hash and its five-character prefix, the style-sheet hash
/// and its eight-character prefix.  Unknown placeholders stay as written.
pub open spec fn apply_template_spec(
    template: Seq<char>,
    original: Seq<char>,
    id: Seq<char>,
    sheet_hash: Seq<char>,
) -> Seq<char> {
    let nh = name_hash_of(original);
    let t1 = replace_all(template, "<original_name>"@, original);
    let t2 = replace_all(t1, "<id>"@, id);
    let t3 = replace_all(t2, "<name_hash>"@, nh);
    let t4 = replace_all(t3, "<name_hash_short>"@, prefix_spec(nh, 5));
    let t5 = replace_all(t4, "<style_sheet_hash>"@, sheet_hash);
    replace_all(t5, "<style_sheet_hash_short>"@, prefix_spec(sheet_hash, 8))
}

/// Substitutes the naming template's placeholders for one class name.
pub fn apply_template(
    class_name_template: &str,
    original_class_name: &str,
    id: &str,
    style_sheet_hash: &str,
) -> (r: String)
    ensures
        r@ == apply_template_spec(
            class_name_template@,
            original_class_name@,
            id@,
            style_sheet_hash@,
        ),
{
    proof {
        reveal_strlit("<original_name>");
        reveal_strlit("<id>");
        reveal_strlit("<name_hash>");
        reveal_strlit("<name_hash_short>");
        reveal_strlit("<style_sheet_hash>");
        reveal_strlit("<style_sheet_hash_short>");
    }
    let name_hash = name_hash_chars(original_class_name);
    let t = chars_of(class_name_template);
    let original = chars_of(original_class_name);
    let idv = chars_of(id);
    let hashv = chars_of(style_sheet_hash);
    let t1 = replace(&t, &chars_of("<original_name>"), &original);
    let t2 = replace(&t1, &chars_of("<id>"), &idv);
    let t3 = replace(&t2, &chars_of("<name_hash>"), &name_hash);
    let t4 = replace(&t3, &chars_of("<name_hash_short>"), &prefix(&name_hash, 5));
    let t5 = replace(&t4, &chars_of("<style_sheet_hash>"), &hashv);
    let t6 = replace(&t5, &chars_of("<style_sheet_hash_short>"), &prefix(&hashv, 8));
    string_of(&t6)
}


/// The mathematical state of one transformation pass.
pub ghost struct VisitorModel {
    /// The class-name map built so far.
    pub classes: Map<Seq<char>, Seq<char>>,
    /// The generator state pair.
    pub rng: (u64, u64),
    /// The naming template.
    pub template: Seq<char>,
    /// The exclusion patterns.
    pub excludes: Seq<Seq<char>>,
    /// The style-sheet content hash.
    pub sheet_hash: Seq<char>,
}

/// Whether a class name is excluded from renaming: the pattern set is
/// non-empty and at least one pattern matches.
pub open spec fn excluded_spec(excludes: Seq<Seq<char>>, name: Seq<char>) -> bool {
    excludes.len() > 0 && regex_any_match(excludes, name)
}

/// The generated name for `name` in state `st`: the cached mapping when one
/// exists, the name itself when it is excluded, and otherwise the template
/// applied to a fresh random id.
pub open spec fn generate_out(name: Seq<char>, st: VisitorModel) -> Seq<char> {
    if st.classes.contains_key(name) {
        st.classes[name]
    } else if excluded_spec(st.excludes, name) {
        name
    } else {
        apply_template_spec(st.template, name, random_id_spec(st.rng, 6).0, st.sheet_hash)
    }
}

/// The state after generating a name for `name`: the mapping is recorded,
/// and the random generator advances exactly when a fresh id was drawn.
pub open spec fn generate_state(name: Seq<char>, st: VisitorModel) -> VisitorModel {
    if st.classes.contains_key(name) {
        st
    } else if excluded_spec(st.excludes, name) {
        VisitorModel { classes: st.classes.insert(name, name), ..st }
    } else {
        VisitorModel {
            classes: st.classes.insert(name, generate_out(name, st)),
            rng: random_id_spec(st.rng, 6).1,
            ..st
        }
    }
}

/// The state after visiting the first `n` selector components.
pub open spec fn visit_comps_state(cs: Seq<ComponentView>, st: VisitorModel, n: int) -> VisitorModel
    decreases n,
{
    if n <= 0 {
        st
    } else {
        let prev = visit_comps_state(cs, st, n - 1);
        match cs[n - 1] {
            ComponentView::Class(name) => generate_state(name, prev),
            _ => prev,
        }
    }
}

/// The components after one pass: every class name replaced by what the
/// generator yields in the state reached at that occurrence, everything
/// else untouched.
pub open spec fn visit_comps_out(cs: Seq<ComponentView>, st: VisitorModel) -> Seq<ComponentView> {
    Seq::new(
        cs.len(),
        |i: int|
            match cs[i] {
                ComponentView::Class(name) => ComponentView::Class(
                    generate_out(name, visit_comps_state(cs, st, i)),
                ),
                other => other,
            },
    )
}

/// The state after visiting one item: only style rules touch it.
pub open spec fn item_visit_state(it: ItemView, st: VisitorModel) -> VisitorModel {
    match it {
        ItemView::Rule { selector, declarations } => visit_comps_state(
            selector,
            st,
            selector.len() as int,
        ),
        _ => st,
    }
}

/// The state after visiting the first `n` items.
pub open spec fn visit_items_state(items: Seq<ItemView>, st: VisitorModel, n: int) -> VisitorModel
    decreases n,
{
    if n <= 0 {
        st
    } else {
        item_visit_state(items[n - 1], visit_items_state(items, st, n - 1))
    }
}

/// One item after the pass: a style rule's selector is rewritten, its
/// declarations and every other item stay as they are.
pub open spec fn visited_item(it: ItemView, st: VisitorModel) -> ItemView {
    match it {
        ItemView::Rule { selector, declarations } => ItemView::Rule {
            selector: visit_comps_out(selector, st),
            declarations,
        },
        other => other,
    }
}

/// The whole style sheet after the pass.
pub open spec fn visit_items_out(items: Seq<ItemView>, st: VisitorModel) -> Seq<ItemView> {
    Seq::new(items.len(), |i: int| visited_item(items[i], visit_items_state(items, st, i)))
}

/// Why a transformation pass could not start.
#[derive(Debug)]
pub enum TransformationVisitorInitializationError {
    /// The entropy source yielded no seed; carries its report.
    RandError(String),
    /// An exclusion pattern is not a valid regular expression; carries the
    /// pattern compiler's report.
    RegexError(String),
}

/// Why a transformation failed.
#[derive(Debug)]
pub enum TransformationError {
    /// The style sheet text did not parse.
    CssParse(CssParseError),
    /// The pass could not start.
    Initialization(TransformationVisitorInitializationError),
}

/// The per-invocation state of one transformation pass.
pub struct TransformationVisitor {
    /// The class-name map built during the pass.
    pub classes: ClassNameMap,
    /// The random generator state pair.
    pub rng: (u64, u64),
    /// The naming template.
    pub class_name_template: String,
    /// The exclusion patterns, as configured.
    pub class_name_exclude_patterns: Vec<String>,
    /// The compiled exclusion pattern set.
    pub exclude_set: regex::RegexSet,
    /// The style-sheet content hash fed to the template.
    pub style_sheet_hash: String,
    /// Whether the caller asked for diagnostic output.
    pub debug: bool,
}

impl View for TransformationVisitor {
    type V = VisitorModel;

    open spec fn view(&self) -> VisitorModel {
        VisitorModel {
            classes: self.classes@,
            rng: self.rng,
            template: self.class_name_template@,
            excludes: self.class_name_exclude_patterns.deep_view(),
            sheet_hash: self.style_sheet_hash@,
        }
    }
}

impl TransformationVisitor {
    /// The compiled pattern set matches the configured patterns, and the
    /// class map is well formed.
    pub open spec fn wf(&self) -> bool {
        &&& self.classes.wf()
        &&& regex_set_patterns(self.exclude_set) == self.class_name_exclude_patterns.deep_view()
    }

    /// Builds the pass state for `settings`, drawing a seed from the
    /// entropy source; fails when the entropy source fails or when the
    /// pattern engine rejects the exclusion pattern list.  A pattern-set
    /// failure is reported exactly for a rejected list; the entropy source
    /// alone decides its own failure.
    pub fn try_new(settings: &Settings, style_sheet_hash: &str) -> (r: Result<
        Self,
        TransformationVisitorInitializationError,
    >)
        ensures
            r is Ok ==> regex_patterns_ok(settings.class_names.excludes.deep_view()),
            !regex_patterns_ok(settings.class_names.excludes.deep_view()) ==> r is Err,
            match r {
                Ok(v) => v.wf() && v@.classes == Map::<Seq<char>, Seq<char>>::empty() && v@.template
                    == settings.class_names.template@ && v@.excludes
                    == settings.class_names.excludes.deep_view() && v@.sheet_hash
                    == style_sheet_hash@ && v.debug == settings.debug && (exists|seed: u64|
                    v@.rng == pcg32_seeded(seed)),
                Err(e) => e is RegexError ==> !regex_patterns_ok(
                    settings.class_names.excludes.deep_view(),
                ),
            },
    {
        let seed = match random_seed() {
            Ok(s) => s,
            Err(e) => {
                return Err(TransformationVisitorInitializationError::RandError(e));
            },
        };
        Self::try_new_seeded(settings, style_sheet_hash, seed)
    }

    /// Builds the pass state for `settings` from an explicit seed; fails
    /// exactly when the pattern engine rejects the exclusion pattern list.
    pub fn try_new_seeded(settings: &Settings, style_sheet_hash: &str, seed: u64) -> (r: Result<
        Self,
        TransformationVisitorInitializationError,
    >)
        ensures
            r is Ok <==> regex_patterns_ok(settings.class_names.excludes.deep_view()),
            match r {
                Ok(v) => v.wf() && v@.classes == Map::<Seq<char>, Seq<char>>::empty() && v@.template
                    == settings.class_names.template@ && v@.excludes
                    == settings.class_names.excludes.deep_view() && v@.sheet_hash
                    == style_sheet_hash@ && v.debug == settings.debug && v@.rng == pcg32_seeded(
                    seed,
                ),
                Err(e) => e is RegexError,
            },
    {
        let exclude_set = match regex_set_new(&settings.class_names.excludes) {
            Ok(rs) => rs,
            Err(e) => {
                return Err(TransformationVisitorInitializationError::RegexError(e));
            },
        };
        let mut excludes: Vec<String> = Vec::new();
        let mut k: usize = 0;
        while k < settings.class_names.excludes.len()
            invariant
                0 <= k <= settings.class_names.excludes@.len(),
                excludes@.len() == k,
                forall|i: int| 0 <= i < k ==> excludes@[i]@ == settings.class_names.excludes@[i]@,
            decreases settings.class_names.excludes@.len() - k,
        {
            excludes.push(settings.class_names.excludes[k].clone());
            k = k + 1;
        }
        proof {
            assert(excludes.deep_view() =~= settings.class_names.excludes.deep_view());
        }
        Ok(
            TransformationVisitor {
                classes: ClassNameMap::new(),
                rng: rand32_seeded(seed),
                class_name_template: settings.class_names.template.clone(),
                class_name_exclude_patterns: excludes,
                exclude_set,
                style_sheet_hash: String::from_str(style_sheet_hash),
                debug: settings.debug,
            },
        )
    }

    /// Returns the replacement for one class name, drawing a fresh id only
    /// when the name is neither cached nor excluded, and records the mapping.
    pub fn randomized_class_name(&mut self, name: &Vec<char>) -> (r: Vec<char>)
        requires
            old(self).wf(),
        ensures
            final(self).wf(),
            final(self)@ == generate_state(name@, old(self)@),
            r@ == generate_out(name@, old(self)@),
    {
        let key = string_of(name);
        let mut cached: Option<String> = None;
        match self.classes.get(key.as_str()) {
            Some(v) => {
                cached = Some(v.clone());
            },
            None => {
            },
        }
        match cached {
            Some(v) => {
                return chars_of(v.as_str());
            },
            None => {
            },
        }
        let is_excluded = self.class_name_exclude_patterns.len() > 0 && regex_set_is_match(
            &self.exclude_set,
            key.as_str(),
        );
        if is_excluded {
            let value = key.clone();
            self.classes.insert(key, value);
            let r = copy_range(name, 0, name.len());
            proof {
                assert(r@ =~= name@);
            }
            r
        } else {
            let (idv, rng2) = next_class_id(self.rng, 6);
            self.rng = rng2;
            let id_str = string_of(&idv);
            let generated = apply_template(
                self.class_name_template.as_str(),
                key.as_str(),
                id_str.as_str(),
                self.style_sheet_hash.as_str(),
            );
            let result = chars_of(generated.as_str());
            self.classes.insert(key, generated);
            result
        }
    }

    /// Rewrites every class component of one selector, in order.
    pub fn visit_components(&mut self, comps: &Vec<SelectorComponent>) -> (r: Vec<
        SelectorComponent,
    >)
        requires
            old(self).wf(),
        ensures
            final(self).wf(),
            final(self)@ == visit_comps_state(
                comps_view(comps@),
                old(self)@,
                comps@.len() as int,
            ),
            comps_view(r@) == visit_comps_out(comps_view(comps@), old(self)@),
    {
        let ghost cv = comps_view(comps@);
        let ghost st0 = self@;
        let mut out: Vec<SelectorComponent> = Vec::new();
        let mut k: usize = 0;
        while k < comps.len()
            invariant
                0 <= k <= comps@.len(),
                cv == comps_view(comps@),
                self.wf(),
                self@ == visit_comps_state(cv, st0, k as int),
                out@.len() == k,
                forall|i: int|
                    0 <= i < k ==> comps_view(out@)[i] == visit_comps_out(cv, st0)[i],
            decreases comps@.len() - k,
        {
            let ghost out0 = out@;
            match &comps[k] {
                SelectorComponent::Class(name) => {
                    let g = self.randomized_class_name(name);
                    out.push(SelectorComponent::Class(g));
                },
                SelectorComponent::Delim(c) => {
                    out.push(SelectorComponent::Delim(*c));
                },
                SelectorComponent::Space => {
                    out.push(SelectorComponent::Space);
                },
                SelectorComponent::Raw(t) => {
                    proof {
                        assert(t@.subrange(0, t@.len() as int) =~= t@);
                    }
                    out.push(SelectorComponent::Raw(copy_range(t, 0, t.len())));
                },
            }
            proof {
                assert(cv[k as int] == comps@[k as int]@);
                assert(comps_view(out@)[k as int] == out@[k as int]@);
                assert(comps_view(out@)[k as int] == visit_comps_out(cv, st0)[k as int]);
                assert(forall|i: int|
                    0 <= i < k ==> comps_view(out@)[i] == comps_view(out0)[i]);
            }
            k = k + 1;
        }
        proof {
            assert(comps_view(out@) =~= visit_comps_out(cv, st0));
        }
        out
    }

    /// Visits every selector of the style sheet, rewriting class components
    /// rule by rule in document order.
    pub fn visit_stylesheet(&mut self, items: Vec<CssItem>) -> (r: Vec<CssItem>)
        requires
            old(self).wf(),
        ensures
            final(self).wf(),
            final(self)@ == visit_items_state(
                items_view(items@),
                old(self)@,
                items@.len() as int,
            ),
            items_view(r@) == visit_items_out(items_view(items@), old(self)@),
            r@.len() == items@.len(),
    {
        let ghost iv = items_view(items@);
        let ghost st0 = self@;
        let mut rest = items;
        let mut out: Vec<CssItem> = Vec::new();
        while rest.len() > 0
            invariant
                self.wf(),
                out@.len() + rest@.len() == iv.len(),
                items_view(rest@) =~= iv.skip(out@.len() as int),
                self@ == visit_items_state(iv, st0, out@.len() as int),
                forall|i: int|
                    0 <= i < out@.len() ==> items_view(out@)[i] == visit_items_out(iv, st0)[i],
            decreases rest@.len(),
        {
            let ghost k = out@.len() as int;
            let ghost out0 = out@;
            let ghost rest0 = rest@;
            let it = rest.remove(0);
            proof {
                assert(items_view(rest0)[0] == it@);
                assert(iv.skip(k)[0] == iv[k]);
                assert(it@ == iv[k]);
                assert(items_view(rest@) =~= items_view(rest0).skip(1));
                assert(items_view(rest0).skip(1) =~= iv.skip(k + 1));
            }
            match it {
                CssItem::Rule { selector, declarations } => {
                    let sel2 = self.visit_components(&selector);
                    out.push(CssItem::Rule { selector: sel2, declarations });
                },
                other => {
                    proof {
                        assert(!(other@ is Rule));
                    }
                    out.push(other);
                },
            }
            proof {
                assert(items_view(out@)[k] == out@[k]@);
                assert(items_view(out@)[k] == visited_item(iv[k], visit_items_state(iv, st0, k)));
                assert(items_view(out@)[k] == visit_items_out(iv, st0)[k]);
                assert(forall|i: int| 0 <= i < k ==> items_view(out@)[i] == items_view(out0)[i]);
                assert(self@ == visit_items_state(iv, st0, k + 1));
            }
        }
        proof {
            assert(items_view(out@) =~= visit_items_out(iv, st0));
        }
        out
    }
}


/// The result of one whole transformation, as a function of the style-sheet
/// text, the naming configuration, the content hash and the seed: parse,
/// visit every selector, print.
pub open spec fn transform_result_spec(
    css: Seq<char>,
    template: Seq<char>,
    excludes: Seq<Seq<char>>,
    sheet_hash: Seq<char>,
    minify: bool,
    seed: u64,
) -> Result<(Seq<char>, Map<Seq<char>, Seq<char>>), (ParseErrorKind, int)> {
    match parse_items(css, 0, 0) {
        Err(e) => Err(e),
        Ok(items) => {
            let st0 = VisitorModel {
                classes: Map::<Seq<char>, Seq<char>>::empty(),
                rng: pcg32_seeded(seed),
                template,
                excludes,
                sheet_hash,
            };
            Ok(
                (
                    print_spec(visit_items_out(items, st0), minify),
                    visit_items_state(items, st0, items.len() as int).classes,
                ),
            )
        },
    }
}

/// Transforms a style sheet with an explicit seed: parses `css`, rewrites
/// every class selector, and prints it back according to
/// `settings.minify`.  The text and map returned are exactly
/// [`transform_result_spec`] of the inputs; initialization fails exactly
/// when the pattern engine rejects the exclusion list, and parsing fails
/// exactly when the specification parser says so.
pub fn transform_stylesheet_with_seed(
    css: &str,
    hash: &str,
    settings: &Settings,
    seed: u64,
) -> (r: Result<(String, ClassNameMap), TransformationError>)
    ensures
        (r is Err && r->Err_0 is Initialization) <==> !regex_patterns_ok(
            settings.class_names.excludes.deep_view(),
        ),
        match r {
            Ok((out_css, map)) => map.wf() && transform_result_spec(
                css@,
                settings.class_names.template@,
                settings.class_names.excludes.deep_view(),
                hash@,
                settings.minify,
                seed,
            ) == Ok::<(Seq<char>, Map<Seq<char>, Seq<char>>), (ParseErrorKind, int)>(
                (out_css@, map@),
            ),
            Err(e) => match e {
                TransformationError::CssParse(pe) => transform_result_spec(
                    css@,
                    settings.class_names.template@,
                    settings.class_names.excludes.deep_view(),
                    hash@,
                    settings.minify,
                    seed,
                ) == Err::<(Seq<char>, Map<Seq<char>, Seq<char>>), (ParseErrorKind, int)>(
                    (pe.kind, pe.position as int),
                ),
                TransformationError::Initialization(ie) => ie is RegexError,
            },
        },
{
    let mut visitor = match TransformationVisitor::try_new_seeded(settings, hash, seed) {
        Ok(v) => v,
        Err(e) => {
            return Err(TransformationError::Initialization(e));
        },
    };
    let chars = chars_of(css);
    let items = match parse_css(&chars) {
        Ok(items) => items,
        Err(e) => {
            return Err(TransformationError::CssParse(e));
        },
    };
    let visited = visitor.visit_stylesheet(items);
    let printed = print_css(&visited, settings.minify);
    let out = string_of(&printed);
    Ok((out, visitor.classes))
}

/// Transforms a style sheet, seeding the random generator from the entropy
/// source: for some seed, the text and map returned are exactly
/// [`transform_result_spec`] of the inputs.  A parse failure is reported for
/// every seed alike; initialization fails only when the entropy source
/// fails or the pattern engine rejects the exclusion list, and a rejected
/// list always fails.
pub fn transform_stylesheet(css: &str, hash: &str, settings: Settings) -> (r: Result<
    (String, ClassNameMap),
    TransformationError,
>)
    ensures
        r is Ok ==> regex_patterns_ok(settings.class_names.excludes.deep_view()),
        !regex_patterns_ok(settings.class_names.excludes.deep_view()) ==> r is Err,
        match r {
            Ok((out_css, map)) => map.wf() && exists|seed: u64|
                transform_result_spec(
                    css@,
                    settings.class_names.template@,
                    settings.class_names.excludes.deep_view(),
                    hash@,
                    settings.minify,
                    seed,
                ) == Ok::<(Seq<char>, Map<Seq<char>, Seq<char>>), (ParseErrorKind, int)>(
                    (out_css@, map@),
                ),
            Err(e) => match e {
                TransformationError::CssParse(pe) => forall|seed: u64|
                    transform_result_spec(
                        css@,
                        settings.class_names.template@,
                        settings.class_names.excludes.deep_view(),
                        hash@,
                        settings.minify,
                        seed,
                    ) == Err::<(Seq<char>, Map<Seq<char>, Seq<char>>), (ParseErrorKind, int)>(
                        (pe.kind, pe.position as int),
                    ),
                TransformationError::Initialization(ie) => ie is RegexError
                    ==> !regex_patterns_ok(settings.class_names.excludes.deep_view()),
            },
        },
{
    let seed = match random_seed() {
        Ok(s) => s,
        Err(e) => {
            return Err(
                TransformationError::Initialization(
                    TransformationVisitorInitializationError::RandError(e),
                ),
            );
        },
    };
    let r = transform_stylesheet_with_seed(css, hash, &settings, seed);
    proof {
        match r {
            Err(TransformationError::CssParse(ref pe)) => {
                assert forall|s2: u64|
                    transform_result_spec(
                        css@,
                        settings.class_names.template@,
                        settings.class_names.excludes.deep_view(),
                        hash@,
                        settings.minify,
                        s2,
                    ) == Err::<(Seq<char>, Map<Seq<char>, Seq<char>>), (ParseErrorKind, int)>(
                    (pe.kind, pe.position as int),
                ) by {
                    assert(parse_items(css@, 0, 0) is Err);
                }
            },
            _ => {},
        }
    }
    r
}

/// Law: within one pass a class name keeps the name it was first given.
/// Generating for a name the map already binds returns that binding and
/// leaves the whole state unchanged.
pub proof fn lemma_generate_idempotent(name: Seq<char>, st: VisitorModel)
    requires
        st.classes.contains_key(name),
    ensures
        generate_out(name, st) == st.classes[name],
        generate_state(name, st) == st,
{
}

/// Generating for any name never changes an existing binding.
pub proof fn lemma_generate_preserves_bindings(name: Seq<char>, c: Seq<char>, st: VisitorModel)
    requires
        st.classes.contains_key(c),
    ensures
        generate_state(name, st).classes.contains_key(c),
        generate_state(name, st).classes[c] == st.classes[c],
{
}

/// Visiting selector components never changes an existing binding, nor the
/// template, the exclusion patterns or the hash.
pub proof fn lemma_visit_comps_preserves(cs: Seq<ComponentView>, st: VisitorModel, n: int, c: Seq<char>)
    requires
        st.classes.contains_key(c),
    ensures
        visit_comps_state(cs, st, n).classes.contains_key(c),
        visit_comps_state(cs, st, n).classes[c] == st.classes[c],
        visit_comps_state(cs, st, n).template == st.template,
        visit_comps_state(cs, st, n).excludes == st.excludes,
        visit_comps_state(cs, st, n).sheet_hash == st.sheet_hash,
    decreases n,
{
    if n > 0 {
        lemma_visit_comps_preserves(cs, st, n - 1, c);
    }
}

/// Visiting items never changes an existing binding.
pub proof fn lemma_visit_items_preserves(items: Seq<ItemView>, st: VisitorModel, n: int, c: Seq<char>)
    requires
        st.classes.contains_key(c),
    ensures
        visit_items_state(items, st, n).classes.contains_key(c),
        visit_items_state(items, st, n).classes[c] == st.classes[c],
    decreases n,
{
    if n > 0 {
        lemma_visit_items_preserves(items, st, n - 1, c);
        let prev = visit_items_state(items, st, n - 1);
        match items[n - 1] {
            ItemView::Rule { selector, declarations } => {
                lemma_visit_comps_preserves(selector, prev, selector.len() as int, c);
            },
            _ => {},
        }
    }
}

/// Law (idempotent mapping): however often and wherever a class name occurs
/// in one style sheet, every occurrence after the first maps to the name the
/// first occurrence was given: once a prefix of the pass has bound `c`, the
/// generator's output for `c` in every later state is exactly that binding.
pub proof fn lemma_idempotent_mapping(
    items: Seq<ItemView>,
    st: VisitorModel,
    m: int,
    n: int,
    c: Seq<char>,
)
    requires
        0 <= m <= n,
        visit_items_state(items, st, m).classes.contains_key(c),
    ensures
        generate_out(c, visit_items_state(items, st, n)) == visit_items_state(
            items,
            st,
            m,
        ).classes[c],
    decreases n - m,
{
    if n == m {
        lemma_generate_idempotent(c, visit_items_state(items, st, m));
    } else {
        let prev = visit_items_state(items, st, n - 1);
        lemma_idempotent_mapping(items, st, m, n - 1, c);
        assert(prev.classes.contains_key(c)) by {
            lemma_visit_items_preserves_from(items, st, m, n - 1, c);
        }
        match items[n - 1] {
            ItemView::Rule { selector, declarations } => {
                lemma_visit_comps_preserves(selector, prev, selector.len() as int, c);
            },
            _ => {},
        }
        lemma_generate_idempotent(c, visit_items_state(items, st, n));
        lemma_visit_items_preserves_from(items, st, m, n, c);
    }
}

/// Bindings present after `m` items are still present, unchanged, after
/// `n >= m` items.
pub proof fn lemma_visit_items_preserves_from(
    items: Seq<ItemView>,
    st: VisitorModel,
    m: int,
    n: int,
    c: Seq<char>,
)
    requires
        0 <= m <= n,
        visit_items_state(items, st, m).classes.contains_key(c),
    ensures
        visit_items_state(items, st, n).classes.contains_key(c),
        visit_items_state(items, st, n).classes[c] == visit_items_state(items, st, m).classes[c],
    decreases n - m,
{
    if n > m {
        lemma_visit_items_preserves_from(items, st, m, n - 1, c);
        let prev = visit_items_state(items, st, n - 1);
        match items[n - 1] {
            ItemView::Rule { selector, declarations } => {
                lemma_visit_comps_preserves(selector, prev, selector.len() as int, c);
            },
            _ => {},
        }
    }
}

/// The exclusion invariant: every excluded name the map binds is bound to
/// itself, and generation preserves that.
pub open spec fn exclusion_invariant(st: VisitorModel) -> bool {
    forall|c: Seq<char>|
        st.classes.contains_key(c) && excluded_spec(st.excludes, c) ==> #[trigger] st.classes[c]
            == c
}

/// Generation preserves the exclusion invariant and the pattern set.
pub proof fn lemma_generate_exclusion(name: Seq<char>, st: VisitorModel)
    requires
        exclusion_invariant(st),
    ensures
        exclusion_invariant(generate_state(name, st)),
        generate_state(name, st).excludes == st.excludes,
        excluded_spec(st.excludes, name) ==> generate_out(name, st) == name,
{
}

/// Visiting components preserves the exclusion invariant.
pub proof fn lemma_visit_comps_exclusion(cs: Seq<ComponentView>, st: VisitorModel, n: int)
    requires
        exclusion_invariant(st),
    ensures
        exclusion_invariant(visit_comps_state(cs, st, n)),
        visit_comps_state(cs, st, n).excludes == st.excludes,
    decreases n,
{
    if n > 0 {
        lemma_visit_comps_exclusion(cs, st, n - 1);
        match cs[n - 1] {
            ComponentView::Class(name) => {
                lemma_generate_exclusion(name, visit_comps_state(cs, st, n - 1));
            },
            _ => {},
        }
    }
}

/// Visiting items preserves the exclusion invariant.
pub proof fn lemma_visit_items_exclusion(items: Seq<ItemView>, st: VisitorModel, n: int)
    requires
        exclusion_invariant(st),
    ensures
        exclusion_invariant(visit_items_state(items, st, n)),
        visit_items_state(items, st, n).excludes == st.excludes,
    decreases n,
{
    if n > 0 {
        lemma_visit_items_exclusion(items, st, n - 1);
        match items[n - 1] {
            ItemView::Rule { selector, declarations } => {
                lemma_visit_comps_exclusion(
                    selector,
                    visit_items_state(items, st, n - 1),
                    selector.len() as int,
                );
            },
            _ => {},
        }
    }
}

/// Law (exclusion correctness): in a pass that started with an empty map,
/// the generated name for every excluded class name is the name itself, at
/// whatever point of the pass it occurs, and the map records it mapped to
/// itself.
pub proof fn lemma_exclusion_correctness(
    items: Seq<ItemView>,
    st: VisitorModel,
    n: int,
    c: Seq<char>,
)
    requires
        exclusion_invariant(st),
        excluded_spec(st.excludes, c),
    ensures
        generate_out(c, visit_items_state(items, st, n)) == c,
        generate_state(c, visit_items_state(items, st, n)).classes[c] == c,
{
    lemma_visit_items_exclusion(items, st, n);
    let stn = visit_items_state(items, st, n);
    lemma_generate_exclusion(c, stn);
    if stn.classes.contains_key(c) {
    }
}

/// Law (determinism): the transformation result is a function of the
/// style-sheet text, the naming configuration, the content hash, the minify
/// flag and the seed: two runs over equal inputs yield byte-identical CSS
/// text and identical class-name maps.
pub proof fn lemma_transform_deterministic(
    css: Seq<char>,
    template: Seq<char>,
    excludes: Seq<Seq<char>>,
    sheet_hash: Seq<char>,
    minify: bool,
    seed: u64,
    r1: Result<(Seq<char>, Map<Seq<char>, Seq<char>>), (ParseErrorKind, int)>,
    r2: Result<(Seq<char>, Map<Seq<char>, Seq<char>>), (ParseErrorKind, int)>,
)
    requires
        r1 == transform_result_spec(css, template, excludes, sheet_hash, minify, seed),
        r2 == transform_result_spec(css, template, excludes, sheet_hash, minify, seed),
    ensures
        r1 == r2,
{
}


/// Replacement is the identity on text that holds no `<` at all, for a
/// pattern that starts with `<`.
proof fn lemma_replace_no_lt(s: Seq<char>, pat: Seq<char>, to: Seq<char>)
    requires
        pat.len() > 0,
        pat[0] == '<',
        forall|i: int| 0 <= i < s.len() ==> s[i] != '<',
    ensures
        replace_all(s, pat, to) == s,
    decreases s.len(),
{
    if s.len() >= pat.len() {
        assert(s.take(pat.len() as int)[0] == s[0]);
        lemma_replace_no_lt(s.skip(1), pat, to);
        assert(seq![s[0]] + s.skip(1) =~= s);
    }
}

/// Replacement is the identity on text whose only `<` is its first
/// character, when the text does not begin with the pattern.
proof fn lemma_replace_single_lt(s: Seq<char>, pat: Seq<char>, to: Seq<char>)
    requires
        pat.len() > 0,
        pat[0] == '<',
        s.len() > 0,
        s[0] == '<',
        forall|i: int| 1 <= i < s.len() ==> s[i] != '<',
        s.len() >= pat.len() ==> s.take(pat.len() as int) != pat,
    ensures
        replace_all(s, pat, to) == s,
{
    if s.len() >= pat.len() {
        lemma_replace_no_lt(s.skip(1), pat, to);
        assert(seq![s[0]] + s.skip(1) =~= s);
    }
}

/// Replacing a text that is exactly the pattern yields the replacement.
proof fn lemma_replace_exact(pat: Seq<char>, to: Seq<char>)
    requires
        pat.len() > 0,
    ensures
        replace_all(pat, pat, to) == to,
{
    assert(pat.take(pat.len() as int) =~= pat);
    assert(pat.skip(pat.len() as int) =~= Seq::<char>::empty());
    assert(replace_all(Seq::<char>::empty(), pat, to) == Seq::<char>::empty());
    assert(replace_all(pat, pat, to) == to + replace_all(pat.skip(pat.len() as int), pat, to));
    assert(to + Seq::<char>::empty() =~= to);
}

/// Law (hash placeholders, verbatim form): with the template consisting of
/// the `<style_sheet_hash>` placeholder alone, the generated name is the
/// style-sheet hash verbatim, whatever the class name and the id, for every
/// hash that holds no `<`.
pub proof fn lemma_style_sheet_hash_placeholder(
    original: Seq<char>,
    id: Seq<char>,
    hash: Seq<char>,
)
    requires
        forall|i: int| 0 <= i < hash.len() ==> hash[i] != '<',
    ensures
        apply_template_spec("<style_sheet_hash>"@, original, id, hash) == hash,
{
    reveal_strlit("<style_sheet_hash>");
    reveal_strlit("<original_name>");
    reveal_strlit("<id>");
    reveal_strlit("<name_hash>");
    reveal_strlit("<name_hash_short>");
    reveal_strlit("<style_sheet_hash_short>");
    let t = "<style_sheet_hash>"@;
    assert forall|i: int| 1 <= i < 18 implies t[i] != '<' by {
        if i == 1 {
            assert(t[1] != '<');
        } else if i == 2 {
            assert(t[2] != '<');
        } else if i == 3 {
            assert(t[3] != '<');
        } else if i == 4 {
            assert(t[4] != '<');
        } else if i == 5 {
            assert(t[5] != '<');
        } else if i == 6 {
            assert(t[6] != '<');
        } else if i == 7 {
            assert(t[7] != '<');
        } else if i == 8 {
            assert(t[8] != '<');
        } else if i == 9 {
            assert(t[9] != '<');
        } else if i == 10 {
            assert(t[10] != '<');
        } else if i == 11 {
            assert(t[11] != '<');
        } else if i == 12 {
            assert(t[12] != '<');
        } else if i == 13 {
            assert(t[13] != '<');
        } else if i == 14 {
            assert(t[14] != '<');
        } else if i == 15 {
            assert(t[15] != '<');
        } else if i == 16 {
            assert(t[16] != '<');
        } else if i == 17 {
            assert(t[17] != '<');
        } else {
            assert(false);
        }
    }
    assert(t.take(15)[1] == t[1]);
    lemma_replace_single_lt(t, "<original_name>"@, original);
    assert(t.take(4)[1] == t[1]);
    lemma_replace_single_lt(t, "<id>"@, id);
    assert(t.take(11)[1] == t[1]);
    lemma_replace_single_lt(t, "<name_hash>"@, name_hash_of(original));
    assert(t.take(17)[1] == t[1]);
    lemma_replace_single_lt(t, "<name_hash_short>"@, prefix_spec(name_hash_of(original), 5));
    lemma_replace_exact(t, hash);
    lemma_replace_no_lt(hash, "<style_sheet_hash_short>"@, prefix_spec(hash, 8));
}

/// Law (hash placeholders, shortened form): with the template consisting of
/// the `<style_sheet_hash_short>` placeholder alone, the generated name is
/// the first eight characters of the style-sheet hash (all of it when it is
/// shorter), whatever the class name and the id, for every hash that holds
/// no `<`.
pub proof fn lemma_style_sheet_hash_short_placeholder(
    original: Seq<char>,
    id: Seq<char>,
    hash: Seq<char>,
)
    requires
        forall|i: int| 0 <= i < hash.len() ==> hash[i] != '<',
    ensures
        apply_template_spec("<style_sheet_hash_short>"@, original, id, hash) == prefix_spec(
            hash,
            8,
        ),
{
    reveal_strlit("<style_sheet_hash_short>");
    reveal_strlit("<original_name>");
    reveal_strlit("<id>");
    reveal_strlit("<name_hash>");
    reveal_strlit("<name_hash_short>");
    reveal_strlit("<style_sheet_hash>");
    let t = "<style_sheet_hash_short>"@;
    assert forall|i: int| 1 <= i < 24 implies t[i] != '<' by {
        if i == 1 {
            assert(t[1] != '<');
        } else if i == 2 {
            assert(t[2] != '<');
        } else if i == 3 {
            assert(t[3] != '<');
        } else if i == 4 {
            assert(t[4] != '<');
        } else if i == 5 {
            assert(t[5] != '<');
        } else if i == 6 {
            assert(t[6] != '<');
        } else if i == 7 {
            assert(t[7] != '<');
        } else if i == 8 {
            assert(t[8] != '<');
        } else if i == 9 {
            assert(t[9] != '<');
        } else if i == 10 {
            assert(t[10] != '<');
        } else if i == 11 {
            assert(t[11] != '<');
        } else if i == 12 {
            assert(t[12] != '<');
        } else if i == 13 {
            assert(t[13] != '<');
        } else if i == 14 {
            assert(t[14] != '<');
        } else if i == 15 {
            assert(t[15] != '<');
        } else if i == 16 {
            assert(t[16] != '<');
        } else if i == 17 {
            assert(t[17] != '<');
        } else if i == 18 {
            assert(t[18] != '<');
        } else if i == 19 {
            assert(t[19] != '<');
        } else if i == 20 {
            assert(t[20] != '<');
        } else if i == 21 {
            assert(t[21] != '<');
        } else if i == 22 {
            assert(t[22] != '<');
        } else if i == 23 {
            assert(t[23] != '<');
        } else {
            assert(false);
        }
    }
    assert(t.take(15)[1] == t[1]);
    lemma_replace_single_lt(t, "<original_name>"@, original);
    assert(t.take(4)[1] == t[1]);
    lemma_replace_single_lt(t, "<id>"@, id);
    assert(t.take(11)[1] == t[1]);
    lemma_replace_single_lt(t, "<name_hash>"@, name_hash_of(original));
    assert(t.take(17)[1] == t[1]);
    lemma_replace_single_lt(t, "<name_hash_short>"@, prefix_spec(name_hash_of(original), 5));
    assert(t.take(18)[17] == t[17]);
    assert(t[17] != "<style_sheet_hash>"@[17]);
    lemma_replace_single_lt(t, "<style_sheet_hash>"@, hash);
    lemma_replace_exact(t, prefix_spec(hash, 8));
}


/// Generating always leaves the name bound to exactly the generated output.
pub proof fn lemma_generate_records(name: Seq<char>, st: VisitorModel)
    ensures
        generate_state(name, st).classes.contains_key(name),
        generate_state(name, st).classes[name] == generate_out(name, st),
{
}

/// Bindings present after `m` components are still present, unchanged,
/// after `n >= m` components.
pub proof fn lemma_visit_comps_preserves_from(
    cs: Seq<ComponentView>,
    st: VisitorModel,
    m: int,
    n: int,
    c: Seq<char>,
)
    requires
        0 <= m <= n,
        visit_comps_state(cs, st, m).classes.contains_key(c),
    ensures
        visit_comps_state(cs, st, n).classes.contains_key(c),
        visit_comps_state(cs, st, n).classes[c] == visit_comps_state(cs, st, m).classes[c],
    decreases n - m,
{
    if n > m {
        lemma_visit_comps_preserves_from(cs, st, m, n - 1, c);
        match cs[n - 1] {
            ComponentView::Class(name) => {
                lemma_generate_preserves_bindings(name, c, visit_comps_state(cs, st, n - 1));
            },
            _ => {},
        }
    }
}

/// Law (output classes are recorded): after a pass over a selector, every
/// class component of the output carries exactly the name that the final
/// map binds its original name to — a renamed class under its generated
/// name, an excluded class under its own.
pub proof fn lemma_output_classes_recorded(cs: Seq<ComponentView>, st: VisitorModel, i: int)
    requires
        0 <= i < cs.len(),
        cs[i] is Class,
    ensures
        ({
            let name = cs[i]->Class_0;
            let fin = visit_comps_state(cs, st, cs.len() as int);
            fin.classes.contains_key(name) && visit_comps_out(cs, st)[i] == ComponentView::Class(
                fin.classes[name],
            )
        }),
{
    let name = cs[i]->Class_0;
    let st_i = visit_comps_state(cs, st, i);
    lemma_generate_records(name, st_i);
    assert(visit_comps_state(cs, st, i + 1) == generate_state(name, st_i));
    lemma_visit_comps_preserves_from(cs, st, i + 1, cs.len() as int, name);
}


/// Law (nested-selector coverage, negation instance): over the tokens of
/// `.test:not(.withoutme)`, one pass rewrites both the outer class and the
/// class inside the negation — each to the generator's output in the state
/// reached at its occurrence — and leaves the `:not(` head and the closing
/// parenthesis as they are.
pub proof fn lemma_negation_classes_rewritten(st: VisitorModel)
    ensures
        ({
            let cs = components(".test:not(.withoutme)"@, 0);
            let out = visit_comps_out(cs, st);
            &&& out.len() == 4
            &&& out[0] == ComponentView::Class(generate_out("test"@, st))
            &&& out[1] == ComponentView::Raw(":not("@)
            &&& out[2] == ComponentView::Class(
                generate_out("withoutme"@, generate_state("test"@, st)),
            )
            &&& out[3] == ComponentView::Raw(")"@)
        }),
{
    lemma_negation_argument_is_entered();
    let cs = components(".test:not(.withoutme)"@, 0);
    assert(visit_comps_state(cs, st, 0) == st);
    assert(visit_comps_state(cs, st, 1) == generate_state("test"@, st));
    assert(visit_comps_state(cs, st, 2) == generate_state("test"@, st));
}

} // verus!

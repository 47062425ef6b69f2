//! The resolved configuration of one compilation: naming template, exclusion
//! patterns, minification flag, browser targets, load paths and file-output
//! paths, together with the choice between the dev and the default profile.

use vstd::prelude::*;
use crate::manifest::{ManifestWithPackage, dev_settings_of, prod_settings_of};
use crate::css_scan::space_run;
use crate::text::{chars_of, copy_range, trim, trim_spec};

verus! {

/// Where compiled CSS is written, when file output is configured: a single
/// accumulating file, a directory with one file per style sheet, or both.
#[derive(Debug)]
pub struct FileOutput {
    pub global_css_file_path: Option<String>,
    pub separate_css_files_path: Option<String>,
}

/// How generated class names are built: the template with its placeholders,
/// and the patterns whose matches are left unrenamed.
#[derive(Debug, PartialEq)]
pub struct ClassNameGeneration {
    pub template: String,
    pub excludes: Vec<String>,
}

impl Default for ClassNameGeneration {
    /// The default naming: `class-<id>` and no exclusions.
    fn default() -> (r: Self)
        ensures
            r.template@ == "class-<id>"@,
            r.excludes@.len() == 0,
    {
        ClassNameGeneration { template: String::from_str("class-<id>"), excludes: Vec::new() }
    }
}

/// A browser version: major, major.minor, or major.minor.patch.
#[derive(Debug, Clone, Copy, PartialEq, Eq, Structural)]
pub enum BrowserVersion {
    Major(u8),
    MajorMinor(u8, u8),
    MajorMinorPatch(u8, u8, u8),
}

/// The version packed into one integer: one byte each for major, minor and
/// patch, missing parts zero.
pub open spec fn version_encoding(v: BrowserVersion) -> int {
    match v {
        BrowserVersion::Major(a) => (a as int) * 0x10000,
        BrowserVersion::MajorMinor(a, b) => (a as int) * 0x10000 + (b as int) * 0x100,
        BrowserVersion::MajorMinorPatch(a, b, c) => (a as int) * 0x10000 + (b as int) * 0x100 + (
        c as int),
    }
}

impl BrowserVersion {
    /// Packs the version into one integer, one byte per part.
    pub fn encode(&self) -> (r: u32)
        ensures
            r == version_encoding(*self),
    {
        match self {
            BrowserVersion::Major(a) => (*a as u32) * 0x10000,
            BrowserVersion::MajorMinor(a, b) => (*a as u32) * 0x10000 + (*b as u32) * 0x100,
            BrowserVersion::MajorMinorPatch(a, b, c) => (*a as u32) * 0x10000 + (*b as u32) * 0x100
                + (*c as u32),
        }
    }
}

/// The minimum supported version for each recognized browser.
#[derive(Debug, Clone, Copy, PartialEq, Eq, Structural)]
pub struct BrowserVersions {
    pub android: Option<BrowserVersion>,
    pub chrome: Option<BrowserVersion>,
    pub edge: Option<BrowserVersion>,
    pub firefox: Option<BrowserVersion>,
    pub ie: Option<BrowserVersion>,
    pub ios_saf: Option<BrowserVersion>,
    pub opera: Option<BrowserVersion>,
    pub safari: Option<BrowserVersion>,
    pub samsung: Option<BrowserVersion>,
}

impl BrowserVersions {
    /// No browser named.
    pub fn none() -> (r: Self)
        ensures
            r == all_browsers_unset(),
    {
        BrowserVersions {
            android: None,
            chrome: None,
            edge: None,
            firefox: None,
            ie: None,
            ios_saf: None,
            opera: None,
            safari: None,
            samsung: None,
        }
    }
}

/// The record with every browser unset.
pub open spec fn all_browsers_unset() -> BrowserVersions {
    BrowserVersions {
        android: None,
        chrome: None,
        edge: None,
        firefox: None,
        ie: None,
        ios_saf: None,
        opera: None,
        safari: None,
        samsung: None,
    }
}

/// The browser targets named by the configuration: absent, or a set of
/// minimum versions.  They are carried through as data for the build
/// tooling; the printer itself rewrites selectors only and does no
/// target-dependent downleveling.
#[derive(Debug, Clone, Copy, PartialEq, Eq, Structural)]
pub struct BrowserTargets(pub Option<BrowserVersions>);

/// The settings could not be obtained from the build manifest: the report
/// of the manifest reader.  Constructed at the caller's loading edge.
#[derive(Debug)]
pub struct SettingsError {
    pub message: String,
}


/// Browser targets as configuration text: entries of the form
/// `browser version`, such as `chrome 100` or `ios_saf 16.4.2`.
#[derive(Debug)]
pub struct RawBrowserTargets(pub Vec<String>);

/// One browser-target entry that could not be read: the entry and a report.
#[derive(Debug)]
pub struct FromRawTargetsError {
    pub target: String,
    pub error: String,
}

/// Every browser-target entry that could not be read, in configuration
/// order.
#[derive(Debug)]
pub struct FromRawTargetsErrorCollection(pub Vec<FromRawTargetsError>);

/// A decimal digit.
pub open spec fn dec_digit(c: char) -> bool {
    48 <= c as u32 && c as u32 <= 57
}

/// A non-empty sequence of decimal digits.
pub open spec fn all_digits(s: Seq<char>) -> bool {
    s.len() > 0 && forall|i: int| 0 <= i < s.len() ==> dec_digit(#[trigger] s[i])
}

/// The value of a decimal digit sequence.
pub open spec fn dec_value(s: Seq<char>) -> int
    decreases s.len(),
{
    if s.len() == 0 {
        0
    } else {
        dec_value(s.drop_last()) * 10 + (s.last() as u32 - 48)
    }
}

/// A version part: digits valued at most 255.
pub open spec fn version_part_ok(s: Seq<char>) -> bool {
    all_digits(s) && dec_value(s) <= 255
}

/// Position of the first `.` at or after `i`, or `None`.
pub open spec fn dot_pos(s: Seq<char>, i: int) -> Option<int>
    decreases s.len() - i when i <= s.len()
{
    if !(0 <= i < s.len()) {
        None
    } else if s[i] == '.' {
        Some(i)
    } else {
        dot_pos(s, i + 1)
    }
}

/// The version a version text denotes: one to three dot-separated decimal
/// parts, each at most 255.
pub open spec fn parse_version_spec(s: Seq<char>) -> Option<BrowserVersion> {
    match dot_pos(s, 0) {
        None => if version_part_ok(s) {
            Some(BrowserVersion::Major(dec_value(s) as u8))
        } else {
            None
        },
        Some(d1) => {
            let major = s.take(d1);
            match dot_pos(s, d1 + 1) {
                None => {
                    let minor = s.skip(d1 + 1);
                    if version_part_ok(major) && version_part_ok(minor) {
                        Some(
                            BrowserVersion::MajorMinor(
                                dec_value(major) as u8,
                                dec_value(minor) as u8,
                            ),
                        )
                    } else {
                        None
                    }
                },
                Some(d2) => {
                    let minor = s.subrange(d1 + 1, d2);
                    let patch = s.skip(d2 + 1);
                    if version_part_ok(major) && version_part_ok(minor) && version_part_ok(patch) {
                        Some(
                            BrowserVersion::MajorMinorPatch(
                                dec_value(major) as u8,
                                dec_value(minor) as u8,
                                dec_value(patch) as u8,
                            ),
                        )
                    } else {
                        None
                    }
                },
            }
        },
    }
}

/// A recognized browser name.
pub open spec fn known_browser(name: Seq<char>) -> bool {
    name == "android"@ || name == "chrome"@ || name == "edge"@ || name == "firefox"@ || name
        == "ie"@ || name == "ios_saf"@ || name == "opera"@ || name == "safari"@ || name
        == "samsung"@
}

/// The record with the named browser set to the version.
pub open spec fn apply_browser(acc: BrowserVersions, name: Seq<char>, v: BrowserVersion)
    -> BrowserVersions {
    if name == "android"@ {
        BrowserVersions { android: Some(v), ..acc }
    } else if name == "chrome"@ {
        BrowserVersions { chrome: Some(v), ..acc }
    } else if name == "edge"@ {
        BrowserVersions { edge: Some(v), ..acc }
    } else if name == "firefox"@ {
        BrowserVersions { firefox: Some(v), ..acc }
    } else if name == "ie"@ {
        BrowserVersions { ie: Some(v), ..acc }
    } else if name == "ios_saf"@ {
        BrowserVersions { ios_saf: Some(v), ..acc }
    } else if name == "opera"@ {
        BrowserVersions { opera: Some(v), ..acc }
    } else if name == "safari"@ {
        BrowserVersions { safari: Some(v), ..acc }
    } else if name == "samsung"@ {
        BrowserVersions { samsung: Some(v), ..acc }
    } else {
        acc
    }
}

/// How one target entry reads: the trimmed text split at its first
/// white-space run into a browser name and a version.
pub open spec fn target_parts(t: Seq<char>) -> (Seq<char>, Seq<char>) {
    let tt = trim_spec(t);
    let sp = first_space(tt, 0);
    (tt.take(sp), tt.skip(sp + space_run(tt, sp)))
}

/// Position of the first white-space character at or after `i`, or the
/// length.
pub open spec fn first_space(s: Seq<char>, i: int) -> int
    decreases s.len() - i when i <= s.len()
{
    if !(0 <= i < s.len()) {
        s.len() as int
    } else if crate::text::is_space(s[i]) {
        i
    } else {
        first_space(s, i + 1)
    }
}

/// Whether one target entry is well-formed: a known browser name, then a
/// version.
pub open spec fn target_ok(t: Seq<char>) -> bool {
    known_browser(target_parts(t).0) && parse_version_spec(target_parts(t).1) is Some
}

/// The browser record after reading the first `n` entries; ill-formed
/// entries change nothing.
pub open spec fn fold_targets(list: Seq<Seq<char>>, n: int) -> BrowserVersions
    decreases n,
{
    if n <= 0 {
        all_browsers_unset()
    } else {
        let acc = fold_targets(list, n - 1);
        let t = list[n - 1];
        if target_ok(t) {
            apply_browser(acc, target_parts(t).0, parse_version_spec(target_parts(t).1)->0)
        } else {
            acc
        }
    }
}

/// The ill-formed entries among the first `n`, in order.
pub open spec fn failing_targets(list: Seq<Seq<char>>, n: int) -> Seq<Seq<char>>
    decreases n,
{
    if n <= 0 {
        Seq::<Seq<char>>::empty()
    } else if target_ok(list[n - 1]) {
        failing_targets(list, n - 1)
    } else {
        failing_targets(list, n - 1).push(list[n - 1])
    }
}


proof fn lemma_dec_value_nonneg(s: Seq<char>)
    requires
        forall|i: int| 0 <= i < s.len() ==> dec_digit(#[trigger] s[i]),
    ensures
        dec_value(s) >= 0,
    decreases s.len(),
{
    if s.len() > 0 {
        lemma_dec_value_nonneg(s.drop_last());
    }
}

proof fn lemma_dot_pos_bounds(s: Seq<char>, i: int)
    requires
        0 <= i <= s.len(),
    ensures
        match dot_pos(s, i) {
            Some(e) => i <= e < s.len() && s[e] == '.',
            None => true,
        },
    decreases s.len() - i,
{
    if 0 <= i < s.len() && s[i] != '.' {
        lemma_dot_pos_bounds(s, i + 1);
    }
}

/// Finds the first `.` at or after `i`.
fn find_dot(s: &Vec<char>, i: usize) -> (r: Option<usize>)
    requires
        i <= s.len(),
    ensures
        match r {
            Some(e) => dot_pos(s@, i as int) == Some(e as int) && i <= e < s.len(),
            None => dot_pos(s@, i as int) is None,
        },
{
    let mut j: usize = i;
    while j < s.len()
        invariant
            i <= j <= s.len(),
            dot_pos(s@, i as int) == dot_pos(s@, j as int),
        decreases s.len() - j,
    {
        if s[j] == '.' {
            return Some(j);
        }
        j = j + 1;
    }
    None
}

/// Finds the first white-space character at or after `i`.
fn find_first_space(s: &Vec<char>, i: usize) -> (r: usize)
    requires
        i <= s.len(),
    ensures
        r == first_space(s@, i as int),
        i <= r <= s.len(),
{
    let mut j: usize = i;
    while j < s.len()
        invariant
            i <= j <= s.len(),
            first_space(s@, i as int) == first_space(s@, j as int),
        decreases s.len() - j,
    {
        if crate::text::is_space_char(s[j]) {
            return j;
        }
        j = j + 1;
    }
    s.len()
}

/// Reads the decimal version part `s[a..b]`: its value when it is all
/// digits and at most 255, `None` otherwise.
fn parse_version_part(s: &Vec<char>, a: usize, b: usize) -> (r: Option<u8>)
    requires
        a <= b <= s.len(),
    ensures
        match r {
            Some(v) => version_part_ok(s@.subrange(a as int, b as int)) && v == dec_value(
                s@.subrange(a as int, b as int),
            ),
            None => !version_part_ok(s@.subrange(a as int, b as int)),
        },
{
    let ghost sub = s@.subrange(a as int, b as int);
    if a == b {
        return None;
    }
    let mut acc: u32 = 0;
    let mut j: usize = a;
    proof {
        assert(s@.subrange(a as int, a as int) =~= Seq::<char>::empty());
    }
    while j < b
        invariant
            a <= j <= b <= s.len(),
            sub == s@.subrange(a as int, b as int),
            forall|i: int| a <= i < j ==> dec_digit(#[trigger] s@[i]),
            (acc <= 255 && acc == dec_value(s@.subrange(a as int, j as int))) || (acc == 300
                && dec_value(s@.subrange(a as int, j as int)) > 255),
        decreases b - j,
    {
        let c = s[j];
        let u = c as u32;
        if !(48 <= u && u <= 57) {
            proof {
                assert(sub[j - a] == s@[j as int]);
                assert(!all_digits(sub));
            }
            return None;
        }
        let ghost prev = s@.subrange(a as int, j as int);
        proof {
            assert(s@.subrange(a as int, j + 1).drop_last() =~= prev);
            assert(s@.subrange(a as int, j + 1).last() == s@[j as int]);
            assert(dec_value(s@.subrange(a as int, j + 1)) == dec_value(prev) * 10 + (u - 48));
        }
        if acc <= 255 {
            let n = acc * 10 + (u - 48);
            if n <= 255 {
                acc = n;
            } else {
                acc = 300;
            }
        } else {
            proof {
                assert(dec_value(prev) > 255);
                assert(dec_value(prev) * 10 + (u - 48) > 255);
            }
        }
        j = j + 1;
    }
    proof {
        assert(s@.subrange(a as int, b as int) == sub);
        assert(all_digits(sub));
    }
    if acc <= 255 {
        Some(acc as u8)
    } else {
        None
    }
}

/// Reads a version text.
fn parse_version(s: &Vec<char>) -> (r: Option<BrowserVersion>)
    ensures
        r == parse_version_spec(s@),
{
    proof {
        lemma_dot_pos_bounds(s@, 0);
        assert(s@.subrange(0, s@.len() as int) =~= s@);
    }
    match find_dot(s, 0) {
        None => {
            match parse_version_part(s, 0, s.len()) {
                Some(v) => Some(BrowserVersion::Major(v)),
                None => None,
            }
        },
        Some(d1) => {
            proof {
                lemma_dot_pos_bounds(s@, d1 + 1);
                assert(s@.subrange(0, d1 as int) =~= s@.take(d1 as int));
                assert(s@.subrange(d1 + 1, s@.len() as int) =~= s@.skip(d1 + 1));
            }
            let major = parse_version_part(s, 0, d1);
            match find_dot(s, d1 + 1) {
                None => {
                    let minor = parse_version_part(s, d1 + 1, s.len());
                    match (major, minor) {
                        (Some(a), Some(b)) => Some(BrowserVersion::MajorMinor(a, b)),
                        _ => None,
                    }
                },
                Some(d2) => {
                    proof {
                        assert(s@.subrange(d2 + 1, s@.len() as int) =~= s@.skip(d2 + 1));
                    }
                    let minor = parse_version_part(s, d1 + 1, d2);
                    let patch = parse_version_part(s, d2 + 1, s.len());
                    match (major, minor, patch) {
                        (Some(a), Some(b), Some(c)) => Some(
                            BrowserVersion::MajorMinorPatch(a, b, c),
                        ),
                        _ => None,
                    }
                },
            }
        },
    }
}

impl BrowserTargets {
    /// Reads the configured browser-target entries.  With no entries there
    /// are no targets; otherwise every entry must name a known browser and
    /// a version, and the result holds the last version named for each
    /// browser.  Otherwise every ill-formed entry is reported, in order.
    pub fn try_from_raw(raw: &RawBrowserTargets) -> (r: Result<
        BrowserTargets,
        FromRawTargetsErrorCollection,
    >)
        ensures
            match r {
                Ok(bt) => (forall|i: int|
                    0 <= i < raw.0.deep_view().len() ==> target_ok(#[trigger] raw.0.deep_view()[i]))
                    && bt == BrowserTargets(
                    if raw.0@.len() == 0 {
                        Option::<BrowserVersions>::None
                    } else {
                        Some(fold_targets(raw.0.deep_view(), raw.0.deep_view().len() as int))
                    },
                ),
                Err(es) => {
                    let failing = failing_targets(raw.0.deep_view(), raw.0.deep_view().len() as int);
                    &&& es.0@.len() == failing.len()
                    &&& es.0@.len() > 0
                    &&& forall|j: int| 0 <= j < es.0@.len() ==> #[trigger] es.0@[j].target@
                        == failing[j]
                },
            },
    {
        let ghost dv = raw.0.deep_view();
        let mut acc = BrowserVersions::none();
        let mut errors: Vec<FromRawTargetsError> = Vec::new();
        let mut k: usize = 0;
        while k < raw.0.len()
            invariant
                0 <= k <= raw.0@.len(),
                dv == raw.0.deep_view(),
                dv.len() == raw.0@.len(),
                acc == fold_targets(dv, k as int),
                errors@.len() == failing_targets(dv, k as int).len(),
                forall|j: int| 0 <= j < errors@.len() ==> #[trigger] errors@[j].target@
                    == failing_targets(dv, k as int)[j],
                forall|i: int| 0 <= i < k && !target_ok(#[trigger] dv[i]) ==> errors@.len() > 0,
            decreases raw.0@.len() - k,
        {
            let ghost acc0 = acc;
            let entry = &raw.0[k];
            let tchars = chars_of(entry.as_str());
            let tt = trim(&tchars);
            let sp = find_first_space(&tt, 0);
            let vstart = crate::css_scan::skip_spaces(&tt, sp);
            let version_text = copy_range(&tt, vstart, tt.len());
            proof {
                assert(dv[k as int] == raw.0@[k as int]@);
                assert(tt@ == trim_spec(dv[k as int]));
                assert(version_text@ =~= tt@.skip(vstart as int));
                assert(target_parts(dv[k as int]).1 == version_text@);
                assert(target_parts(dv[k as int]).0 == tt@.take(sp as int));
                assert(tt@.subrange(0, sp as int) =~= tt@.take(sp as int));
            }
            let version = parse_version(&version_text);
            let mut handled = false;
            match version {
                Some(v) => {
                    if crate::css::range_is(&tt, 0, sp, "android") {
                        acc.android = Some(v);
                        handled = true;
                    } else if crate::css::range_is(&tt, 0, sp, "chrome") {
                        acc.chrome = Some(v);
                        handled = true;
                    } else if crate::css::range_is(&tt, 0, sp, "edge") {
                        acc.edge = Some(v);
                        handled = true;
                    } else if crate::css::range_is(&tt, 0, sp, "firefox") {
                        acc.firefox = Some(v);
                        handled = true;
                    } else if crate::css::range_is(&tt, 0, sp, "ie") {
                        acc.ie = Some(v);
                        handled = true;
                    } else if crate::css::range_is(&tt, 0, sp, "ios_saf") {
                        acc.ios_saf = Some(v);
                        handled = true;
                    } else if crate::css::range_is(&tt, 0, sp, "opera") {
                        acc.opera = Some(v);
                        handled = true;
                    } else if crate::css::range_is(&tt, 0, sp, "safari") {
                        acc.safari = Some(v);
                        handled = true;
                    } else if crate::css::range_is(&tt, 0, sp, "samsung") {
                        acc.samsung = Some(v);
                        handled = true;
                    }
                },
                None => {
                },
            }
            if !handled {
                let ghost failing0 = failing_targets(dv, k as int);
                errors.push(
                    FromRawTargetsError {
                        target: entry.clone(),
                        error: String::from_str("unrecognized browser target"),
                    },
                );
                proof {
                    assert(!target_ok(dv[k as int]));
                    assert(failing_targets(dv, k + 1) =~= failing0.push(dv[k as int]));
                }
            } else {
                proof {
                    assert(target_ok(dv[k as int]));
                    assert(acc == apply_browser(
                        acc0,
                        target_parts(dv[k as int]).0,
                        parse_version_spec(target_parts(dv[k as int]).1)->0,
                    ));
                }
            }
            k = k + 1;
        }
        if errors.len() == 0 {
            proof {
                assert(forall|i: int| 0 <= i < dv.len() ==> target_ok(#[trigger] dv[i]));
            }
            if raw.0.len() == 0 {
                Ok(BrowserTargets(None))
            } else {
                Ok(BrowserTargets(Some(acc)))
            }
        } else {
            Err(FromRawTargetsErrorCollection(errors))
        }
    }
}

/// The resolved settings of one compilation.
#[derive(Debug)]
pub struct Settings {
    pub debug: bool,
    pub minify: bool,
    pub load_paths: Vec<String>,
    pub browser_targets: BrowserTargets,
    pub class_names: ClassNameGeneration,
    pub file_output: Option<FileOutput>,
}

/// Minification is on unless the configuration turns it off.
pub fn default_minify() -> (r: bool)
    ensures
        r == true,
{
    true
}

impl Default for Settings {
    /// The defaults of every setting: no debug output, minified output, no
    /// load paths, no browser targets, default naming, no file output.
    fn default() -> (r: Self)
        ensures
            r.debug == false,
            r.minify == true,
            r.load_paths@.len() == 0,
            r.browser_targets == BrowserTargets(Option::<BrowserVersions>::None),
            r.class_names.template@ == "class-<id>"@,
            r.class_names.excludes@.len() == 0,
            r.file_output is None,
    {
        Settings {
            debug: false,
            minify: default_minify(),
            load_paths: Vec::new(),
            browser_targets: BrowserTargets(None),
            class_names: ClassNameGeneration::default(),
            file_output: None,
        }
    }
}

impl Settings {
    /// Picks the settings for the build mode: in a debug build the dev
    /// profile, falling back to the default profile; in a release build the
    /// default profile; the built-in defaults when no fitting profile is
    /// named.
    pub fn choose_settings(
        dev: Option<Settings>,
        prod: Option<Settings>,
        is_debug_build: bool,
    ) -> (r: Settings)
        ensures
            is_debug_build && dev is Some ==> r == dev->0,
            is_debug_build && dev is None && prod is Some ==> r == prod->0,
            !is_debug_build && prod is Some ==> r == prod->0,
            (if is_debug_build {
                dev is None && prod is None
            } else {
                prod is None
            }) ==> (r.debug == false && r.minify == true && r.load_paths@.len() == 0
                && r.browser_targets == BrowserTargets(Option::<BrowserVersions>::None)
                && r.class_names.template@ == "class-<id>"@ && r.class_names.excludes@.len() == 0
                && r.file_output is None),
    {
        if is_debug_build {
            match dev {
                Some(s) => s,
                None => match prod {
                    Some(s) => s,
                    None => Settings::default(),
                },
            }
        } else {
            match prod {
                Some(s) => s,
                None => Settings::default(),
            }
        }
    }

    /// Resolves the settings from a decoded manifest for the given build
    /// mode, with the same selection rule as [`Settings::choose_settings`].
    pub fn from_manifest(manifest: ManifestWithPackage, is_debug_build: bool) -> (r: Settings)
        ensures
            is_debug_build && dev_settings_of(manifest) is Some ==> r == dev_settings_of(
                manifest,
            )->0,
            is_debug_build && dev_settings_of(manifest) is None && prod_settings_of(
                manifest,
            ) is Some ==> r == prod_settings_of(manifest)->0,
            !is_debug_build && prod_settings_of(manifest) is Some ==> r == prod_settings_of(
                manifest,
            )->0,
            (if is_debug_build {
                dev_settings_of(manifest) is None && prod_settings_of(manifest) is None
            } else {
                prod_settings_of(manifest) is None
            }) ==> (r.debug == false && r.minify == true && r.load_paths@.len() == 0
                && r.browser_targets == BrowserTargets(Option::<BrowserVersions>::None)
                && r.class_names.template@ == "class-<id>"@ && r.class_names.excludes@.len() == 0
                && r.file_output is None),
    {
        let (dev, prod) = match manifest.package {
            Some(p) => match p.metadata {
                Some(md) => (md.turf_dev, md.turf),
                None => (None, None),
            },
            None => (None, None),
        };
        Settings::choose_settings(dev, prod, is_debug_build)
    }
}

} // verus!

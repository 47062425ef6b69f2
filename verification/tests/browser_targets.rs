//! Tests of browser-target configuration reading and version packing.

use turf::settings::{BrowserTargets, BrowserVersion, RawBrowserTargets};

#[test]
fn browser_targets_are_parsed() {
    let raw = RawBrowserTargets(vec![
        String::from("chrome 100"),
        String::from("ios_saf 16.4"),
        String::from("safari 16.4.1"),
    ]);
    let targets = BrowserTargets::try_from_raw(&raw).unwrap();
    let versions = targets.0.unwrap();
    assert_eq!(versions.chrome, Some(BrowserVersion::Major(100)));
    assert_eq!(versions.ios_saf, Some(BrowserVersion::MajorMinor(16, 4)));
    assert_eq!(versions.safari, Some(BrowserVersion::MajorMinorPatch(16, 4, 1)));
    assert_eq!(versions.firefox, None);
}

#[test]
fn empty_browser_targets_are_none() {
    let targets = BrowserTargets::try_from_raw(&RawBrowserTargets(vec![])).unwrap();
    assert!(targets.0.is_none());
}

#[test]
fn bad_browser_targets_are_collected() {
    let raw = RawBrowserTargets(vec![
        String::from("chrome 100"),
        String::from("netscape 4"),
        String::from("firefox"),
        String::from("edge 10.20.300"),
    ]);
    let errors = BrowserTargets::try_from_raw(&raw).unwrap_err();
    assert_eq!(errors.0.len(), 3);
    assert_eq!(errors.0[0].target, "netscape 4");
    assert_eq!(errors.0[1].target, "firefox");
    assert_eq!(errors.0[2].target, "edge 10.20.300");
}

#[test]
fn version_encoding_packs_bytes() {
    assert_eq!(BrowserVersion::Major(1).encode(), 0x010000);
    assert_eq!(BrowserVersion::MajorMinor(1, 2).encode(), 0x010200);
    assert_eq!(BrowserVersion::MajorMinorPatch(1, 2, 3).encode(), 0x010203);
}

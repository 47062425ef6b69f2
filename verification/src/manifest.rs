//! The shape of the build manifest's metadata, as far as this library reads
//! it: a package may carry settings for the default profile and for the dev
//! profile.  Reading the manifest file itself is the caller's concern; the
//! selection logic over the decoded values lives in [`crate::settings`].

use vstd::prelude::*;
use crate::settings::Settings;

verus! {

/// A manifest with an optional package table.
pub struct ManifestWithPackage {
    pub package: Option<PackageWithMetadata>,
}

/// A package table with an optional metadata table.
pub struct PackageWithMetadata {
    pub metadata: Option<MetadataWithTurfSettings>,
}

/// The metadata table with the two optional settings profiles.
pub struct MetadataWithTurfSettings {
    pub turf: Option<Settings>,
    pub turf_dev: Option<Settings>,
}

/// The dev-profile settings of a manifest, when all the tables down to them
/// exist.
pub open spec fn dev_settings_of(m: ManifestWithPackage) -> Option<Settings> {
    match m.package {
        Some(p) => match p.metadata {
            Some(md) => md.turf_dev,
            None => None,
        },
        None => None,
    }
}

/// The default-profile settings of a manifest, when all the tables down to
/// them exist.
pub open spec fn prod_settings_of(m: ManifestWithPackage) -> Option<Settings> {
    match m.package {
        Some(p) => match p.metadata {
            Some(md) => md.turf,
            None => None,
        },
        None => None,
    }
}

} // verus!

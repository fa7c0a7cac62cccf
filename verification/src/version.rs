//! Published versions of packages.

use vstd::prelude::*;
use vstd::string::*;
use crate::package::{download_path, Package};
use crate::timestamp::{encode_time, Timespec};

verus! {

/// A row of the catalog's version table.
#[derive(Debug)]
pub struct Version {
    pub id: i32,
    pub package_id: i32,
    pub num: String,
    pub updated_at: Timespec,
    pub created_at: Timespec,
    pub downloads: i32,
    /// Whether the package index holds an entry for the version. Until it
    /// does, the version counts as not published.
    pub published: bool,
}

/// What a [`Version`] holds, with its number as a sequence of characters.
pub struct VersionView {
    pub id: i32,
    pub package_id: i32,
    pub num: Seq<char>,
    pub updated_at: Timespec,
    pub created_at: Timespec,
    pub downloads: i32,
    pub published: bool,
}

/// A version as it is written to a client.
#[derive(Debug)]
pub struct EncodableVersion {
    pub id: i32,
    pub pkg: String,
    pub num: String,
    pub dl_path: String,
    pub updated_at: String,
    pub created_at: String,
    pub downloads: i32,
}

/// What an [`EncodableVersion`] holds.
pub struct EncodableVersionView {
    pub id: i32,
    pub pkg: Seq<char>,
    pub num: Seq<char>,
    pub dl_path: Seq<char>,
    pub updated_at: Seq<char>,
    pub created_at: Seq<char>,
    pub downloads: i32,
}

/// Whether a string is a semantic version, as `semver::Version::parse`
/// accepts it.
pub uninterp spec fn semver_parses(s: Seq<char>) -> bool;

/// Calls `semver::Version::parse` and keeps only whether it succeeded. The
/// parser reads the text and nothing else, so the contract gives its verdict
/// the name [`semver_parses`].
#[verifier::external_body]
fn parses_as_semver(s: &str) -> (ok: bool)
    ensures
        ok == semver_parses(s@),
{
    semver::Version::parse(s).is_ok()
}

impl View for Version {
    type V = VersionView;

    open spec fn view(&self) -> VersionView {
        VersionView {
            id: self.id,
            package_id: self.package_id,
            num: self.num@,
            updated_at: self.updated_at,
            created_at: self.created_at,
            downloads: self.downloads,
            published: self.published,
        }
    }
}

impl View for EncodableVersion {
    type V = EncodableVersionView;

    open spec fn view(&self) -> EncodableVersionView {
        EncodableVersionView {
            id: self.id,
            pkg: self.pkg@,
            num: self.num@,
            dl_path: self.dl_path@,
            updated_at: self.updated_at@,
            created_at: self.created_at@,
            downloads: self.downloads,
        }
    }
}

impl VersionView {
    /// The counter is not negative and both timestamps are well formed.
    pub open spec fn wf(self) -> bool {
        &&& self.downloads >= 0
        &&& self.updated_at.wf()
        &&& self.created_at.wf()
    }

    /// The wire form of the version as one of the package named `pkg`.
    pub open spec fn encoded(self, pkg: Seq<char>) -> EncodableVersionView {
        EncodableVersionView {
            id: self.id,
            pkg,
            num: self.num,
            dl_path: download_path(pkg, self.num),
            updated_at: self.updated_at.encoded(),
            created_at: self.created_at.encoded(),
            downloads: self.downloads,
        }
    }
}

impl Clone for Version {
    fn clone(&self) -> (r: Version)
        ensures
            r == *self,
    {
        Version {
            id: self.id,
            package_id: self.package_id,
            num: self.num.clone(),
            updated_at: self.updated_at,
            created_at: self.created_at,
            downloads: self.downloads,
            published: self.published,
        }
    }
}

impl Version {
    /// Well-formedness of the row; see [`VersionView::wf`].
    pub open spec fn wf(&self) -> bool {
        self@.wf()
    }

    /// Whether `num` is a semantic version.
    pub fn valid(num: &str) -> (ok: bool)
        ensures
            ok == semver_parses(num@),
    {
        parses_as_semver(num)
    }

    /// The wire form of the version as one of `pkg`.
    pub fn encodable(self, pkg: &Package) -> (r: EncodableVersion)
        requires
            self.wf(),
        ensures
            r@ == self@.encoded(pkg.name@),
    {
        let Version { id, num, updated_at, created_at, downloads, .. } = self;
        EncodableVersion {
            dl_path: pkg.dl_path(num.as_str()),
            id: id,
            pkg: pkg.name.clone(),
            num: num,
            updated_at: encode_time(updated_at),
            created_at: encode_time(created_at),
            downloads: downloads,
        }
    }
}

} // verus!

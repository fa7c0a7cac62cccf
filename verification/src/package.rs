//! Packages, and the forms in which they travel.

use vstd::prelude::*;
use vstd::string::*;
use crate::text::{char_is_alphanumeric, chars_of, is_alphanumeric};
use crate::timestamp::{encode_time, Timespec};

verus! {

/// A row of the catalog's package table.
#[derive(Debug)]
pub struct Package {
    pub id: i32,
    pub name: String,
    pub user_id: i32,
    pub updated_at: Timespec,
    pub created_at: Timespec,
    pub downloads: i32,
}

/// What a [`Package`] holds, with its name as a sequence of characters.
pub struct PackageView {
    pub id: i32,
    pub name: Seq<char>,
    pub user_id: i32,
    pub updated_at: Timespec,
    pub created_at: Timespec,
    pub downloads: i32,
}

/// A package as it is written to a client.
#[derive(Debug)]
pub struct EncodablePackage {
    pub id: String,
    pub name: String,
    pub versions: Vec<i32>,
    pub updated_at: String,
    pub created_at: String,
    pub downloads: i32,
}

/// What an [`EncodablePackage`] holds.
pub struct EncodablePackageView {
    pub id: Seq<char>,
    pub name: Seq<char>,
    pub versions: Seq<i32>,
    pub updated_at: Seq<char>,
    pub created_at: Seq<char>,
    pub downloads: i32,
}

/// The body of a request to change a package.
#[derive(Debug)]
pub struct UpdateRequest {
    pub package: UpdatePackage,
}

/// The fields a client may ask to change.
#[derive(Debug)]
pub struct UpdatePackage {
    pub name: String,
}

/// A character that may stand in a package name.
pub open spec fn name_char(c: char) -> bool {
    is_alphanumeric(c) || c == '_' || c == '-'
}

/// A package name is valid when it is not empty and made of letters, digits,
/// `_` and `-` alone.
pub open spec fn name_ok(name: Seq<char>) -> bool {
    &&& name.len() > 0
    &&& forall|i: int| 0 <= i < name.len() ==> name_char(#[trigger] name[i])
}

/// Where the tarball of `name` at `version` is fetched from this service.
pub open spec fn download_path(name: Seq<char>, version: Seq<char>) -> Seq<char> {
    "/download/"@ + name + "/"@ + name + "-"@ + version + ".tar.gz"@
}

/// The key of the tarball of `name` at `version` in the blob store.
pub open spec fn blob_path(name: Seq<char>, version: Seq<char>) -> Seq<char> {
    name + "/"@ + name + "-"@ + version + ".tar.gz"@
}

impl View for Package {
    type V = PackageView;

    open spec fn view(&self) -> PackageView {
        PackageView {
            id: self.id,
            name: self.name@,
            user_id: self.user_id,
            updated_at: self.updated_at,
            created_at: self.created_at,
            downloads: self.downloads,
        }
    }
}

impl View for EncodablePackage {
    type V = EncodablePackageView;

    open spec fn view(&self) -> EncodablePackageView {
        EncodablePackageView {
            id: self.id@,
            name: self.name@,
            versions: self.versions@,
            updated_at: self.updated_at@,
            created_at: self.created_at@,
            downloads: self.downloads,
        }
    }
}

impl PackageView {
    /// The counter is not negative and both timestamps are well formed.
    pub open spec fn wf(self) -> bool {
        &&& self.downloads >= 0
        &&& self.updated_at.wf()
        &&& self.created_at.wf()
    }

    /// The wire form of the package with the given version identifiers.
    pub open spec fn encoded(self, versions: Seq<i32>) -> EncodablePackageView {
        EncodablePackageView {
            id: self.name,
            name: self.name,
            versions,
            updated_at: self.updated_at.encoded(),
            created_at: self.created_at.encoded(),
            downloads: self.downloads,
        }
    }
}

impl Clone for Package {
    fn clone(&self) -> (r: Package)
        ensures
            r == *self,
    {
        Package {
            id: self.id,
            name: self.name.clone(),
            user_id: self.user_id,
            updated_at: self.updated_at,
            created_at: self.created_at,
            downloads: self.downloads,
        }
    }
}

/// Whether a character may stand in a package name, given whether it is
/// alphanumeric.
pub fn allowed_in_name(c: char, alphanumeric: bool) -> (ok: bool)
    ensures
        ok == (alphanumeric || c == '_' || c == '-'),
{
    alphanumeric || c == '_' || c == '-'
}

impl Package {
    /// Well-formedness of the row; see [`PackageView::wf`].
    pub open spec fn wf(&self) -> bool {
        self@.wf()
    }

    /// Whether `name` may name a package.
    pub fn valid_name(name: &str) -> (ok: bool)
        ensures
            ok == name_ok(name@),
    {
        let chars = chars_of(name);
        if chars.len() == 0 {
            return false;
        }
        let mut i: usize = 0;
        while i < chars.len()
            invariant
                i <= chars.len(),
                chars@ == name@,
                forall|k: int| 0 <= k < i ==> name_char(#[trigger] chars@[k]),
            decreases chars.len() - i,
        {
            let c = chars[i];
            if !allowed_in_name(c, char_is_alphanumeric(c)) {
                return false;
            }
            i += 1;
        }
        true
    }

    /// The wire form of the package, listing `versions` as its versions.
    pub fn encodable(self, versions: Vec<i32>) -> (r: EncodablePackage)
        requires
            self.wf(),
        ensures
            r@ == self@.encoded(versions@),
    {
        let Package { name, created_at, updated_at, downloads, .. } = self;
        EncodablePackage {
            id: name.clone(),
            name: name,
            versions: versions,
            updated_at: encode_time(updated_at),
            created_at: encode_time(created_at),
            downloads: downloads,
        }
    }

    /// The path under which this service offers `version` for download.
    pub fn dl_path(&self, version: &str) -> (r: String)
        ensures
            r@ == download_path(self.name@, version@),
    {
        let mut r = String::from_str("/download/");
        r.append(self.name.as_str());
        r.append("/");
        r.append(self.name.as_str());
        r.append("-");
        r.append(version);
        r.append(".tar.gz");
        r
    }

    /// The key of `version`'s tarball in the blob store.
    pub fn s3_path(&self, version: &str) -> (r: String)
        ensures
            r@ == blob_path(self.name@, version@),
    {
        let mut r = self.name.clone();
        r.append("/");
        r.append(self.name.as_str());
        r.append("-");
        r.append(version);
        r.append(".tar.gz");
        r
    }
}

} // verus!

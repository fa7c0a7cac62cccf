//! The metadata that comes with an upload, and its validation.

use std::collections::BTreeMap;
use vstd::prelude::*;
use vstd::string::*;
use vstd::utf8::encode_utf8;
use crate::error::{Error, ErrorKind};
use crate::package::{name_ok, Package};
use crate::text::{chars_of, decimal, decimal_string, lowercase, to_lowercase};
use crate::version::{semver_parses, Version};

verus! {

/// An account, as the authentication service knows it.
#[derive(Clone, Copy, Debug, PartialEq, Eq, Structural)]
pub struct User {
    pub id: i32,
}

/// A dependency that an upload declares: the package it names, the versions
/// of it that will do, and the features asked of it.
#[derive(Debug)]
pub struct Dependency {
    pub name: String,
    pub req: String,
    pub features: Vec<String>,
}

/// What a [`Dependency`] holds.
pub struct DependencyView {
    pub name: Seq<char>,
    pub req: Seq<char>,
    pub features: Seq<Seq<char>>,
}

/// The feature map of a package: each feature with what it switches on. A
/// map that was read from a header names no feature twice; see
/// [`distinct_names`].
pub type Features = Vec<(String, Vec<String>)>;

/// What a feature map holds.
pub type FeaturesView = Seq<(Seq<char>, Seq<Seq<char>>)>;

/// A package version on its way into the registry.
#[derive(Debug)]
pub struct NewPackage {
    pub name: String,
    pub vers: String,
    pub deps: Vec<Dependency>,
    pub cksum: String,
    pub features: Features,
}

/// What a [`NewPackage`] holds.
pub struct NewPackageView {
    pub name: Seq<char>,
    pub vers: Seq<char>,
    pub deps: Seq<DependencyView>,
    pub cksum: Seq<char>,
    pub features: FeaturesView,
}

/// The headers of an upload request, each absent or present. The dependency
/// header arrives split and parsed: `None` where it could not be parsed, the
/// empty list where it is absent.
#[derive(Debug)]
pub struct UploadHeaders {
    /// `X-Cargo-Auth`
    pub auth: Option<String>,
    /// `X-Cargo-Pkg-Name`
    pub name: Option<String>,
    /// `X-Cargo-Pkg-Version`
    pub vers: Option<String>,
    /// `X-Cargo-Pkg-Feature`, a JSON object
    pub features: Option<String>,
    /// `X-Cargo-Pkg-Dep`
    pub deps: Option<Vec<Dependency>>,
    /// `Content-Length`
    pub content_length: Option<u64>,
    /// `Content-Type`
    pub content_type: Option<String>,
    /// `Content-Encoding`
    pub content_encoding: Option<String>,
}

impl View for Dependency {
    type V = DependencyView;

    open spec fn view(&self) -> DependencyView {
        DependencyView { name: self.name@, req: self.req@, features: self.features.deep_view() }
    }
}

impl View for NewPackage {
    type V = NewPackageView;

    open spec fn view(&self) -> NewPackageView {
        NewPackageView {
            name: self.name@,
            vers: self.vers@,
            deps: self.deps@.map_values(|d: Dependency| d@),
            cksum: self.cksum@,
            features: self.features.deep_view(),
        }
    }
}

/// A copy of a list of strings.
pub fn copy_strings(list: &Vec<String>) -> (r: Vec<String>)
    ensures
        r.deep_view() == list.deep_view(),
{
    let mut r: Vec<String> = Vec::new();
    let mut i: usize = 0;
    while i < list.len()
        invariant
            i <= list.len(),
            r@.len() == i,
            forall|k: int| 0 <= k < i ==> (#[trigger] r@[k])@ == list@[k]@,
        decreases list.len() - i,
    {
        r.push(list[i].clone());
        i += 1;
    }
    assert(r.deep_view() =~= list.deep_view());
    r
}

impl Dependency {
    /// A copy of the dependency.
    pub fn duplicate(&self) -> (r: Dependency)
        ensures
            r@ == self@,
    {
        Dependency {
            name: self.name.clone(),
            req: self.req.clone(),
            features: copy_strings(&self.features),
        }
    }
}

impl NewPackage {
    /// A copy of the package.
    pub fn duplicate(&self) -> (r: NewPackage)
        ensures
            r@ == self@,
    {
        let mut deps: Vec<Dependency> = Vec::new();
        let mut i: usize = 0;
        while i < self.deps.len()
            invariant
                i <= self.deps.len(),
                deps@.len() == i,
                forall|k: int| 0 <= k < i ==> (#[trigger] deps@[k])@ == self.deps@[k]@,
            decreases self.deps.len() - i,
        {
            deps.push(self.deps[i].duplicate());
            i += 1;
        }
        let mut features: Features = Vec::new();
        let mut j: usize = 0;
        while j < self.features.len()
            invariant
                j <= self.features.len(),
                features@.len() == j,
                forall|k: int|
                    0 <= k < j ==> (#[trigger] features@[k]).deep_view() == self.features@[k].deep_view(),
            decreases self.features.len() - j,
        {
            let parts = copy_strings(&self.features[j].1);
            features.push((self.features[j].0.clone(), parts));
            j += 1;
        }
        assert(deps@.map_values(|d: Dependency| d@) =~= self.deps@.map_values(|d: Dependency| d@));
        assert(features.deep_view() =~= self.features.deep_view());
        NewPackage {
            name: self.name.clone(),
            vers: self.vers.clone(),
            deps,
            cksum: self.cksum.clone(),
            features,
        }
    }
}

/// How far a reader has come through a JSON text: how many brackets are
/// open, whether it stands inside a string and behind a backslash there, and
/// whether all it has seen so far is plain.
pub struct Scan {
    pub depth: nat,
    pub quoted: bool,
    pub escaped: bool,
    pub plain: bool,
}

/// Punctuation and white space of JSON.
pub open spec fn structural(c: char) -> bool {
    c == '{' || c == '}' || c == '[' || c == ']' || c == ':' || c == ',' || c == ' ' || c == '\n'
        || c == '\r' || c == '\t'
}

/// The reader's state after one more character.
pub open spec fn scan_step(s: Scan, c: char) -> Scan {
    if s.quoted {
        if s.escaped {
            Scan { escaped: false, ..s }
        } else if c == '\\' {
            Scan { escaped: true, ..s }
        } else if c == '"' {
            Scan { quoted: false, ..s }
        } else {
            s
        }
    } else if c == '"' {
        Scan { quoted: true, ..s }
    } else if c == '{' || c == '[' {
        Scan { depth: s.depth + 1, plain: s.plain && s.depth < 2, ..s }
    } else if c == '}' || c == ']' {
        Scan { depth: if s.depth > 0 { (s.depth - 1) as nat } else { 0 }, ..s }
    } else {
        Scan { plain: s.plain && structural(c), ..s }
    }
}

/// The reader's state at the end of `text`.
pub open spec fn scan(text: Seq<char>) -> Scan
    decreases text.len(),
{
    if text.len() == 0 {
        Scan { depth: 0, quoted: false, escaped: false, plain: true }
    } else {
        scan_step(scan(text.drop_last()), text.last())
    }
}

/// No feature is named twice.
pub open spec fn distinct_names(features: FeaturesView) -> bool {
    forall|i: int, j: int|
        0 <= i < j < features.len() ==> (#[trigger] features[i]).0 != (#[trigger] features[j]).0
}

/// The longest feature header that is read, in bytes of UTF-8. The keys of
/// a header are made of its own characters, and an escape is no shorter than
/// what it stands for, so all keys of such a header together take fewer than
/// 65,536 bytes.
pub const MAX_FEATURE_HEADER: usize = 65_535;

/// The length of a text in bytes of UTF-8.
pub open spec fn byte_len(text: Seq<char>) -> nat {
    encode_utf8(text).len()
}

/// A text has plain structure when, outside its string literals, it holds
/// nothing but JSON's punctuation and white space, and never more than two
/// brackets are open at once. Every object of lists of strings is so written;
/// no number, `true`, `false` or `null` is.
pub open spec fn plain_structure(text: Seq<char>) -> bool {
    scan(text).plain
}

/// The feature map that a JSON text denotes, as `rustc_serialize::json::decode`
/// reads it into a map from strings to lists of strings; `None` where the text
/// is not JSON or denotes something else.
pub uninterp spec fn decoded_features(text: Seq<char>) -> Option<FeaturesView>;

/// A text is fit for the decoder when it has plain structure and is no
/// longer than [`MAX_FEATURE_HEADER`].
pub open spec fn fit_to_decode(text: Seq<char>) -> bool {
    byte_len(text) <= MAX_FEATURE_HEADER && plain_structure(text)
}

/// The feature map of a feature header: that which the text denotes, if the
/// text is fit for the decoder.
pub open spec fn features_of(header: Seq<char>) -> Option<FeaturesView> {
    if fit_to_decode(header) {
        decoded_features(header)
    } else {
        None
    }
}

/// Calls `rustc_serialize::json::decode` for a `BTreeMap<String, Vec<String>>`
/// and lists the map's entries in the order of their keys.
///
/// The decoder builds the whole JSON value before it looks at the type asked
/// for. It does so by recursion on the nesting of brackets, it adds up a
/// number's exponent without a check for overflow, and it keeps the keys of
/// the objects it stands in as 16-bit offsets into one buffer of bytes: the
/// precondition keeps deep nesting, every number and every text of 65,536
/// bytes or more away, and with the last all keys that would not fit. What is left is a function of the text alone, to
/// which the contract gives the name [`decoded_features`]. A map has each key
/// once, so no feature comes out twice.
#[verifier::external_body]
fn decode_features(header: &str) -> (r: Option<Features>)
    requires
        fit_to_decode(header@),
    ensures
        r.deep_view() == decoded_features(header@),
        r matches Some(features) ==> distinct_names(features.deep_view()),
{
    match rustc_serialize::json::decode::<BTreeMap<String, Vec<String>>>(header) {
        Ok(map) => Some(map.into_iter().collect()),
        Err(_) => None,
    }
}

/// Whether `text` has plain structure.
pub fn has_plain_structure(text: &str) -> (r: bool)
    ensures
        r == plain_structure(text@),
{
    let chars = chars_of(text);
    let mut depth: usize = 0;
    let mut quoted = false;
    let mut escaped = false;
    let mut plain = true;
    let mut i: usize = 0;
    assert(chars@.take(0) =~= Seq::empty());
    while i < chars.len()
        invariant
            i <= chars.len(),
            depth <= i,
            scan(chars@.take(i as int)) == (Scan { depth: depth as nat, quoted, escaped, plain }),
        decreases chars.len() - i,
    {
        let c = chars[i];
        proof {
            let next = chars@.take(i + 1);
            assert(next.drop_last() =~= chars@.take(i as int));
            assert(next.last() == c);
        }
        if quoted {
            if escaped {
                escaped = false;
            } else if c == '\\' {
                escaped = true;
            } else if c == '"' {
                quoted = false;
            }
        } else if c == '"' {
            quoted = true;
        } else if c == '{' || c == '[' {
            plain = plain && depth < 2;
            depth = depth + 1;
        } else if c == '}' || c == ']' {
            if depth > 0 {
                depth = depth - 1;
            }
        } else {
            plain = plain && (c == '{' || c == '}' || c == '[' || c == ']' || c == ':' || c == ','
                || c == ' ' || c == '\n' || c == '\r' || c == '\t');
        }
        i += 1;
    }
    assert(chars@.take(i as int) =~= chars@);
    plain
}

/// The feature map that a feature header denotes; `None` where the header
/// is malformed or longer than [`MAX_FEATURE_HEADER`].
pub fn features_from_header(header: &str) -> (r: Option<Features>)
    ensures
        r.deep_view() == features_of(header@),
        r matches Some(features) ==> distinct_names(features.deep_view()),
{
    if header.as_bytes().len() <= MAX_FEATURE_HEADER && has_plain_structure(header) {
        decode_features(header)
    } else {
        None
    }
}

/// What the text of an upload's headers was read as: the feature map that the
/// feature header denotes, the package name in lower case, and whether name
/// and version are well formed.
#[derive(Debug)]
pub struct Readings {
    pub features: Option<Features>,
    pub name: String,
    pub name_valid: bool,
    pub version_valid: bool,
}

/// What is wrong with an upload's headers, if anything, given what their
/// text was read as: the first of the checks, in this order, that fails.
pub open spec fn fault_given(
    h: UploadHeaders,
    account: Option<User>,
    max_upload_size: u64,
    features_read: bool,
    name: Seq<char>,
    name_valid: bool,
    version_valid: bool,
) -> Option<(ErrorKind, Seq<char>)> {
    if h.auth is None {
        Some((ErrorKind::InvalidRequest, "missing header: X-Cargo-Auth"@))
    } else if h.name is None {
        Some((ErrorKind::InvalidRequest, "missing header: X-Cargo-Pkg-Name"@))
    } else if h.vers is None {
        Some((ErrorKind::InvalidRequest, "missing header: X-Cargo-Pkg-Version"@))
    } else if h.features is None {
        Some((ErrorKind::InvalidRequest, "missing header: X-Cargo-Pkg-Feature"@))
    } else if h.deps is None {
        Some((ErrorKind::InvalidRequest, "malformed dependency header"@))
    } else if byte_len(h.features->0@) > MAX_FEATURE_HEADER {
        Some((ErrorKind::InvalidRequest, "feature header is too long"@))
    } else if !features_read {
        Some((ErrorKind::InvalidRequest, "malformed feature header"@))
    } else if h.content_length is None {
        Some((ErrorKind::InvalidRequest, "missing header: Content-Length"@))
    } else if h.content_length->0 > max_upload_size {
        Some(
            (ErrorKind::ValidationFailed, "max upload size is: "@ + decimal(max_upload_size as nat)),
        )
    } else if h.content_type is None {
        Some((ErrorKind::InvalidRequest, "missing header: Content-Type"@))
    } else if h.content_type->0@ != "application/x-tar"@ {
        Some(
            (
                ErrorKind::ValidationFailed,
                "expected `application/x-tar`, found `"@ + h.content_type->0@ + "`"@,
            ),
        )
    } else if h.content_encoding is None {
        Some((ErrorKind::InvalidRequest, "missing header: Content-Encoding"@))
    } else if h.content_encoding->0@ != "gzip"@ && h.content_encoding->0@ != "x-gzip"@ {
        Some(
            (ErrorKind::ValidationFailed, "expected `gzip`, found `"@ + h.content_encoding->0@ + "`"@),
        )
    } else if account is None {
        Some((ErrorKind::InvalidRequest, "invalid or unknown auth token supplied"@))
    } else if !name_valid {
        Some((ErrorKind::ValidationFailed, "invalid package name: `"@ + name + "`"@))
    } else if !version_valid {
        Some((ErrorKind::ValidationFailed, "invalid package version: `"@ + h.vers->0@ + "`"@))
    } else {
        None
    }
}

/// What is wrong with an upload's headers, if anything. The feature header
/// must denote a feature map, the name in lower case must be a valid package
/// name, and the version a semantic version.
pub open spec fn header_fault(h: UploadHeaders, account: Option<User>, max_upload_size: u64) -> Option<
    (ErrorKind, Seq<char>),
> {
    fault_given(
        h,
        account,
        max_upload_size,
        features_of(h.features->0@) is Some,
        lowercase(h.name->0@),
        name_ok(lowercase(h.name->0@)),
        semver_parses(h.vers->0@),
    )
}

/// The package that valid headers announce: its name in lower case, no
/// checksum yet.
pub open spec fn announced(h: UploadHeaders) -> NewPackageView {
    NewPackageView {
        name: lowercase(h.name->0@),
        vers: h.vers->0@,
        deps: h.deps->0@.map_values(|d: Dependency| d@),
        cksum: Seq::empty(),
        features: features_of(h.features->0@)->0,
    }
}

fn missing(header: &str) -> (e: Error)
    ensures
        e.says(ErrorKind::InvalidRequest, "missing header: "@ + header@),
{
    let e = Error::about(ErrorKind::InvalidRequest, "missing header: ", header, "");
    proof {
        reveal_strlit("");
        assert("missing header: "@ + header@ + ""@ =~= "missing header: "@ + header@);
    }
    e
}

/// Judges an upload's headers by what their text was read as. On success
/// the package to publish, under the name read, and the account that
/// publishes it come back.
pub fn judge_headers(
    headers: UploadHeaders,
    account: Option<User>,
    max_upload_size: u64,
    readings: Readings,
) -> (r: Result<(NewPackage, User), Error>)
    ensures
        match r {
            Ok((pkg, user)) => {
                &&& fault_given(
                    headers,
                    account,
                    max_upload_size,
                    readings.features is Some,
                    readings.name@,
                    readings.name_valid,
                    readings.version_valid,
                ) is None
                &&& pkg@ == (NewPackageView {
                    name: readings.name@,
                    vers: headers.vers->0@,
                    deps: headers.deps->0@.map_values(|d: Dependency| d@),
                    cksum: Seq::empty(),
                    features: readings.features->0.deep_view(),
                })
                &&& Some(user) == account
            },
            Err(e) => fault_given(
                headers,
                account,
                max_upload_size,
                readings.features is Some,
                readings.name@,
                readings.name_valid,
                readings.version_valid,
            ) == Some((e.kind, e.detail@)),
        },
{
    proof {
        reveal_strlit("missing header: ");
        reveal_strlit("X-Cargo-Auth");
        reveal_strlit("missing header: X-Cargo-Auth");
        reveal_strlit("X-Cargo-Pkg-Name");
        reveal_strlit("missing header: X-Cargo-Pkg-Name");
        reveal_strlit("X-Cargo-Pkg-Version");
        reveal_strlit("missing header: X-Cargo-Pkg-Version");
        reveal_strlit("X-Cargo-Pkg-Feature");
        reveal_strlit("missing header: X-Cargo-Pkg-Feature");
        reveal_strlit("Content-Length");
        reveal_strlit("missing header: Content-Length");
        reveal_strlit("Content-Type");
        reveal_strlit("missing header: Content-Type");
        reveal_strlit("Content-Encoding");
        reveal_strlit("missing header: Content-Encoding");
    }
    let UploadHeaders { auth, name, vers, features, deps, content_length, content_type, content_encoding } =
        headers;
    let Readings { features: feature_map, name: lower_name, name_valid, version_valid } = readings;
    if auth.is_none() {
        let e = missing("X-Cargo-Auth");
        assert(e.detail@ =~= "missing header: X-Cargo-Auth"@);
        return Err(e);
    }
    match name {
        Some(_) => {},
        None => {
            let e = missing("X-Cargo-Pkg-Name");
            assert(e.detail@ =~= "missing header: X-Cargo-Pkg-Name"@);
            return Err(e);
        },
    }
    let vers = match vers {
        Some(vers) => vers,
        None => {
            let e = missing("X-Cargo-Pkg-Version");
            assert(e.detail@ =~= "missing header: X-Cargo-Pkg-Version"@);
            return Err(e);
        },
    };
    let feature_text = match features {
        Some(text) => text,
        None => {
            let e = missing("X-Cargo-Pkg-Feature");
            assert(e.detail@ =~= "missing header: X-Cargo-Pkg-Feature"@);
            return Err(e);
        },
    };
    let deps = match deps {
        Some(deps) => deps,
        None => {
            return Err(Error::new(ErrorKind::InvalidRequest, "malformed dependency header"));
        },
    };
    if feature_text.as_str().as_bytes().len() > MAX_FEATURE_HEADER {
        return Err(Error::new(ErrorKind::InvalidRequest, "feature header is too long"));
    }
    let feat = match feature_map {
        Some(map) => map,
        None => {
            return Err(Error::new(ErrorKind::InvalidRequest, "malformed feature header"));
        },
    };

    // Make sure the tarball being uploaded looks sane
    let length = match content_length {
        Some(length) => length,
        None => {
            let e = missing("Content-Length");
            assert(e.detail@ =~= "missing header: Content-Length"@);
            return Err(e);
        },
    };
    if length > max_upload_size {
        let max = decimal_string(max_upload_size);
        let e = Error::about(ErrorKind::ValidationFailed, "max upload size is: ", max.as_str(), "");
        proof {
            reveal_strlit("");
            assert(e.detail@ =~= "max upload size is: "@ + decimal(max_upload_size as nat));
        }
        return Err(e);
    }
    let ty = match content_type {
        Some(ty) => ty,
        None => {
            let e = missing("Content-Type");
            assert(e.detail@ =~= "missing header: Content-Type"@);
            return Err(e);
        },
    };
    if ty != String::from_str("application/x-tar") {
        return Err(
            Error::about(
                ErrorKind::ValidationFailed,
                "expected `application/x-tar`, found `",
                ty.as_str(),
                "`",
            ),
        );
    }
    let enc = match content_encoding {
        Some(enc) => enc,
        None => {
            let e = missing("Content-Encoding");
            assert(e.detail@ =~= "missing header: Content-Encoding"@);
            return Err(e);
        },
    };
    if enc != String::from_str("gzip") && enc != String::from_str("x-gzip") {
        return Err(
            Error::about(ErrorKind::ValidationFailed, "expected `gzip`, found `", enc.as_str(), "`"),
        );
    }

    // Make sure the api token is a valid api token
    let user = match account {
        Some(user) => user,
        None => {
            return Err(
                Error::new(ErrorKind::InvalidRequest, "invalid or unknown auth token supplied"),
            );
        },
    };

    // Validate the name parameter and such
    let new_pkg = NewPackage {
        name: lower_name,
        vers: vers,
        deps: deps,
        features: feat,
        cksum: String::new(),
    };
    if !name_valid {
        return Err(
            Error::about(
                ErrorKind::ValidationFailed,
                "invalid package name: `",
                new_pkg.name.as_str(),
                "`",
            ),
        );
    }
    if !version_valid {
        return Err(
            Error::about(
                ErrorKind::ValidationFailed,
                "invalid package version: `",
                new_pkg.vers.as_str(),
                "`",
            ),
        );
    }
    Ok((new_pkg, user))
}

/// Checks an upload's headers. `account` is what the authentication service
/// made of the `X-Cargo-Auth` header. On success the package to publish and
/// the account that publishes it come back.
pub fn parse_new_headers(headers: UploadHeaders, account: Option<User>, max_upload_size: u64) -> (r:
    Result<(NewPackage, User), Error>)
    ensures
        match r {
            Ok((pkg, user)) => {
                &&& header_fault(headers, account, max_upload_size) is None
                &&& pkg@ == announced(headers)
                &&& distinct_names(pkg@.features)
                &&& Some(user) == account
            },
            Err(e) => header_fault(headers, account, max_upload_size) == Some((e.kind, e.detail@)),
        },
{
    let features = match &headers.features {
        Some(text) => features_from_header(text.as_str()),
        None => None,
    };
    let name = match &headers.name {
        Some(name) => to_lowercase(name.as_str()),
        None => String::new(),
    };
    let name_valid = Package::valid_name(name.as_str());
    let version_valid = match &headers.vers {
        Some(vers) => Version::valid(vers.as_str()),
        None => false,
    };
    judge_headers(
        headers,
        account,
        max_upload_size,
        Readings { features, name, name_valid, version_valid },
    )
}

} // verus!

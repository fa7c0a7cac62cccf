//! What the registry answers: listings, the summary, one package, and the
//! way to a tarball.

use vstd::prelude::*;
use vstd::string::*;
use crate::catalog::{Catalog, CatalogView};
use crate::error::{Error, ErrorKind};
use crate::package::{blob_path, EncodablePackage, Package, PackageView, UpdateRequest};
use crate::rank::{is_top, top, top_ranked};
use crate::text::{chars_of, has_prefix, has_suffix, lowercase, parse_i64, parsed_i64, to_lowercase};
use crate::upload::User;
use crate::version::{EncodableVersion, Version};

verus! {

/// The most packages that one page of a listing holds.
pub const MAX_PER_PAGE: i64 = 100;

/// The page size of a listing that asks for none.
pub const DEFAULT_PER_PAGE: i64 = 10;

/// The length of each list of the summary.
pub const SUMMARY_LENGTH: usize = 10;

/// One page of a listing, and how many packages the whole listing has.
#[derive(Debug)]
pub struct PackageList {
    pub packages: Vec<EncodablePackage>,
    pub total: u64,
}

/// The registry at a glance.
#[derive(Debug)]
pub struct Summary {
    pub num_downloads: i64,
    pub num_packages: u64,
    pub new_packages: Vec<EncodablePackage>,
    pub most_downloaded: Vec<EncodablePackage>,
    pub just_updated: Vec<EncodablePackage>,
}

/// A package with all its versions.
#[derive(Debug)]
pub struct PackageDetail {
    pub package: EncodablePackage,
    pub versions: Vec<EncodableVersion>,
}

/// The answer to a download: a redirect to the tarball, or for a client that
/// prefers data, an envelope with the same location.
#[derive(Debug)]
pub enum DownloadResponse {
    Redirect(String),
    Json { ok: bool, url: String },
}

/// Whether `name` begins with `prefix`, letter case aside. The empty prefix
/// begins every name.
pub open spec fn matches_prefix(name: Seq<char>, prefix: Seq<char>) -> bool {
    prefix.len() == 0 || lowercase(prefix).is_prefix_of(lowercase(name))
}

/// The packages whose names begin with `prefix`.
pub open spec fn with_prefix(prefix: Seq<char>) -> spec_fn(PackageView) -> bool {
    |p: PackageView| matches_prefix(p.name, prefix)
}

/// The packages of `cv` whose names begin with `prefix`, in insertion order.
pub open spec fn matching(cv: CatalogView, prefix: Seq<char>) -> Seq<PackageView> {
    cv.packages.filter(with_prefix(prefix))
}

/// What is wrong with the numbers of a listing request, if anything.
pub open spec fn list_fault(page: i64, per_page: i64) -> Option<(ErrorKind, Seq<char>)> {
    if per_page > MAX_PER_PAGE {
        Some((ErrorKind::InvalidRequest, "cannot request more than 100 packages"@))
    } else if page < 1 || per_page < 0 {
        Some((ErrorKind::InvalidRequest, "page and per_page must not be negative"@))
    } else {
        None
    }
}

/// How many rows of `total` stand before page `page`.
pub open spec fn page_start(page: i64, per_page: i64, total: int) -> int {
    if (page - 1) * per_page < total {
        (page - 1) * per_page
    } else {
        total
    }
}

/// How many rows of `total` stand before the end of page `page`.
pub open spec fn page_end(page: i64, per_page: i64, total: int) -> int {
    if page_start(page, per_page, total) + per_page < total {
        page_start(page, per_page, total) + per_page
    } else {
        total
    }
}

/// The rows of page `page` of the listing for `prefix`.
pub open spec fn page_rows(cv: CatalogView, page: i64, per_page: i64, prefix: Seq<char>) -> Seq<
    PackageView,
> {
    let rows = matching(cv, prefix);
    rows.subrange(
        page_start(page, per_page, rows.len() as int),
        page_end(page, per_page, rows.len() as int),
    )
}

/// `r` is the answer to the listing request: an error for bad numbers, else
/// the page's rows, each with the identifiers of its versions, and the count
/// of all rows that match.
pub open spec fn is_listing(
    cv: CatalogView,
    page: i64,
    per_page: i64,
    prefix: Seq<char>,
    r: Result<PackageList, Error>,
) -> bool {
    match r {
        Ok(list) => {
            let rows = page_rows(cv, page, per_page, prefix);
            &&& list_fault(page, per_page) is None
            &&& list.total == matching(cv, prefix).len()
            &&& list.packages@.len() == rows.len()
            &&& forall|i: int|
                0 <= i < rows.len() ==> (#[trigger] list.packages@[i])@ == rows[i].encoded(
                    cv.version_ids_of(rows[i].id),
                )
        },
        Err(e) => list_fault(page, per_page) == Some((e.kind, e.detail@)),
    }
}

/// The number that a query parameter gives: `default` where the parameter
/// is absent, what it denotes where it is a number, and `None` where it is
/// present and no number.
pub open spec fn query_number(text: Option<&str>, default: i64) -> Option<i64> {
    match text {
        Some(t) => parsed_i64(t@),
        None => Some(default),
    }
}

/// `r` is the answer to the listing that a query asks for: an error where
/// `page` or `per_page` is no number, else the answer to the listing with
/// the numbers given or defaulted.
pub open spec fn is_index(
    cv: CatalogView,
    page: Option<&str>,
    per_page: Option<&str>,
    letter: Option<&str>,
    r: Result<PackageList, Error>,
) -> bool {
    match (query_number(page, 1), query_number(per_page, DEFAULT_PER_PAGE)) {
        (Some(page), Some(per_page)) => is_listing(cv, page, per_page, query_prefix(letter), r),
        _ => r matches Err(e) && e.says(
            ErrorKind::InvalidRequest,
            "page and per_page must be numbers"@,
        ),
    }
}

/// The prefix that a query asks for: none where the parameter is absent.
pub open spec fn query_prefix(text: Option<&str>) -> Seq<char> {
    match text {
        Some(t) => t@,
        None => Seq::empty(),
    }
}

/// The packages of `conn` whose names begin with `prefix`.
fn matching_packages(conn: &Catalog, prefix: &str) -> (rows: Vec<Package>)
    requires
        conn.wf(),
    ensures
        rows@.len() == matching(conn@, prefix@).len(),
        forall|i: int| 0 <= i < rows@.len() ==> (#[trigger] rows@[i])@ == matching(conn@, prefix@)[i],
        forall|i: int| 0 <= i < rows@.len() ==> (#[trigger] rows@[i]).wf(),
{
    let all = conn.packages();
    let wanted = chars_of(to_lowercase(prefix).as_str());
    let any = chars_of(prefix).len() == 0;
    let mut rows: Vec<Package> = Vec::new();
    let mut i: usize = 0;
    let ghost pred = with_prefix(prefix@);
    assert(conn@.packages.take(0) =~= Seq::empty());
    proof {
        Seq::<PackageView>::empty().lemma_filter_len(pred);
    }
    while i < all.len()
        invariant
            i <= all.len(),
            conn.wf(),
            all@.len() == conn@.packages.len(),
            forall|k: int| 0 <= k < all@.len() ==> (#[trigger] all@[k])@ == conn@.packages[k],
            pred == with_prefix(prefix@),
            wanted@ == lowercase(prefix@),
            any == (prefix@.len() == 0),
            rows@.len() == conn@.packages.take(i as int).filter(pred).len(),
            forall|k: int|
                0 <= k < rows@.len() ==> (#[trigger] rows@[k])@ == conn@.packages.take(
                    i as int,
                ).filter(pred)[k],
            forall|k: int| 0 <= k < rows@.len() ==> (#[trigger] rows@[k]).wf(),
        decreases all.len() - i,
    {
        proof {
            let done = conn@.packages.take(i as int);
            let row = conn@.packages[i as int];
            done.lemma_filter_push(row, pred);
            assert(conn@.packages.take(i + 1) =~= done.push(row));
            assert(all@[i as int]@ == row);
            assert(row.wf());
        }
        let hit = any || has_prefix(&chars_of(to_lowercase(all[i].name.as_str()).as_str()), &wanted);
        if hit {
            rows.push(all[i].clone());
        }
        i += 1;
    }
    assert(conn@.packages.take(i as int) =~= conn@.packages);
    rows
}

/// One page of the packages whose names begin with `prefix`, letter case
/// aside. Pages are counted from 1 and hold `per_page` packages, at most
/// [`MAX_PER_PAGE`]; a page beyond the last is empty. The total counts every
/// match, whatever the page.
pub fn list(conn: &Catalog, page: i64, per_page: i64, prefix: &str) -> (r: Result<PackageList, Error>)
    requires
        conn.wf(),
    ensures
        is_listing(conn@, page, per_page, prefix@, r),
        r is Err <==> per_page > MAX_PER_PAGE || page < 1 || per_page < 0,
        r matches Ok(list) ==> {
            let left = matching(conn@, prefix@).len() - (page - 1) * per_page;
            list.packages@.len() == if left <= 0 {
                0
            } else if left < per_page {
                left
            } else {
                per_page as int
            }
        },
{
    if per_page > MAX_PER_PAGE {
        return Err(Error::new(ErrorKind::InvalidRequest, "cannot request more than 100 packages"));
    }
    if page < 1 || per_page < 0 {
        return Err(Error::new(ErrorKind::InvalidRequest, "page and per_page must not be negative"));
    }
    let rows = matching_packages(conn, prefix);
    let total = rows.len();
    assert(0 <= (page - 1) * per_page <= i64::MAX * 100) by (nonlinear_arith)
        requires
            0 <= page - 1 <= i64::MAX,
            0 <= per_page <= 100,
    ;
    let before: i128 = (page as i128 - 1) * (per_page as i128);
    let start: usize = if before < total as i128 {
        before as usize
    } else {
        total
    };
    let end: usize = if (per_page as i128) < (total - start) as i128 {
        start + per_page as usize
    } else {
        total
    };
    let mut wanted: Vec<Package> = Vec::new();
    let mut i: usize = start;
    while i < end
        invariant
            start <= i <= end <= rows@.len(),
            wanted@ == rows@.subrange(start as int, i as int),
        decreases end - i,
    {
        wanted.push(rows[i].clone());
        assert(wanted@ =~= rows@.subrange(start as int, i + 1));
        i += 1;
    }
    let packages = Package::encode_many(conn, wanted);
    Ok(PackageList { packages, total: total as u64 })
}

/// A listing as a query asks for it. `page` and `per_page` default to 1 and
/// [`DEFAULT_PER_PAGE`] where they are absent; where one is present and no
/// number, the request is refused before the catalog is looked at. `letter`
/// is the prefix that names must begin with.
pub fn index(conn: &Catalog, page: Option<&str>, per_page: Option<&str>, letter: Option<&str>) -> (r:
    Result<PackageList, Error>)
    requires
        conn.wf(),
    ensures
        is_index(conn@, page, per_page, letter, r),
{
    let page = match page {
        Some(text) => parse_i64(text),
        None => Some(1),
    };
    let limit = match per_page {
        Some(text) => parse_i64(text),
        None => Some(DEFAULT_PER_PAGE),
    };
    let (page, limit) = match (page, limit) {
        (Some(page), Some(limit)) => (page, limit),
        _ => {
            return Err(
                Error::new(ErrorKind::InvalidRequest, "page and per_page must be numbers"),
            );
        },
    };
    match letter {
        Some(prefix) => list(conn, page, limit, prefix),
        None => {
            proof {
                reveal_strlit("");
                assert(""@ =~= Seq::<char>::empty());
            }
            list(conn, page, limit, "")
        },
    }
}

/// The key by which the newest packages come first.
pub open spec fn by_creation() -> spec_fn(PackageView) -> (i64, i64) {
    |p: PackageView| (p.created_at.sec, p.created_at.nsec as i64)
}

/// The key by which the packages changed last come first.
pub open spec fn by_update() -> spec_fn(PackageView) -> (i64, i64) {
    |p: PackageView| (p.updated_at.sec, p.updated_at.nsec as i64)
}

/// The key by which the packages downloaded most come first.
pub open spec fn by_downloads() -> spec_fn(PackageView) -> (i64, i64) {
    |p: PackageView| (p.downloads as i64, 0i64)
}

/// `list` holds the first [`SUMMARY_LENGTH`] packages of `cv` in descending
/// order of `keys`, packages with equal keys in insertion order, each with
/// the identifiers of its published versions. The picks are a top of the
/// keys, and by [`crate::rank::lemma_top_is_unique`] the only one.
pub open spec fn is_picked(cv: CatalogView, keys: Seq<(i64, i64)>, list: Seq<EncodablePackage>) -> bool {
    let picks = top(keys, SUMMARY_LENGTH as int);
    &&& is_top(keys, picks, SUMMARY_LENGTH as int)
    &&& list.len() == picks.len()
    &&& forall|k: int|
        0 <= k < list.len() ==> picks[k] < cv.packages.len() && (#[trigger] list[k])@
            == cv.packages[picks[k] as int].encoded(
            cv.version_ids_of(cv.packages[picks[k] as int].id),
        )
}

/// `list` is the summary's list of `cv` for the given key.
pub open spec fn is_ranking(
    cv: CatalogView,
    key: spec_fn(PackageView) -> (i64, i64),
    list: Seq<EncodablePackage>,
) -> bool {
    is_picked(cv, cv.packages.map_values(key), list)
}

/// The first packages of `conn` in descending order of `keys`.
fn pick(conn: &Catalog, keys: &Vec<(i64, i64)>) -> (list: Vec<EncodablePackage>)
    requires
        conn.wf(),
        keys@.len() == conn@.packages.len(),
    ensures
        is_picked(conn@, keys@, list@),
{
    let all = conn.packages();
    let picks = top_ranked(keys, SUMMARY_LENGTH);
    let mut rows: Vec<Package> = Vec::new();
    let mut k: usize = 0;
    while k < picks.len()
        invariant
            k <= picks@.len(),
            conn.wf(),
            all@.len() == conn@.packages.len(),
            forall|i: int| 0 <= i < all@.len() ==> (#[trigger] all@[i])@ == conn@.packages[i],
            forall|i: int| 0 <= i < picks@.len() ==> (#[trigger] picks@[i]) < all@.len(),
            rows@.len() == k,
            forall|i: int| 0 <= i < k ==> (#[trigger] rows@[i])@ == conn@.packages[picks@[i] as int],
            forall|i: int| 0 <= i < k ==> (#[trigger] rows@[i]).wf(),
        decreases picks.len() - k,
    {
        let row = all[picks[k]].clone();
        assert(row@ == conn@.packages[picks@[k as int] as int]);
        rows.push(row);
        k += 1;
    }
    Package::encode_many(conn, rows)
}

/// The registry at a glance: how many packages and downloads there are, and
/// the ten newest, the ten most downloaded and the ten last changed
/// packages.
pub fn summary(conn: &Catalog) -> (r: Summary)
    requires
        conn.wf(),
    ensures
        r.num_packages == conn@.packages.len(),
        r.num_downloads == conn@.total_downloads,
        is_ranking(conn@, by_creation(), r.new_packages@),
        is_ranking(conn@, by_downloads(), r.most_downloaded@),
        is_ranking(conn@, by_update(), r.just_updated@),
{
    let all = conn.packages();
    let mut created: Vec<(i64, i64)> = Vec::new();
    let mut updated: Vec<(i64, i64)> = Vec::new();
    let mut downloads: Vec<(i64, i64)> = Vec::new();
    let mut i: usize = 0;
    while i < all.len()
        invariant
            i <= all.len(),
            all@.len() == conn@.packages.len(),
            forall|k: int| 0 <= k < all@.len() ==> (#[trigger] all@[k])@ == conn@.packages[k],
            created@ == conn@.packages.take(i as int).map_values(by_creation()),
            updated@ == conn@.packages.take(i as int).map_values(by_update()),
            downloads@ == conn@.packages.take(i as int).map_values(by_downloads()),
        decreases all.len() - i,
    {
        let p = &all[i];
        proof {
            let done = conn@.packages.take(i as int);
            let row = conn@.packages[i as int];
            assert(p@ == row);
            assert(conn@.packages.take(i + 1) =~= done.push(row));
            assert(done.push(row).map_values(by_creation()) =~= done.map_values(by_creation()).push(
                by_creation()(row),
            ));
            assert(done.push(row).map_values(by_update()) =~= done.map_values(by_update()).push(
                by_update()(row),
            ));
            assert(done.push(row).map_values(by_downloads()) =~= done.map_values(
                by_downloads(),
            ).push(by_downloads()(row)));
        }
        created.push((p.created_at.sec, p.created_at.nsec as i64));
        updated.push((p.updated_at.sec, p.updated_at.nsec as i64));
        downloads.push((p.downloads as i64, 0));
        i += 1;
    }
    assert(conn@.packages.take(i as int) =~= conn@.packages);
    Summary {
        num_downloads: conn.total_downloads(),
        num_packages: all.len() as u64,
        new_packages: pick(conn, &created),
        most_downloaded: pick(conn, &downloads),
        just_updated: pick(conn, &updated),
    }
}

/// The package named `name` with all its published versions, in insertion
/// order.
pub fn show(conn: &Catalog, name: &str) -> (r: Result<PackageDetail, Error>)
    requires
        conn.wf(),
    ensures
        r is Ok <==> conn@.has_name(name@),
        r matches Ok(detail) ==> {
            let row = conn@.named(name@);
            let versions = conn@.versions_of(row.id);
            &&& detail.package@ == row.encoded(conn@.version_ids_of(row.id))
            &&& detail.versions@.len() == versions.len()
            &&& forall|i: int|
                0 <= i < versions.len() ==> (#[trigger] detail.versions@[i])@ == versions[i].encoded(
                    row.name,
                )
        },
        r matches Err(e) ==> e.says(ErrorKind::NotFound, "not found"@),
{
    let pkg = match Package::find_by_name(conn, name) {
        Ok(pkg) => pkg,
        Err(e) => {
            return Err(e);
        },
    };
    let versions = pkg.versions(conn);
    let mut encoded: Vec<EncodableVersion> = Vec::new();
    let mut i: usize = 0;
    while i < versions.len()
        invariant
            i <= versions@.len(),
            encoded@.len() == i,
            forall|k: int| 0 <= k < versions@.len() ==> (#[trigger] versions@[k]).wf(),
            forall|k: int|
                0 <= k < i ==> (#[trigger] encoded@[k])@ == versions@[k]@.encoded(pkg.name@),
        decreases versions.len() - i,
    {
        encoded.push(versions[i].clone().encodable(&pkg));
        i += 1;
    }
    let ids = conn.version_ids(pkg.id);
    Ok(PackageDetail { package: pkg.encodable(ids), versions: encoded })
}

/// Takes a request to change the package named `name`. The request is
/// accepted from a signed-in account and changes nothing; the package comes
/// back as it is, without its versions.
pub fn update(conn: &Catalog, user: Option<User>, name: &str, request: &UpdateRequest) -> (r: Result<
    EncodablePackage,
    Error,
>)
    requires
        conn.wf(),
    ensures
        r is Ok <==> user is Some && conn@.has_name(name@),
        r matches Ok(pkg) ==> pkg@ == conn@.named(name@).encoded(Seq::empty()),
        r matches Err(e) ==> if user is None {
            e.says(ErrorKind::InvalidRequest, "must be logged in to perform that action"@)
        } else {
            e.says(ErrorKind::NotFound, "not found"@)
        },
{
    if user.is_none() {
        return Err(
            Error::new(ErrorKind::InvalidRequest, "must be logged in to perform that action"),
        );
    }
    let pkg = match Package::find_by_name(conn, name) {
        Ok(pkg) => pkg,
        Err(e) => {
            return Err(e);
        },
    };
    Ok(pkg.encodable(Vec::new()))
}

/// The version that a tarball's file name stands for: what lies between the
/// package's name with one separating character and the ending `.tar.gz`.
/// `None` where the file name does not begin with the name, does not end so,
/// or is too short to do both.
pub open spec fn tarball_version(pkg_name: Seq<char>, filename: Seq<char>) -> Option<Seq<char>> {
    if pkg_name.is_prefix_of(filename) && ".tar.gz"@.is_suffix_of(filename) && filename.len()
        >= pkg_name.len() + 1 + ".tar.gz"@.len() {
        Some(filename.subrange(pkg_name.len() as int + 1, filename.len() - ".tar.gz"@.len()))
    } else {
        None
    }
}

/// Where the blob store offers the tarball of `name` at `version` to the
/// public: under `/pkg/` on its host, at the blob's key.
pub open spec fn public_location(host: Seq<char>, name: Seq<char>, version: Seq<char>) -> Seq<char> {
    "https://"@ + host + "/pkg/"@ + blob_path(name, version)
}

/// Why a download cannot be served, if it cannot. A version that never
/// reached the index is not found.
pub open spec fn download_fault(cv: CatalogView, pkg_name: Seq<char>, filename: Seq<char>) -> Option<
    (ErrorKind, Seq<char>),
> {
    match tarball_version(pkg_name, filename) {
        None => Some(
            (
                ErrorKind::InvalidRequest,
                "download filename is not a tarball with the package name as a prefix"@,
            ),
        ),
        Some(version) => if cv.has_name(pkg_name) && cv.has_published(
            cv.named(pkg_name).id,
            version,
        ) {
            None
        } else {
            Some((ErrorKind::NotFound, "package or version not found"@))
        },
    }
}

/// Serves a download of `filename` of the package `pkg_name`: counts it, and
/// answers with the tarball's public location at the blob store's `host`,
/// as a redirect or, if `wants_json`, as data. A request that cannot be
/// served counts nothing.
pub fn download(conn: &mut Catalog, pkg_name: &str, filename: &str, host: &str, wants_json: bool) -> (r:
    Result<DownloadResponse, Error>)
    requires
        old(conn).wf(),
    ensures
        final(conn).wf(),
        match r {
            Ok(response) => {
                let version = tarball_version(pkg_name@, filename@)->0;
                let row = old(conn)@.named(pkg_name@);
                let url = public_location(host@, pkg_name@, version);
                &&& download_fault(old(conn)@, pkg_name@, filename@) is None
                &&& final(conn)@ == old(conn)@.count_download(
                    row.id,
                    old(conn)@.version_of(row.id, version).id,
                )
                &&& match response {
                    DownloadResponse::Redirect(to) => !wants_json && to@ == url,
                    DownloadResponse::Json { ok, url: to } => wants_json && ok && to@ == url,
                }
            },
            Err(e) => {
                &&& download_fault(old(conn)@, pkg_name@, filename@) == Some((e.kind, e.detail@))
                &&& final(conn)@ == old(conn)@
            },
        },
{
    proof {
        reveal_strlit(".tar.gz");
    }
    let name_chars = chars_of(pkg_name);
    let file_chars = chars_of(filename);
    let ending = chars_of(".tar.gz");
    if !has_prefix(&file_chars, &name_chars) || !has_suffix(&file_chars, &ending)
        || file_chars.len() - name_chars.len() < 1 + ending.len() {
        return Err(
            Error::new(
                ErrorKind::InvalidRequest,
                "download filename is not a tarball with the package name as a prefix",
            ),
        );
    }
    let version = filename.substring_char(name_chars.len() + 1, file_chars.len() - ending.len());
    let pkg = match Package::find_by_name(conn, pkg_name) {
        Ok(pkg) => pkg,
        Err(_) => {
            return Err(Error::new(ErrorKind::NotFound, "package or version not found"));
        },
    };
    let vers = match Version::find_by_num(conn, pkg.id, version) {
        Some(vers) => vers,
        None => {
            return Err(Error::new(ErrorKind::NotFound, "package or version not found"));
        },
    };
    if !vers.published {
        return Err(Error::new(ErrorKind::NotFound, "package or version not found"));
    }

    // Bump download counts.
    conn.record_download(pkg.id, vers.id);

    // Now that we've done our business, redirect to the actual data.
    let mut redirect_url = String::from_str("https://");
    redirect_url.append(host);
    redirect_url.append("/pkg/");
    redirect_url.append(pkg.s3_path(version).as_str());
    assert(redirect_url@ =~= public_location(host@, pkg_name@, version@));
    if wants_json {
        Ok(DownloadResponse::Json { ok: true, url: redirect_url })
    } else {
        Ok(DownloadResponse::Redirect(redirect_url))
    }
}

} // verus!

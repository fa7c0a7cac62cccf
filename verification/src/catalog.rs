//! The catalog of packages and versions, and the operations on its rows.

use vstd::prelude::*;
use vstd::string::*;
use crate::error::{Error, ErrorKind};
use crate::package::{EncodablePackage, Package, PackageView};
use crate::timestamp::Timespec;
use crate::version::{Version, VersionView};

verus! {

/// The rows of the registry: packages and versions in the order in which
/// they were inserted, the edges from versions to the packages they depend
/// on, and the count of all downloads.
pub struct Catalog {
    packages: Vec<Package>,
    versions: Vec<Version>,
    dependencies: Vec<(i32, i32)>,
    total_downloads: i64,
}

/// What a [`Catalog`] holds.
pub struct CatalogView {
    pub packages: Seq<PackageView>,
    pub versions: Seq<VersionView>,
    /// Pairs of a version's identifier and that of a package it depends on.
    pub dependencies: Seq<(i32, i32)>,
    pub total_downloads: i64,
}

impl CatalogView {
    /// The catalog with no rows.
    pub open spec fn empty() -> CatalogView {
        CatalogView {
            packages: Seq::empty(),
            versions: Seq::empty(),
            dependencies: Seq::empty(),
            total_downloads: 0,
        }
    }

    /// The constraints of the store: rows are well formed, identifiers grow
    /// with insertion, no two packages share a name, every version belongs
    /// to a package, no two versions of one package share a number, and no
    /// counter is negative.
    pub open spec fn wf(self) -> bool {
        &&& forall|i: int| 0 <= i < self.packages.len() ==> (#[trigger] self.packages[i]).wf()
        &&& forall|i: int, j: int|
            0 <= i < j < self.packages.len() ==> (#[trigger] self.packages[i]).id < (
            #[trigger] self.packages[j]).id
        &&& forall|i: int, j: int|
            0 <= i < j < self.packages.len() ==> (#[trigger] self.packages[i]).name != (
            #[trigger] self.packages[j]).name
        &&& forall|i: int| 0 <= i < self.versions.len() ==> (#[trigger] self.versions[i]).wf()
        &&& forall|i: int|
            0 <= i < self.versions.len() ==> self.has_id((#[trigger] self.versions[i]).package_id)
        &&& forall|i: int, j: int|
            0 <= i < j < self.versions.len() ==> (#[trigger] self.versions[i]).id < (
            #[trigger] self.versions[j]).id
        &&& forall|i: int, j: int|
            0 <= i < j < self.versions.len() ==> !((#[trigger] self.versions[i]).package_id == (
            #[trigger] self.versions[j]).package_id && self.versions[i].num == self.versions[j].num)
        &&& self.total_downloads >= 0
    }

    /// Some package has the identifier `id`.
    pub open spec fn has_id(self, id: i32) -> bool {
        exists|i: int| 0 <= i < self.packages.len() && (#[trigger] self.packages[i]).id == id
    }

    /// The package with the identifier `id`, where there is one.
    pub open spec fn with_id(self, id: i32) -> PackageView
        recommends
            self.has_id(id),
    {
        self.packages[choose|i: int|
            0 <= i < self.packages.len() && (#[trigger] self.packages[i]).id == id]
    }

    /// Some package is named `name`.
    pub open spec fn has_name(self, name: Seq<char>) -> bool {
        exists|i: int| 0 <= i < self.packages.len() && (#[trigger] self.packages[i]).name == name
    }

    /// The package named `name`, where there is one.
    pub open spec fn named(self, name: Seq<char>) -> PackageView
        recommends
            self.has_name(name),
    {
        self.packages[choose|i: int|
            0 <= i < self.packages.len() && (#[trigger] self.packages[i]).name == name]
    }

    /// The identifier that the next package row gets.
    pub open spec fn next_package_id(self) -> int {
        if self.packages.len() == 0 {
            1
        } else {
            self.packages.last().id + 1
        }
    }

    /// The row that [`Self::insert_package`] adds.
    pub open spec fn new_package(self, name: Seq<char>, user_id: i32, now: Timespec) -> PackageView {
        PackageView {
            id: self.next_package_id() as i32,
            name,
            user_id,
            updated_at: now,
            created_at: now,
            downloads: 0,
        }
    }

    /// The catalog with one more package, owned by `user_id` and never
    /// downloaded.
    pub open spec fn insert_package(self, name: Seq<char>, user_id: i32, now: Timespec) -> CatalogView {
        CatalogView { packages: self.packages.push(self.new_package(name, user_id, now)), ..self }
    }

    /// The package that a find-or-insert of `name` yields: the row of that
    /// name if there is one, else the new row, unless the identifiers are
    /// used up.
    pub open spec fn found_or_inserted(self, name: Seq<char>, user_id: i32, now: Timespec) -> Option<
        PackageView,
    > {
        if self.has_name(name) {
            Some(self.named(name))
        } else if self.next_package_id() <= i32::MAX {
            Some(self.new_package(name, user_id, now))
        } else {
            None
        }
    }

    /// The catalog after a find-or-insert of `name`.
    pub open spec fn after_find_or_insert(self, name: Seq<char>, user_id: i32, now: Timespec) -> CatalogView {
        if !self.has_name(name) && self.next_package_id() <= i32::MAX {
            self.insert_package(name, user_id, now)
        } else {
            self
        }
    }
}

/// The published versions of the package `package_id`.
pub open spec fn published_of(package_id: i32) -> spec_fn(VersionView) -> bool {
    |v: VersionView| v.package_id == package_id && v.published
}

/// A version's identifier.
pub open spec fn version_id() -> spec_fn(VersionView) -> i32 {
    |v: VersionView| v.id
}

/// A counter after one more download: one higher, unless it is at the top of
/// its range, where it stays.
pub open spec fn bumped(n: i32) -> i32 {
    if n < i32::MAX {
        (n + 1) as i32
    } else {
        n
    }
}

impl CatalogView {
    /// The package `package_id` has a version numbered `num`.
    pub open spec fn has_version(self, package_id: i32, num: Seq<char>) -> bool {
        exists|i: int|
            0 <= i < self.versions.len() && (#[trigger] self.versions[i]).package_id == package_id
                && self.versions[i].num == num
    }

    /// The version numbered `num` of the package `package_id`, where there
    /// is one.
    pub open spec fn version_of(self, package_id: i32, num: Seq<char>) -> VersionView
        recommends
            self.has_version(package_id, num),
    {
        self.versions[choose|i: int|
            0 <= i < self.versions.len() && (#[trigger] self.versions[i]).package_id == package_id
                && self.versions[i].num == num]
    }

    /// The identifier that the next version row gets.
    pub open spec fn next_version_id(self) -> int {
        if self.versions.len() == 0 {
            1
        } else {
            self.versions.last().id + 1
        }
    }

    /// The row that [`Self::insert_version`] adds.
    pub open spec fn new_version(self, package_id: i32, num: Seq<char>, now: Timespec) -> VersionView {
        VersionView {
            id: self.next_version_id() as i32,
            package_id,
            num,
            updated_at: now,
            created_at: now,
            downloads: 0,
            published: false,
        }
    }

    /// The catalog with one more version of the package `package_id`, not
    /// published yet.
    pub open spec fn insert_version(self, package_id: i32, num: Seq<char>, now: Timespec) -> CatalogView {
        CatalogView { versions: self.versions.push(self.new_version(package_id, num, now)), ..self }
    }

    /// A version can be inserted: its package is there, its number is new
    /// for the package, and an identifier is left for it.
    pub open spec fn can_insert_version(self, package_id: i32, num: Seq<char>) -> bool {
        self.has_id(package_id) && !self.has_version(package_id, num) && self.next_version_id()
            <= i32::MAX
    }

    /// The package `package_id` has a published version numbered `num`.
    pub open spec fn has_published(self, package_id: i32, num: Seq<char>) -> bool {
        self.has_version(package_id, num) && self.version_of(package_id, num).published
    }

    /// The catalog after the index took the version `version_id`: the
    /// version is published. An identifier that names no row changes no row.
    pub open spec fn publish_version(self, version_id: i32) -> CatalogView {
        CatalogView {
            versions: self.versions.map_values(
                |v: VersionView|
                    if v.id == version_id {
                        VersionView { published: true, ..v }
                    } else {
                        v
                    },
            ),
            ..self
        }
    }

    /// The catalog with one more edge, from a version to a package that it
    /// depends on.
    pub open spec fn link(self, version_id: i32, package_id: i32) -> CatalogView {
        CatalogView { dependencies: self.dependencies.push((version_id, package_id)), ..self }
    }

    /// The published versions of the package `package_id`, in insertion
    /// order. A row whose version never reached the index is left out.
    pub open spec fn versions_of(self, package_id: i32) -> Seq<VersionView> {
        self.versions.filter(published_of(package_id))
    }

    /// The identifiers of the published versions of the package
    /// `package_id`, in insertion order.
    pub open spec fn version_ids_of(self, package_id: i32) -> Seq<i32> {
        self.versions_of(package_id).map_values(version_id())
    }

    /// The catalog after one download of the version `version_id` of the
    /// package `package_id`: the counters of both rows and the total go up by
    /// one. An identifier that names no row changes no row.
    pub open spec fn count_download(self, package_id: i32, version_id: i32) -> CatalogView {
        CatalogView {
            packages: self.packages.map_values(
                |p: PackageView|
                    if p.id == package_id {
                        PackageView { downloads: bumped(p.downloads), ..p }
                    } else {
                        p
                    },
            ),
            versions: self.versions.map_values(
                |v: VersionView|
                    if v.id == version_id {
                        VersionView { downloads: bumped(v.downloads), ..v }
                    } else {
                        v
                    },
            ),
            dependencies: self.dependencies,
            total_downloads: if self.total_downloads < i64::MAX {
                (self.total_downloads + 1) as i64
            } else {
                self.total_downloads
            },
        }
    }
}

/// The catalog that holds the given rows, edges and total.
pub open spec fn rows_view(
    packages: Seq<Package>,
    versions: Seq<Version>,
    dependencies: Seq<(i32, i32)>,
    total_downloads: i64,
) -> CatalogView {
    CatalogView {
        packages: packages.map_values(|p: Package| p@),
        versions: versions.map_values(|v: Version| v@),
        dependencies,
        total_downloads,
    }
}

impl View for Catalog {
    type V = CatalogView;

    closed spec fn view(&self) -> CatalogView {
        rows_view(self.packages@, self.versions@, self.dependencies@, self.total_downloads)
    }
}

impl Catalog {
    /// The constraints of the store hold; see [`CatalogView::wf`].
    pub open spec fn wf(&self) -> bool {
        self@.wf()
    }

    /// A catalog with no rows.
    pub fn new() -> (conn: Catalog)
        ensures
            conn@ == CatalogView::empty(),
            conn.wf(),
    {
        let conn = Catalog {
            packages: Vec::new(),
            versions: Vec::new(),
            dependencies: Vec::new(),
            total_downloads: 0,
        };
        assert(conn@.packages =~= Seq::empty());
        assert(conn@.versions =~= Seq::empty());
        conn
    }

    /// The catalog that holds the given rows, if they keep the constraints
    /// of the store.
    pub fn from_rows(
        packages: Vec<Package>,
        versions: Vec<Version>,
        dependencies: Vec<(i32, i32)>,
        total_downloads: i64,
    ) -> (r: Option<Catalog>)
        ensures
            r is Some <==> rows_view(packages@, versions@, dependencies@, total_downloads).wf(),
            r matches Some(conn) ==> conn@ == rows_view(
                packages@,
                versions@,
                dependencies@,
                total_downloads,
            ),
    {
        let ghost cv = rows_view(packages@, versions@, dependencies@, total_downloads);
        if total_downloads < 0 {
            return None;
        }
        let mut i: usize = 0;
        while i < packages.len()
            invariant
                i <= packages.len(),
                cv == rows_view(packages@, versions@, dependencies@, total_downloads),
                forall|k: int| 0 <= k < i ==> (#[trigger] cv.packages[k]).wf(),
                forall|k: int, l: int|
                    0 <= k < l < i ==> (#[trigger] cv.packages[k]).id < (#[trigger] cv.packages[l]).id,
                forall|k: int, l: int|
                    0 <= k < l < i ==> (#[trigger] cv.packages[k]).name != (
                    #[trigger] cv.packages[l]).name,
            decreases packages.len() - i,
        {
            let row = &packages[i];
            assert(row@ == cv.packages[i as int]);
            if row.downloads < 0 || Timespec::new(
                row.updated_at.sec,
                row.updated_at.nsec,
            ).is_none() || Timespec::new(row.created_at.sec, row.created_at.nsec).is_none() {
                assert(!cv.packages[i as int].wf());
                return None;
            }
            if i > 0 && packages[i - 1].id >= row.id {
                assert(cv.packages[i - 1].id >= cv.packages[i as int].id);
                return None;
            }
            let mut j: usize = 0;
            while j < i
                invariant
                    j <= i < packages.len(),
                    cv == rows_view(packages@, versions@, dependencies@, total_downloads),
                    row == &packages[i as int],
                    forall|k: int| 0 <= k < j ==> (#[trigger] cv.packages[k]).name != row.name@,
                decreases i - j,
            {
                if packages[j].name == row.name {
                    assert(cv.packages[j as int].name == cv.packages[i as int].name);
                    return None;
                }
                j += 1;
            }
            i += 1;
        }
        let mut i: usize = 0;
        while i < versions.len()
            invariant
                i <= versions.len(),
                cv == rows_view(packages@, versions@, dependencies@, total_downloads),
                forall|k: int| 0 <= k < i ==> (#[trigger] cv.versions[k]).wf(),
                forall|k: int| 0 <= k < i ==> cv.has_id((#[trigger] cv.versions[k]).package_id),
                forall|k: int, l: int|
                    0 <= k < l < i ==> (#[trigger] cv.versions[k]).id < (#[trigger] cv.versions[l]).id,
                forall|k: int, l: int|
                    0 <= k < l < i ==> !((#[trigger] cv.versions[k]).package_id == (
                    #[trigger] cv.versions[l]).package_id && cv.versions[k].num == cv.versions[l].num),
            decreases versions.len() - i,
        {
            let row = &versions[i];
            assert(row@ == cv.versions[i as int]);
            if row.downloads < 0 || Timespec::new(
                row.updated_at.sec,
                row.updated_at.nsec,
            ).is_none() || Timespec::new(row.created_at.sec, row.created_at.nsec).is_none() {
                assert(!cv.versions[i as int].wf());
                return None;
            }
            if i > 0 && versions[i - 1].id >= row.id {
                assert(cv.versions[i - 1].id >= cv.versions[i as int].id);
                return None;
            }
            let mut owner: usize = 0;
            while owner < packages.len() && packages[owner].id != row.package_id
                invariant
                    owner <= packages.len(),
                    cv == rows_view(packages@, versions@, dependencies@, total_downloads),
                    row == &versions[i as int],
                    forall|k: int| 0 <= k < owner ==> (#[trigger] cv.packages[k]).id != row.package_id,
                decreases packages.len() - owner,
            {
                owner += 1;
            }
            if owner == packages.len() {
                assert(!cv.has_id(cv.versions[i as int].package_id));
                return None;
            }
            assert(cv.packages[owner as int].id == row.package_id);
            let mut j: usize = 0;
            while j < i
                invariant
                    j <= i < versions.len(),
                    cv == rows_view(packages@, versions@, dependencies@, total_downloads),
                    row == &versions[i as int],
                    forall|k: int|
                        0 <= k < j ==> !((#[trigger] cv.versions[k]).package_id == row.package_id
                            && cv.versions[k].num == row.num@),
                decreases i - j,
            {
                if versions[j].package_id == row.package_id && versions[j].num == row.num {
                    assert(cv.versions[j as int].package_id == cv.versions[i as int].package_id
                        && cv.versions[j as int].num == cv.versions[i as int].num);
                    return None;
                }
                j += 1;
            }
            i += 1;
        }
        Some(Catalog { packages, versions, dependencies, total_downloads })
    }

    /// The package rows in insertion order.
    pub fn packages(&self) -> (rows: &Vec<Package>)
        ensures
            rows@.len() == self@.packages.len(),
            forall|i: int| 0 <= i < rows@.len() ==> (#[trigger] rows@[i])@ == self@.packages[i],
    {
        &self.packages
    }

    /// The version rows in insertion order.
    pub fn versions(&self) -> (rows: &Vec<Version>)
        ensures
            rows@.len() == self@.versions.len(),
            forall|i: int| 0 <= i < rows@.len() ==> (#[trigger] rows@[i])@ == self@.versions[i],
    {
        &self.versions
    }

    /// The dependency edges in insertion order.
    pub fn dependencies(&self) -> (edges: &Vec<(i32, i32)>)
        ensures
            edges@ == self@.dependencies,
    {
        &self.dependencies
    }

    /// The number of downloads counted so far.
    pub fn total_downloads(&self) -> (n: i64)
        ensures
            n == self@.total_downloads,
    {
        self.total_downloads
    }

    /// Where in the table the package named `name` stands.
    fn position_of_name(&self, name: &str) -> (r: Option<usize>)
        ensures
            r is Some <==> self@.has_name(name@),
            r matches Some(i) ==> i < self@.packages.len() && self@.packages[i as int].name == name@,
    {
        let wanted = String::from_str(name);
        let mut i: usize = 0;
        while i < self.packages.len()
            invariant
                i <= self.packages.len(),
                wanted@ == name@,
                forall|k: int| 0 <= k < i ==> (#[trigger] self@.packages[k]).name != name@,
            decreases self.packages.len() - i,
        {
            if self.packages[i].name == wanted {
                assert(self@.packages[i as int].name == name@);
                return Some(i);
            }
            i += 1;
        }
        None
    }

    /// Where in the table the package with the identifier `id` stands.
    fn position_of_id(&self, id: i32) -> (r: Option<usize>)
        ensures
            r is Some <==> self@.has_id(id),
            r matches Some(i) ==> i < self@.packages.len() && self@.packages[i as int].id == id,
    {
        let mut i: usize = 0;
        while i < self.packages.len()
            invariant
                i <= self.packages.len(),
                forall|k: int| 0 <= k < i ==> (#[trigger] self@.packages[k]).id != id,
            decreases self.packages.len() - i,
        {
            if self.packages[i].id == id {
                assert(self@.packages[i as int].id == id);
                return Some(i);
            }
            i += 1;
        }
        None
    }
}

impl Package {
    /// The package with the identifier `id`.
    pub fn find(conn: &Catalog, id: i32) -> (r: Result<Package, Error>)
        requires
            conn.wf(),
        ensures
            r is Ok <==> conn@.has_id(id),
            r matches Ok(p) ==> p@ == conn@.with_id(id),
            r matches Err(e) ==> e.says(ErrorKind::NotFound, "not found"@),
    {
        match conn.position_of_id(id) {
            Some(i) => Ok(conn.packages[i].clone()),
            None => Err(Error::new(ErrorKind::NotFound, "not found")),
        }
    }

    /// The package named `name`, letter for letter.
    pub fn find_by_name(conn: &Catalog, name: &str) -> (r: Result<Package, Error>)
        requires
            conn.wf(),
        ensures
            r is Ok <==> conn@.has_name(name@),
            r matches Ok(p) ==> p@ == conn@.named(name@),
            r matches Err(e) ==> e.says(ErrorKind::NotFound, "not found"@),
    {
        match conn.position_of_name(name) {
            Some(i) => Ok(conn.packages[i].clone()),
            None => Err(Error::new(ErrorKind::NotFound, "not found")),
        }
    }

    /// The package named `name`; where there is none yet, a new row owned by
    /// `user_id` is inserted and returned. An existing row is returned as it
    /// is, whoever owns it.
    pub fn find_or_insert(conn: &mut Catalog, name: &str, user_id: i32, now: Timespec) -> (r: Result<
        Package,
        Error,
    >)
        requires
            old(conn).wf(),
            now.wf(),
        ensures
            final(conn).wf(),
            final(conn)@ == old(conn)@.after_find_or_insert(name@, user_id, now),
            match r {
                Ok(p) => Some(p@) == old(conn)@.found_or_inserted(name@, user_id, now),
                Err(e) => old(conn)@.found_or_inserted(name@, user_id, now) is None && e.says(
                    ErrorKind::Internal,
                    "no package returned"@,
                ),
            },
    {
        match conn.position_of_name(name) {
            Some(i) => {
                return Ok(conn.packages[i].clone());
            },
            None => {},
        }
        let n = conn.packages.len();
        let id: i32 = if n == 0 {
            1
        } else {
            let last = conn.packages[n - 1].id;
            if last == i32::MAX {
                return Err(Error::new(ErrorKind::Internal, "no package returned"));
            }
            last + 1
        };
        let row = Package {
            id,
            name: String::from_str(name),
            user_id,
            updated_at: now,
            created_at: now,
            downloads: 0,
        };
        let r = row.clone();
        conn.packages.push(row);
        proof {
            let pre = old(conn)@;
            let post = conn@;
            assert(post.packages =~= pre.packages.push(pre.new_package(name@, user_id, now)));
            assert(post.versions =~= pre.versions);
            lemma_versions_keep_owners(pre, post);
        }
        Ok(r)
    }
}

impl Catalog {
    /// Where in the table the version `num` of the package `package_id`
    /// stands.
    fn position_of_version(&self, package_id: i32, num: &str) -> (r: Option<usize>)
        ensures
            r is Some <==> self@.has_version(package_id, num@),
            r matches Some(i) ==> i < self@.versions.len() && self@.versions[i as int].package_id
                == package_id && self@.versions[i as int].num == num@,
    {
        let wanted = String::from_str(num);
        let mut i: usize = 0;
        while i < self.versions.len()
            invariant
                i <= self.versions.len(),
                wanted@ == num@,
                forall|k: int|
                    0 <= k < i ==> !((#[trigger] self@.versions[k]).package_id == package_id
                        && self@.versions[k].num == num@),
            decreases self.versions.len() - i,
        {
            if self.versions[i].package_id == package_id && self.versions[i].num == wanted {
                assert(self@.versions[i as int].package_id == package_id);
                return Some(i);
            }
            i += 1;
        }
        None
    }

    /// Where in the table the version with the identifier `id` stands.
    fn position_of_version_id(&self, id: i32) -> (r: Option<usize>)
        ensures
            r matches Some(i) ==> i < self@.versions.len() && self@.versions[i as int].id == id,
            r is None ==> forall|k: int|
                0 <= k < self@.versions.len() ==> (#[trigger] self@.versions[k]).id != id,
    {
        let mut i: usize = 0;
        while i < self.versions.len()
            invariant
                i <= self.versions.len(),
                forall|k: int| 0 <= k < i ==> (#[trigger] self@.versions[k]).id != id,
            decreases self.versions.len() - i,
        {
            if self.versions[i].id == id {
                return Some(i);
            }
            i += 1;
        }
        None
    }

    /// The identifiers of the published versions of the package
    /// `package_id`, in insertion order.
    pub fn version_ids(&self, package_id: i32) -> (ids: Vec<i32>)
        ensures
            ids@ == self@.version_ids_of(package_id),
    {
        let mut ids: Vec<i32> = Vec::new();
        let mut i: usize = 0;
        assert(self@.versions.take(0) =~= Seq::empty());
        proof {
            Seq::<VersionView>::empty().lemma_filter_len(published_of(package_id));
        }
        while i < self.versions.len()
            invariant
                i <= self.versions.len(),
                ids@ == self@.versions.take(i as int).filter(published_of(package_id)).map_values(
                    version_id(),
                ),
            decreases self.versions.len() - i,
        {
            proof {
                let done = self@.versions.take(i as int);
                let row = self@.versions[i as int];
                done.lemma_filter_push(row, published_of(package_id));
                assert(self@.versions.take(i + 1) =~= done.push(row));
                done.filter(published_of(package_id)).lemma_push_map_commute(version_id(), row);
            }
            if self.versions[i].package_id == package_id && self.versions[i].published {
                ids.push(self.versions[i].id);
            }
            i += 1;
        }
        assert(self@.versions.take(i as int) =~= self@.versions);
        ids
    }

    /// Adds an edge from the version `version_id` to the package
    /// `package_id` that it depends on.
    pub fn add_dependency(&mut self, version_id: i32, package_id: i32)
        requires
            old(self).wf(),
        ensures
            final(self).wf(),
            final(self)@ == old(self)@.link(version_id, package_id),
    {
        self.dependencies.push((version_id, package_id));
        proof {
            let pre = old(self)@;
            let post = self@;
            assert(post.packages == pre.packages);
            assert(post.versions == pre.versions);
            lemma_versions_keep_owners(pre, post);
        }
    }

    /// Records that the index took the version `version_id`: from now on
    /// the version is published.
    pub fn mark_published(&mut self, version_id: i32)
        requires
            old(self).wf(),
        ensures
            final(self).wf(),
            final(self)@ == old(self)@.publish_version(version_id),
    {
        match self.position_of_version_id(version_id) {
            Some(i) => {
                let mut row = self.versions[i].clone();
                row.published = true;
                self.versions.set(i, row);
            },
            None => {},
        }
        proof {
            let pre = old(self)@;
            let post = self@;
            assert(post.versions =~= pre.publish_version(version_id).versions);
            assert(post.packages == pre.packages);
            lemma_versions_keep_owners(pre, post);
        }
    }

    /// Counts one download of the version `version_id` of the package
    /// `package_id`. Never fails: a counter at the top of its range stays
    /// there, and an identifier that names no row changes no row.
    pub fn record_download(&mut self, package_id: i32, version_id: i32)
        requires
            old(self).wf(),
        ensures
            final(self).wf(),
            final(self)@ == old(self)@.count_download(package_id, version_id),
    {
        match self.position_of_id(package_id) {
            Some(i) => {
                let mut row = self.packages[i].clone();
                if row.downloads < i32::MAX {
                    row.downloads = row.downloads + 1;
                }
                self.packages.set(i, row);
            },
            None => {},
        }
        match self.position_of_version_id(version_id) {
            Some(i) => {
                let mut row = self.versions[i].clone();
                if row.downloads < i32::MAX {
                    row.downloads = row.downloads + 1;
                }
                self.versions.set(i, row);
            },
            None => {},
        }
        if self.total_downloads < i64::MAX {
            self.total_downloads = self.total_downloads + 1;
        }
        proof {
            let pre = old(self)@;
            let post = self@;
            let want = pre.count_download(package_id, version_id);
            assert(post.packages =~= want.packages);
            assert(post.versions =~= want.versions);
            lemma_versions_keep_owners(pre, post);
        }
    }
}

impl Version {
    /// The row of the version numbered `num` of the package `package_id`, if
    /// there is one, published or not: a number is taken from the moment its
    /// row is made.
    pub fn find_by_num(conn: &Catalog, package_id: i32, num: &str) -> (r: Option<Version>)
        requires
            conn.wf(),
        ensures
            r is Some <==> conn@.has_version(package_id, num@),
            r matches Some(v) ==> v@ == conn@.version_of(package_id, num@),
    {
        match conn.position_of_version(package_id, num) {
            Some(i) => Some(conn.versions[i].clone()),
            None => None,
        }
    }

    /// Inserts the version numbered `num` of the package `package_id`, not
    /// published yet. The package must be there, and a number that it
    /// already has is a conflict; on any failure the catalog stays as it
    /// was.
    pub fn insert(conn: &mut Catalog, package_id: i32, num: &str, now: Timespec) -> (r: Result<
        Version,
        Error,
    >)
        requires
            old(conn).wf(),
            now.wf(),
        ensures
            final(conn).wf(),
            r is Ok <==> old(conn)@.can_insert_version(package_id, num@),
            match r {
                Ok(v) => {
                    &&& final(conn)@ == old(conn)@.insert_version(package_id, num@, now)
                    &&& v@ == old(conn)@.new_version(package_id, num@, now)
                },
                Err(e) => {
                    &&& final(conn)@ == old(conn)@
                    &&& if !old(conn)@.has_id(package_id) {
                        e.says(ErrorKind::NotFound, "not found"@)
                    } else if old(conn)@.has_version(package_id, num@) {
                        e.says(
                            ErrorKind::Conflict,
                            "package version `"@ + num@ + "` is already uploaded"@,
                        )
                    } else {
                        e.says(ErrorKind::Internal, "no version returned"@)
                    }
                },
            },
    {
        if conn.position_of_id(package_id).is_none() {
            return Err(Error::new(ErrorKind::NotFound, "not found"));
        }
        if conn.position_of_version(package_id, num).is_some() {
            return Err(
                Error::about(ErrorKind::Conflict, "package version `", num, "` is already uploaded"),
            );
        }
        let n = conn.versions.len();
        let id: i32 = if n == 0 {
            1
        } else {
            let last = conn.versions[n - 1].id;
            if last == i32::MAX {
                return Err(Error::new(ErrorKind::Internal, "no version returned"));
            }
            last + 1
        };
        let row = Version {
            id,
            package_id,
            num: String::from_str(num),
            updated_at: now,
            created_at: now,
            downloads: 0,
            published: false,
        };
        let r = row.clone();
        conn.versions.push(row);
        proof {
            let pre = old(conn)@;
            let post = conn@;
            assert(post.versions =~= pre.versions.push(pre.new_version(package_id, num@, now)));
            assert(post.packages =~= pre.packages);
            lemma_versions_keep_owners(pre, post);
        }
        Ok(r)
    }
}

impl Package {
    /// The published versions of this package, in insertion order.
    pub fn versions(&self, conn: &Catalog) -> (r: Vec<Version>)
        ensures
            r@.len() == conn@.versions_of(self.id).len(),
            forall|i: int| 0 <= i < r@.len() ==> (#[trigger] r@[i])@ == conn@.versions_of(self.id)[i],
            conn.wf() ==> forall|i: int| 0 <= i < r@.len() ==> (#[trigger] r@[i]).wf(),
    {
        let mut out: Vec<Version> = Vec::new();
        let mut i: usize = 0;
        assert(conn@.versions.take(0) =~= Seq::empty());
        proof {
            Seq::<VersionView>::empty().lemma_filter_len(published_of(self.id));
        }
        while i < conn.versions.len()
            invariant
                i <= conn.versions.len(),
                out@.map_values(|v: Version| v@) == conn@.versions.take(i as int).filter(
                    published_of(self.id),
                ),
                forall|k: int|
                    0 <= k < out@.len() ==> exists|m: int|
                        0 <= m < conn@.versions.len() && conn@.versions[m] == (#[trigger] out@[k])@,
            decreases conn.versions.len() - i,
        {
            proof {
                let done = conn@.versions.take(i as int);
                let row = conn@.versions[i as int];
                done.lemma_filter_push(row, published_of(self.id));
                assert(conn@.versions.take(i + 1) =~= done.push(row));
            }
            if conn.versions[i].package_id == self.id && conn.versions[i].published {
                let ghost before = out@;
                let row = conn.versions[i].clone();
                out.push(row);
                assert(out@.map_values(|v: Version| v@) =~= before.map_values(|v: Version| v@).push(
                    row@,
                ));
                assert(conn@.versions[i as int] == row@);
                assert forall|k: int| 0 <= k < out@.len() implies exists|m: int|
                    0 <= m < conn@.versions.len() && conn@.versions[m] == (#[trigger] out@[k])@ by {
                    if k < before.len() {
                        assert(out@[k] == before[k]);
                    } else {
                        assert(conn@.versions[i as int] == out@[k]@);
                    }
                }
            }
            i += 1;
        }
        assert(conn@.versions.take(i as int) =~= conn@.versions);
        out
    }

    /// The wire forms of `pkgs`, each with the identifiers of its own
    /// versions; a package without versions gets an empty list.
    pub fn encode_many(conn: &Catalog, pkgs: Vec<Package>) -> (r: Vec<EncodablePackage>)
        requires
            forall|i: int| 0 <= i < pkgs@.len() ==> (#[trigger] pkgs@[i]).wf(),
        ensures
            r@.len() == pkgs@.len(),
            forall|i: int|
                0 <= i < pkgs@.len() ==> (#[trigger] r@[i])@ == pkgs@[i]@.encoded(
                    conn@.version_ids_of(pkgs@[i].id),
                ),
    {
        let mut out: Vec<EncodablePackage> = Vec::new();
        let mut i: usize = 0;
        while i < pkgs.len()
            invariant
                i <= pkgs.len(),
                out@.len() == i,
                forall|k: int| 0 <= k < pkgs@.len() ==> (#[trigger] pkgs@[k]).wf(),
                forall|k: int|
                    0 <= k < i ==> (#[trigger] out@[k])@ == pkgs@[k]@.encoded(
                        conn@.version_ids_of(pkgs@[k].id),
                    ),
            decreases pkgs.len() - i,
        {
            let p = pkgs[i].clone();
            let ids = conn.version_ids(p.id);
            out.push(p.encodable(ids));
            i += 1;
        }
        out
    }
}

/// In a well-formed catalog a name leads to one row only.
pub proof fn lemma_named_is(cv: CatalogView, name: Seq<char>, i: int)
    requires
        cv.wf(),
        0 <= i < cv.packages.len(),
        cv.packages[i].name == name,
    ensures
        cv.has_name(name),
        cv.named(name) == cv.packages[i],
{
    let j = choose|j: int| 0 <= j < cv.packages.len() && (#[trigger] cv.packages[j]).name == name;
    if j < i {
        assert(cv.packages[j].name != cv.packages[i].name);
    } else if i < j {
        assert(cv.packages[i].name != cv.packages[j].name);
    }
}

/// In a well-formed catalog a package and a number lead to one version only.
pub proof fn lemma_version_is(cv: CatalogView, package_id: i32, num: Seq<char>, i: int)
    requires
        cv.wf(),
        0 <= i < cv.versions.len(),
        cv.versions[i].package_id == package_id,
        cv.versions[i].num == num,
    ensures
        cv.has_version(package_id, num),
        cv.version_of(package_id, num) == cv.versions[i],
{
    let j = choose|j: int|
        0 <= j < cv.versions.len() && (#[trigger] cv.versions[j]).package_id == package_id
            && cv.versions[j].num == num;
    if j < i {
        assert(!(cv.versions[j].package_id == cv.versions[i].package_id && cv.versions[j].num
            == cv.versions[i].num));
    } else if i < j {
        assert(!(cv.versions[i].package_id == cv.versions[j].package_id && cv.versions[i].num
            == cv.versions[j].num));
    }
}

/// Where two catalogs hold packages with the same identifiers in the same
/// places, every version that has its package in the one has it in the
/// other.
pub proof fn lemma_owners_stay(pre: CatalogView, post: CatalogView)
    requires
        pre.packages.len() <= post.packages.len(),
        forall|k: int| 0 <= k < pre.packages.len() ==> (#[trigger] post.packages[k]).id == pre.packages[k].id,
    ensures
        forall|id: i32| pre.has_id(id) ==> #[trigger] post.has_id(id),
{
    assert forall|id: i32| pre.has_id(id) implies #[trigger] post.has_id(id) by {
        let k = choose|k: int| 0 <= k < pre.packages.len() && (#[trigger] pre.packages[k]).id == id;
        assert(post.packages[k].id == id);
    }
}

/// Where packages keep their identifiers and versions keep their packages,
/// every version that had its package still has it.
pub proof fn lemma_versions_keep_owners(pre: CatalogView, post: CatalogView)
    requires
        pre.wf(),
        pre.packages.len() <= post.packages.len(),
        forall|k: int| 0 <= k < pre.packages.len() ==> (#[trigger] post.packages[k]).id == pre.packages[k].id,
        forall|i: int|
            0 <= i < post.versions.len() ==> post.has_id((#[trigger] post.versions[i]).package_id) || (i
                < pre.versions.len() && post.versions[i].package_id == pre.versions[i].package_id),
    ensures
        forall|i: int| 0 <= i < post.versions.len() ==> post.has_id((#[trigger] post.versions[i]).package_id),
{
    lemma_owners_stay(pre, post);
    assert forall|i: int| 0 <= i < post.versions.len() implies post.has_id(
        (#[trigger] post.versions[i]).package_id,
    ) by {
        if !post.has_id(post.versions[i].package_id) {
            assert(pre.has_id(pre.versions[i].package_id));
        }
    }
}

/// A find-or-insert keeps the catalog well formed, touches no version and no
/// edge, and the row it yields is the one row of that name.
pub proof fn lemma_find_or_insert(cv: CatalogView, name: Seq<char>, user_id: i32, now: Timespec)
    requires
        cv.wf(),
        now.wf(),
    ensures
        cv.after_find_or_insert(name, user_id, now).wf(),
        cv.after_find_or_insert(name, user_id, now).versions == cv.versions,
        cv.after_find_or_insert(name, user_id, now).dependencies == cv.dependencies,
        cv.after_find_or_insert(name, user_id, now).total_downloads == cv.total_downloads,
        forall|other: Seq<char>|
            cv.has_name(other) ==> #[trigger] cv.after_find_or_insert(name, user_id, now).has_name(
                other,
            ),
        cv.found_or_inserted(name, user_id, now) matches Some(row) ==> {
            &&& cv.after_find_or_insert(name, user_id, now).has_name(name)
            &&& cv.after_find_or_insert(name, user_id, now).named(name) == row
            &&& cv.after_find_or_insert(name, user_id, now).has_id(row.id)
            &&& row.name == name
            &&& !cv.has_name(name) ==> row.user_id == user_id && forall|i: int|
                0 <= i < cv.versions.len() ==> (#[trigger] cv.versions[i]).package_id != row.id
        },
{
    let held = cv.after_find_or_insert(name, user_id, now);
    if cv.has_name(name) {
        let i = choose|i: int| 0 <= i < cv.packages.len() && (#[trigger] cv.packages[i]).name == name;
        lemma_named_is(cv, name, i);
        assert(cv.packages[i].id == cv.named(name).id);
    } else if cv.next_package_id() <= i32::MAX {
        let row = cv.new_package(name, user_id, now);
        let n = cv.packages.len() as int;
        assert(held.packages == cv.packages.push(row));
        assert(held.packages[n] == row);
        assert forall|i: int| 0 <= i < held.packages.len() implies (#[trigger] held.packages[i]).wf() by {
            if i < n {
                assert(held.packages[i] == cv.packages[i]);
            }
        }
        assert forall|i: int, j: int| 0 <= i < j < held.packages.len() implies (
        #[trigger] held.packages[i]).id < (#[trigger] held.packages[j]).id by {
            assert(held.packages[i] == cv.packages[i]);
            if j < n {
                assert(held.packages[j] == cv.packages[j]);
            } else if i < n - 1 {
                assert(cv.packages[i].id < cv.packages[n - 1].id);
            }
        }
        assert forall|i: int, j: int| 0 <= i < j < held.packages.len() implies (
        #[trigger] held.packages[i]).name != (#[trigger] held.packages[j]).name by {
            assert(held.packages[i] == cv.packages[i]);
            if j < n {
                assert(held.packages[j] == cv.packages[j]);
            }
        }
        lemma_owners_stay(cv, held);
        assert forall|i: int| 0 <= i < held.versions.len() implies held.has_id(
            (#[trigger] held.versions[i]).package_id,
        ) by {
            assert(cv.has_id(cv.versions[i].package_id));
        }
        assert(held.wf());
        lemma_named_is(held, name, n);
        assert(held.packages[n].id == row.id);
        // The new identifier lies above every other, so no version has it.
        assert forall|i: int| 0 <= i < cv.versions.len() implies (#[trigger] cv.versions[i]).package_id
            != row.id by {
            assert(cv.has_id(cv.versions[i].package_id));
            let k = choose|k: int|
                0 <= k < cv.packages.len() && (#[trigger] cv.packages[k]).id
                    == cv.versions[i].package_id;
            if k < n - 1 {
                assert(cv.packages[k].id < cv.packages[n - 1].id);
            }
        }
    }
    assert forall|other: Seq<char>| cv.has_name(other) implies #[trigger] held.has_name(other) by {
        let k = choose|k: int| 0 <= k < cv.packages.len() && (#[trigger] cv.packages[k]).name == other;
        assert(held.packages[k].name == other);
    }
}

/// Inserting a version whose number is new for its package keeps the
/// catalog well formed, and the new row is the one version of that number.
pub proof fn lemma_insert_version(cv: CatalogView, package_id: i32, num: Seq<char>, now: Timespec)
    requires
        cv.wf(),
        now.wf(),
        cv.can_insert_version(package_id, num),
    ensures
        cv.insert_version(package_id, num, now).wf(),
        cv.insert_version(package_id, num, now).has_version(package_id, num),
        cv.insert_version(package_id, num, now).version_of(package_id, num) == cv.new_version(
            package_id,
            num,
            now,
        ),
{
    let after = cv.insert_version(package_id, num, now);
    let row = cv.new_version(package_id, num, now);
    let n = cv.versions.len() as int;
    assert(after.versions[n] == row);
    lemma_owners_stay(cv, after);
    assert forall|i: int| 0 <= i < after.versions.len() implies (#[trigger] after.versions[i]).wf()
        && after.has_id(after.versions[i].package_id) by {
        if i < n {
            assert(after.versions[i] == cv.versions[i]);
            assert(cv.has_id(cv.versions[i].package_id));
        }
    }
    assert forall|i: int, j: int| 0 <= i < j < after.versions.len() implies (
    #[trigger] after.versions[i]).id < (#[trigger] after.versions[j]).id by {
        assert(after.versions[i] == cv.versions[i]);
        if j < n {
            assert(after.versions[j] == cv.versions[j]);
        } else if i < n - 1 {
            assert(cv.versions[i].id < cv.versions[n - 1].id);
        }
    }
    assert forall|i: int, j: int| 0 <= i < j < after.versions.len() implies !((
    #[trigger] after.versions[i]).package_id == (#[trigger] after.versions[j]).package_id
        && after.versions[i].num == after.versions[j].num) by {
        assert(after.versions[i] == cv.versions[i]);
        if j < n {
            assert(after.versions[j] == cv.versions[j]);
        }
    }
    assert(after.wf());
    lemma_version_is(after, package_id, num, n);
}

/// Publishing a version keeps the catalog well formed and changes nothing
/// but that version's flag.
pub proof fn lemma_publish_version(cv: CatalogView, version_id: i32)
    requires
        cv.wf(),
    ensures
        ({
            let after = cv.publish_version(version_id);
            &&& after.wf()
            &&& after.packages == cv.packages
            &&& after.dependencies == cv.dependencies
            &&& after.total_downloads == cv.total_downloads
            &&& after.versions.len() == cv.versions.len()
            &&& forall|i: int|
                0 <= i < cv.versions.len() ==> (#[trigger] after.versions[i]) == if cv.versions[i].id
                    == version_id {
                    VersionView { published: true, ..cv.versions[i] }
                } else {
                    cv.versions[i]
                }
        }),
{
    let after = cv.publish_version(version_id);
    lemma_owners_stay(cv, after);
    assert forall|i: int| 0 <= i < after.versions.len() implies (#[trigger] after.versions[i]).wf()
        && after.has_id(after.versions[i].package_id) by {
        assert(cv.versions[i].wf());
        assert(cv.has_id(cv.versions[i].package_id));
    }
    assert forall|i: int, j: int| 0 <= i < j < after.versions.len() implies (
    #[trigger] after.versions[i]).id < (#[trigger] after.versions[j]).id && !(
    after.versions[i].package_id == after.versions[j].package_id && after.versions[i].num
        == after.versions[j].num) by {
        assert(cv.versions[i].id < cv.versions[j].id);
        assert(!(cv.versions[i].package_id == cv.versions[j].package_id && cv.versions[i].num
            == cv.versions[j].num));
    }
}

/// One counted download keeps the catalog well formed, keeps every row in
/// its place, and lowers no counter.
pub proof fn lemma_count_download(cv: CatalogView, package_id: i32, version_id: i32)
    requires
        cv.wf(),
    ensures
        ({
            let after = cv.count_download(package_id, version_id);
            &&& after.wf()
            &&& after.packages.len() == cv.packages.len()
            &&& after.versions.len() == cv.versions.len()
            &&& after.dependencies == cv.dependencies
            &&& forall|i: int|
                0 <= i < cv.packages.len() ==> cv.packages[i].downloads <= (
                #[trigger] after.packages[i]).downloads && after.packages[i].id == cv.packages[i].id
                    && after.packages[i].name == cv.packages[i].name
            &&& forall|i: int|
                0 <= i < cv.versions.len() ==> cv.versions[i].downloads <= (
                #[trigger] after.versions[i]).downloads && after.versions[i].id == cv.versions[i].id
            &&& cv.total_downloads <= after.total_downloads
        }),
{
    let after = cv.count_download(package_id, version_id);
    lemma_owners_stay(cv, after);
    assert forall|i: int| 0 <= i < after.packages.len() implies (#[trigger] after.packages[i]).wf() by {
        assert(cv.packages[i].wf());
    }
    assert forall|i: int| 0 <= i < after.versions.len() implies (#[trigger] after.versions[i]).wf()
        && after.has_id(after.versions[i].package_id) by {
        assert(cv.versions[i].wf());
        assert(cv.has_id(cv.versions[i].package_id));
    }
    assert forall|i: int, j: int| 0 <= i < j < after.packages.len() implies (
    #[trigger] after.packages[i]).id < (#[trigger] after.packages[j]).id && after.packages[i].name
        != after.packages[j].name by {
        assert(cv.packages[i].id < cv.packages[j].id);
        assert(cv.packages[i].name != cv.packages[j].name);
    }
    assert forall|i: int, j: int| 0 <= i < j < after.versions.len() implies (
    #[trigger] after.versions[i]).id < (#[trigger] after.versions[j]).id && !(
    after.versions[i].package_id == after.versions[j].package_id && after.versions[i].num
        == after.versions[j].num) by {
        assert(cv.versions[i].id < cv.versions[j].id);
        assert(!(cv.versions[i].package_id == cv.versions[j].package_id && cv.versions[i].num
            == cv.versions[j].num));
    }
}

} // verus!

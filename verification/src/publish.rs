//! Publishing a package version: a saga over the catalog, the blob store and
//! the package index.
//!
//! The catalog is this library's own; the blob store and the index are
//! services that only the caller can reach. So the saga decides and the
//! caller acts: after [`Saga::reserve`] the caller streams the tarball to
//! [`Saga::path`] and reports the store's answer to [`Saga::uploaded`]; it
//! then registers [`Saga::package`] in the index and reports to
//! [`Saga::indexed`], which either commits, and marks the version as
//! published, or names the blob to delete.

use vstd::prelude::*;
use vstd::string::*;
use crate::catalog::{lemma_find_or_insert, lemma_named_is, Catalog, CatalogView};
use crate::checksum::{checksum_text, hex};
use crate::error::{Error, ErrorKind};
use crate::laws::lemma_reserved;
use crate::package::{blob_path, EncodablePackage, Package};
use crate::timestamp::Timespec;
use crate::upload::{
    announced, distinct_names, header_fault, parse_new_headers, DependencyView, NewPackage,
    NewPackageView, UploadHeaders, User,
};
use crate::version::Version;

verus! {

/// Where a saga stands.
#[derive(Clone, Copy, Debug, PartialEq, Eq, Structural)]
pub enum SagaState {
    /// The upload's headers are yet to be checked.
    Validating,
    /// The headers are good; the catalog rows are yet to be made.
    Reserving,
    /// The rows are made; the tarball is on its way to the blob store.
    Uploading,
    /// The blob is written and will be deleted unless the index takes the
    /// registration.
    Indexing,
    /// The index holds the version, and the catalog says so: the version is
    /// published.
    Committed,
    /// The saga failed during or after the upload; a blob it wrote is given
    /// up for deletion.
    RolledBack,
    /// The saga failed before anything was written outside the catalog.
    Aborted,
}

/// One run of the publish saga.
pub struct Saga {
    state: SagaState,
    max_upload_size: u64,
    new_pkg: NewPackage,
    user: User,
    content_length: u64,
    path: String,
    version_id: i32,
}

/// How the last step of a saga ended.
#[derive(Debug)]
pub enum Outcome {
    /// The version is published; this is the package to answer with.
    Committed(EncodablePackage),
    /// The version is not published; the blob at `delete` is to be removed
    /// from the blob store.
    RolledBack { error: Error, delete: String },
}

/// The names of the packages that `pkg` depends on, as declared.
pub open spec fn dep_names(pkg: NewPackageView) -> Seq<Seq<char>> {
    pkg.deps.map_values(|d: DependencyView| d.name)
}

/// The place of the first of `names` that names no package of `cv`.
pub open spec fn first_unknown(cv: CatalogView, names: Seq<Seq<char>>) -> Option<int>
    decreases names.len(),
{
    if names.len() == 0 {
        None
    } else {
        match first_unknown(cv, names.drop_last()) {
            Some(i) => Some(i),
            None => if cv.has_name(names.last()) {
                None
            } else {
                Some(names.len() - 1)
            },
        }
    }
}

/// The edge from the version `version_id` to the package of `cv` named by a
/// dependency.
pub open spec fn edge_from(cv: CatalogView, version_id: i32) -> spec_fn(Seq<char>) -> (i32, i32) {
    |name: Seq<char>| (version_id, cv.named(name).id)
}

/// Why `pkg` cannot be reserved for the account `user_id`, if it cannot: the
/// first of these that holds. The name belongs to another account; the
/// version was published before; a dependency names no package; the catalog
/// has no identifier left for a row.
pub open spec fn reserve_fault(cv: CatalogView, pkg: NewPackageView, user_id: i32, now: Timespec) -> Option<
    (ErrorKind, Seq<char>),
> {
    let held = cv.after_find_or_insert(pkg.name, user_id, now);
    match cv.found_or_inserted(pkg.name, user_id, now) {
        None => Some((ErrorKind::Internal, "no package returned"@)),
        Some(row) => if row.user_id != user_id {
            Some(
                (
                    ErrorKind::OwnershipConflict,
                    "package name has already been claimed by another user"@,
                ),
            )
        } else if held.has_version(row.id, pkg.vers) {
            Some(
                (
                    ErrorKind::VersionAlreadyPublished,
                    "package version `"@ + pkg.vers + "` is already uploaded"@,
                ),
            )
        } else if first_unknown(held, dep_names(pkg)) is Some {
            Some(
                (
                    ErrorKind::UnknownDependency,
                    "no known package named `"@ + dep_names(pkg)[first_unknown(
                        held,
                        dep_names(pkg),
                    )->0] + "`"@,
                ),
            )
        } else if held.next_version_id() > i32::MAX {
            Some((ErrorKind::Internal, "no version returned"@))
        } else {
            None
        },
    }
}

/// The catalog after an attempt to reserve `pkg`. The package row is found
/// or made in any case. The version row and the edges to its dependencies
/// are made together, and only where nothing stands against the
/// reservation.
pub open spec fn reserved(cv: CatalogView, pkg: NewPackageView, user_id: i32, now: Timespec) -> CatalogView {
    let held = cv.after_find_or_insert(pkg.name, user_id, now);
    if reserve_fault(cv, pkg, user_id, now) is None {
        let row = cv.found_or_inserted(pkg.name, user_id, now)->0;
        let with_version = held.insert_version(row.id, pkg.vers, now);
        CatalogView {
            dependencies: with_version.dependencies + dep_names(pkg).map_values(
                edge_from(held, held.new_version(row.id, pkg.vers, now).id),
            ),
            ..with_version
        }
    } else {
        held
    }
}

impl Saga {
    pub closed spec fn state(&self) -> SagaState {
        self.state
    }

    /// The most bytes an upload may announce.
    pub closed spec fn max_upload_size(&self) -> u64 {
        self.max_upload_size
    }

    /// The package on its way, once the headers are checked.
    pub closed spec fn package(&self) -> NewPackageView {
        self.new_pkg@
    }

    /// The account that publishes, once the headers are checked.
    pub closed spec fn user(&self) -> User {
        self.user
    }

    /// The length that the upload announced.
    pub closed spec fn content_length(&self) -> u64 {
        self.content_length
    }

    /// The blob's key in the blob store, once the rows are made.
    pub closed spec fn path(&self) -> Seq<char> {
        self.path@
    }

    /// The identifier of the version's row, once the rows are made.
    pub closed spec fn version_id(&self) -> i32 {
        self.version_id
    }

    /// The rollback handler is armed: a blob is written that the index does
    /// not know of yet.
    pub open spec fn armed(&self) -> bool {
        self.state() == SagaState::Indexing
    }

    /// A saga for one upload of at most `max_upload_size` bytes.
    pub fn start(max_upload_size: u64) -> (saga: Saga)
        ensures
            saga.state() == SagaState::Validating,
            saga.max_upload_size() == max_upload_size,
    {
        Saga {
            state: SagaState::Validating,
            max_upload_size,
            new_pkg: NewPackage {
                name: String::new(),
                vers: String::new(),
                deps: Vec::new(),
                cksum: String::new(),
                features: Vec::new(),
            },
            user: User { id: 0 },
            content_length: 0,
            path: String::new(),
            version_id: 0,
        }
    }

    pub fn current_state(&self) -> (state: SagaState)
        ensures
            state == self.state(),
    {
        self.state
    }

    /// The package on its way; after [`Saga::uploaded`] it carries its
    /// checksum and is what the index is to register.
    pub fn new_package(&self) -> (pkg: &NewPackage)
        ensures
            pkg@ == self.package(),
    {
        &self.new_pkg
    }

    pub fn account(&self) -> (user: User)
        ensures
            user == self.user(),
    {
        self.user
    }

    /// The length to announce to the blob store.
    pub fn upload_length(&self) -> (n: u64)
        ensures
            n == self.content_length(),
    {
        self.content_length
    }

    /// The identifier of the version's row.
    pub fn reserved_version(&self) -> (id: i32)
        ensures
            id == self.version_id(),
    {
        self.version_id
    }

    /// The key in the blob store to write the tarball to.
    pub fn upload_path(&self) -> (path: &String)
        ensures
            path@ == self.path(),
    {
        &self.path
    }

    /// The content type to announce to the blob store: a tar archive.
    pub fn upload_content_type(&self) -> (r: &'static str)
        ensures
            r@ == "application/x-tar"@,
    {
        "application/x-tar"
    }

    /// The content encoding to announce to the blob store: gzip.
    pub fn upload_content_encoding(&self) -> (r: &'static str)
        ensures
            r@ == "gzip"@,
    {
        "gzip"
    }

    /// Whether a blob is written that would have to be deleted if the saga
    /// ended now.
    pub fn is_armed(&self) -> (armed: bool)
        ensures
            armed == self.armed(),
    {
        self.state == SagaState::Indexing
    }

    /// Checks the upload's headers. `account` is what the authentication
    /// service made of the credential. Nothing is written anywhere.
    pub fn validate(&mut self, headers: UploadHeaders, account: Option<User>) -> (r: Result<(), Error>)
        requires
            old(self).state() == SagaState::Validating,
        ensures
            final(self).max_upload_size() == old(self).max_upload_size(),
            match r {
                Ok(_) => {
                    &&& header_fault(headers, account, old(self).max_upload_size()) is None
                    &&& final(self).state() == SagaState::Reserving
                    &&& final(self).package() == announced(headers)
                    &&& distinct_names(final(self).package().features)
                    &&& Some(final(self).user()) == account
                    &&& Some(final(self).content_length()) == headers.content_length
                },
                Err(e) => {
                    &&& header_fault(headers, account, old(self).max_upload_size()) == Some(
                        (e.kind, e.detail@),
                    )
                    &&& final(self).state() == SagaState::Aborted
                },
            },
    {
        let length = headers.content_length;
        match parse_new_headers(headers, account, self.max_upload_size) {
            Ok((new_pkg, user)) => {
                self.new_pkg = new_pkg;
                self.user = user;
                self.content_length = match length {
                    Some(n) => n,
                    None => 0,
                };
                self.state = SagaState::Reserving;
                Ok(())
            },
            Err(e) => {
                self.state = SagaState::Aborted;
                Err(e)
            },
        }
    }

    /// Makes the catalog rows: finds or makes the package, and makes the
    /// version together with the edges to its dependencies. Where the name
    /// belongs to another account, the version exists or a dependency is
    /// unknown, no version row and no edge is made.
    #[verifier::loop_isolation(false)]
    pub fn reserve(&mut self, conn: &mut Catalog, now: Timespec) -> (r: Result<(), Error>)
        requires
            old(self).state() == SagaState::Reserving,
            old(conn).wf(),
            now.wf(),
        ensures
            final(conn).wf(),
            final(conn)@ == reserved(old(conn)@, old(self).package(), old(self).user().id, now),
            final(self).package() == old(self).package(),
            final(self).user() == old(self).user(),
            final(self).content_length() == old(self).content_length(),
            final(self).max_upload_size() == old(self).max_upload_size(),
            match r {
                Ok(_) => {
                    &&& reserve_fault(old(conn)@, old(self).package(), old(self).user().id, now) is None
                    &&& final(self).state() == SagaState::Uploading
                    &&& final(self).path() == blob_path(
                        old(self).package().name,
                        old(self).package().vers,
                    )
                    &&& final(self).version_id() == old(conn)@.next_version_id()
                },
                Err(e) => {
                    &&& reserve_fault(old(conn)@, old(self).package(), old(self).user().id, now)
                        == Some((e.kind, e.detail@))
                    &&& final(self).state() == SagaState::Aborted
                },
            },
    {
        let ghost start = conn@;
        let ghost names = dep_names(self.new_pkg@);
        self.state = SagaState::Aborted;

        // Persist the new package, if it doesn't already exist
        let pkg = match Package::find_or_insert(conn, self.new_pkg.name.as_str(), self.user.id, now) {
            Ok(pkg) => pkg,
            Err(e) => {
                return Err(e);
            },
        };
        let ghost held = conn@;
        proof {
            lemma_find_or_insert(start, self.new_pkg.name@, self.user.id, now);
        }
        if pkg.user_id != self.user.id {
            return Err(
                Error::new(
                    ErrorKind::OwnershipConflict,
                    "package name has already been claimed by another user",
                ),
            );
        }
        // The version must be new
        if Version::find_by_num(conn, pkg.id, self.new_pkg.vers.as_str()).is_some() {
            return Err(
                Error::about(
                    ErrorKind::VersionAlreadyPublished,
                    "package version `",
                    self.new_pkg.vers.as_str(),
                    "` is already uploaded",
                ),
            );
        }
        // Every dependency must be known before a row is made for the version

        let mut targets: Vec<i32> = Vec::new();
        let mut i: usize = 0;
        assert(names.take(0) =~= Seq::empty());
        while i < self.new_pkg.deps.len()
            invariant
                i <= self.new_pkg.deps.len(),
                conn.wf(),
                conn@ == held,
                names == dep_names(self.new_pkg@),
                names.len() == self.new_pkg.deps@.len(),
                targets@.len() == i,
                first_unknown(held, names.take(i as int)) is None,
                forall|k: int|
                    0 <= k < i ==> held.has_name(#[trigger] names[k]) && targets@[k] == held.named(
                        names[k],
                    ).id,
            decreases self.new_pkg.deps.len() - i,
        {
            proof {
                assert(names.take(i + 1).drop_last() =~= names.take(i as int));
                assert(names.take(i + 1).last() == names[i as int]);
                assert(names[i as int] == self.new_pkg.deps@[i as int].name@);
            }
            match Package::find_by_name(conn, self.new_pkg.deps[i].name.as_str()) {
                Ok(dep) => {
                    targets.push(dep.id);
                },
                Err(_) => {
                    proof {
                        lemma_first_unknown_extends(held, names, i as int);
                    }
                    return Err(
                        Error::about(
                            ErrorKind::UnknownDependency,
                            "no known package named `",
                            self.new_pkg.deps[i].name.as_str(),
                            "`",
                        ),
                    );
                },
            }
            i += 1;
        }
        assert(names.take(i as int) =~= names);

        // Persist the new version of this package
        let vers = match Version::insert(conn, pkg.id, self.new_pkg.vers.as_str(), now) {
            Ok(vers) => vers,
            Err(e) => {
                return Err(e);
            },
        };
        let ghost with_version = conn@;

        // Link this new version to all dependencies
        let mut j: usize = 0;
        while j < targets.len()
            invariant
                j <= targets.len(),
                targets@.len() == names.len(),
                conn.wf(),
                conn@ == (CatalogView {
                    dependencies: with_version.dependencies + names.take(j as int).map_values(
                        edge_from(held, vers.id),
                    ),
                    ..with_version
                }),
                forall|k: int|
                    0 <= k < targets@.len() ==> held.has_name(#[trigger] names[k]) && targets@[k]
                        == held.named(names[k]).id,
            decreases targets.len() - j,
        {
            conn.add_dependency(vers.id, targets[j]);
            proof {
                let f = edge_from(held, vers.id);
                assert(names.take(j + 1) =~= names.take(j as int).push(names[j as int]));
                assert(names.take(j + 1).map_values(f) =~= names.take(j as int).map_values(f).push(
                    f(names[j as int]),
                ));
                assert(conn@.dependencies =~= with_version.dependencies + names.take(
                    j + 1,
                ).map_values(f));
            }
            j += 1;
        }
        assert(names.take(j as int) =~= names);

        self.path = pkg.s3_path(self.new_pkg.vers.as_str());
        self.version_id = vers.id;
        self.state = SagaState::Uploading;
        Ok(())
    }

    /// Takes the blob store's answer to the upload: its status code, and the
    /// digest of the bytes that were sent. Any status but 200 ends the saga;
    /// nothing is to be deleted then. With 200 the checksum is recorded and
    /// the rollback handler is armed.
    pub fn uploaded(&mut self, status: u32, digest: &[u8]) -> (r: Result<(), Error>)
        requires
            old(self).state() == SagaState::Uploading,
        ensures
            r is Ok <==> status == 200,
            final(self).path() == old(self).path(),
            final(self).user() == old(self).user(),
            final(self).version_id() == old(self).version_id(),
            match r {
                Ok(_) => {
                    &&& final(self).state() == SagaState::Indexing
                    &&& final(self).package() == (NewPackageView {
                        cksum: hex(digest@),
                        ..old(self).package()
                    })
                },
                Err(e) => {
                    &&& final(self).state() == SagaState::RolledBack
                    &&& final(self).package() == old(self).package()
                    &&& e.says(ErrorKind::UploadFailed, "failed to upload the package"@)
                },
            },
    {
        if status != 200 {
            self.state = SagaState::RolledBack;
            return Err(Error::new(ErrorKind::UploadFailed, "failed to upload the package"));
        }
        self.new_pkg.cksum = checksum_text(digest);
        self.state = SagaState::Indexing;
        Ok(())
    }

    /// Takes the index's answer to the registration. Where the index took
    /// it and the catalog still holds the package, the saga commits and the
    /// catalog records the version as published. Otherwise the saga rolls
    /// back, the catalog stays as it is, with the version unpublished, and
    /// the blob to delete is named.
    pub fn indexed(&mut self, conn: &mut Catalog, ok: bool) -> (r: Outcome)
        requires
            old(self).state() == SagaState::Indexing,
            old(conn).wf(),
        ensures
            final(conn).wf(),
            final(self).path() == old(self).path(),
            final(self).package() == old(self).package(),
            final(self).version_id() == old(self).version_id(),
            !final(self).armed(),
            match r {
                Outcome::Committed(pkg) => {
                    &&& ok
                    &&& old(conn)@.has_name(old(self).package().name)
                    &&& final(self).state() == SagaState::Committed
                    &&& final(conn)@ == old(conn)@.publish_version(old(self).version_id())
                    &&& pkg@ == old(conn)@.named(old(self).package().name).encoded(Seq::empty())
                },
                Outcome::RolledBack { error, delete } => {
                    &&& !(ok && old(conn)@.has_name(old(self).package().name))
                    &&& final(self).state() == SagaState::RolledBack
                    &&& final(conn)@ == old(conn)@
                    &&& delete@ == old(self).path()
                    &&& if old(conn)@.has_name(old(self).package().name) {
                        error.says(
                            ErrorKind::IndexingFailed,
                            "could not add package `"@ + old(self).package().name
                                + "` to the index"@,
                        )
                    } else {
                        error.says(ErrorKind::NotFound, "not found"@)
                    }
                },
            },
    {
        let pkg = match Package::find_by_name(conn, self.new_pkg.name.as_str()) {
            Ok(pkg) => pkg,
            Err(e) => {
                self.state = SagaState::RolledBack;
                return Outcome::RolledBack { error: e, delete: self.path.clone() };
            },
        };
        if !ok {
            self.state = SagaState::RolledBack;
            return Outcome::RolledBack {
                error: Error::about(
                    ErrorKind::IndexingFailed,
                    "could not add package `",
                    pkg.name.as_str(),
                    "` to the index",
                ),
                delete: self.path.clone(),
            };
        }
        // Now that we've come this far, we're committed!
        conn.mark_published(self.version_id);
        self.state = SagaState::Committed;
        Outcome::Committed(pkg.encodable(Vec::new()))
    }

    /// Gives the saga up where it stands, as when the sender hangs up.
    /// Where the rollback handler is armed, the blob to delete comes back.
    /// A saga that has ended stays as it is.
    pub fn abandon(&mut self) -> (delete: Option<String>)
        ensures
            !final(self).armed(),
            delete is Some <==> old(self).armed(),
            delete matches Some(path) ==> path@ == old(self).path(),
            final(self).state() == match old(self).state() {
                SagaState::Validating | SagaState::Reserving => SagaState::Aborted,
                SagaState::Uploading | SagaState::Indexing => SagaState::RolledBack,
                ended => ended,
            },
    {
        match self.state {
            SagaState::Validating | SagaState::Reserving => {
                self.state = SagaState::Aborted;
                None
            },
            SagaState::Uploading => {
                self.state = SagaState::RolledBack;
                None
            },
            SagaState::Indexing => {
                self.state = SagaState::RolledBack;
                Some(self.path.clone())
            },
            _ => None,
        }
    }
}

/// Once a dependency is found unknown, it is the first unknown one of any
/// longer list, provided all before it were known.
proof fn lemma_first_unknown_extends(cv: CatalogView, names: Seq<Seq<char>>, i: int)
    requires
        0 <= i < names.len(),
        first_unknown(cv, names.take(i)) is None,
        !cv.has_name(names[i]),
    ensures
        first_unknown(cv, names) == Some(i),
    decreases names.len() - i,
{
    assert(names.take(i + 1).drop_last() =~= names.take(i));
    assert(first_unknown(cv, names.take(i + 1)) == Some(i));
    lemma_first_unknown_stays(cv, names, i, names.len() as int);
    assert(names.take(names.len() as int) =~= names);
}

/// A first unknown dependency stays the first when the list grows.
proof fn lemma_first_unknown_stays(cv: CatalogView, names: Seq<Seq<char>>, i: int, n: int)
    requires
        0 <= i < n <= names.len(),
        first_unknown(cv, names.take(i + 1)) == Some(i),
    ensures
        first_unknown(cv, names.take(n)) == Some(i),
    decreases n,
{
    if n > i + 1 {
        lemma_first_unknown_stays(cv, names, i, n - 1);
        assert(names.take(n).drop_last() =~= names.take(n - 1));
    }
}

/// Begins the publication of an upload: checks its headers and makes its
/// catalog rows. The saga that comes back stands at
/// [`SagaState::Uploading`]; an error means that the saga was aborted, and
/// that nothing is to be uploaded or registered.
pub fn new(
    conn: &mut Catalog,
    headers: UploadHeaders,
    account: Option<User>,
    max_upload_size: u64,
    now: Timespec,
) -> (r: Result<Saga, Error>)
    requires
        old(conn).wf(),
        now.wf(),
    ensures
        final(conn).wf(),
        match header_fault(headers, account, max_upload_size) {
            Some(fault) => {
                &&& final(conn)@ == old(conn)@
                &&& r matches Err(e) && fault == (e.kind, e.detail@)
            },
            None => {
                &&& final(conn)@ == reserved(old(conn)@, announced(headers), account->0.id, now)
                &&& match r {
                    Ok(saga) => {
                        &&& reserve_fault(old(conn)@, announced(headers), account->0.id, now) is None
                        &&& saga.state() == SagaState::Uploading
                        &&& saga.package() == announced(headers)
                        &&& distinct_names(saga.package().features)
                        &&& saga.version_id() == old(conn)@.next_version_id()
                        &&& saga.user() == account->0
                        &&& Some(saga.content_length()) == headers.content_length
                        &&& saga.path() == blob_path(announced(headers).name, announced(headers).vers)
                    },
                    Err(e) => reserve_fault(old(conn)@, announced(headers), account->0.id, now)
                        == Some((e.kind, e.detail@)),
                }
            },
        },
{
    let mut saga = Saga::start(max_upload_size);
    match saga.validate(headers, account) {
        Ok(_) => {},
        Err(e) => {
            return Err(e);
        },
    }
    match saga.reserve(conn, now) {
        Ok(_) => Ok(saga),
        Err(e) => Err(e),
    }
}

/// What the blob store and the index answered to one publish.
#[derive(Debug)]
pub struct Answers {
    /// The blob store's status for the upload.
    pub upload_status: u32,
    /// The digest of the bytes that were sent.
    pub digest: Vec<u8>,
    /// Whether the index took the registration.
    pub indexed: bool,
}

/// One publish from its first step to its last: how it ended, and what was
/// asked of the blob store and the index on the way.
#[derive(Debug)]
pub struct Report {
    /// The package to answer with, or why there is none.
    pub outcome: Result<EncodablePackage, Error>,
    /// The key that the tarball was sent to, if the saga came that far.
    pub uploaded_to: Option<String>,
    /// The entry that was handed to the index, if the saga came that far.
    pub registered: Option<NewPackage>,
    /// The blob to delete, if the saga rolled back after writing it.
    pub delete: Option<String>,
}

/// The entry that the index is handed for an upload: what the headers
/// announce, with the digest in base sixteen as its checksum.
pub open spec fn index_entry(headers: UploadHeaders, digest: Seq<u8>) -> NewPackageView {
    NewPackageView { cksum: hex(digest), ..announced(headers) }
}

/// Runs a whole publish against the answers that the blob store and the
/// index gave or would give. The steps are those of the saga, in order, and
/// each is taken only if the one before succeeded:
///
/// - bad headers end it with nothing touched;
/// - a failed reservation ends it with nothing uploaded;
/// - a status other than 200 ends it with nothing registered and nothing to
///   delete;
/// - a registration that the index refuses ends it with the blob to delete
///   and the version unpublished;
/// - otherwise the version is published and the package comes back.
pub fn run(
    conn: &mut Catalog,
    headers: UploadHeaders,
    account: Option<User>,
    max_upload_size: u64,
    now: Timespec,
    answers: &Answers,
) -> (r: Report)
    requires
        old(conn).wf(),
        now.wf(),
    ensures
        final(conn).wf(),
        match header_fault(headers, account, max_upload_size) {
            Some(fault) => {
                &&& final(conn)@ == old(conn)@
                &&& r.outcome matches Err(e) && fault == (e.kind, e.detail@)
                &&& r.uploaded_to is None && r.registered is None && r.delete is None
            },
            None => {
                let pkg = announced(headers);
                let after = reserved(old(conn)@, pkg, account->0.id, now);
                match reserve_fault(old(conn)@, pkg, account->0.id, now) {
                    Some(fault) => {
                        &&& final(conn)@ == after
                        &&& r.outcome matches Err(e) && fault == (e.kind, e.detail@)
                        &&& r.uploaded_to is None && r.registered is None && r.delete is None
                    },
                    None => {
                        &&& r.uploaded_to matches Some(path) && path@ == blob_path(pkg.name, pkg.vers)
                        &&& if answers.upload_status != 200 {
                            &&& final(conn)@ == after
                            &&& r.outcome matches Err(e) && e.says(
                                ErrorKind::UploadFailed,
                                "failed to upload the package"@,
                            )
                            &&& r.registered is None && r.delete is None
                        } else {
                            &&& r.registered matches Some(entry) && entry@ == index_entry(
                                headers,
                                answers.digest@,
                            )
                            &&& if !answers.indexed {
                                &&& final(conn)@ == after
                                &&& r.outcome matches Err(e) && e.says(
                                    ErrorKind::IndexingFailed,
                                    "could not add package `"@ + pkg.name + "` to the index"@,
                                )
                                &&& r.delete matches Some(path) && path@ == blob_path(
                                    pkg.name,
                                    pkg.vers,
                                )
                            } else {
                                &&& final(conn)@ == after.publish_version(
                                    old(conn)@.next_version_id() as i32,
                                )
                                &&& r.outcome matches Ok(shown) && shown@ == after.named(
                                    pkg.name,
                                ).encoded(Seq::empty())
                                &&& after.named(pkg.name).name == pkg.name
                                &&& r.delete is None
                            }
                        }
                    },
                }
            },
        },
{
    let ghost start = conn@;
    let ghost pkg = announced(headers);
    let mut saga = match new(conn, headers, account, max_upload_size, now) {
        Ok(saga) => saga,
        Err(e) => {
            return Report { outcome: Err(e), uploaded_to: None, registered: None, delete: None };
        },
    };
    proof {
        // The reservation leaves the package in the catalog, under its name.
        let user_id = account->0.id;
        lemma_find_or_insert(start, pkg.name, user_id, now);
        lemma_reserved(start, pkg, user_id, now);
        let held = start.after_find_or_insert(pkg.name, user_id, now);
        let i = choose|i: int|
            0 <= i < held.packages.len() && (#[trigger] held.packages[i]).name == pkg.name;
        lemma_named_is(held, pkg.name, i);
        assert(conn@.packages[i] == held.packages[i]);
        lemma_named_is(conn@, pkg.name, i);
    }
    let path = saga.upload_path().clone();
    match saga.uploaded(answers.upload_status, answers.digest.as_slice()) {
        Ok(_) => {},
        Err(e) => {
            return Report { outcome: Err(e), uploaded_to: Some(path), registered: None, delete: None };
        },
    }
    let entry = saga.new_package().duplicate();
    match saga.indexed(conn, answers.indexed) {
        Outcome::Committed(shown) => Report {
            outcome: Ok(shown),
            uploaded_to: Some(path),
            registered: Some(entry),
            delete: None,
        },
        Outcome::RolledBack { error, delete } => Report {
            outcome: Err(error),
            uploaded_to: Some(path),
            registered: Some(entry),
            delete: Some(delete),
        },
    }
}

} // verus!

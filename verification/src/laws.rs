//! What holds of the registry across its operations.

use vstd::prelude::*;
use crate::catalog::{
    lemma_count_download, lemma_find_or_insert, lemma_insert_version, lemma_named_is,
    lemma_publish_version, lemma_version_is, published_of, CatalogView,
};
use crate::error::ErrorKind;
use crate::publish::{dep_names, first_unknown, reserve_fault, reserved};
use crate::timestamp::Timespec;
use crate::upload::NewPackageView;
use crate::version::VersionView;

verus! {

/// Some dependency is unknown exactly where a first unknown one is found,
/// and all before the first are known.
pub proof fn lemma_first_unknown(cv: CatalogView, names: Seq<Seq<char>>)
    ensures
        first_unknown(cv, names) is Some <==> exists|i: int|
            0 <= i < names.len() && !cv.has_name(#[trigger] names[i]),
        first_unknown(cv, names) matches Some(i) ==> {
            &&& 0 <= i < names.len()
            &&& !cv.has_name(names[i])
            &&& forall|k: int| 0 <= k < i ==> cv.has_name(#[trigger] names[k])
        },
    decreases names.len(),
{
    if names.len() > 0 {
        let front = names.drop_last();
        lemma_first_unknown(cv, front);
        assert forall|k: int| 0 <= k < front.len() implies front[k] == names[k] by {}
        if first_unknown(cv, front) is None {
            assert forall|i: int| 0 <= i < names.len() - 1 implies cv.has_name(#[trigger] names[i]) by {
                assert(front[i] == names[i]);
            }
        } else {
            let i = first_unknown(cv, front)->0;
            assert(front[i] == names[i]);
            assert forall|k: int| 0 <= k < i implies cv.has_name(#[trigger] names[k]) by {
                assert(front[k] == names[k]);
            }
        }
    }
}

/// A reservation keeps the catalog well formed and keeps every package row.
pub proof fn lemma_reserved(cv: CatalogView, pkg: NewPackageView, user_id: i32, now: Timespec)
    requires
        cv.wf(),
        now.wf(),
    ensures
        reserved(cv, pkg, user_id, now).wf(),
        reserved(cv, pkg, user_id, now).packages == cv.after_find_or_insert(
            pkg.name,
            user_id,
            now,
        ).packages,
        reserved(cv, pkg, user_id, now).total_downloads == cv.total_downloads,
{
    lemma_find_or_insert(cv, pkg.name, user_id, now);
    if reserve_fault(cv, pkg, user_id, now) is None {
        let held = cv.after_find_or_insert(pkg.name, user_id, now);
        let row = cv.found_or_inserted(pkg.name, user_id, now)->0;
        lemma_insert_version(held, row.id, pkg.vers, now);
        let with_version = held.insert_version(row.id, pkg.vers, now);
        let after = reserved(cv, pkg, user_id, now);
        assert(after.packages == with_version.packages);
        assert(after.versions == with_version.versions);
        assert forall|i: int| 0 <= i < after.versions.len() implies after.has_id(
            (#[trigger] after.versions[i]).package_id,
        ) by {
            assert(with_version.has_id(with_version.versions[i].package_id));
        }
    }
}

/// A pair of name and version that was never seen can be reserved. The name
/// is free, or it is the account's and has no such version; every declared
/// dependency names a package; and the catalog has identifiers left for the
/// rows to make. Then nothing stands against the reservation.
pub proof fn law_new_pair_can_be_reserved(
    cv: CatalogView,
    pkg: NewPackageView,
    user_id: i32,
    now: Timespec,
)
    requires
        cv.wf(),
        now.wf(),
        !cv.has_name(pkg.name) || (cv.named(pkg.name).user_id == user_id && !cv.has_version(
            cv.named(pkg.name).id,
            pkg.vers,
        )),
        forall|i: int| 0 <= i < pkg.deps.len() ==> cv.has_name(#[trigger] pkg.deps[i].name),
        cv.has_name(pkg.name) || cv.next_package_id() <= i32::MAX,
        cv.next_version_id() <= i32::MAX,
    ensures
        reserve_fault(cv, pkg, user_id, now) is None,
{
    let held = cv.after_find_or_insert(pkg.name, user_id, now);
    let names = dep_names(pkg);
    lemma_find_or_insert(cv, pkg.name, user_id, now);
    let row = cv.found_or_inserted(pkg.name, user_id, now)->0;
    if !cv.has_name(pkg.name) {
        if held.has_version(row.id, pkg.vers) {
            let i = choose|i: int|
                0 <= i < held.versions.len() && (#[trigger] held.versions[i]).package_id == row.id
                    && held.versions[i].num == pkg.vers;
            assert(cv.versions[i].package_id != row.id);
        }
    }
    lemma_first_unknown(held, names);
    if first_unknown(held, names) is Some {
        let i = first_unknown(held, names)->0;
        assert(names[i] == pkg.deps[i].name);
        assert(cv.has_name(pkg.deps[i].name));
    }
}

/// Publishing is append-only, and version uniqueness is its idempotency
/// key. Take a pair of name and version that was never seen, as
/// [`law_new_pair_can_be_reserved`] says it, reserve it, and let the index
/// take it. Then the catalog holds the package under its name, for the
/// account that published it, and lists the version among the package's
/// published versions, which is what a later `show` reports; and it holds
/// one row only for that version. An attempt to publish the same name and
/// version again, at any later time, is rejected as already published and
/// leaves the catalog as it is; since the rejection yields no saga, nothing
/// is sent to the blob store or the index that second time.
pub proof fn law_published_version_is_listed_once(
    cv: CatalogView,
    pkg: NewPackageView,
    user_id: i32,
    now: Timespec,
    later: Timespec,
)
    requires
        cv.wf(),
        now.wf(),
        later.wf(),
        !cv.has_name(pkg.name) || (cv.named(pkg.name).user_id == user_id && !cv.has_version(
            cv.named(pkg.name).id,
            pkg.vers,
        )),
        forall|i: int| 0 <= i < pkg.deps.len() ==> cv.has_name(#[trigger] pkg.deps[i].name),
        cv.has_name(pkg.name) || cv.next_package_id() <= i32::MAX,
        cv.next_version_id() <= i32::MAX,
    ensures
        ({
            let done = reserved(cv, pkg, user_id, now).publish_version(cv.next_version_id() as i32);
            let row = done.named(pkg.name);
            let listed = done.versions_of(row.id);
            &&& reserve_fault(cv, pkg, user_id, now) is None
            &&& done.wf()
            &&& done.has_name(pkg.name)
            &&& row.name == pkg.name
            &&& row.user_id == user_id
            &&& done.has_published(row.id, pkg.vers)
            &&& listed.len() > 0 && listed.last().num == pkg.vers
            &&& forall|i: int, j: int|
                0 <= i < done.versions.len() && 0 <= j < done.versions.len() && (
                #[trigger] done.versions[i]).package_id == row.id && done.versions[i].num == pkg.vers
                    && (#[trigger] done.versions[j]).package_id == row.id && done.versions[j].num
                    == pkg.vers ==> i == j
            &&& reserve_fault(done, pkg, user_id, later) == Some(
                (
                    ErrorKind::VersionAlreadyPublished,
                    "package version `"@ + pkg.vers + "` is already uploaded"@,
                ),
            )
            &&& reserved(done, pkg, user_id, later) == done
        }),
{
    law_new_pair_can_be_reserved(cv, pkg, user_id, now);
    let held = cv.after_find_or_insert(pkg.name, user_id, now);
    let found = cv.found_or_inserted(pkg.name, user_id, now)->0;
    let after = reserved(cv, pkg, user_id, now);
    let version = held.new_version(found.id, pkg.vers, now);
    let done = after.publish_version(version.id);
    lemma_find_or_insert(cv, pkg.name, user_id, now);
    lemma_insert_version(held, found.id, pkg.vers, now);
    lemma_reserved(cv, pkg, user_id, now);
    lemma_publish_version(after, version.id);
    let with_version = held.insert_version(found.id, pkg.vers, now);
    assert(after.versions == with_version.versions);
    assert(after.packages == held.packages);
    assert(done.packages == held.packages);
    assert(version.id == cv.next_version_id() as i32);

    // The package is there under its name, and it is the row reserved.
    let i = choose|i: int| 0 <= i < held.packages.len() && (#[trigger] held.packages[i]).name == pkg.name;
    lemma_named_is(held, pkg.name, i);
    assert(done.packages[i] == held.packages[i]);
    lemma_named_is(done, pkg.name, i);
    assert(done.named(pkg.name) == found);
    if cv.has_name(pkg.name) {
        assert(found == cv.named(pkg.name));
    }

    // The version is there, published, and the last of the package's
    // published versions.
    let n = held.versions.len() as int;
    assert(after.versions[n] == version);
    let shown = VersionView { published: true, ..version };
    assert(done.versions[n] == shown);
    lemma_version_is(done, found.id, pkg.vers, n);
    assert(done.versions =~= done.versions.take(n).push(shown));
    done.versions.take(n).lemma_filter_push(shown, published_of(found.id));
    assert(done.versions_of(found.id).last() == shown);

    // One row only carries the pair.
    assert forall|i: int, j: int|
        0 <= i < done.versions.len() && 0 <= j < done.versions.len() && (
        #[trigger] done.versions[i]).package_id == found.id && done.versions[i].num == pkg.vers && (
        #[trigger] done.versions[j]).package_id == found.id && done.versions[j].num
            == pkg.vers implies i == j by {
        if i < j {
            assert(!(done.versions[i].package_id == done.versions[j].package_id
                && done.versions[i].num == done.versions[j].num));
        } else if j < i {
            assert(!(done.versions[j].package_id == done.versions[i].package_id
                && done.versions[j].num == done.versions[i].num));
        }
    }

    // A second attempt finds the package and the version.
    assert(done.found_or_inserted(pkg.name, user_id, later) == Some(found));
    assert(done.after_find_or_insert(pkg.name, user_id, later) == done);
}

/// A version whose upload or registration failed is not published. After a
/// reservation alone, with no entry in the index, the version is not among
/// the package's published versions, so no read path shows it or serves it.
pub proof fn law_unindexed_version_is_not_shown(
    cv: CatalogView,
    pkg: NewPackageView,
    user_id: i32,
    now: Timespec,
)
    requires
        cv.wf(),
        now.wf(),
        reserve_fault(cv, pkg, user_id, now) is None,
    ensures
        ({
            let after = reserved(cv, pkg, user_id, now);
            let row = after.named(pkg.name);
            &&& after.has_version(row.id, pkg.vers)
            &&& !after.has_published(row.id, pkg.vers)
            &&& after.versions_of(row.id) == cv.versions_of(row.id)
            &&& forall|i: int|
                0 <= i < after.versions_of(row.id).len() ==> (#[trigger] after.versions_of(
                    row.id,
                )[i]).num != pkg.vers
        }),
{
    let held = cv.after_find_or_insert(pkg.name, user_id, now);
    let found = cv.found_or_inserted(pkg.name, user_id, now)->0;
    let after = reserved(cv, pkg, user_id, now);
    let version = held.new_version(found.id, pkg.vers, now);
    lemma_find_or_insert(cv, pkg.name, user_id, now);
    lemma_insert_version(held, found.id, pkg.vers, now);
    lemma_reserved(cv, pkg, user_id, now);
    let with_version = held.insert_version(found.id, pkg.vers, now);
    assert(after.versions == with_version.versions);
    assert(after.packages == held.packages);
    let i = choose|i: int| 0 <= i < held.packages.len() && (#[trigger] held.packages[i]).name == pkg.name;
    lemma_named_is(held, pkg.name, i);
    lemma_named_is(after, pkg.name, i);
    let n = held.versions.len() as int;
    assert(after.versions[n] == version);
    lemma_version_is(after, found.id, pkg.vers, n);
    held.versions.lemma_filter_push(version, published_of(found.id));
    assert(after.versions =~= held.versions.push(version));
    assert(after.versions_of(found.id) == cv.versions_of(found.id));

    // A published version of that number would be a row of the catalog
    // before the reservation, where the package has no such version.
    let listed = cv.versions_of(found.id);
    assert forall|k: int| 0 <= k < listed.len() implies (#[trigger] listed[k]).num != pkg.vers by {
        cv.versions.lemma_filter_pred(published_of(found.id), k);
        assert(listed.contains(listed[k]));
        cv.versions.lemma_filter_contains_rev(published_of(found.id), listed[k]);
        let m = choose|m: int| 0 <= m < cv.versions.len() && cv.versions[m] == listed[k];
        assert(published_of(found.id)(listed[k]));
        if listed[k].num == pkg.vers {
            assert(held.versions[m].package_id == found.id && held.versions[m].num == pkg.vers);
            assert(held.has_version(found.id, pkg.vers));
        }
    }
}

/// Find-or-insert is idempotent. After one call for a name, a second call
/// for the same name, by whichever account and at whatever time, changes
/// nothing and yields the same row; and the catalog never holds two rows of
/// one name.
pub proof fn law_find_or_insert_is_idempotent(
    cv: CatalogView,
    name: Seq<char>,
    user_id: i32,
    now: Timespec,
    other_user: i32,
    later: Timespec,
)
    requires
        cv.wf(),
        now.wf(),
        later.wf(),
    ensures
        ({
            let once = cv.after_find_or_insert(name, user_id, now);
            &&& once.wf()
            &&& once.after_find_or_insert(name, other_user, later) == once
            &&& cv.found_or_inserted(name, user_id, now) is Some ==> once.found_or_inserted(
                name,
                other_user,
                later,
            ) == cv.found_or_inserted(name, user_id, now)
            &&& forall|i: int, j: int|
                0 <= i < once.packages.len() && 0 <= j < once.packages.len() && (
                #[trigger] once.packages[i]).name == name && (#[trigger] once.packages[j]).name
                    == name ==> i == j
        }),
{
    lemma_find_or_insert(cv, name, user_id, now);
    let once = cv.after_find_or_insert(name, user_id, now);
    assert forall|i: int, j: int|
        0 <= i < once.packages.len() && 0 <= j < once.packages.len() && (
        #[trigger] once.packages[i]).name == name && (#[trigger] once.packages[j]).name
            == name implies i == j by {
        if i < j {
            assert(once.packages[i].name != once.packages[j].name);
        } else if j < i {
            assert(once.packages[j].name != once.packages[i].name);
        }
    }
}

/// The catalog after the downloads `hits`, each a pair of a package's and a
/// version's identifier, counted in the order given.
pub open spec fn after_downloads(cv: CatalogView, hits: Seq<(i32, i32)>) -> CatalogView
    decreases hits.len(),
{
    if hits.len() == 0 {
        cv
    } else {
        after_downloads(cv, hits.drop_last()).count_download(hits.last().0, hits.last().1)
    }
}

/// Download counters only grow. Whatever downloads are counted, in whatever
/// order they arrive, no counter of a package or a version and not the
/// total ever falls or turns negative, and no row is lost or moved.
pub proof fn law_download_counters_never_fall(cv: CatalogView, hits: Seq<(i32, i32)>)
    requires
        cv.wf(),
    ensures
        ({
            let after = after_downloads(cv, hits);
            &&& after.wf()
            &&& after.packages.len() == cv.packages.len()
            &&& after.versions.len() == cv.versions.len()
            &&& forall|i: int|
                0 <= i < cv.packages.len() ==> 0 <= cv.packages[i].downloads <= (
                #[trigger] after.packages[i]).downloads
            &&& forall|i: int|
                0 <= i < cv.versions.len() ==> 0 <= cv.versions[i].downloads <= (
                #[trigger] after.versions[i]).downloads
            &&& 0 <= cv.total_downloads <= after.total_downloads
        }),
    decreases hits.len(),
{
    if hits.len() > 0 {
        let before = after_downloads(cv, hits.drop_last());
        law_download_counters_never_fall(cv, hits.drop_last());
        lemma_count_download(before, hits.last().0, hits.last().1);
        let after = after_downloads(cv, hits);
        assert forall|i: int| 0 <= i < cv.packages.len() implies 0 <= cv.packages[i].downloads <= (
        #[trigger] after.packages[i]).downloads by {
            assert(cv.packages[i].downloads <= before.packages[i].downloads);
        }
        assert forall|i: int| 0 <= i < cv.versions.len() implies 0 <= cv.versions[i].downloads <= (
        #[trigger] after.versions[i]).downloads by {
            assert(cv.versions[i].downloads <= before.versions[i].downloads);
        }
    } else {
        assert forall|i: int| 0 <= i < cv.packages.len() implies 0 <= (
        #[trigger] cv.packages[i]).downloads by {
            assert(cv.packages[i].wf());
        }
        assert forall|i: int| 0 <= i < cv.versions.len() implies 0 <= (
        #[trigger] cv.versions[i]).downloads by {
            assert(cv.versions[i].wf());
        }
    }
}

/// A publish that declares an unknown dependency makes no version. Where
/// the name is free or held by the publishing account, the version is new,
/// and some declared dependency names no package, the reservation fails
/// with `UnknownDependency` and names the first such dependency; the
/// catalog gains no version row and no edge. As the failure yields no saga,
/// no blob is written and nothing is registered in the index.
pub proof fn law_unknown_dependency_leaves_no_version(
    cv: CatalogView,
    pkg: NewPackageView,
    user_id: i32,
    now: Timespec,
    unknown: int,
)
    requires
        cv.wf(),
        now.wf(),
        cv.found_or_inserted(pkg.name, user_id, now) matches Some(row) && row.user_id == user_id
            && !cv.after_find_or_insert(pkg.name, user_id, now).has_version(row.id, pkg.vers),
        0 <= unknown < pkg.deps.len(),
        !cv.after_find_or_insert(pkg.name, user_id, now).has_name(pkg.deps[unknown].name),
    ensures
        ({
            let held = cv.after_find_or_insert(pkg.name, user_id, now);
            let first = first_unknown(held, dep_names(pkg));
            &&& first is Some && 0 <= first->0 <= unknown
            &&& !held.has_name(pkg.deps[first->0].name)
            &&& reserve_fault(cv, pkg, user_id, now) == Some(
                (
                    ErrorKind::UnknownDependency,
                    "no known package named `"@ + pkg.deps[first->0].name + "`"@,
                ),
            )
            &&& reserved(cv, pkg, user_id, now) == held
            &&& reserved(cv, pkg, user_id, now).versions == cv.versions
            &&& reserved(cv, pkg, user_id, now).dependencies == cv.dependencies
        }),
{
    let held = cv.after_find_or_insert(pkg.name, user_id, now);
    let names = dep_names(pkg);
    lemma_find_or_insert(cv, pkg.name, user_id, now);
    assert(names[unknown] == pkg.deps[unknown].name);
    lemma_first_unknown(held, names);
    let first = first_unknown(held, names)->0;
    assert(names[first] == pkg.deps[first].name);
    if unknown < first {
        assert(held.has_name(names[unknown]));
    }
}

} // verus!

use package_registry::catalog::Catalog;
use package_registry::error::ErrorKind;
use package_registry::package::{Package, UpdatePackage, UpdateRequest};
use package_registry::query::{download, index, list, show, summary, update, DownloadResponse};
use package_registry::rank::top_ranked;
use package_registry::timestamp::Timespec;
use package_registry::upload::User;
use package_registry::version::Version;

fn at(sec: i64) -> Timespec {
    Timespec::new(sec, 0).unwrap()
}

fn numbered(n: usize) -> Catalog {
    let mut conn = Catalog::new();
    for i in 0..n {
        let name = format!("pkg{:03}", i);
        Package::find_or_insert(&mut conn, &name, 1, at(1000 + i as i64)).unwrap();
    }
    conn
}

fn mixed() -> Catalog {
    let mut conn = Catalog::new();
    for (i, name) in ["alpha", "Beta", "alpine", "gamma", "ALPS", "beta2"].iter().enumerate() {
        Package::find_or_insert(&mut conn, name, 1, at(50 + i as i64)).unwrap();
    }
    Version::insert(&mut conn, 1, "0.1.0", at(60)).unwrap();
    Version::insert(&mut conn, 3, "0.2.0", at(61)).unwrap();
    Version::insert(&mut conn, 1, "0.3.0", at(62)).unwrap();
    for id in 1..=3 {
        conn.mark_published(id);
    }
    conn
}

fn names(list: &[package_registry::package::EncodablePackage]) -> Vec<String> {
    list.iter().map(|p| p.name.clone()).collect()
}

#[test]
fn more_than_a_hundred_per_page_is_refused() {
    let conn = numbered(3);
    for per_page in [101, 102, 1000, i64::MAX] {
        let e = list(&conn, 1, per_page, "").unwrap_err();
        assert_eq!(e.kind(), ErrorKind::InvalidRequest);
        assert_eq!(e.message(), "cannot request more than 100 packages");
    }
    assert!(list(&conn, 1, 100, "").is_ok());
}

#[test]
fn pages_below_one_and_negative_sizes_are_refused() {
    let conn = numbered(3);
    for (page, per_page) in [(0, 10), (-1, 10), (1, -1), (i64::MIN, 5)] {
        let e = list(&conn, page, per_page, "").unwrap_err();
        assert_eq!(e.kind(), ErrorKind::InvalidRequest);
        assert_eq!(e.message(), "page and per_page must not be negative");
    }
    let e = list(&conn, 0, 101, "").unwrap_err();
    assert_eq!(e.message(), "cannot request more than 100 packages");
}

#[test]
fn a_page_holds_the_lesser_of_its_size_and_what_is_left() {
    let conn = numbered(25);
    for per_page in 1..=100i64 {
        for page in 1..=30i64 {
            let got = list(&conn, page, per_page, "").unwrap();
            let left = 25 - (page - 1) * per_page;
            let want = if left <= 0 { 0 } else { left.min(per_page) };
            assert_eq!(got.packages.len() as i64, want);
            assert!(got.packages.len() as i64 <= per_page);
            assert_eq!(got.total, 25);
        }
    }
}

#[test]
fn pages_follow_insertion_order() {
    let conn = numbered(25);
    let got = list(&conn, 3, 10, "").unwrap();
    assert_eq!(names(&got.packages), vec!["pkg020", "pkg021", "pkg022", "pkg023", "pkg024"]);
    let got = list(&conn, 2, 3, "").unwrap();
    assert_eq!(names(&got.packages), vec!["pkg003", "pkg004", "pkg005"]);
    let got = list(&conn, 1, 0, "").unwrap();
    assert!(got.packages.is_empty());
    assert_eq!(got.total, 25);
    let got = list(&conn, i64::MAX, 100, "").unwrap();
    assert!(got.packages.is_empty());
    assert_eq!(got.total, 25);
}

#[test]
fn the_prefix_filters_whatever_the_letter_case() {
    let conn = mixed();
    let got = list(&conn, 1, 10, "al").unwrap();
    assert_eq!(names(&got.packages), vec!["alpha", "alpine", "ALPS"]);
    assert_eq!(got.total, 3);
    let got = list(&conn, 1, 10, "BETA").unwrap();
    assert_eq!(names(&got.packages), vec!["Beta", "beta2"]);
    let got = list(&conn, 2, 2, "a").unwrap();
    assert_eq!(names(&got.packages), vec!["ALPS"]);
    assert_eq!(got.total, 3);
    let got = list(&conn, 1, 10, "zz").unwrap();
    assert!(got.packages.is_empty());
    assert_eq!(got.total, 0);
    let got = list(&conn, 1, 10, "").unwrap();
    assert_eq!(got.total, 6);
}

#[test]
fn a_listing_carries_each_package_s_versions() {
    let conn = mixed();
    let got = list(&conn, 1, 10, "alp").unwrap();
    assert_eq!(got.packages[0].versions, vec![1, 3]);
    assert_eq!(got.packages[1].versions, vec![2]);
    assert_eq!(got.packages[2].versions, Vec::<i32>::new());
}

#[test]
fn index_reads_its_numbers_and_falls_back_on_defaults() {
    let conn = numbered(25);
    let got = index(&conn, None, None, None).unwrap();
    assert_eq!(got.packages.len(), 10);
    assert_eq!(got.packages[0].name, "pkg000");
    assert_eq!(got.total, 25);
    let got = index(&conn, Some("2"), Some("20"), None).unwrap();
    assert_eq!(names(&got.packages), vec!["pkg020", "pkg021", "pkg022", "pkg023", "pkg024"]);
    let got = index(&conn, None, None, Some("pkg01")).unwrap();
    assert_eq!(got.packages.len(), 10);
    assert_eq!(got.packages[0].name, "pkg010");
    assert_eq!(got.total, 10);
    let got = index(&conn, Some("1"), Some("0"), None).unwrap();
    assert!(got.packages.is_empty());
    assert_eq!(got.total, 25);
    let e = index(&conn, Some("1"), Some("101"), None).unwrap_err();
    assert_eq!(e.kind(), ErrorKind::InvalidRequest);
    let e = index(&conn, Some("0"), None, None).unwrap_err();
    assert_eq!(e.kind(), ErrorKind::InvalidRequest);
}

#[test]
fn top_ranked_orders_by_key_then_insertion() {
    let keys = vec![(5, 0), (9, 0), (5, 0), (9, 1), (1, 0), (9, 0)];
    assert_eq!(top_ranked(&keys, 10), vec![3, 1, 5, 0, 2, 4]);
    assert_eq!(top_ranked(&keys, 3), vec![3, 1, 5]);
    assert_eq!(top_ranked(&keys, 1), vec![3]);
    assert_eq!(top_ranked(&keys, 0), Vec::<usize>::new());
    assert_eq!(top_ranked(&Vec::new(), 4), Vec::<usize>::new());
    let equal = vec![(2, 2); 5];
    assert_eq!(top_ranked(&equal, 3), vec![0, 1, 2]);
    let rising: Vec<(i64, i64)> = (0..20).map(|i| (i, 0)).collect();
    assert_eq!(top_ranked(&rising, 4), vec![19, 18, 17, 16]);
}

#[test]
fn the_summary_ranks_ten_of_each() {
    let mut conn = numbered(12);
    for _ in 0..3 {
        conn.record_download(5, 0);
    }
    conn.record_download(2, 0);
    conn.record_download(9, 0);
    let got = summary(&conn);
    assert_eq!(got.num_packages, 12);
    assert_eq!(got.num_downloads, 5);
    assert_eq!(got.new_packages.len(), 10);
    assert_eq!(got.new_packages[0].name, "pkg011");
    assert_eq!(got.new_packages[9].name, "pkg002");
    assert_eq!(got.just_updated.len(), 10);
    assert_eq!(got.just_updated[0].name, "pkg011");
    assert_eq!(
        names(&got.most_downloaded),
        vec!["pkg004", "pkg001", "pkg008", "pkg000", "pkg002", "pkg003", "pkg005", "pkg006", "pkg007", "pkg009"]
    );
    assert_eq!(got.most_downloaded[0].downloads, 3);
}

#[test]
fn the_summary_of_a_small_catalog_is_short() {
    let got = summary(&Catalog::new());
    assert_eq!(got.num_packages, 0);
    assert_eq!(got.num_downloads, 0);
    assert!(got.new_packages.is_empty() && got.most_downloaded.is_empty() && got.just_updated.is_empty());
    let got = summary(&mixed());
    assert_eq!(got.new_packages.len(), 6);
    assert_eq!(names(&got.new_packages), vec!["beta2", "ALPS", "gamma", "alpine", "Beta", "alpha"]);
    assert_eq!(names(&got.most_downloaded), vec!["alpha", "Beta", "alpine", "gamma", "ALPS", "beta2"]);
    assert_eq!(got.new_packages[5].versions, vec![1, 3]);
}

#[test]
fn show_gives_a_package_with_its_versions() {
    let conn = mixed();
    let got = show(&conn, "alpha").unwrap();
    assert_eq!(got.package.name, "alpha");
    assert_eq!(got.package.id, "alpha");
    assert_eq!(got.package.versions, vec![1, 3]);
    assert_eq!(got.versions.len(), 2);
    assert_eq!(got.versions[0].id, 1);
    assert_eq!(got.versions[0].pkg, "alpha");
    assert_eq!(got.versions[0].num, "0.1.0");
    assert_eq!(got.versions[0].dl_path, "/download/alpha/alpha-0.1.0.tar.gz");
    assert_eq!(got.versions[0].created_at, "1970-01-01T00:01:00Z");
    assert_eq!(got.versions[1].num, "0.3.0");
    let got = show(&conn, "gamma").unwrap();
    assert!(got.versions.is_empty() && got.package.versions.is_empty());
    let e = show(&conn, "delta").unwrap_err();
    assert_eq!(e.kind(), ErrorKind::NotFound);
}

#[test]
fn update_changes_nothing() {
    let conn = mixed();
    let request = UpdateRequest { package: UpdatePackage { name: "renamed".to_string() } };
    let got = update(&conn, Some(User { id: 1 }), "alpha", &request).unwrap();
    assert_eq!(got.name, "alpha");
    assert_eq!(got.versions, Vec::<i32>::new());
    assert!(Package::find_by_name(&conn, "renamed").is_err());
    assert_eq!(Package::find_by_name(&conn, "alpha").unwrap().id, 1);
    let e = update(&conn, None, "alpha", &request).unwrap_err();
    assert_eq!(e.kind(), ErrorKind::InvalidRequest);
    assert_eq!(e.message(), "must be logged in to perform that action");
    let e = update(&conn, Some(User { id: 1 }), "delta", &request).unwrap_err();
    assert_eq!(e.kind(), ErrorKind::NotFound);
}

#[test]
fn download_redirects_and_counts() {
    let mut conn = Catalog::new();
    let foo = Package::find_or_insert(&mut conn, "foo", 1, at(10)).unwrap();
    let v = Version::insert(&mut conn, foo.id, "1.0.0", at(11)).unwrap();
    let w = Version::insert(&mut conn, foo.id, "1.1.0", at(12)).unwrap();
    conn.mark_published(v.id);
    conn.mark_published(w.id);
    let got = download(&mut conn, "foo", "foo-1.0.0.tar.gz", "blobs.example.com", false).unwrap();
    match got {
        DownloadResponse::Redirect(url) => assert_eq!(url, "https://blobs.example.com/pkg/foo/foo-1.0.0.tar.gz"),
        other => panic!("{:?}", other),
    }
    assert_eq!(Package::find(&conn, foo.id).unwrap().downloads, 1);
    assert_eq!(Version::find_by_num(&conn, foo.id, "1.0.0").unwrap().downloads, 1);
    assert_eq!(Version::find_by_num(&conn, foo.id, "1.0.0").unwrap().id, v.id);
    assert_eq!(Version::find_by_num(&conn, foo.id, "1.1.0").unwrap().downloads, 0);
    assert_eq!(conn.total_downloads(), 1);
}

#[test]
fn download_as_data_carries_the_same_location() {
    let mut conn = Catalog::new();
    let foo = Package::find_or_insert(&mut conn, "foo", 1, at(10)).unwrap();
    let v = Version::insert(&mut conn, foo.id, "1.0.0", at(11)).unwrap();
    conn.mark_published(v.id);
    let got = download(&mut conn, "foo", "foo-1.0.0.tar.gz", "blobs.example.com", true).unwrap();
    match got {
        DownloadResponse::Json { ok, url } => {
            assert!(ok);
            assert_eq!(url, "https://blobs.example.com/pkg/foo/foo-1.0.0.tar.gz");
        }
        other => panic!("{:?}", other),
    }
    assert_eq!(Package::find(&conn, foo.id).unwrap().downloads, 1);
    assert_eq!(conn.total_downloads(), 1);
}

#[test]
fn download_refuses_other_file_names() {
    let mut conn = Catalog::new();
    let foo = Package::find_or_insert(&mut conn, "foo", 1, at(10)).unwrap();
    let v = Version::insert(&mut conn, foo.id, "1.0.0", at(11)).unwrap();
    conn.mark_published(v.id);
    Version::insert(&mut conn, foo.id, "3.0.0", at(12)).unwrap();
    for filename in ["bar-1.0.0.tar.gz", "foo-1.0.0.zip", "foo.tar.gz", "foo", "", "fo-1.0.0.tar.gz", "foo-1.0.0.tar.gz.sig"] {
        let e = download(&mut conn, "foo", filename, "h", false).unwrap_err();
        assert_eq!(e.kind(), ErrorKind::InvalidRequest, "{}", filename);
        assert_eq!(e.message(), "download filename is not a tarball with the package name as a prefix");
    }
    for (name, filename) in
        [("foo", "foo-2.0.0.tar.gz"), ("food", "food-1.0.0.tar.gz"), ("foo", "foo-.tar.gz"), ("foo", "foo-3.0.0.tar.gz")]
    {
        let e = download(&mut conn, name, filename, "h", false).unwrap_err();
        assert_eq!(e.kind(), ErrorKind::NotFound, "{}", filename);
        assert_eq!(e.message(), "package or version not found");
    }
    assert_eq!(Package::find(&conn, foo.id).unwrap().downloads, 0);
    assert_eq!(conn.total_downloads(), 0);
}

#[test]
fn an_unpublished_version_is_on_no_read_path() {
    let mut conn = mixed();
    let v = Version::insert(&mut conn, 1, "9.9.9", at(70)).unwrap();
    let shown = show(&conn, "alpha").unwrap();
    assert_eq!(shown.package.versions, vec![1, 3]);
    assert!(shown.versions.iter().all(|v| v.num != "9.9.9"));
    assert_eq!(list(&conn, 1, 10, "alpha").unwrap().packages[0].versions, vec![1, 3]);
    assert_eq!(summary(&conn).most_downloaded[0].versions, vec![1, 3]);
    let e = download(&mut conn, "alpha", "alpha-9.9.9.tar.gz", "h", false).unwrap_err();
    assert_eq!(e.kind(), ErrorKind::NotFound);
    assert_eq!(conn.total_downloads(), 0);
    conn.mark_published(v.id);
    assert_eq!(show(&conn, "alpha").unwrap().package.versions, vec![1, 3, 4]);
    assert!(download(&mut conn, "alpha", "alpha-9.9.9.tar.gz", "h", false).is_ok());
}

#[test]
fn index_refuses_a_page_or_size_that_is_no_number() {
    let conn = numbered(25);
    for (page, per_page) in [
        (Some("two"), None),
        (Some(""), None),
        (None, Some("ten")),
        (None, Some("")),
        (Some("1.5"), Some("10")),
        (Some("1"), Some("1e1")),
        (Some("abc"), Some("101")),
        (Some("99999999999999999999"), None),
    ] {
        let e = index(&conn, page, per_page, None).unwrap_err();
        assert_eq!(e.kind(), ErrorKind::InvalidRequest);
        assert_eq!(e.message(), "page and per_page must be numbers");
    }
    let e = index(&conn, Some("-3"), None, None).unwrap_err();
    assert_eq!(e.message(), "page and per_page must not be negative");
}

use package_registry::checksum::{checksum_text, ChecksumReader};
use package_registry::error::{Error, ErrorKind};
use package_registry::catalog::Catalog;
use package_registry::package::{allowed_in_name, Package};
use package_registry::query::{index, list};
use package_registry::text::decimal_string;
use package_registry::timestamp::Timespec;
use package_registry::version::Version;

fn package(name: &str) -> Package {
    let t = Timespec::new(1_329_922_398, 0).unwrap();
    Package { id: 1, name: name.to_string(), user_id: 7, updated_at: t, created_at: t, downloads: 3 }
}

#[test]
fn valid_names_are_letters_digits_underscore_and_hyphen() {
    assert!(Package::valid_name("foo"));
    assert!(Package::valid_name("foo-bar_2"));
    assert!(Package::valid_name("größe"));
    assert!(!Package::valid_name(""));
    assert!(!Package::valid_name("foo bar"));
    assert!(!Package::valid_name("foo/bar"));
    assert!(!Package::valid_name("foo.bar"));
}

#[test]
fn paths_follow_name_and_version() {
    let p = package("foo");
    assert_eq!(p.s3_path("1.0.0"), "foo/foo-1.0.0.tar.gz");
    assert_eq!(p.dl_path("1.0.0"), "/download/foo/foo-1.0.0.tar.gz");
}

#[test]
fn semantic_versions_are_told_apart() {
    assert!(Version::valid("1.0.0"));
    assert!(Version::valid("0.1.2-alpha.1+build5"));
    assert!(!Version::valid("1.0"));
    assert!(!Version::valid("one"));
    assert!(!Version::valid(""));
}

#[test]
fn timestamps_are_written_as_rfc3339_in_utc() {
    assert_eq!(Timespec::new(0, 0).unwrap().encode(), "1970-01-01T00:00:00Z");
    assert_eq!(Timespec::new(1_329_922_398, 5).unwrap().encode(), "2012-02-22T14:53:18Z");
    assert_eq!(Timespec::new(253_402_300_799, 0).unwrap().encode(), "9999-12-31T23:59:59Z");
    assert_eq!(Timespec::new(951_782_400, 999_999_999).unwrap().encode(), "2000-02-29T00:00:00Z");
}

#[test]
fn timestamps_out_of_range_are_refused() {
    assert!(Timespec::new(253_402_300_800, 0).is_none());
    assert!(Timespec::new(-1, 0).is_none());
    assert!(Timespec::new(-11_644_473_600, 0).is_none());
    assert!(Timespec::new(0, 0).is_some());
    assert!(Timespec::new(0, -1).is_none());
    assert!(Timespec::new(0, 1_000_000_000).is_none());
    assert!(Timespec::new(0, 999_999_999).is_some());
}

#[test]
fn encodable_copies_the_row() {
    let e = package("foo").encodable(vec![4, 9]);
    assert_eq!(e.id, "foo");
    assert_eq!(e.name, "foo");
    assert_eq!(e.versions, vec![4, 9]);
    assert_eq!(e.created_at, "2012-02-22T14:53:18Z");
    assert_eq!(e.updated_at, "2012-02-22T14:53:18Z");
    assert_eq!(e.downloads, 3);
}

#[test]
fn hex_is_lower_case_two_digits_a_byte() {
    assert_eq!(checksum_text(&[]), "");
    assert_eq!(checksum_text(&[0x00, 0x0f, 0xa0, 0xff, 52, 32]), "000fa0ff3420");
}

#[test]
fn decimal_has_no_leading_zeros() {
    assert_eq!(decimal_string(0), "0");
    assert_eq!(decimal_string(7), "7");
    assert_eq!(decimal_string(10), "10");
    assert_eq!(decimal_string(10_485_760), "10485760");
    assert_eq!(decimal_string(u64::MAX), "18446744073709551615");
}

#[test]
fn reader_digests_what_it_lets_through() {
    let reader = ChecksumReader::new(100);
    assert_eq!(
        checksum_text(&reader.finish()),
        "e3b0c44298fc1c149afbf4c8996fb92427ae41e4649b934ca495991b7852b855"
    );
    let mut reader = ChecksumReader::new(10);
    assert!(reader.feed(b"01234").is_ok());
    assert!(reader.feed(b"").is_ok());
    assert!(reader.feed(b"56789").is_ok());
    assert_eq!(reader.consumed(), 10);
    assert_eq!(
        checksum_text(&reader.finish()),
        "84d89877f0d4041efb6bf91a16f0248f2fd573e6af05c19f96bedb9f882f7882"
    );
}

#[test]
fn reader_refuses_the_chunk_that_crosses_the_limit() {
    let mut reader = ChecksumReader::new(4);
    assert!(reader.feed(b"ab").is_ok());
    let e = reader.feed(b"cde").unwrap_err();
    assert_eq!(e.kind(), ErrorKind::PayloadTooLarge);
    assert_eq!(e.message(), "maximum upload size exceeded");
    assert_eq!(reader.consumed(), 2);
    assert!(reader.feed(b"c").is_ok());
    assert_eq!(
        checksum_text(&reader.finish()),
        "ba7816bf8f01cfea414140de5dae2223b00361a396177a9cb410ff61f20015ad"
    );
}

#[test]
fn underscore_and_hyphen_are_allowed_beside_letters_and_digits() {
    assert!(allowed_in_name('a', true));
    assert!(allowed_in_name('_', false));
    assert!(allowed_in_name('-', false));
    assert!(!allowed_in_name('.', false));
    assert!(!allowed_in_name(' ', false));
}

#[test]
fn lower_case_and_numbers_are_read_as_the_standard_library_does() {
    let mut conn = Catalog::new();
    Package::find_or_insert(&mut conn, "ÄRGER", 1, Timespec::new(1, 0).unwrap()).unwrap();
    Package::find_or_insert(&mut conn, "other", 1, Timespec::new(2, 0).unwrap()).unwrap();
    assert_eq!(list(&conn, 1, 10, "är").unwrap().total, 1);
    assert_eq!(index(&conn, Some("+2"), Some("1"), None).unwrap().packages[0].name, "other");
    assert_eq!(index(&conn, Some("002"), Some("1"), None).unwrap().packages[0].name, "other");
    assert!(index(&conn, Some(" 2"), Some("1"), None).is_err());
    assert!(index(&conn, Some("٢"), Some("1"), None).is_err());
    assert!(index(&conn, Some("-2"), Some("1"), None).is_err());
}

#[test]
fn a_client_sees_its_own_faults_and_nothing_of_the_stores() {
    let shown = Error::new(ErrorKind::ValidationFailed, "invalid package name: `a b`");
    assert_eq!(shown.public_message(), "invalid package name: `a b`");
    assert_eq!(shown.message(), "invalid package name: `a b`");
    for kind in [ErrorKind::UploadFailed, ErrorKind::IndexingFailed, ErrorKind::Internal] {
        let hidden = Error::new(kind, "bucket eu-1 refused the key");
        assert_eq!(hidden.public_message(), "internal error");
        assert_eq!(hidden.message(), "bucket eu-1 refused the key");
        assert_eq!(kind.status(), 500);
    }
    assert_eq!(ErrorKind::InvalidRequest.status(), 400);
    assert_eq!(ErrorKind::ValidationFailed.status(), 400);
    assert_eq!(ErrorKind::NotFound.status(), 404);
    assert_eq!(ErrorKind::OwnershipConflict.status(), 403);
    assert_eq!(ErrorKind::VersionAlreadyPublished.status(), 409);
    assert_eq!(ErrorKind::Conflict.status(), 409);
    assert_eq!(ErrorKind::UnknownDependency.status(), 422);
    assert_eq!(ErrorKind::PayloadTooLarge.status(), 413);
}

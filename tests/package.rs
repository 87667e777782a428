use archlinux_repo::index::{files_entry_key, is_description_entry, is_files_entry, PackageIndex};
use archlinux_repo::package::{Package, PackageFiles};
use archlinux_repo::{DependencyConstraints, Error};

const AG: &str = "%FILENAME%
mingw-w64-x86_64-ag-2.2.0-1-any.pkg.tar.xz

%NAME%
mingw-w64-x86_64-ag

%BASE%
mingw-w64-ag

%VERSION%
2.2.0-1

%DESC%
The Silver Searcher: An attempt to make something better than ack, which itself is better than grep (mingw-w64)

%CSIZE%
79428

%ISIZE%
145408

%MD5SUM%
3368b34f1506e7fd84185901dfd5ac2f

%SHA256SUM%
c2b39a45ddd3983f3f4d7f6df34935999454a4bff345d88c8c6e66c81a2f6d7e

%PGPSIG%
iHUEABEIAB0WIQStNRxQrghXdetZMztfku/BpH1FoQUCXQOnfgAKCRBfku/BpH1FoZzhAQCEjnsM18ZCqJHhEE0BwXVsH9ONj87w0Wt8W77ZElUcKwD/RcnlD4Ef7gmOdl+puSDMUNylHQ2wlOdumaVSkQlOhLw=

%URL%
https://geoff.greer.fm/ag

%LICENSE%
Apache

%ARCH%
any

%BUILDDATE%
1560520506

%PACKAGER%
Alexey Pavlov <alexpux@gmail.com>

%DEPENDS%
mingw-w64-x86_64-pcre
mingw-w64-x86_64-xz>=5.0

%MAKEDEPENDS%
mingw-w64-x86_64-gcc
mingw-w64-x86_64-pkg-config

";

fn package(name: &str, base: Option<&str>, version: &str) -> Package {
    let mut p = Package::from_str(AG).unwrap();
    p.name = name.to_owned();
    p.base = base.map(|b| b.to_owned());
    p.version = version.to_owned();
    p
}

#[test]
fn package_description_decodes() {
    let p = Package::from_str(AG).unwrap();
    assert_eq!("mingw-w64-x86_64-ag-2.2.0-1-any.pkg.tar.xz", p.file_name);
    assert_eq!("mingw-w64-x86_64-ag", p.name);
    assert_eq!(Some("mingw-w64-ag".to_owned()), p.base);
    assert_eq!("2.2.0-1", p.version);
    assert_eq!(79428, p.compressed_size);
    assert_eq!(145408, p.installed_size);
    assert_eq!(1560520506, p.build_date);
    assert_eq!(Some(vec!["Apache".to_owned()]), p.license);
    assert_eq!(None, p.groups);
    assert_eq!(Some("https://geoff.greer.fm/ag".to_owned()), p.home_url);
    let depends = p.depends.unwrap();
    assert_eq!(2, depends.len());
    assert_eq!("mingw-w64-x86_64-pcre", depends[0].name);
    assert!(depends[0].version.is_none());
    assert_eq!("mingw-w64-x86_64-xz", depends[1].name);
    let v = depends[1].version.as_ref().unwrap();
    assert_eq!(DependencyConstraints::MoreOrEqualsThan, v.constraint);
    assert_eq!("5.0", v.version);
    assert_eq!(2, p.makedepends.unwrap().len());
    assert!(p.optdepends.is_none());
}

#[test]
fn package_without_required_field_fails() {
    let without_name = AG.replace("%NAME%\nmingw-w64-x86_64-ag\n\n", "");
    assert_eq!(Err(Error::MissingField), Package::from_str(&without_name));
}

#[test]
fn package_with_bad_dependency_fails() {
    let bad = AG.replace("mingw-w64-x86_64-xz>=5.0", "mingw-w64-x86_64-xz>=");
    assert_eq!(Err(Error::MalformedDependency), Package::from_str(&bad));
}

#[test]
fn package_with_unknown_field_fails() {
    let extra = format!("{}%UNKNOWN%\nx\n", AG);
    assert_eq!(Err(Error::UnsupportedValueKind), Package::from_str(&extra));
}

#[test]
fn files_document_decodes() {
    let files = PackageFiles::from_str("%FILES%\nmingw64/\nmingw64/bin/ag.exe\n").unwrap();
    assert_eq!(vec!["mingw64/".to_owned(), "mingw64/bin/ag.exe".to_owned()], files.files);
    assert_eq!(Err(Error::MissingField), PackageFiles::from_str(""));
}

#[test]
fn index_lookups() {
    let mut index = PackageIndex::new();
    index.insert(package("mingw-w64-x86_64-gtk3", Some("mingw-w64-gtk3"), "3.24.9-4"));
    index.insert(package("mingw-w64-x86_64-ag", Some("mingw-w64-ag"), "2.2.0-1"));
    index.insert(package("other", Some("mingw-w64-gtk3"), "1"));
    let gtk = index.get_package_by_name("mingw-w64-x86_64-gtk3").unwrap();
    assert_eq!(Some("mingw-w64-gtk3".to_owned()), gtk.base);
    assert!(index.get_package_by_name("not_exist").is_none());
    // The first package with a base name keeps it.
    assert_eq!(
        "mingw-w64-x86_64-gtk3",
        index.get_package_by_base("mingw-w64-gtk3").unwrap().name
    );
    assert!(index.get_package_by_base("not_exist").is_none());
    let by_version = index
        .get_package_by_name_and_version("mingw-w64-x86_64-gtk3-3.24.9-4")
        .unwrap();
    assert_eq!(gtk, by_version);
    assert!(index.get_package_by_name_and_version("not_exist-1.0.0").is_none());
    assert_eq!("mingw-w64-x86_64-gtk3", index.find("mingw-w64-gtk3").unwrap().name);
    assert_eq!("mingw-w64-x86_64-ag", index.find("mingw-w64-x86_64-ag").unwrap().name);
    assert_eq!("other", index.find("other-1").unwrap().name);
    assert!(index.find("nothing").is_none());
    assert_eq!(3, index.packages().len());
}

#[test]
fn later_package_replaces_name() {
    let mut index = PackageIndex::new();
    index.insert(package("a", None, "1"));
    index.insert(package("a", None, "2"));
    assert_eq!("2", index.get_package_by_name("a").unwrap().version);
    assert_eq!("1", index.get_package_by_name_and_version("a-1").unwrap().version);
}

#[test]
fn files_lists() {
    let mut index = PackageIndex::new();
    assert!(index.get_package_files("a").is_none());
    index.insert_files(
        "a".to_owned(),
        PackageFiles {
            files: vec!["x".to_owned()],
        },
    );
    assert_eq!(Some(&vec!["x".to_owned()]), index.get_package_files("a"));
    assert!(index.get_package_files("b").is_none());
}

#[test]
fn archive_entry_paths() {
    assert!(is_description_entry("mingw-w64-x86_64-ag-2.2.0-1/desc"));
    assert!(!is_description_entry("mingw-w64-x86_64-ag-2.2.0-1/files"));
    assert!(!is_description_entry("desc"));
    assert!(is_files_entry("mingw-w64-x86_64-ag-2.2.0-1/files"));
    assert!(!is_files_entry("mingw-w64-x86_64-ag-2.2.0-1/desc"));
    assert_eq!(
        "mingw-w64-x86_64-ag-2.2.0-1",
        files_entry_key("mingw-w64-x86_64-ag-2.2.0-1/files")
    );
    assert_eq!("ab", files_entry_key("a/b/files"));
}

#[test]
fn test_send() {
    fn assert_send<T: Send>() {}
    assert_send::<Package>();
    assert_send::<PackageFiles>();
}

#[test]
fn test_sync() {
    fn assert_sync<T: Sync>() {}
    assert_sync::<Package>();
    assert_sync::<PackageFiles>();
}

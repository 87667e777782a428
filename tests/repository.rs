use archlinux_repo::repo::{Progress, RepositoryBuilder};

#[test]
fn builder_defaults_and_settings() {
    let builder: RepositoryBuilder<fn(Progress)> =
        RepositoryBuilder::new("mingw64", "http://repo.msys2.org/mingw/x86_64");
    assert_eq!("mingw64", builder.name());
    assert_eq!("http://repo.msys2.org/mingw/x86_64", builder.url());
    assert!(!builder.loads_files_metadata());
    let builder = builder.files_metadata(true);
    assert!(builder.loads_files_metadata());
    fn listener(_: Progress) {}
    let builder = builder.progress_listener(listener as fn(Progress));
    let (name, url, files, l) = builder.into_parts();
    assert_eq!("mingw64", name);
    assert_eq!("http://repo.msys2.org/mingw/x86_64", url);
    assert!(files);
    assert!(l.is_some());
}

#[test]
fn archive_addresses() {
    let builder: RepositoryBuilder<fn(Progress)> =
        RepositoryBuilder::new("mingw64", "http://repo.msys2.org/mingw/x86_64");
    assert_eq!(
        "http://repo.msys2.org/mingw/x86_64/mingw64.db.tar.gz",
        builder.db_url()
    );
    assert_eq!(
        "http://repo.msys2.org/mingw/x86_64/mingw64.files.tar.gz",
        builder.files_url()
    );
}

#[test]
fn progress_messages() {
    assert_eq!("Loading repository database", Progress::LoadingDb.to_string());
    assert_eq!(
        "Loading repository: 10 of 200 bytes",
        Progress::LoadingDbChunk(10, Some(200)).to_string()
    );
    assert_eq!(
        "Loading repository: 10 bytes",
        Progress::LoadingDbChunk(10, None).to_string()
    );
    assert_eq!(
        "Loading repository file: a/desc",
        Progress::ReadingDbFile("a/desc".to_owned()).to_string()
    );
    assert_eq!("Database loaded", Progress::ReadingDbDone.to_string());
    assert_eq!("Loading files metadata", Progress::LoadingFilesMetadata.to_string());
    assert_eq!(
        "Loading files metadata: 0 of 5 bytes",
        Progress::LoadingFilesMetadataChunk(0, Some(5)).to_string()
    );
    assert_eq!(
        "Loading files metadata file: a/files",
        Progress::ReadingFilesMetadataFile("a/files".to_owned()).to_string()
    );
    assert_eq!("Files metadata loaded", Progress::ReadingFilesDone.to_string());
}

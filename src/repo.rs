//! Settings for loading a repository, and the progress that loading reports.
use vstd::prelude::*;
use vstd::string::*;
use crate::text::decimal_text;

verus! {

/// Loading progress
pub enum Progress {
    /// Sending request to db file
    LoadingDb,
    /// Reading response chunks of db file. Parameters are: bytes read, file size if present
    LoadingDbChunk(u64, Option<u64>),
    /// Reading database file from archive. Parameter is file name
    ReadingDbFile(String),
    /// Database loaded
    ReadingDbDone,
    /// Sending request to files metadata file
    LoadingFilesMetadata,
    /// Reading response chunk of files metadata file. Parameters are: bytes read, file size if present
    LoadingFilesMetadataChunk(u64, Option<u64>),
    /// Reading files metadata file from archive. Parameter is file name
    ReadingFilesMetadataFile(String),
    /// Files metadata loaded
    ReadingFilesDone,
}

/// "`what`: `current` of `total` bytes", or without a total "`what`: `current` bytes".
pub open spec fn chunk_message(what: Seq<char>, current: u64, total: Option<u64>) -> Seq<char> {
    match total {
        Some(m) => what + ": "@ + decimal_text(current as nat) + " of "@ + decimal_text(m as nat)
            + " bytes"@,
        None => what + ": "@ + decimal_text(current as nat) + " bytes"@,
    }
}

impl Progress {
    /// The line that reports this step to a user.
    pub open spec fn message(&self) -> Seq<char> {
        match self {
            Progress::LoadingDb => "Loading repository database"@,
            Progress::LoadingDbChunk(current, max) => chunk_message(
                "Loading repository"@,
                *current,
                *max,
            ),
            Progress::ReadingDbFile(name) => "Loading repository file: "@ + name@,
            Progress::LoadingFilesMetadata => "Loading files metadata"@,
            Progress::LoadingFilesMetadataChunk(current, max) => chunk_message(
                "Loading files metadata"@,
                *current,
                *max,
            ),
            Progress::ReadingFilesMetadataFile(name) => "Loading files metadata file: "@ + name@,
            Progress::ReadingDbDone => "Database loaded"@,
            Progress::ReadingFilesDone => "Files metadata loaded"@,
        }
    }

    /// Describes this step for a user.
    pub fn to_string(&self) -> (r: String)
        ensures
            r@ == self.message(),
    {
        match self {
            Progress::LoadingDb => String::from_str("Loading repository database"),
            Progress::LoadingDbChunk(current, max) => chunk_text(
                "Loading repository",
                *current,
                *max,
            ),
            Progress::ReadingDbFile(name) => {
                let mut s = String::from_str("Loading repository file: ");
                s.append(name.as_str());
                s
            },
            Progress::LoadingFilesMetadata => String::from_str("Loading files metadata"),
            Progress::LoadingFilesMetadataChunk(current, max) => chunk_text(
                "Loading files metadata",
                *current,
                *max,
            ),
            Progress::ReadingFilesMetadataFile(name) => {
                let mut s = String::from_str("Loading files metadata file: ");
                s.append(name.as_str());
                s
            },
            Progress::ReadingDbDone => String::from_str("Database loaded"),
            Progress::ReadingFilesDone => String::from_str("Files metadata loaded"),
        }
    }
}

fn chunk_text(what: &str, current: u64, total: Option<u64>) -> (r: String)
    ensures
        r@ == chunk_message(what@, current, total),
{
    let mut s = String::from_str(what);
    s.append(": ");
    let c = crate::text::format_decimal(current);
    s.append(c.as_str());
    match total {
        Some(m) => {
            s.append(" of ");
            let t = crate::text::format_decimal(m);
            s.append(t.as_str());
        },
        None => {},
    }
    s.append(" bytes");
    s
}

/// Repository builder: the name and address of a repository, and how to load
/// it. `L` is the type of the progress listener.
pub struct RepositoryBuilder<L> {
    name: String,
    url: String,
    files_meta: bool,
    progress_listener: Option<L>,
}

impl<L> RepositoryBuilder<L> {
    /// The repository's name.
    pub closed spec fn spec_name(&self) -> Seq<char> {
        self.name@
    }

    /// The address the repository is loaded from.
    pub closed spec fn spec_url(&self) -> Seq<char> {
        self.url@
    }

    /// Whether the files metadata is loaded too.
    pub closed spec fn spec_files_meta(&self) -> bool {
        self.files_meta
    }

    /// The progress listener, if one was set.
    pub closed spec fn spec_listener(&self) -> Option<L> {
        self.progress_listener
    }

    /// Create new repository builder with repository name and url
    pub fn new(name: &str, url: &str) -> (r: Self)
        ensures
            r.spec_name() == name@,
            r.spec_url() == url@,
            !r.spec_files_meta(),
            r.spec_listener() is None,
    {
        RepositoryBuilder {
            name: name.to_owned(),
            url: url.to_owned(),
            files_meta: false,
            progress_listener: None,
        }
    }

    /// Enable or disable loading files metadata
    pub fn files_metadata(self, load: bool) -> (r: Self)
        ensures
            r.spec_name() == self.spec_name(),
            r.spec_url() == self.spec_url(),
            r.spec_files_meta() == load,
            r.spec_listener() == self.spec_listener(),
    {
        RepositoryBuilder {
            name: self.name,
            url: self.url,
            files_meta: load,
            progress_listener: self.progress_listener,
        }
    }

    /// Set load progress listener
    pub fn progress_listener(self, listener: L) -> (r: Self)
        ensures
            r.spec_name() == self.spec_name(),
            r.spec_url() == self.spec_url(),
            r.spec_files_meta() == self.spec_files_meta(),
            r.spec_listener() == Some(listener),
    {
        RepositoryBuilder {
            name: self.name,
            url: self.url,
            files_meta: self.files_meta,
            progress_listener: Some(listener),
        }
    }

    /// The repository's name.
    pub fn name(&self) -> (r: &str)
        ensures
            r@ == self.spec_name(),
    {
        self.name.as_str()
    }

    /// The address the repository is loaded from.
    pub fn url(&self) -> (r: &str)
        ensures
            r@ == self.spec_url(),
    {
        self.url.as_str()
    }

    /// Whether the files metadata is loaded too.
    pub fn loads_files_metadata(&self) -> (r: bool)
        ensures
            r == self.spec_files_meta(),
    {
        self.files_meta
    }

    /// Hands out the settings: name, url, whether files metadata is loaded,
    /// and the listener.
    pub fn into_parts(self) -> (r: (String, String, bool, Option<L>))
        ensures
            r.0@ == self.spec_name(),
            r.1@ == self.spec_url(),
            r.2 == self.spec_files_meta(),
            r.3 == self.spec_listener(),
    {
        (self.name, self.url, self.files_meta, self.progress_listener)
    }

    /// Where the package database archive of the repository lies:
    /// `<url>/<name>.db.tar.gz`.
    pub fn db_url(&self) -> (r: String)
        ensures
            r@ == self.spec_url() + "/"@ + self.spec_name() + ".db.tar.gz"@,
    {
        let mut s = self.url.clone();
        s.append("/");
        s.append(self.name.as_str());
        s.append(".db.tar.gz");
        s
    }

    /// Where the files metadata archive of the repository lies:
    /// `<url>/<name>.files.tar.gz`.
    pub fn files_url(&self) -> (r: String)
        ensures
            r@ == self.spec_url() + "/"@ + self.spec_name() + ".files.tar.gz"@,
    {
        let mut s = self.url.clone();
        s.append("/");
        s.append(self.name.as_str());
        s.append(".files.tar.gz");
        s
    }
}

} // verus!

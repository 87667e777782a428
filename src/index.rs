//! The packages of a loaded repository, and how they are looked up.
use vstd::prelude::*;
use vstd::string::*;
use crate::package::{Package, PackageFiles};
use crate::text::same_text;

verus! {

/// The key under which a package is found with its version:
/// `<name>-<version>`.
pub open spec fn versioned_name(p: Package) -> Seq<char> {
    p.name@ + "-"@ + p.version@
}

/// The package's base name is `base`.
pub open spec fn has_base(p: Package, base: Seq<char>) -> bool {
    p.base matches Some(b) && b@ == base
}

/// The last package whose name is `name`: a later package replaces an
/// earlier one of the same name.
pub open spec fn last_named(ps: Seq<Package>, name: Seq<char>) -> Option<int> {
    if exists|i: int| 0 <= i < ps.len() && #[trigger] ps[i].name@ == name {
        Some(
            choose|i: int|
                0 <= i < ps.len() && #[trigger] ps[i].name@ == name && forall|j: int|
                    i < j < ps.len() ==> #[trigger] ps[j].name@ != name,
        )
    } else {
        None
    }
}

/// The last package whose versioned name is `key`.
pub open spec fn last_versioned(ps: Seq<Package>, key: Seq<char>) -> Option<int> {
    if exists|i: int| 0 <= i < ps.len() && #[trigger] versioned_name(ps[i]) == key {
        Some(
            choose|i: int|
                0 <= i < ps.len() && #[trigger] versioned_name(ps[i]) == key && forall|j: int|
                    i < j < ps.len() ==> #[trigger] versioned_name(ps[j]) != key,
        )
    } else {
        None
    }
}

/// The first package whose base name is `base`: a later package with a base
/// name already taken does not replace the first.
pub open spec fn first_based(ps: Seq<Package>, base: Seq<char>) -> Option<int> {
    if exists|i: int| 0 <= i < ps.len() && #[trigger] has_base(ps[i], base) {
        Some(
            choose|i: int|
                0 <= i < ps.len() && #[trigger] has_base(ps[i], base) && forall|j: int|
                    0 <= j < i ==> !#[trigger] has_base(ps[j], base),
        )
    } else {
        None
    }
}

/// The last files list recorded for the package named `name`.
pub open spec fn last_files(fs: Seq<(String, PackageFiles)>, name: Seq<char>) -> Option<int> {
    if exists|i: int| 0 <= i < fs.len() && #[trigger] fs[i].0@ == name {
        Some(
            choose|i: int|
                0 <= i < fs.len() && #[trigger] fs[i].0@ == name && forall|j: int|
                    i < j < fs.len() ==> #[trigger] fs[j].0@ != name,
        )
    } else {
        None
    }
}

/// The package that a lookup handed out.
pub open spec fn found(r: Option<&Package>) -> Option<Package> {
    match r {
        Some(p) => Some(*p),
        None => None,
    }
}

pub open spec fn package_at(ps: Seq<Package>, i: Option<int>) -> Option<Package> {
    match i {
        Some(k) => Some(ps[k]),
        None => None,
    }
}

/// The packages of a repository, in the order they were added, and the
/// files lists of those that have one.
pub struct PackageIndex {
    packages: Vec<Package>,
    files: Vec<(String, PackageFiles)>,
}

impl PackageIndex {
    pub closed spec fn spec_packages(&self) -> Seq<Package> {
        self.packages@
    }

    pub closed spec fn spec_files(&self) -> Seq<(String, PackageFiles)> {
        self.files@
    }

    /// An index without packages.
    pub fn new() -> (r: Self)
        ensures
            r.spec_packages() == Seq::<Package>::empty(),
            r.spec_files() == Seq::<(String, PackageFiles)>::empty(),
    {
        PackageIndex { packages: Vec::new(), files: Vec::new() }
    }

    /// Adds a package.
    pub fn insert(&mut self, package: Package)
        ensures
            final(self).spec_packages() == old(self).spec_packages().push(package),
            final(self).spec_files() == old(self).spec_files(),
    {
        self.packages.push(package);
    }

    /// Records the files list of the package named `name`.
    pub fn insert_files(&mut self, name: String, files: PackageFiles)
        ensures
            final(self).spec_packages() == old(self).spec_packages(),
            final(self).spec_files() == old(self).spec_files().push((name, files)),
    {
        self.files.push((name, files));
    }

    /// All packages, in the order they were added.
    pub fn packages(&self) -> (r: &Vec<Package>)
        ensures
            r@ == self.spec_packages(),
    {
        &self.packages
    }

    /// Get package by full name. Will return `None` if package cannot be found
    pub fn get_package_by_name(&self, name: &str) -> (r: Option<&Package>)
        ensures
            found(r) == package_at(self.spec_packages(), last_named(self.spec_packages(), name@)),
    {
        let ghost ps = self.packages@;
        let mut i: usize = self.packages.len();
        while i > 0
            invariant
                0 <= i <= self.packages.len(),
                ps == self.packages@,
                forall|j: int| i <= j < ps.len() ==> #[trigger] ps[j].name@ != name@,
            decreases i,
        {
            i = i - 1;
            if same_text(self.packages[i].name.as_str(), name) {
                let ghost k = choose|k: int|
                    0 <= k < ps.len() && #[trigger] ps[k].name@ == name@ && forall|j: int|
                        k < j < ps.len() ==> #[trigger] ps[j].name@ != name@;
                assert(ps[i as int].name@ == name@);
                assert(last_named(ps, name@) == Some(k));
                assert(k == i);
                return Some(&self.packages[i]);
            }
        }
        None
    }

    /// Get package by full name and version (`<name>-<version>`). Will return
    /// `None` if package cannot be found
    pub fn get_package_by_name_and_version(&self, key: &str) -> (r: Option<&Package>)
        ensures
            found(r) == package_at(self.spec_packages(), last_versioned(self.spec_packages(), key@)),
    {
        let ghost ps = self.packages@;
        let mut i: usize = self.packages.len();
        while i > 0
            invariant
                0 <= i <= self.packages.len(),
                ps == self.packages@,
                forall|j: int| i <= j < ps.len() ==> #[trigger] versioned_name(ps[j]) != key@,
            decreases i,
        {
            i = i - 1;
            let p = &self.packages[i];
            let mut full = p.name.clone();
            full.append("-");
            full.append(p.version.as_str());
            if same_text(full.as_str(), key) {
                let ghost k = choose|k: int|
                    0 <= k < ps.len() && #[trigger] versioned_name(ps[k]) == key@ && forall|j: int|
                        k < j < ps.len() ==> #[trigger] versioned_name(ps[j]) != key@;
                assert(versioned_name(ps[i as int]) == key@);
                assert(last_versioned(ps, key@) == Some(k));
                assert(k == i);
                return Some(p);
            }
        }
        None
    }

    /// Get package by base name. Will return `None` if package cannot be found
    pub fn get_package_by_base(&self, base: &str) -> (r: Option<&Package>)
        ensures
            found(r) == package_at(self.spec_packages(), first_based(self.spec_packages(), base@)),
    {
        let ghost ps = self.packages@;
        let mut i: usize = 0;
        while i < self.packages.len()
            invariant
                0 <= i <= self.packages.len(),
                ps == self.packages@,
                forall|j: int| 0 <= j < i ==> !#[trigger] has_base(ps[j], base@),
            decreases self.packages.len() - i,
        {
            let p = &self.packages[i];
            match &p.base {
                Some(b) => {
                    if same_text(b.as_str(), base) {
                        let ghost k = choose|k: int|
                            0 <= k < ps.len() && #[trigger] has_base(ps[k], base@) && forall|j: int|
                                0 <= j < k ==> !#[trigger] has_base(ps[j], base@);
                        assert(has_base(ps[i as int], base@));
                        assert(first_based(ps, base@) == Some(k));
                        assert(k == i);
                        return Some(p);
                    }
                },
                None => {},
            }
            i = i + 1;
        }
        None
    }

    /// Get package files by full name. Will return `None` if package cannot
    /// be found or does not contain file metadata
    pub fn get_package_files(&self, name: &str) -> (r: Option<&Vec<String>>)
        ensures
            match last_files(self.spec_files(), name@) {
                Some(k) => r matches Some(v) && *v == self.spec_files()[k].1.files,
                None => r is None,
            },
    {
        let ghost fs = self.files@;
        let mut i: usize = self.files.len();
        while i > 0
            invariant
                0 <= i <= self.files.len(),
                fs == self.files@,
                forall|j: int| i <= j < fs.len() ==> #[trigger] fs[j].0@ != name@,
            decreases i,
        {
            i = i - 1;
            if same_text(self.files[i].0.as_str(), name) {
                let ghost k = choose|k: int|
                    0 <= k < fs.len() && #[trigger] fs[k].0@ == name@ && forall|j: int|
                        k < j < fs.len() ==> #[trigger] fs[j].0@ != name@;
                assert(fs[i as int].0@ == name@);
                assert(last_files(fs, name@) == Some(k));
                assert(k == i);
                return Some(&self.files[i].1.files);
            }
        }
        None
    }

    /// Finds a package by base name, else by full name, else by full name and
    /// version.
    pub fn find(&self, key: &str) -> (r: Option<&Package>)
        ensures
            found(r) == match package_at(self.spec_packages(), first_based(self.spec_packages(), key@)) {
                Some(p) => Some(p),
                None => match package_at(self.spec_packages(), last_named(self.spec_packages(), key@)) {
                    Some(p) => Some(p),
                    None => package_at(self.spec_packages(), last_versioned(self.spec_packages(), key@)),
                },
            },
    {
        match self.get_package_by_base(key) {
            Some(p) => Some(p),
            None => match self.get_package_by_name(key) {
                Some(p) => Some(p),
                None => self.get_package_by_name_and_version(key),
            },
        }
    }
}

/// The archive entry holds a package description: its path ends in `/desc`.
pub fn is_description_entry(path: &str) -> (r: bool)
    ensures
        r == (path@.len() >= 5 && path@.subrange(path@.len() - 5, path@.len() as int) == "/desc"@),
{
    proof {
        reveal_strlit("/desc");
    }
    ends_with(path, "/desc")
}

/// The archive entry holds a files list: its path ends in `/files`.
pub fn is_files_entry(path: &str) -> (r: bool)
    ensures
        r == (path@.len() >= 6 && path@.subrange(path@.len() - 6, path@.len() as int) == "/files"@),
{
    proof {
        reveal_strlit("/files");
    }
    ends_with(path, "/files")
}

fn ends_with(s: &str, suffix: &str) -> (r: bool)
    ensures
        r == (s@.len() >= suffix@.len() && s@.subrange(s@.len() - suffix@.len(), s@.len() as int)
            == suffix@),
{
    let n = s.unicode_len();
    let m = suffix.unicode_len();
    if m > n {
        return false;
    }
    let tail = s.substring_char(n - m, n);
    same_text(tail, suffix)
}

/// The characters of `s` other than `/`.
pub open spec fn without_slashes(s: Seq<char>) -> Seq<char>
    decreases s.len(),
{
    if s.len() == 0 {
        s
    } else if s.last() == '/' {
        without_slashes(s.drop_last())
    } else {
        without_slashes(s.drop_last()).push(s.last())
    }
}

/// The key of the package that a files entry belongs to: the path without
/// its `/files` ending and without slashes, which is the package's
/// `<name>-<version>`.
pub fn files_entry_key(path: &str) -> (r: String)
    requires
        path@.len() >= 6,
    ensures
        r@ == without_slashes(path@.subrange(0, path@.len() - 6)),
{
    let n = path.unicode_len();
    let stem = path.substring_char(0, n - 6);
    let mut out = String::new();
    let mut i: usize = 0;
    while i < n - 6
        invariant
            0 <= i <= n - 6,
            n == path@.len(),
            stem@ == path@.subrange(0, n - 6),
            out@ == without_slashes(stem@.subrange(0, i as int)),
        decreases n - 6 - i,
    {
        let piece = stem.substring_char(i, i + 1);
        let c = stem.get_char(i);
        proof {
            assert(stem@.subrange(0, i + 1).drop_last() =~= stem@.subrange(0, i as int));
        }
        if c != '/' {
            out.append(piece);
            proof {
                assert(piece@ =~= seq![c]);
                assert(out@ =~= without_slashes(stem@.subrange(0, i as int)).push(c));
            }
        }
        i = i + 1;
    }
    assert(stem@.subrange(0, n - 6) =~= stem@);
    out
}

} // verus!

//! The package records of a repository, read from decoded documents.
use vstd::prelude::*;
use crate::data::{dependency_of, Dependency, DependencyConstraints};
use crate::decode::{from_str, parse_document};
use crate::error::Error;
use crate::number::IntWidth;
use crate::shape::{datum_field, model_of, Datum, FieldShape, Shape, Value};

verus! {

/// A field that must be a string.
pub open spec fn required_text(f: Option<Datum>) -> Result<Seq<char>, Error> {
    match f {
        Some(Datum::Str(s)) => Ok(s),
        Some(_) => Err(Error::UnsupportedValueKind),
        None => Err(Error::MissingField),
    }
}

/// A field that may be left out, or be absent, or hold a string.
pub open spec fn optional_text(f: Option<Datum>) -> Result<Option<Seq<char>>, Error> {
    match f {
        None => Ok(None),
        Some(Datum::Absent) => Ok(None),
        Some(Datum::Present(b)) => match *b {
            Datum::Str(s) => Ok(Some(s)),
            _ => Err(Error::UnsupportedValueKind),
        },
        Some(_) => Err(Error::UnsupportedValueKind),
    }
}

/// A field that must be an unsigned integer.
pub open spec fn required_unsigned(f: Option<Datum>) -> Result<int, Error> {
    match f {
        Some(Datum::Unsigned(n)) => Ok(n),
        Some(_) => Err(Error::UnsupportedValueKind),
        None => Err(Error::MissingField),
    }
}

/// A field that must be a signed integer.
pub open spec fn required_signed(f: Option<Datum>) -> Result<int, Error> {
    match f {
        Some(Datum::Signed(n)) => Ok(n),
        Some(_) => Err(Error::UnsupportedValueKind),
        None => Err(Error::MissingField),
    }
}

/// Every element is a string.
pub open spec fn all_text(items: Seq<Datum>) -> bool {
    forall|i: int| 0 <= i < items.len() ==> #[trigger] items[i] is Str
}

/// The strings of a sequence of string elements.
pub open spec fn texts(items: Seq<Datum>) -> Seq<Seq<char>> {
    Seq::new(items.len(), |i: int| items[i]->Str_0)
}

/// A field that may be left out, or be absent, or hold a sequence of strings.
pub open spec fn optional_text_list(f: Option<Datum>) -> Result<Option<Seq<Seq<char>>>, Error> {
    match f {
        None => Ok(None),
        Some(Datum::Absent) => Ok(None),
        Some(Datum::Present(b)) => match *b {
            Datum::Sequence(items) => if all_text(items) {
                Ok(Some(texts(items)))
            } else {
                Err(Error::UnsupportedValueKind)
            },
            _ => Err(Error::UnsupportedValueKind),
        },
        Some(_) => Err(Error::UnsupportedValueKind),
    }
}

/// Every element is a string that reads as a dependency.
pub open spec fn all_dependencies(items: Seq<Datum>) -> bool {
    forall|i: int|
        0 <= i < items.len() ==> #[trigger] items[i] is Str && dependency_of(items[i]->Str_0) is Ok
}

/// A field that may be left out, or be absent, or hold dependencies, one
/// per line.
pub open spec fn optional_dependencies(f: Option<Datum>) -> Result<
    Option<Seq<(Seq<char>, Option<(DependencyConstraints, Seq<char>)>)>>,
    Error,
> {
    match f {
        None => Ok(None),
        Some(Datum::Absent) => Ok(None),
        Some(Datum::Present(b)) => match *b {
            Datum::Sequence(items) => if all_dependencies(items) {
                Ok(Some(Seq::new(items.len(), |i: int| dependency_of(items[i]->Str_0)->Ok_0)))
            } else {
                Err(Error::MalformedDependency)
            },
            _ => Err(Error::UnsupportedValueKind),
        },
        Some(_) => Err(Error::UnsupportedValueKind),
    }
}

pub open spec fn opt_text_view(o: Option<String>) -> Option<Seq<char>> {
    match o {
        Some(s) => Some(s@),
        None => None,
    }
}

pub open spec fn list_view(v: Vec<String>) -> Seq<Seq<char>> {
    Seq::new(v.len() as nat, |i: int| v@[i]@)
}

pub open spec fn opt_list_view(o: Option<Vec<String>>) -> Option<Seq<Seq<char>>> {
    match o {
        Some(v) => Some(list_view(v)),
        None => None,
    }
}

pub open spec fn opt_deps_view(o: Option<Vec<Dependency>>) -> Option<
    Seq<(Seq<char>, Option<(DependencyConstraints, Seq<char>)>)>,
> {
    match o {
        Some(v) => Some(Seq::new(v.len() as nat, |i: int| v@[i]@)),
        None => None,
    }
}

fn take_text(f: Option<&Value>) -> (r: Result<String, Error>)
    ensures
        match required_text(model_of(f)) {
            Ok(s) => r matches Ok(x) && x@ == s,
            Err(e) => r == Err::<String, Error>(e),
        },
{
    match f {
        Some(Value::Str(s)) => Ok(s.clone()),
        Some(_) => Err(Error::UnsupportedValueKind),
        None => Err(Error::MissingField),
    }
}

fn take_optional_text(f: Option<&Value>) -> (r: Result<Option<String>, Error>)
    ensures
        match optional_text(model_of(f)) {
            Ok(s) => r matches Ok(x) && opt_text_view(x) == s,
            Err(e) => r == Err::<Option<String>, Error>(e),
        },
{
    match f {
        None => Ok(None),
        Some(Value::Absent) => Ok(None),
        Some(Value::Present(b)) => match &**b {
            Value::Str(s) => {
                proof {
                    assert(b.model() == Datum::Str(s@));
                }
                Ok(Some(s.clone()))
            },
            _ => Err(Error::UnsupportedValueKind),
        },
        Some(_) => Err(Error::UnsupportedValueKind),
    }
}

fn take_unsigned(f: Option<&Value>) -> (r: Result<u64, Error>)
    ensures
        match required_unsigned(model_of(f)) {
            Ok(n) => r matches Ok(x) && x == n,
            Err(e) => r == Err::<u64, Error>(e),
        },
{
    match f {
        Some(Value::Unsigned(n)) => Ok(*n),
        Some(_) => Err(Error::UnsupportedValueKind),
        None => Err(Error::MissingField),
    }
}

fn take_signed(f: Option<&Value>) -> (r: Result<i64, Error>)
    ensures
        match required_signed(model_of(f)) {
            Ok(n) => r matches Ok(x) && x == n,
            Err(e) => r == Err::<i64, Error>(e),
        },
{
    match f {
        Some(Value::Signed(n)) => Ok(*n),
        Some(_) => Err(Error::UnsupportedValueKind),
        None => Err(Error::MissingField),
    }
}

/// The strings of a sequence, where every element is one.
fn take_texts(items: &Vec<Value>) -> (r: Option<Vec<String>>)
    ensures
        all_text(crate::shape::models(items@)) <==> r is Some,
        r matches Some(v) ==> list_view(v) == texts(crate::shape::models(items@)),
{
    let ghost ms = crate::shape::models(items@);
    let mut out: Vec<String> = Vec::new();
    let mut i: usize = 0;
    while i < items.len()
        invariant
            0 <= i <= items.len(),
            ms == crate::shape::models(items@),
            out@.len() == i,
            forall|j: int| 0 <= j < i ==> #[trigger] ms[j] is Str && out@[j]@ == ms[j]->Str_0,
        decreases items.len() - i,
    {
        match &items[i] {
            Value::Str(s) => {
                out.push(s.clone());
            },
            _ => {
                assert(!(ms[i as int] is Str));
                return None;
            },
        }
        i = i + 1;
    }
    assert(list_view(out) =~= texts(ms));
    Some(out)
}

fn take_optional_text_list(f: Option<&Value>) -> (r: Result<Option<Vec<String>>, Error>)
    ensures
        match optional_text_list(model_of(f)) {
            Ok(s) => r matches Ok(x) && opt_list_view(x) == s,
            Err(e) => r == Err::<Option<Vec<String>>, Error>(e),
        },
{
    match f {
        None => Ok(None),
        Some(Value::Absent) => Ok(None),
        Some(Value::Present(b)) => match &**b {
            Value::Sequence(items) => {
                proof {
                    assert(crate::shape::models(items@) =~= match b.model() {
                        Datum::Sequence(ds) => ds,
                        _ => Seq::empty(),
                    });
                }
                match take_texts(items) {
                    Some(v) => Ok(Some(v)),
                    None => Err(Error::UnsupportedValueKind),
                }
            },
            _ => Err(Error::UnsupportedValueKind),
        },
        Some(_) => Err(Error::UnsupportedValueKind),
    }
}

/// The dependencies of a sequence, where every element is a string that
/// reads as one.
fn take_dependencies(items: &Vec<Value>) -> (r: Option<Vec<Dependency>>)
    ensures
        all_dependencies(crate::shape::models(items@)) <==> r is Some,
        r matches Some(v) ==> Seq::new(v.len() as nat, |i: int| v@[i]@) == Seq::new(
            items.len() as nat,
            |i: int| dependency_of(crate::shape::models(items@)[i]->Str_0)->Ok_0,
        ),
{
    let ghost ms = crate::shape::models(items@);
    let mut out: Vec<Dependency> = Vec::new();
    let mut i: usize = 0;
    while i < items.len()
        invariant
            0 <= i <= items.len(),
            ms == crate::shape::models(items@),
            out@.len() == i,
            forall|j: int|
                0 <= j < i ==> #[trigger] ms[j] is Str && dependency_of(ms[j]->Str_0) is Ok
                    && out@[j]@ == dependency_of(ms[j]->Str_0)->Ok_0,
        decreases items.len() - i,
    {
        match &items[i] {
            Value::Str(s) => {
                match Dependency::from_str(s.as_str()) {
                    Ok(d) => {
                        out.push(d);
                    },
                    Err(_) => {
                        return None;
                    },
                }
            },
            _ => {
                assert(!(ms[i as int] is Str));
                return None;
            },
        }
        i = i + 1;
    }
    assert(Seq::new(out.len() as nat, |k: int| out@[k]@) =~= Seq::new(
        items.len() as nat,
        |k: int| dependency_of(ms[k]->Str_0)->Ok_0,
    ));
    Some(out)
}

fn take_optional_dependencies(f: Option<&Value>) -> (r: Result<Option<Vec<Dependency>>, Error>)
    ensures
        match optional_dependencies(model_of(f)) {
            Ok(s) => r matches Ok(x) && opt_deps_view(x) == s,
            Err(e) => r == Err::<Option<Vec<Dependency>>, Error>(e),
        },
{
    match f {
        None => Ok(None),
        Some(Value::Absent) => Ok(None),
        Some(Value::Present(b)) => match &**b {
            Value::Sequence(items) => {
                proof {
                    assert(crate::shape::models(items@) =~= match b.model() {
                        Datum::Sequence(ds) => ds,
                        _ => Seq::empty(),
                    });
                }
                match take_dependencies(items) {
                    Some(v) => Ok(Some(v)),
                    None => Err(Error::MalformedDependency),
                }
            },
            _ => Err(Error::UnsupportedValueKind),
        },
        Some(_) => Err(Error::UnsupportedValueKind),
    }
}

/// The files that a package installs.
#[derive(Clone, Debug, PartialEq, Eq)]
pub struct PackageFiles {
    pub files: Vec<String>,
}

impl PackageFiles {
    /// The shape of a files document: one sequence field, `FILES`.
    pub fn shape() -> (r: Shape)
        ensures
            r matches Shape::Record(fs) && fs@.len() == 1 && fs@[0].name@ == "FILES"@
                && fs@[0].shape == Shape::Sequence(Box::new(Shape::Str)),
    {
        Shape::Record(vec![FieldShape { name: String::from_str("FILES"), shape: Shape::Sequence(Box::new(Shape::Str)) }])
    }

    /// Reads the files from a decoded files document.
    pub fn from_value(v: &Value) -> (r: Result<PackageFiles, Error>)
        ensures
            match datum_field(v.model(), "FILES"@) {
                Some(Datum::Sequence(items)) => if all_text(items) {
                    r matches Ok(p) && list_view(p.files) == texts(items)
                } else {
                    r == Err::<PackageFiles, Error>(Error::UnsupportedValueKind)
                },
                Some(_) => r == Err::<PackageFiles, Error>(Error::UnsupportedValueKind),
                None => r == Err::<PackageFiles, Error>(Error::MissingField),
            },
    {
        match v.field("FILES") {
            Some(Value::Sequence(items)) => {
                proof {
                    assert(crate::shape::models(items@) =~= match datum_field(v.model(), "FILES"@) {
                        Some(Datum::Sequence(ds)) => ds,
                        _ => Seq::empty(),
                    });
                }
                match take_texts(items) {
                    Some(files) => Ok(PackageFiles { files }),
                    None => Err(Error::UnsupportedValueKind),
                }
            },
            Some(_) => Err(Error::UnsupportedValueKind),
            None => Err(Error::MissingField),
        }
    }

    /// Decodes a files document.
    pub fn from_str(input: &str) -> (r: Result<PackageFiles, Error>)
        ensures
            exists|s: Shape|
                #[trigger] s.is_files_shape() && match parse_document(s, input@) {
                    Err(e) => r == Err::<PackageFiles, Error>(e),
                    Ok(d) => match datum_field(d, "FILES"@) {
                        Some(Datum::Sequence(items)) => if all_text(items) {
                            r matches Ok(p) && list_view(p.files) == texts(items)
                        } else {
                            r == Err::<PackageFiles, Error>(Error::UnsupportedValueKind)
                        },
                        Some(_) => r == Err::<PackageFiles, Error>(Error::UnsupportedValueKind),
                        None => r == Err::<PackageFiles, Error>(Error::MissingField),
                    },
                },
    {
        let shape = PackageFiles::shape();
        let v = from_str(input, &shape);
        proof {
            assert(shape.is_files_shape());
        }
        match v {
            Ok(v) => PackageFiles::from_value(&v),
            Err(e) => Err(e),
        }
    }
}

impl Shape {
    /// The shape of a files document.
    pub open spec fn is_files_shape(&self) -> bool {
        self matches Shape::Record(fs) && fs@.len() == 1 && fs@[0].name@ == "FILES"@
            && fs@[0].shape == Shape::Sequence(Box::new(Shape::Str))
    }

    /// The shape of a package description.
    pub open spec fn is_package_shape(&self) -> bool {
        self matches Shape::Record(fs) && fs@.len() == 23 && package_field_shapes(fs@)
    }
}

/// The fields of a package description, in order, with their shapes.
pub open spec fn package_field_shapes(fs: Seq<FieldShape>) -> bool {
    &&& fs[0].name@ == "FILENAME"@
    &&& { let s = fs[0].shape; s is Str }
    &&& fs[1].name@ == "NAME"@
    &&& { let s = fs[1].shape; s is Str }
    &&& fs[2].name@ == "BASE"@
    &&& { let s = fs[2].shape; s == Shape::Optional(Box::new(Shape::Str)) }
    &&& fs[3].name@ == "VERSION"@
    &&& { let s = fs[3].shape; s is Str }
    &&& fs[4].name@ == "DESC"@
    &&& { let s = fs[4].shape; s == Shape::Optional(Box::new(Shape::Str)) }
    &&& fs[5].name@ == "GROUPS"@
    &&& { let s = fs[5].shape; s == Shape::Optional(Box::new(Shape::Sequence(Box::new(Shape::Str)))) }
    &&& fs[6].name@ == "CSIZE"@
    &&& { let s = fs[6].shape; s == Shape::Unsigned(IntWidth::W64) }
    &&& fs[7].name@ == "ISIZE"@
    &&& { let s = fs[7].shape; s == Shape::Unsigned(IntWidth::W64) }
    &&& fs[8].name@ == "MD5SUM"@
    &&& { let s = fs[8].shape; s is Str }
    &&& fs[9].name@ == "SHA256SUM"@
    &&& { let s = fs[9].shape; s is Str }
    &&& fs[10].name@ == "PGPSIG"@
    &&& { let s = fs[10].shape; s is Str }
    &&& fs[11].name@ == "URL"@
    &&& { let s = fs[11].shape; s == Shape::Optional(Box::new(Shape::Str)) }
    &&& fs[12].name@ == "LICENSE"@
    &&& { let s = fs[12].shape; s == Shape::Optional(Box::new(Shape::Sequence(Box::new(Shape::Str)))) }
    &&& fs[13].name@ == "ARCH"@
    &&& { let s = fs[13].shape; s is Str }
    &&& fs[14].name@ == "BUILDDATE"@
    &&& { let s = fs[14].shape; s == Shape::Signed(IntWidth::W64) }
    &&& fs[15].name@ == "PACKAGER"@
    &&& { let s = fs[15].shape; s is Str }
    &&& fs[16].name@ == "REPLACES"@
    &&& { let s = fs[16].shape; s == Shape::Optional(Box::new(Shape::Sequence(Box::new(Shape::Str)))) }
    &&& fs[17].name@ == "CONFLICTS"@
    &&& { let s = fs[17].shape; s == Shape::Optional(Box::new(Shape::Sequence(Box::new(Shape::Str)))) }
    &&& fs[18].name@ == "PROVIDES"@
    &&& { let s = fs[18].shape; s == Shape::Optional(Box::new(Shape::Sequence(Box::new(Shape::Str)))) }
    &&& fs[19].name@ == "DEPENDS"@
    &&& { let s = fs[19].shape; s == Shape::Optional(Box::new(Shape::Sequence(Box::new(Shape::Str)))) }
    &&& fs[20].name@ == "OPTDEPENDS"@
    &&& { let s = fs[20].shape; s == Shape::Optional(Box::new(Shape::Sequence(Box::new(Shape::Str)))) }
    &&& fs[21].name@ == "MAKEDEPENDS"@
    &&& { let s = fs[21].shape; s == Shape::Optional(Box::new(Shape::Sequence(Box::new(Shape::Str)))) }
    &&& fs[22].name@ == "CHECKDEPENDS"@
    &&& { let s = fs[22].shape; s == Shape::Optional(Box::new(Shape::Sequence(Box::new(Shape::Str)))) }
}

/// The first field of a package description, in order, that is missing or
/// does not hold what the package needs.
pub open spec fn package_error(d: Datum) -> Option<Error> {
    match required_text(datum_field(d, "FILENAME"@)) {
        Err(e) => Some(e),
        Ok(_) => match required_text(datum_field(d, "NAME"@)) {
        Err(e) => Some(e),
        Ok(_) => match optional_text(datum_field(d, "BASE"@)) {
        Err(e) => Some(e),
        Ok(_) => match required_text(datum_field(d, "VERSION"@)) {
        Err(e) => Some(e),
        Ok(_) => match optional_text(datum_field(d, "DESC"@)) {
        Err(e) => Some(e),
        Ok(_) => match optional_text_list(datum_field(d, "GROUPS"@)) {
        Err(e) => Some(e),
        Ok(_) => match required_unsigned(datum_field(d, "CSIZE"@)) {
        Err(e) => Some(e),
        Ok(_) => match required_unsigned(datum_field(d, "ISIZE"@)) {
        Err(e) => Some(e),
        Ok(_) => match required_text(datum_field(d, "MD5SUM"@)) {
        Err(e) => Some(e),
        Ok(_) => match required_text(datum_field(d, "SHA256SUM"@)) {
        Err(e) => Some(e),
        Ok(_) => match required_text(datum_field(d, "PGPSIG"@)) {
        Err(e) => Some(e),
        Ok(_) => match optional_text(datum_field(d, "URL"@)) {
        Err(e) => Some(e),
        Ok(_) => match optional_text_list(datum_field(d, "LICENSE"@)) {
        Err(e) => Some(e),
        Ok(_) => match required_text(datum_field(d, "ARCH"@)) {
        Err(e) => Some(e),
        Ok(_) => match required_signed(datum_field(d, "BUILDDATE"@)) {
        Err(e) => Some(e),
        Ok(_) => match required_text(datum_field(d, "PACKAGER"@)) {
        Err(e) => Some(e),
        Ok(_) => match optional_text_list(datum_field(d, "REPLACES"@)) {
        Err(e) => Some(e),
        Ok(_) => match optional_text_list(datum_field(d, "CONFLICTS"@)) {
        Err(e) => Some(e),
        Ok(_) => match optional_text_list(datum_field(d, "PROVIDES"@)) {
        Err(e) => Some(e),
        Ok(_) => match optional_dependencies(datum_field(d, "DEPENDS"@)) {
        Err(e) => Some(e),
        Ok(_) => match optional_dependencies(datum_field(d, "OPTDEPENDS"@)) {
        Err(e) => Some(e),
        Ok(_) => match optional_dependencies(datum_field(d, "MAKEDEPENDS"@)) {
        Err(e) => Some(e),
        Ok(_) => match optional_dependencies(datum_field(d, "CHECKDEPENDS"@)) {
        Err(e) => Some(e),
        Ok(_) => None,
    },
    },
    },
    },
    },
    },
    },
    },
    },
    },
    },
    },
    },
    },
    },
    },
    },
    },
    },
    },
    },
    },
    }
}

/// Every field of the package is what the description says.
pub open spec fn package_matches(d: Datum, p: Package) -> bool {
    &&& required_text(datum_field(d, "FILENAME"@)) == Ok::<Seq<char>, Error>(p.file_name@)
    &&& required_text(datum_field(d, "NAME"@)) == Ok::<Seq<char>, Error>(p.name@)
    &&& optional_text(datum_field(d, "BASE"@)) == Ok::<Option<Seq<char>>, Error>(opt_text_view(p.base))
    &&& required_text(datum_field(d, "VERSION"@)) == Ok::<Seq<char>, Error>(p.version@)
    &&& optional_text(datum_field(d, "DESC"@)) == Ok::<Option<Seq<char>>, Error>(opt_text_view(p.description))
    &&& optional_text_list(datum_field(d, "GROUPS"@)) == Ok::<Option<Seq<Seq<char>>>, Error>(opt_list_view(p.groups))
    &&& required_unsigned(datum_field(d, "CSIZE"@)) == Ok::<int, Error>(p.compressed_size as int)
    &&& required_unsigned(datum_field(d, "ISIZE"@)) == Ok::<int, Error>(p.installed_size as int)
    &&& required_text(datum_field(d, "MD5SUM"@)) == Ok::<Seq<char>, Error>(p.md5_sum@)
    &&& required_text(datum_field(d, "SHA256SUM"@)) == Ok::<Seq<char>, Error>(p.sha256_sum@)
    &&& required_text(datum_field(d, "PGPSIG"@)) == Ok::<Seq<char>, Error>(p.pgp_signature@)
    &&& optional_text(datum_field(d, "URL"@)) == Ok::<Option<Seq<char>>, Error>(opt_text_view(p.home_url))
    &&& optional_text_list(datum_field(d, "LICENSE"@)) == Ok::<Option<Seq<Seq<char>>>, Error>(opt_list_view(p.license))
    &&& required_text(datum_field(d, "ARCH"@)) == Ok::<Seq<char>, Error>(p.architecture@)
    &&& required_signed(datum_field(d, "BUILDDATE"@)) == Ok::<int, Error>(p.build_date as int)
    &&& required_text(datum_field(d, "PACKAGER"@)) == Ok::<Seq<char>, Error>(p.packager@)
    &&& optional_text_list(datum_field(d, "REPLACES"@)) == Ok::<Option<Seq<Seq<char>>>, Error>(opt_list_view(p.replaces))
    &&& optional_text_list(datum_field(d, "CONFLICTS"@)) == Ok::<Option<Seq<Seq<char>>>, Error>(opt_list_view(p.conflicts))
    &&& optional_text_list(datum_field(d, "PROVIDES"@)) == Ok::<Option<Seq<Seq<char>>>, Error>(opt_list_view(p.provides))
    &&& optional_dependencies(datum_field(d, "DEPENDS"@)) == Ok::<Option<Seq<(Seq<char>, Option<(DependencyConstraints, Seq<char>)>)>>, Error>(opt_deps_view(p.depends))
    &&& optional_dependencies(datum_field(d, "OPTDEPENDS"@)) == Ok::<Option<Seq<(Seq<char>, Option<(DependencyConstraints, Seq<char>)>)>>, Error>(opt_deps_view(p.optdepends))
    &&& optional_dependencies(datum_field(d, "MAKEDEPENDS"@)) == Ok::<Option<Seq<(Seq<char>, Option<(DependencyConstraints, Seq<char>)>)>>, Error>(opt_deps_view(p.makedepends))
    &&& optional_dependencies(datum_field(d, "CHECKDEPENDS"@)) == Ok::<Option<Seq<(Seq<char>, Option<(DependencyConstraints, Seq<char>)>)>>, Error>(opt_deps_view(p.checkdepends))
}

/// Repository package
#[derive(Clone, Debug, PartialEq, Eq)]
pub struct Package {
    /// file name
    pub file_name: String,
    /// name
    pub name: String,
    /// name without architecture
    pub base: Option<String>,
    /// version
    pub version: String,
    /// description
    pub description: Option<String>,
    /// package groups
    pub groups: Option<Vec<String>>,
    /// tar.xz archive size
    pub compressed_size: u64,
    /// installed files size
    pub installed_size: u64,
    /// MD5 checksum
    pub md5_sum: String,
    /// SHA256 checksum
    pub sha256_sum: String,
    /// PGP signature
    pub pgp_signature: String,
    /// package home url
    pub home_url: Option<String>,
    /// license name
    pub license: Option<Vec<String>>,
    /// processor architecture
    pub architecture: String,
    /// build date, in seconds since the Unix epoch
    pub build_date: i64,
    /// who created this package
    pub packager: String,
    /// packages which this package replaces
    pub replaces: Option<Vec<String>>,
    /// packages which cannot be used with this package
    pub conflicts: Option<Vec<String>>,
    /// packages provided by this package
    pub provides: Option<Vec<String>>,
    /// run-time dependencies
    pub depends: Option<Vec<Dependency>>,
    /// optional dependencies
    pub optdepends: Option<Vec<Dependency>>,
    /// build-time dependencies
    pub makedepends: Option<Vec<Dependency>>,
    /// dependencies of the package's checks
    pub checkdepends: Option<Vec<Dependency>>,
}

impl Package {
    /// The shape of a package description.
    pub fn shape() -> (r: Shape)
        ensures
            r.is_package_shape(),
    {
        let fields = vec![
            FieldShape { name: String::from_str("FILENAME"), shape: Shape::Str },
            FieldShape { name: String::from_str("NAME"), shape: Shape::Str },
            FieldShape { name: String::from_str("BASE"), shape: Shape::Optional(Box::new(Shape::Str)) },
            FieldShape { name: String::from_str("VERSION"), shape: Shape::Str },
            FieldShape { name: String::from_str("DESC"), shape: Shape::Optional(Box::new(Shape::Str)) },
            FieldShape { name: String::from_str("GROUPS"), shape: Shape::Optional(Box::new(Shape::Sequence(Box::new(Shape::Str)))) },
            FieldShape { name: String::from_str("CSIZE"), shape: Shape::Unsigned(IntWidth::W64) },
            FieldShape { name: String::from_str("ISIZE"), shape: Shape::Unsigned(IntWidth::W64) },
            FieldShape { name: String::from_str("MD5SUM"), shape: Shape::Str },
            FieldShape { name: String::from_str("SHA256SUM"), shape: Shape::Str },
            FieldShape { name: String::from_str("PGPSIG"), shape: Shape::Str },
            FieldShape { name: String::from_str("URL"), shape: Shape::Optional(Box::new(Shape::Str)) },
            FieldShape { name: String::from_str("LICENSE"), shape: Shape::Optional(Box::new(Shape::Sequence(Box::new(Shape::Str)))) },
            FieldShape { name: String::from_str("ARCH"), shape: Shape::Str },
            FieldShape { name: String::from_str("BUILDDATE"), shape: Shape::Signed(IntWidth::W64) },
            FieldShape { name: String::from_str("PACKAGER"), shape: Shape::Str },
            FieldShape { name: String::from_str("REPLACES"), shape: Shape::Optional(Box::new(Shape::Sequence(Box::new(Shape::Str)))) },
            FieldShape { name: String::from_str("CONFLICTS"), shape: Shape::Optional(Box::new(Shape::Sequence(Box::new(Shape::Str)))) },
            FieldShape { name: String::from_str("PROVIDES"), shape: Shape::Optional(Box::new(Shape::Sequence(Box::new(Shape::Str)))) },
            FieldShape { name: String::from_str("DEPENDS"), shape: Shape::Optional(Box::new(Shape::Sequence(Box::new(Shape::Str)))) },
            FieldShape { name: String::from_str("OPTDEPENDS"), shape: Shape::Optional(Box::new(Shape::Sequence(Box::new(Shape::Str)))) },
            FieldShape { name: String::from_str("MAKEDEPENDS"), shape: Shape::Optional(Box::new(Shape::Sequence(Box::new(Shape::Str)))) },
            FieldShape { name: String::from_str("CHECKDEPENDS"), shape: Shape::Optional(Box::new(Shape::Sequence(Box::new(Shape::Str)))) },
        ];
        proof {
            reveal_strlit("FILENAME");
            reveal_strlit("NAME");
            reveal_strlit("BASE");
            reveal_strlit("VERSION");
            reveal_strlit("DESC");
            reveal_strlit("GROUPS");
            reveal_strlit("CSIZE");
            reveal_strlit("ISIZE");
            reveal_strlit("MD5SUM");
            reveal_strlit("SHA256SUM");
            reveal_strlit("PGPSIG");
            reveal_strlit("URL");
            reveal_strlit("LICENSE");
            reveal_strlit("ARCH");
            reveal_strlit("BUILDDATE");
            reveal_strlit("PACKAGER");
            reveal_strlit("REPLACES");
            reveal_strlit("CONFLICTS");
            reveal_strlit("PROVIDES");
            reveal_strlit("DEPENDS");
            reveal_strlit("OPTDEPENDS");
            reveal_strlit("MAKEDEPENDS");
            reveal_strlit("CHECKDEPENDS");
        }
        Shape::Record(fields)
    }

    /// Reads a package from a decoded package description.
    #[verifier::rlimit(100)]
    pub fn from_value(v: &Value) -> (r: Result<Package, Error>)
        ensures
            match package_error(v.model()) {
                Some(e) => r == Err::<Package, Error>(e),
                None => r matches Ok(p) && package_matches(v.model(), p),
            },
    {
        let file_name = take_text(v.field("FILENAME"))?;
        let name = take_text(v.field("NAME"))?;
        let base = take_optional_text(v.field("BASE"))?;
        let version = take_text(v.field("VERSION"))?;
        let description = take_optional_text(v.field("DESC"))?;
        let groups = take_optional_text_list(v.field("GROUPS"))?;
        let compressed_size = take_unsigned(v.field("CSIZE"))?;
        let installed_size = take_unsigned(v.field("ISIZE"))?;
        let md5_sum = take_text(v.field("MD5SUM"))?;
        let sha256_sum = take_text(v.field("SHA256SUM"))?;
        let pgp_signature = take_text(v.field("PGPSIG"))?;
        let home_url = take_optional_text(v.field("URL"))?;
        let license = take_optional_text_list(v.field("LICENSE"))?;
        let architecture = take_text(v.field("ARCH"))?;
        let build_date = take_signed(v.field("BUILDDATE"))?;
        let packager = take_text(v.field("PACKAGER"))?;
        let replaces = take_optional_text_list(v.field("REPLACES"))?;
        let conflicts = take_optional_text_list(v.field("CONFLICTS"))?;
        let provides = take_optional_text_list(v.field("PROVIDES"))?;
        let depends = take_optional_dependencies(v.field("DEPENDS"))?;
        let optdepends = take_optional_dependencies(v.field("OPTDEPENDS"))?;
        let makedepends = take_optional_dependencies(v.field("MAKEDEPENDS"))?;
        let checkdepends = take_optional_dependencies(v.field("CHECKDEPENDS"))?;
        Ok(Package {
            file_name,
            name,
            base,
            version,
            description,
            groups,
            compressed_size,
            installed_size,
            md5_sum,
            sha256_sum,
            pgp_signature,
            home_url,
            license,
            architecture,
            build_date,
            packager,
            replaces,
            conflicts,
            provides,
            depends,
            optdepends,
            makedepends,
            checkdepends,
        })
    }

    /// Decodes a package description.
    pub fn from_str(input: &str) -> (r: Result<Package, Error>)
        ensures
            exists|s: Shape|
                #[trigger] s.is_package_shape() && match parse_document(s, input@) {
                    Err(e) => r == Err::<Package, Error>(e),
                    Ok(d) => match package_error(d) {
                        Some(e) => r == Err::<Package, Error>(e),
                        None => r matches Ok(p) && package_matches(d, p),
                    },
                },
    {
        let shape = Package::shape();
        let v = from_str(input, &shape);
        match v {
            Ok(v) => Package::from_value(&v),
            Err(e) => Err(e),
        }
    }
}

} // verus!

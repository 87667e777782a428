//! Package dependencies as the package descriptions write them: a name,
//! optionally followed by a version constraint such as `>=1.0`.
use vstd::prelude::*;
use vstd::string::*;

verus! {

/// The text of a constraint (`DependencyConstraints::from_str`) was not one of
/// `<`, `>`, `=`, `>=`, `<=`.
#[derive(Clone, Debug, PartialEq)]
pub struct DependencyConstraintsParseError {
    source: String,
}

impl View for DependencyConstraintsParseError {
    type V = Seq<char>;

    /// The text that could not be read as a constraint.
    closed spec fn view(&self) -> Seq<char> {
        self.source@
    }
}

impl DependencyConstraintsParseError {
    fn new(source: &str) -> (r: Self)
        ensures
            r@ == source@,
    {
        DependencyConstraintsParseError { source: source.to_owned() }
    }

    /// The text that could not be read as a constraint.
    pub fn source(&self) -> (r: &str)
        ensures
            r@ == self@,
    {
        self.source.as_str()
    }

    /// Describes the error.
    pub fn to_string(&self) -> (r: String)
        ensures
            r@ == "Cannot parse dependency constraint "@ + self@,
    {
        let mut s = String::from_str("Cannot parse dependency constraint ");
        s.append(self.source.as_str());
        s
    }
}

/// How a dependency's version is compared with the required one.
#[derive(Clone, Copy, Eq, PartialEq, Debug, Structural)]
pub enum DependencyConstraints {
    /// <
    LessThan,
    /// >
    MoreThan,
    /// =
    Equals,
    /// >=
    MoreOrEqualsThan,
    /// <=
    LessOrEqualsThan,
}

impl DependencyConstraints {
    /// The operator that writes this constraint.
    pub open spec fn text(self) -> Seq<char> {
        match self {
            DependencyConstraints::LessThan => seq!['<'],
            DependencyConstraints::MoreThan => seq!['>'],
            DependencyConstraints::Equals => seq!['='],
            DependencyConstraints::MoreOrEqualsThan => seq!['>', '='],
            DependencyConstraints::LessOrEqualsThan => seq!['<', '='],
        }
    }

    /// Reads a constraint operator; the text must be the operator and
    /// nothing else.
    pub fn from_str(s: &str) -> (r: Result<Self, DependencyConstraintsParseError>)
        ensures
            match r {
                Ok(c) => c.text() == s@,
                Err(e) => e@ == s@ && forall|c: DependencyConstraints| c.text() != s@,
            },
    {
        let n = s.unicode_len();
        if n == 1 {
            let a = s.get_char(0);
            if a == '<' {
                assert(s@ =~= seq!['<']);
                return Ok(DependencyConstraints::LessThan);
            } else if a == '>' {
                assert(s@ =~= seq!['>']);
                return Ok(DependencyConstraints::MoreThan);
            } else if a == '=' {
                assert(s@ =~= seq!['=']);
                return Ok(DependencyConstraints::Equals);
            }
        } else if n == 2 && s.get_char(1) == '=' {
            let a = s.get_char(0);
            if a == '>' {
                assert(s@ =~= seq!['>', '=']);
                return Ok(DependencyConstraints::MoreOrEqualsThan);
            } else if a == '<' {
                assert(s@ =~= seq!['<', '=']);
                return Ok(DependencyConstraints::LessOrEqualsThan);
            }
        }
        assert forall|c: DependencyConstraints| c.text() != s@ by {
            if c.text() == s@ {
                assert(c.text()[0] == s@[0]);
            }
        }
        Err(DependencyConstraintsParseError::new(s))
    }

    /// The operator that writes this constraint.
    pub fn to_string(&self) -> (r: String)
        ensures
            r@ == self.text(),
    {
        let t = match self {
            DependencyConstraints::LessThan => "<",
            DependencyConstraints::MoreThan => ">",
            DependencyConstraints::Equals => "=",
            DependencyConstraints::MoreOrEqualsThan => ">=",
            DependencyConstraints::LessOrEqualsThan => "<=",
        };
        proof {
            reveal_strlit("<");
            reveal_strlit(">");
            reveal_strlit("=");
            reveal_strlit(">=");
            reveal_strlit("<=");
        }
        let r = String::from_str(t);
        assert(r@ =~= self.text());
        r
    }
}

/// Why a version constraint could not be read.
#[derive(Clone, Copy, Debug, PartialEq, Eq, Structural)]
pub enum DependencyVersionParseError {
    /// The text does not start with a constraint operator.
    ConstraintNotFound,
    /// Nothing follows the constraint operator.
    VersionNotFound,
}

impl DependencyVersionParseError {
    /// Describes the error.
    pub fn to_string(&self) -> (r: String)
        ensures
            r@ == match self {
                DependencyVersionParseError::ConstraintNotFound => "Constraint not found"@,
                DependencyVersionParseError::VersionNotFound => "Version not found"@,
            },
    {
        match self {
            DependencyVersionParseError::ConstraintNotFound => String::from_str(
                "Constraint not found",
            ),
            DependencyVersionParseError::VersionNotFound => String::from_str("Version not found"),
        }
    }
}

/// The constraint that a text starts with, and the length of its operator.
/// Two-character operators win over their first character.
pub open spec fn leading_constraint(s: Seq<char>) -> Option<(DependencyConstraints, int)> {
    if s.len() >= 2 && s[0] == '>' && s[1] == '=' {
        Some((DependencyConstraints::MoreOrEqualsThan, 2))
    } else if s.len() >= 2 && s[0] == '<' && s[1] == '=' {
        Some((DependencyConstraints::LessOrEqualsThan, 2))
    } else if s.len() >= 1 && s[0] == '<' {
        Some((DependencyConstraints::LessThan, 1))
    } else if s.len() >= 1 && s[0] == '>' {
        Some((DependencyConstraints::MoreThan, 1))
    } else if s.len() >= 1 && s[0] == '=' {
        Some((DependencyConstraints::Equals, 1))
    } else {
        None
    }
}

/// A version constraint: an operator and a non-empty version after it.
pub open spec fn version_constraint(s: Seq<char>) -> Result<
    (DependencyConstraints, Seq<char>),
    DependencyVersionParseError,
> {
    match leading_constraint(s) {
        None => Err(DependencyVersionParseError::ConstraintNotFound),
        Some((c, n)) => if s.len() == n {
            Err(DependencyVersionParseError::VersionNotFound)
        } else {
            Ok((c, s.subrange(n, s.len() as int)))
        },
    }
}

/// A required version of a dependency.
#[derive(Clone, Eq, PartialEq, Debug)]
pub struct DependencyVersion {
    pub constraint: DependencyConstraints,
    pub version: String,
}

impl DependencyVersion {
    /// Reads a constraint operator followed by a version, such as `>=1.0`.
    pub fn from_str(value: &str) -> (r: Result<Self, DependencyVersionParseError>)
        ensures
            match version_constraint(value@) {
                Ok((c, v)) => r matches Ok(d) && d.constraint == c && d.version@ == v,
                Err(e) => r == Err::<Self, DependencyVersionParseError>(e),
            },
    {
        let n = value.unicode_len();
        let (constraint, skip): (DependencyConstraints, usize) = if n >= 2 && value.get_char(0)
            == '>' && value.get_char(1) == '=' {
            (DependencyConstraints::MoreOrEqualsThan, 2)
        } else if n >= 2 && value.get_char(0) == '<' && value.get_char(1) == '=' {
            (DependencyConstraints::LessOrEqualsThan, 2)
        } else if n >= 1 && value.get_char(0) == '<' {
            (DependencyConstraints::LessThan, 1)
        } else if n >= 1 && value.get_char(0) == '>' {
            (DependencyConstraints::MoreThan, 1)
        } else if n >= 1 && value.get_char(0) == '=' {
            (DependencyConstraints::Equals, 1)
        } else {
            return Err(DependencyVersionParseError::ConstraintNotFound);
        };
        if n == skip {
            return Err(DependencyVersionParseError::VersionNotFound);
        }
        let version = value.substring_char(skip, n).to_owned();
        Ok(DependencyVersion { constraint, version })
    }

    /// Writes the constraint back: the operator, then the version.
    pub fn to_string(&self) -> (r: String)
        ensures
            r@ == self.constraint.text() + self.version@,
    {
        let mut s = self.constraint.to_string();
        s.append(self.version.as_str());
        s
    }
}

/// The first position of `c` in `s`.
pub open spec fn first_index(s: Seq<char>, c: char) -> Option<int> {
    if exists|i: int| 0 <= i < s.len() && s[i] == c {
        Some(choose|i: int| 0 <= i < s.len() && s[i] == c && forall|j: int| 0 <= j < i ==> s[j] != c)
    } else {
        None
    }
}

/// Where the version constraint of a dependency starts: at the first `<`;
/// without one, at the first `>`; without either, at the first `=`.
pub open spec fn constraint_start(s: Seq<char>) -> Option<int> {
    match first_index(s, '<') {
        Some(i) => Some(i),
        None => match first_index(s, '>') {
            Some(i) => Some(i),
            None => first_index(s, '='),
        },
    }
}

/// Finds the first position of `c` in `s`.
fn find_char(s: &str, c: char) -> (r: Option<usize>)
    ensures
        r matches Some(i) ==> i < s@.len() && first_index(s@, c) == Some(i as int),
        r is None ==> first_index(s@, c) is None,
{
    let n = s.unicode_len();
    let mut i: usize = 0;
    while i < n
        invariant
            0 <= i <= n,
            n == s@.len(),
            forall|j: int| 0 <= j < i ==> s@[j] != c,
        decreases n - i,
    {
        if s.get_char(i) == c {
            let ghost k = choose|k: int|
                0 <= k < s@.len() && s@[k] == c && forall|j: int| 0 <= j < k ==> s@[j] != c;
            assert(0 <= i < s@.len() && s@[i as int] == c);
            assert(k == i);
            return Some(i);
        }
        i = i + 1;
    }
    None
}

/// A dependency of a package.
#[derive(Clone, Eq, PartialEq, Debug)]
pub struct Dependency {
    /// dependency name
    pub name: String,
    /// dependency version constraint. If None - match all dependencies with given name
    pub version: Option<DependencyVersion>,
}

/// What a dependency text says: the name, and the constraint with its
/// version if there is one.
pub open spec fn dependency_of(s: Seq<char>) -> Result<
    (Seq<char>, Option<(DependencyConstraints, Seq<char>)>),
    DependencyVersionParseError,
> {
    match constraint_start(s) {
        None => Ok((s, None)),
        Some(p) => match version_constraint(s.subrange(p, s.len() as int)) {
            Ok(cv) => Ok((s.subrange(0, p), Some(cv))),
            Err(e) => Err(e),
        },
    }
}

impl View for Dependency {
    type V = (Seq<char>, Option<(DependencyConstraints, Seq<char>)>);

    open spec fn view(&self) -> Self::V {
        (
            self.name@,
            match self.version {
                Some(v) => Some((v.constraint, v.version@)),
                None => None,
            },
        )
    }
}

impl Dependency {
    /// Reads a dependency: a name, then optionally a version constraint.
    pub fn from_str(value: &str) -> (r: Result<Self, DependencyVersionParseError>)
        ensures
            match dependency_of(value@) {
                Ok(d) => r matches Ok(x) && x@ == d,
                Err(e) => r == Err::<Self, DependencyVersionParseError>(e),
            },
    {
        let pos = match find_char(value, '<') {
            Some(p) => Some(p),
            None => match find_char(value, '>') {
                Some(p) => Some(p),
                None => find_char(value, '='),
            },
        };
        match pos {
            Some(p) => {
                let n = value.unicode_len();
                let version = DependencyVersion::from_str(value.substring_char(p, n))?;
                Ok(Dependency { name: value.substring_char(0, p).to_owned(), version: Some(version) })
            },
            None => Ok(Dependency { name: value.to_owned(), version: None }),
        }
    }

    /// Writes the dependency back: its name, then its constraint if any.
    pub fn to_string(&self) -> (r: String)
        ensures
            r@ == match self.version {
                Some(v) => self.name@ + v.constraint.text() + v.version@,
                None => self.name@,
            },
    {
        let mut s = self.name.clone();
        match &self.version {
            Some(v) => {
                let t = v.to_string();
                s.append(t.as_str());
                assert(s@ =~= self.name@ + v.constraint.text() + v.version@);
            },
            None => {},
        }
        s
    }
}

} // verus!

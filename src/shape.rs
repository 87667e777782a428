//! What a caller asks to decode (a shape) and what comes back (a value).
use vstd::prelude::*;
use crate::number::IntWidth;

verus! {

broadcast use vstd::std_specs::vec::axiom_vec_index_decreases;

/// The kind of value that the caller expects at some point of a document.
///
/// The decoder picks how to read the text from the shape alone; it never
/// guesses from the text.
#[derive(Debug, PartialEq)]
pub enum Shape {
    /// One non-blank line.
    Str,
    /// One line of exactly one character.
    Char,
    /// One line holding an unsigned decimal integer of the given width.
    Unsigned(IntWidth),
    /// One line holding a signed decimal integer of the given width.
    Signed(IntWidth),
    /// Nothing: a blank line.
    Unit,
    /// Booleans: the grammar cannot express them.
    Bool,
    /// Floating-point numbers: the grammar cannot express them.
    Float,
    /// Byte blobs: the grammar cannot express them.
    Bytes,
    /// Tagged variants: the grammar cannot express them.
    Variant,
    /// A value that a blank line marks as absent.
    Optional(Box<Shape>),
    /// Zero or more element lines, up to a blank line or the end of input.
    Sequence(Box<Shape>),
    /// A map from field names to values, up to a blank line or the end of
    /// input.
    Record(Vec<FieldShape>),
}

/// A field that a record shape knows, by its key.
#[derive(Debug, PartialEq)]
pub struct FieldShape {
    pub name: String,
    pub shape: Shape,
}

/// A decoded value.
#[derive(Debug, PartialEq)]
pub enum Value {
    Str(String),
    Char(char),
    Unsigned(u64),
    Signed(i64),
    Unit,
    /// An optional value that is absent.
    Absent,
    /// An optional value that is present.
    Present(Box<Value>),
    Sequence(Vec<Value>),
    /// The fields of a record, in the order of the document.
    Record(Vec<Field>),
}

/// One field of a decoded record.
#[derive(Debug, PartialEq)]
pub struct Field {
    pub name: String,
    pub value: Value,
}

/// The mathematical content of a [`Value`].
pub enum Datum {
    Str(Seq<char>),
    Char(char),
    Unsigned(int),
    Signed(int),
    Unit,
    Absent,
    Present(Box<Datum>),
    Sequence(Seq<Datum>),
    Record(Seq<(Seq<char>, Datum)>),
}

impl Value {
    pub open spec fn model(&self) -> Datum
        decreases self,
    {
        match self {
            Value::Str(s) => Datum::Str(s@),
            Value::Char(c) => Datum::Char(*c),
            Value::Unsigned(n) => Datum::Unsigned(*n as int),
            Value::Signed(n) => Datum::Signed(*n as int),
            Value::Unit => Datum::Unit,
            Value::Absent => Datum::Absent,
            Value::Present(b) => Datum::Present(Box::new((**b).model())),
            Value::Sequence(v) => Datum::Sequence(
                Seq::new(
                    v.len() as nat,
                    |i: int|
                        if 0 <= i < v.len() {
                            v[i].model()
                        } else {
                            Datum::Absent
                        },
                ),
            ),
            Value::Record(v) => Datum::Record(
                Seq::new(
                    v.len() as nat,
                    |i: int|
                        if 0 <= i < v.len() {
                            (v[i].name@, v[i].value.model())
                        } else {
                            (Seq::empty(), Datum::Absent)
                        },
                ),
            ),
        }
    }
}

/// The position of the first field of a decoded record named `key`.
pub open spec fn first_key(entries: Seq<(Seq<char>, Datum)>, key: Seq<char>) -> Option<int> {
    if exists|i: int| 0 <= i < entries.len() && #[trigger] entries[i].0 == key {
        Some(
            choose|i: int|
                0 <= i < entries.len() && #[trigger] entries[i].0 == key && forall|j: int|
                    0 <= j < i ==> #[trigger] entries[j].0 != key,
        )
    } else {
        None
    }
}

/// The value of the first field named `key`, where `d` is a record.
pub open spec fn datum_field(d: Datum, key: Seq<char>) -> Option<Datum> {
    match d {
        Datum::Record(entries) => match first_key(entries, key) {
            Some(i) => Some(entries[i].1),
            None => None,
        },
        _ => None,
    }
}

/// The content of a value that may be missing.
pub open spec fn model_of(f: Option<&Value>) -> Option<Datum> {
    match f {
        Some(v) => Some(v.model()),
        None => None,
    }
}

impl Value {
    /// The value of the first field named `name`, where this is a record.
    /// A field that the record does not hold is absent.
    pub fn field(&self, name: &str) -> (r: Option<&Value>)
        ensures
            model_of(r) == datum_field(self.model(), name@),
    {
        match self {
            Value::Record(entries) => {
                let ghost es = field_models(entries@);
                proof {
                    assert(es =~= match self.model() {
                        Datum::Record(fs) => fs,
                        _ => Seq::empty(),
                    });
                    assert(self.model() == Datum::Record(es));
                }
                let mut i: usize = 0;
                while i < entries.len()
                    invariant
                        0 <= i <= entries.len(),
                        es == field_models(entries@),
                        self.model() == Datum::Record(es),
                        forall|j: int| 0 <= j < i ==> #[trigger] es[j].0 != name@,
                    decreases entries.len() - i,
                {
                    if crate::text::same_text(entries[i].name.as_str(), name) {
                        assert(es[i as int].0 == name@);
                        let ghost k = choose|k: int|
                            0 <= k < es.len() && #[trigger] es[k].0 == name@ && forall|j: int|
                                0 <= j < k ==> #[trigger] es[j].0 != name@;
                        assert(first_key(es, name@) == Some(k));
                        assert(k == i);
                        return Some(&entries[i].value);
                    }
                    i = i + 1;
                }
                None
            },
            _ => None,
        }
    }

    /// A character value.
    pub fn from_char(c: char) -> (r: Value)
        ensures
            r.model() == Datum::Char(c),
    {
        Value::Char(c)
    }
}

/// The contents of a sequence of values.
pub open spec fn models(items: Seq<Value>) -> Seq<Datum> {
    Seq::new(items.len(), |i: int| items[i].model())
}

/// The contents of a record's fields.
pub open spec fn field_models(fields: Seq<Field>) -> Seq<(Seq<char>, Datum)> {
    Seq::new(fields.len(), |i: int| (fields[i].name@, fields[i].value.model()))
}

/// The first field of `fields` whose name is `key`.
pub open spec fn first_field(fields: Seq<FieldShape>, key: Seq<char>) -> Option<int> {
    if exists|i: int| 0 <= i < fields.len() && #[trigger] fields[i].name@ == key {
        Some(
            choose|i: int|
                0 <= i < fields.len() && #[trigger] fields[i].name@ == key && forall|j: int|
                    0 <= j < i ==> #[trigger] fields[j].name@ != key,
        )
    } else {
        None
    }
}

} // verus!

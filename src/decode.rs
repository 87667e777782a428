//! The decoder: values, sequences and records, driven by the requested shape.
use vstd::prelude::*;
use vstd::string::*;
use crate::cursor::{
    char_scalar, field_name, signed_scalar, string_scalar, unsigned_scalar, Deserializer,
};
use crate::error::Error;
use crate::shape::{first_field, field_models, models, Datum, Field, FieldShape, Shape, Value};
use crate::text::{at_delimiter, lemma_split_line_shrinks, same_text, skip_delimiter};

verus! {

broadcast use vstd::std_specs::vec::axiom_vec_index_decreases;

/// An element shape that is itself a sequence, possibly optional: a sequence
/// of such elements is a sequence of sequences.
pub open spec fn holds_sequence(shape: Shape) -> bool
    decreases shape,
{
    match shape {
        Shape::Sequence(_) => true,
        Shape::Optional(inner) => holds_sequence(*inner),
        _ => false,
    }
}

/// The shape is refused at this point before any input is read: a kind the
/// grammar cannot express, a sequence where none may stand, or a sequence of
/// sequences.
pub open spec fn refused_here(shape: Shape, nested: bool) -> bool {
    match shape {
        Shape::Bool | Shape::Float | Shape::Bytes | Shape::Variant => true,
        Shape::Sequence(elem) => !nested || holds_sequence(*elem),
        _ => false,
    }
}

/// Decodes one value of the given shape from the front of `s`, and what is
/// left after it. `nested` says whether a sequence may stand here: it may
/// as a field's value, and not as an element of another sequence. A
/// sequence of sequences is refused whatever the text holds.
pub open spec fn parse_value(shape: Shape, s: Seq<char>, nested: bool) -> Result<
    (Datum, Seq<char>),
    Error,
>
    decreases s.len(), shape, 0nat,
{
    match shape {
        Shape::Str => match string_scalar(s) {
            Ok((v, rest)) => Ok((Datum::Str(v), rest)),
            Err(e) => Err(e),
        },
        Shape::Char => match char_scalar(s) {
            Ok((c, rest)) => Ok((Datum::Char(c), rest)),
            Err(e) => Err(e),
        },
        Shape::Unsigned(w) => match unsigned_scalar(s, w) {
            Ok((n, rest)) => Ok((Datum::Unsigned(n), rest)),
            Err(e) => Err(e),
        },
        Shape::Signed(w) => match signed_scalar(s, w) {
            Ok((n, rest)) => Ok((Datum::Signed(n), rest)),
            Err(e) => Err(e),
        },
        Shape::Unit => if at_delimiter(s) {
            match skip_delimiter(s) {
                Ok(rest) => Ok((Datum::Unit, rest)),
                Err(e) => Err(e),
            }
        } else {
            Err(Error::DelimiterExpected)
        },
        Shape::Optional(inner) => if at_delimiter(s) {
            match skip_delimiter(s) {
                Ok(rest) => Ok((Datum::Absent, rest)),
                Err(e) => Err(e),
            }
        } else {
            match parse_value(*inner, s, nested) {
                Ok((v, rest)) => Ok((Datum::Present(Box::new(v)), rest)),
                Err(e) => Err(e),
            }
        },
        Shape::Sequence(elem) => if nested && !holds_sequence(*elem) {
            match parse_elements(*elem, s) {
                Ok((vs, rest)) => Ok((Datum::Sequence(vs), rest)),
                Err(e) => Err(e),
            }
        } else {
            Err(Error::UnsupportedValueKind)
        },
        Shape::Record(fields) => match parse_fields(fields, s) {
            Ok((fs, rest)) => Ok((Datum::Record(fs), rest)),
            Err(e) => Err(e),
        },
        _ => Err(Error::UnsupportedValueKind),
    }
}

/// Decodes the elements of a sequence up to a blank line or the end of the
/// input, which is left in place.
///
/// An element that starts on a non-blank line always consumes input, so the
/// last branch is never taken (`laws::lemma_value_progress`); it only makes
/// the recursion well-founded.
pub open spec fn parse_elements(elem: Shape, s: Seq<char>) -> Result<(Seq<Datum>, Seq<char>), Error>
    decreases s.len(), elem, 1nat,
{
    if at_delimiter(s) {
        Ok((Seq::empty(), s))
    } else {
        match parse_value(elem, s, false) {
            Err(e) => Err(e),
            Ok((v, rest)) => if rest.len() < s.len() {
                match parse_elements(elem, rest) {
                    Ok((vs, rest2)) => Ok((seq![v] + vs, rest2)),
                    Err(e) => Err(e),
                }
            } else {
                Ok((seq![v], rest))
            },
        }
    }
}

/// Decodes one field of a record: its name line, its value and the blank
/// line after it, which may be missing at the end of the input. The name must
/// be one that the record knows.
pub open spec fn parse_field(fields: Vec<FieldShape>, s: Seq<char>) -> Result<
    ((Seq<char>, Datum), Seq<char>),
    Error,
>
    decreases s.len(), fields, 0nat,
{
    proof {
        if s.len() > 0 {
            lemma_split_line_shrinks(s);
        }
    }
    match field_name(s) {
        Err(e) => Err(e),
        Ok((key, after_name)) => match first_field(fields@, key) {
            None => Err(Error::UnsupportedValueKind),
            Some(i) => match parse_value(fields@[i].shape, after_name, true) {
                Err(e) => Err(e),
                Ok((v, after_value)) => match skip_delimiter(after_value) {
                    Err(e) => Err(e),
                    Ok(rest) => Ok(((key, v), rest)),
                },
            },
        },
    }
}

/// Decodes the fields of a record up to a blank line, which it consumes, or
/// the end of the input.
///
/// The last branch is never taken (`laws::lemma_field_progress`), as in
/// [`parse_elements`].
pub open spec fn parse_fields(fields: Vec<FieldShape>, s: Seq<char>) -> Result<
    (Seq<(Seq<char>, Datum)>, Seq<char>),
    Error,
>
    decreases s.len(), fields, 1nat,
{
    if at_delimiter(s) {
        match skip_delimiter(s) {
            Ok(rest) => Ok((Seq::empty(), rest)),
            Err(e) => Err(e),
        }
    } else {
        match parse_field(fields, s) {
            Err(e) => Err(e),
            Ok((entry, rest)) => if rest.len() < s.len() {
                match parse_fields(fields, rest) {
                    Ok((es, rest2)) => Ok((seq![entry] + es, rest2)),
                    Err(e) => Err(e),
                }
            } else {
                Ok((seq![entry], rest))
            },
        }
    }
}

/// Decodes a whole document: only a record may stand at its root, and no
/// input may remain after it.
pub open spec fn parse_document(shape: Shape, s: Seq<char>) -> Result<Datum, Error> {
    match shape {
        Shape::Record(fields) => match parse_fields(fields, s) {
            Ok((fs, rest)) => if rest.len() == 0 {
                Ok(Datum::Record(fs))
            } else {
                Err(Error::TrailingData)
            },
            Err(e) => Err(e),
        },
        _ => Err(Error::RootMustBeRecord),
    }
}

/// Finds the first field shape whose name is `key`.
fn find_field(fields: &Vec<FieldShape>, key: &str) -> (r: Option<usize>)
    ensures
        r matches Some(i) ==> i < fields.len() && first_field(fields@, key@) == Some(i as int),
        r is None ==> first_field(fields@, key@) is None,
{
    let mut i: usize = 0;
    while i < fields.len()
        invariant
            0 <= i <= fields.len(),
            forall|j: int| 0 <= j < i ==> #[trigger] fields@[j].name@ != key@,
        decreases fields.len() - i,
    {
        if same_text(fields[i].name.as_str(), key) {
            let ghost k = choose|k: int|
                0 <= k < fields@.len() && #[trigger] fields@[k].name@ == key@ && forall|j: int|
                    0 <= j < k ==> #[trigger] fields@[j].name@ != key@;
            assert(0 <= i < fields@.len() && fields@[i as int].name@ == key@);
            assert(first_field(fields@, key@) == Some(k));
            assert(k == i);
            return Some(i);
        }
        i = i + 1;
    }
    None
}

/// Decodes a scalar: a string, a character or an integer.
fn decode_scalar<'de>(de: &mut Deserializer<'de>, shape: &Shape, nested: bool) -> (r: Result<
    Value,
    Error,
>)
    requires
        shape is Str || shape is Char || shape is Unsigned || shape is Signed,
    ensures
        match parse_value(*shape, old(de)@, nested) {
            Ok((v, rest)) => r matches Ok(x) && x.model() == v && final(de)@ == rest,
            Err(e) => r matches Err(x) && x == e,
        },
        r is Ok ==> final(de)@.len() < old(de)@.len(),
{
    proof {
        if old(de)@.len() > 0 {
            lemma_split_line_shrinks(old(de)@);
        }
    }
    match shape {
        Shape::Str => {
            let s = de.parse_string()?;
            Ok(Value::Str(s.to_owned()))
        },
        Shape::Char => {
            let c = de.parse_char()?;
            Ok(Value::from_char(c))
        },
        Shape::Unsigned(w) => {
            let n = de.parse_unsigned(*w)?;
            Ok(Value::Unsigned(n))
        },
        Shape::Signed(w) => {
            let n = de.parse_signed(*w)?;
            Ok(Value::Signed(n))
        },
        _ => Err(Error::UnsupportedValueKind),
    }
}

/// Whether an element shape is itself a sequence, possibly optional.
fn sequence_element(shape: &Shape) -> (r: bool)
    ensures
        r == holds_sequence(*shape),
    decreases shape,
{
    match shape {
        Shape::Sequence(_) => true,
        Shape::Optional(inner) => sequence_element(inner),
        _ => false,
    }
}

/// Decodes one value of the given shape.
pub fn decode_value<'de>(de: &mut Deserializer<'de>, shape: &Shape, nested: bool) -> (r: Result<
    Value,
    Error,
>)
    ensures
        match parse_value(*shape, old(de)@, nested) {
            Ok((v, rest)) => r matches Ok(x) && x.model() == v && final(de)@ == rest,
            Err(e) => r matches Err(x) && x == e,
        },
        r is Ok ==> final(de)@.len() <= old(de)@.len(),
        r is Ok && !at_delimiter(old(de)@) ==> final(de)@.len() < old(de)@.len(),
        refused_here(*shape, nested) ==> final(de)@ == old(de)@,
    decreases shape, 1nat,
{
    proof {
        if old(de)@.len() > 0 {
            lemma_split_line_shrinks(old(de)@);
        }
    }
    match shape {
        Shape::Str | Shape::Char | Shape::Unsigned(_) | Shape::Signed(_) => decode_scalar(
            de,
            shape,
            nested,
        ),
        Shape::Unit => {
            if de.peek_delimiter() {
                de.parse_delimiter()?;
                Ok(Value::Unit)
            } else {
                Err(Error::DelimiterExpected)
            }
        },
        Shape::Optional(inner) => {
            if de.peek_delimiter() {
                de.parse_delimiter()?;
                Ok(Value::Absent)
            } else {
                let v = decode_value(de, inner, nested)?;
                Ok(Value::Present(Box::new(v)))
            }
        },
        Shape::Sequence(elem) => {
            if nested && !sequence_element(elem) {
                let items = decode_sequence(de, elem)?;
                proof {
                    assert(models(items@) =~= match Value::Sequence(items).model() {
                        Datum::Sequence(vs) => vs,
                        _ => Seq::empty(),
                    });
                }
                Ok(Value::Sequence(items))
            } else {
                Err(Error::UnsupportedValueKind)
            }
        },
        Shape::Record(fields) => {
            let entries = decode_record(de, fields)?;
            proof {
                assert(field_models(entries@) =~= match Value::Record(entries).model() {
                    Datum::Record(fs) => fs,
                    _ => Seq::empty(),
                });
            }
            Ok(Value::Record(entries))
        },
        _ => Err(Error::UnsupportedValueKind),
    }
}

/// Decodes the elements of a sequence, up to a blank line or the end of the
/// input.
pub fn decode_sequence<'de>(de: &mut Deserializer<'de>, elem: &Shape) -> (r: Result<
    Vec<Value>,
    Error,
>)
    ensures
        match parse_elements(*elem, old(de)@) {
            Ok((vs, rest)) => r matches Ok(items) && models(items@) == vs && final(de)@ == rest,
            Err(e) => r matches Err(x) && x == e,
        },
        r is Ok ==> final(de)@.len() <= old(de)@.len(),
        r is Ok && !at_delimiter(old(de)@) ==> final(de)@.len() < old(de)@.len(),
    decreases elem, 2nat,
{
    let mut items: Vec<Value> = Vec::new();
    loop
        invariant
            parse_elements(*elem, old(de)@) == match parse_elements(*elem, de@) {
                Ok((vs, rest)) => Ok((models(items@) + vs, rest)),
                Err(e) => Err(e),
            },
            de@.len() <= old(de)@.len(),
            de@ == old(de)@ || de@.len() < old(de)@.len(),
        decreases de@.len(),
    {
        let ghost prior = items@;
        if de.peek_delimiter() {
            assert(models(items@) + Seq::<Datum>::empty() =~= models(items@));
            return Ok(items);
        }
        let v = decode_value(de, elem, false)?;
        items.push(v);
        proof {
            assert(models(items@) =~= models(prior) + seq![v.model()]);
            match parse_elements(*elem, de@) {
                Ok((vs, rest)) => {
                    assert(models(items@) + vs =~= models(prior) + (seq![v.model()] + vs));
                },
                Err(e) => {},
            }
        }
    }
}

/// Decodes one field of a record.
fn decode_field<'de>(de: &mut Deserializer<'de>, fields: &Vec<FieldShape>) -> (r: Result<
    Field,
    Error,
>)
    ensures
        match parse_field(*fields, old(de)@) {
            Ok(((key, v), rest)) => r matches Ok(f) && f.name@ == key && f.value.model() == v
                && final(de)@ == rest,
            Err(e) => r matches Err(x) && x == e,
        },
        r is Ok ==> final(de)@.len() < old(de)@.len(),
    decreases fields, 1nat,
{
    proof {
        if old(de)@.len() > 0 {
            lemma_split_line_shrinks(old(de)@);
        }
    }
    let ghost start = de@;
    let key = de.parse_field_name()?;
    let ghost after_name = de@;
    assert(field_name(start) == Ok::<(Seq<char>, Seq<char>), Error>((key@, after_name)));
    let i = match find_field(fields, key) {
        Some(i) => i,
        None => {
            return Err(Error::UnsupportedValueKind);
        },
    };
    proof {
        assert(decreases_to!(*fields => fields[i as int]));
    }
    assert(first_field(fields@, key@) == Some(i as int));
    let shape = &fields[i].shape;
    assert(*shape == fields@[i as int].shape);
    let value = decode_value(de, shape, true)?;
    de.parse_delimiter()?;
    Ok(Field { name: key.to_owned(), value })
}

/// Decodes the fields of a record, up to a blank line, which it consumes,
/// or the end of the input.
pub fn decode_record<'de>(de: &mut Deserializer<'de>, fields: &Vec<FieldShape>) -> (r: Result<
    Vec<Field>,
    Error,
>)
    ensures
        match parse_fields(*fields, old(de)@) {
            Ok((fs, rest)) => r matches Ok(entries) && field_models(entries@) == fs && final(de)@
                == rest,
            Err(e) => r matches Err(x) && x == e,
        },
        r is Ok ==> final(de)@.len() <= old(de)@.len(),
        r is Ok && !at_delimiter(old(de)@) ==> final(de)@.len() < old(de)@.len(),
    decreases fields, 2nat,
{
    let mut entries: Vec<Field> = Vec::new();
    loop
        invariant
            parse_fields(*fields, old(de)@) == match parse_fields(*fields, de@) {
                Ok((fs, rest)) => Ok((field_models(entries@) + fs, rest)),
                Err(e) => Err(e),
            },
            de@.len() <= old(de)@.len(),
            de@ == old(de)@ || de@.len() < old(de)@.len(),
        decreases de@.len(),
    {
        let ghost prior = entries@;
        if de.peek_delimiter() {
            de.parse_delimiter()?;
            assert(field_models(entries@) + Seq::empty() =~= field_models(entries@));
            return Ok(entries);
        }
        let field = decode_field(de, fields)?;
        let ghost entry = (field.name@, field.value.model());
        entries.push(field);
        proof {
            assert(field_models(entries@) =~= field_models(prior) + seq![entry]);
            match parse_fields(*fields, de@) {
                Ok((fs, rest)) => {
                    assert(field_models(entries@) + fs =~= field_models(prior) + (seq![entry]
                        + fs));
                },
                Err(e) => {},
            }
        }
    }
}

/// Decodes a whole document as a value of the given shape, which must be a
/// record; no input may remain after it.
pub fn from_str(input: &str, shape: &Shape) -> (r: Result<Value, Error>)
    ensures
        match parse_document(*shape, input@) {
            Ok(v) => r matches Ok(x) && x.model() == v,
            Err(e) => r matches Err(x) && x == e,
        },
{
    match shape {
        Shape::Record(fields) => {
            let mut de = Deserializer::from_str(input);
            let entries = decode_record(&mut de, fields)?;
            if de.remaining().unicode_len() == 0 {
                proof {
                    assert(field_models(entries@) =~= match Value::Record(entries).model() {
                        Datum::Record(fs) => fs,
                        _ => Seq::empty(),
                    });
                }
                Ok(Value::Record(entries))
            } else {
                Err(Error::TrailingData)
            }
        },
        _ => Err(Error::RootMustBeRecord),
    }
}

} // verus!

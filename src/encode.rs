//! The encoder: a record value back to text. Its output is what the decoder
//! reads back.
use vstd::prelude::*;
use vstd::string::*;
use crate::shape::{Datum, Field, Value};
use crate::text::{decimal_text, format_decimal, newline_free};

verus! {

/// The line that writes a scalar, where the grammar can express it: a string
/// must be non-empty and hold no line break.
pub open spec fn scalar_line(d: Datum) -> Option<Seq<char>> {
    match d {
        Datum::Str(s) => if s.len() > 0 && newline_free(s) {
            Some(s)
        } else {
            None
        },
        Datum::Char(c) => if c != '\n' {
            Some(seq![c])
        } else {
            None
        },
        Datum::Unsigned(n) => if n >= 0 {
            Some(decimal_text(n as nat))
        } else {
            None
        },
        Datum::Signed(n) => if n >= 0 {
            Some(decimal_text(n as nat))
        } else {
            Some(seq!['-'] + decimal_text((-n) as nat))
        },
        _ => None,
    }
}

/// The lines of one sequence element: a scalar, or a present scalar.
pub open spec fn item_lines(d: Datum) -> Option<Seq<char>> {
    let line = match d {
        Datum::Present(inner) => scalar_line(*inner),
        _ => scalar_line(d),
    };
    match line {
        Some(l) => Some(l + seq!['\n']),
        None => None,
    }
}

/// The lines of the elements of a sequence, one after the other.
pub open spec fn items_lines(items: Seq<Datum>) -> Option<Seq<char>>
    decreases items.len(),
{
    if items.len() == 0 {
        Some(Seq::empty())
    } else {
        match (item_lines(items[0]), items_lines(items.drop_first())) {
            (Some(a), Some(b)) => Some(a + b),
            _ => None,
        }
    }
}

/// The lines of a field's value: an element as above, a sequence of them, or
/// a present, non-empty sequence of them.
pub open spec fn value_lines(d: Datum) -> Option<Seq<char>> {
    match d {
        Datum::Sequence(items) => items_lines(items),
        Datum::Present(inner) => match *inner {
            Datum::Sequence(items) => if items.len() > 0 {
                items_lines(items)
            } else {
                None
            },
            _ => item_lines(d),
        },
        _ => item_lines(d),
    }
}

/// The name line of a field.
pub open spec fn name_line(key: Seq<char>) -> Seq<char> {
    seq!['%'] + key + seq!['%', '\n']
}

/// The blocks of a record's fields: for each, its name line, its value and a
/// blank line. An absent field is left out.
pub open spec fn fields_text(entries: Seq<(Seq<char>, Datum)>) -> Option<Seq<char>>
    decreases entries.len(),
{
    if entries.len() == 0 {
        Some(Seq::empty())
    } else {
        let (key, v) = entries[0];
        let block = if v is Absent {
            Some(Seq::empty())
        } else if newline_free(key) {
            match value_lines(v) {
                Some(t) => Some(name_line(key) + t + seq!['\n']),
                None => None,
            }
        } else {
            None
        };
        match (block, fields_text(entries.drop_first())) {
            (Some(a), Some(b)) => Some(a + b),
            _ => None,
        }
    }
}

/// The text of a document: a record's fields.
pub open spec fn document_text(d: Datum) -> Option<Seq<char>> {
    match d {
        Datum::Record(entries) => fields_text(entries),
        _ => None,
    }
}

/// Relies on the `Display` impl of `char` through `ToString::to_string`: the
/// text is the character itself.
#[verifier::external_body]
fn char_text(c: char) -> (r: String)
    ensures
        r@ == seq![c],
{
    c.to_string()
}

fn has_newline(s: &str) -> (r: bool)
    ensures
        r == !newline_free(s@),
{
    let n = s.unicode_len();
    let mut i: usize = 0;
    while i < n
        invariant
            0 <= i <= n,
            n == s@.len(),
            forall|j: int| 0 <= j < i ==> s@[j] != '\n',
        decreases n - i,
    {
        if s.get_char(i) == '\n' {
            return true;
        }
        i = i + 1;
    }
    false
}

fn encode_scalar(v: &Value) -> (r: Option<String>)
    ensures
        match scalar_line(v.model()) {
            Some(l) => r matches Some(s) && s@ == l,
            None => r is None,
        },
{
    match v {
        Value::Str(s) => {
            if s.as_str().unicode_len() > 0 && !has_newline(s.as_str()) {
                Some(s.clone())
            } else {
                None
            }
        },
        Value::Char(c) => {
            if *c != '\n' {
                Some(char_text(*c))
            } else {
                None
            }
        },
        Value::Unsigned(n) => Some(format_decimal(*n)),
        Value::Signed(n) => {
            if *n >= 0 {
                Some(format_decimal(*n as u64))
            } else {
                let magnitude: u64 = if *n == i64::MIN {
                    0x8000_0000_0000_0000
                } else {
                    (-*n) as u64
                };
                let mut s = String::from_str("-");
                let digits = format_decimal(magnitude);
                s.append(digits.as_str());
                proof {
                    reveal_strlit("-");
                }
                Some(s)
            }
        },
        _ => None,
    }
}

fn encode_item(v: &Value) -> (r: Option<String>)
    ensures
        match item_lines(v.model()) {
            Some(l) => r matches Some(s) && s@ == l,
            None => r is None,
        },
{
    let line = match v {
        Value::Present(inner) => encode_scalar(inner),
        _ => encode_scalar(v),
    };
    match line {
        Some(mut s) => {
            s.append("\n");
            proof {
                reveal_strlit("\n");
            }
            Some(s)
        },
        None => None,
    }
}

fn encode_items(items: &Vec<Value>) -> (r: Option<String>)
    ensures
        match items_lines(crate::shape::models(items@)) {
            Some(l) => r matches Some(s) && s@ == l,
            None => r is None,
        },
{
    let ghost all = crate::shape::models(items@);
    let mut out = String::new();
    let mut i: usize = 0;
    proof {
        assert(all.subrange(0, all.len() as int) =~= all);
        match items_lines(all) {
            Some(t) => assert(out@ + t =~= t),
            None => {},
        }
    }
    while i < items.len()
        invariant
            0 <= i <= items.len(),
            all == crate::shape::models(items@),
            items_lines(all) == match items_lines(all.subrange(i as int, all.len() as int)) {
                Some(t) => Some(out@ + t),
                None => None::<Seq<char>>,
            },
        decreases items.len() - i,
    {
        let ghost tail = all.subrange(i as int, all.len() as int);
        assert(tail.drop_first() =~= all.subrange(i + 1, all.len() as int));
        assert(tail[0] == items@[i as int].model());
        let ghost prev = out@;
        match encode_item(&items[i]) {
            Some(t) => {
                out.append(t.as_str());
                proof {
                    match items_lines(all.subrange(i + 1, all.len() as int)) {
                        Some(u) => {
                            assert(prev + (t@ + u) =~= out@ + u);
                        },
                        None => {},
                    }
                }
            },
            None => {
                return None;
            },
        }
        i = i + 1;
    }
    assert(all.subrange(i as int, all.len() as int) =~= Seq::<Datum>::empty());
    assert(out@ + Seq::<char>::empty() =~= out@);
    Some(out)
}

fn encode_value(v: &Value) -> (r: Option<String>)
    ensures
        match value_lines(v.model()) {
            Some(l) => r matches Some(s) && s@ == l,
            None => r is None,
        },
{
    match v {
        Value::Sequence(items) => {
            proof {
                assert(crate::shape::models(items@) =~= match v.model() {
                    Datum::Sequence(ds) => ds,
                    _ => Seq::empty(),
                });
            }
            encode_items(items)
        },
        Value::Present(inner) => match &**inner {
            Value::Sequence(items) => {
                proof {
                    assert(crate::shape::models(items@) =~= match inner.model() {
                        Datum::Sequence(ds) => ds,
                        _ => Seq::empty(),
                    });
                }
                if items.len() > 0 {
                    encode_items(items)
                } else {
                    None
                }
            },
            _ => encode_item(v),
        },
        _ => encode_item(v),
    }
}

fn encode_fields(entries: &Vec<Field>) -> (r: Option<String>)
    ensures
        match fields_text(crate::shape::field_models(entries@)) {
            Some(l) => r matches Some(s) && s@ == l,
            None => r is None,
        },
{
    let ghost all = crate::shape::field_models(entries@);
    let mut out = String::new();
    let mut i: usize = 0;
    proof {
        assert(all.subrange(0, all.len() as int) =~= all);
        match fields_text(all) {
            Some(t) => assert(out@ + t =~= t),
            None => {},
        }
    }
    while i < entries.len()
        invariant
            0 <= i <= entries.len(),
            all == crate::shape::field_models(entries@),
            fields_text(all) == match fields_text(all.subrange(i as int, all.len() as int)) {
                Some(t) => Some(out@ + t),
                None => None::<Seq<char>>,
            },
        decreases entries.len() - i,
    {
        let ghost tail = all.subrange(i as int, all.len() as int);
        assert(tail.drop_first() =~= all.subrange(i + 1, all.len() as int));
        assert(tail[0] == (entries@[i as int].name@, entries@[i as int].value.model()));
        let ghost prev = out@;
        let entry = &entries[i];
        let block_ok = match &entry.value {
            Value::Absent => true,
            _ => {
                if has_newline(entry.name.as_str()) {
                    false
                } else {
                    match encode_value(&entry.value) {
                        Some(t) => {
                            out.append("%");
                            out.append(entry.name.as_str());
                            out.append("%\n");
                            out.append(t.as_str());
                            out.append("\n");
                            proof {
                                reveal_strlit("%");
                                reveal_strlit("%\n");
                                reveal_strlit("\n");
                                assert(out@ =~= prev + (name_line(entry.name@) + t@ + seq!['\n']));
                            }
                            true
                        },
                        None => false,
                    }
                }
            },
        };
        if !block_ok {
            return None;
        }
        proof {
            match fields_text(all.subrange(i + 1, all.len() as int)) {
                Some(u) => {
                    if entry.value is Absent {
                        assert(out@ == prev);
                        assert(Seq::<char>::empty() + u =~= u);
                    } else {
                        let b = out@.subrange(prev.len() as int, out@.len() as int);
                        assert(prev + b =~= out@);
                        assert(prev + (b + u) =~= out@ + u);
                    }
                },
                None => {},
            }
        }
        i = i + 1;
    }
    assert(all.subrange(i as int, all.len() as int) =~= Seq::<(Seq<char>, Datum)>::empty());
    assert(out@ + Seq::<char>::empty() =~= out@);
    Some(out)
}

/// Writes a record value as a document. Absent fields are left out, which is
/// how the decoder reads them back. A value that the grammar cannot express
/// (a string with a line break, a sequence of sequences, ...) gives `None`.
pub fn to_string(value: &Value) -> (r: Option<String>)
    ensures
        match document_text(value.model()) {
            Some(t) => r matches Some(s) && s@ == t,
            None => r is None,
        },
{
    match value {
        Value::Record(entries) => {
            proof {
                assert(crate::shape::field_models(entries@) =~= match value.model() {
                    Datum::Record(es) => es,
                    _ => Seq::empty(),
                });
            }
            encode_fields(entries)
        },
        _ => None,
    }
}

} // verus!

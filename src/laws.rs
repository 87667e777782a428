//! What holds of the decoder and the encoder together, over all inputs.
use vstd::prelude::*;
use crate::decode::{
    holds_sequence, parse_document, parse_elements, parse_field, parse_fields, parse_value,
};
use crate::encode::{
    document_text, fields_text, item_lines, items_lines, name_line, scalar_line, value_lines,
};
use crate::error::Error;
use crate::number::{all_digits, digits_value, is_digit};
use crate::shape::{first_field, Datum, FieldShape, Shape};
use crate::text::{
    at_delimiter, decimal_text, digit_char, field_key, is_field_name, lemma_split_line_append,
    lemma_split_line_shrinks, newline_free, skip_delimiter, split_line,
};

verus! {

/// A scalar of the kind that the shape asks for, within its range.
pub open spec fn scalar_fits(d: Datum, shape: Shape) -> bool {
    match d {
        Datum::Str(_) => shape is Str,
        Datum::Char(_) => shape is Char,
        Datum::Unsigned(n) => match shape {
            Shape::Unsigned(w) => 0 <= n <= w.unsigned_max(),
            _ => false,
        },
        Datum::Signed(n) => match shape {
            Shape::Signed(w) => w.signed_least() <= n <= w.signed_max(),
            _ => false,
        },
        _ => false,
    }
}

/// A sequence element of the shape: a scalar, or a present scalar.
pub open spec fn item_fits(d: Datum, shape: Shape) -> bool {
    match d {
        Datum::Present(inner) => match shape {
            Shape::Optional(s) => scalar_fits(*inner, *s),
            _ => false,
        },
        _ => scalar_fits(d, shape),
    }
}

/// A field value of the shape that the encoder can write: an element as
/// above, a sequence of elements, an optional sequence of elements, or absent.
pub open spec fn value_fits(d: Datum, shape: Shape) -> bool {
    match d {
        Datum::Absent => shape is Optional,
        Datum::Sequence(items) => match shape {
            Shape::Sequence(e) => !holds_sequence(*e) && forall|i: int|
                0 <= i < items.len() ==> item_fits(#[trigger] items[i], *e),
            _ => false,
        },
        Datum::Present(inner) => match *inner {
            Datum::Sequence(items) => match shape {
                Shape::Optional(s) => match *s {
                    Shape::Sequence(e) => !holds_sequence(*e) && forall|i: int|
                        0 <= i < items.len() ==> item_fits(#[trigger] items[i], *e),
                    _ => false,
                },
                _ => false,
            },
            _ => item_fits(d, shape),
        },
        _ => item_fits(d, shape),
    }
}

/// Every field of the record is one that the shape knows, with a value of
/// its shape.
pub open spec fn record_fits(fields: Seq<FieldShape>, entries: Seq<(Seq<char>, Datum)>) -> bool {
    forall|i: int|
        0 <= i < entries.len() ==> {
            let (key, v) = #[trigger] entries[i];
            &&& first_field(fields, key) is Some
            &&& value_fits(v, fields[first_field(fields, key)->0].shape)
        }
}

/// The fields of a record that are not absent.
pub open spec fn present_entries(entries: Seq<(Seq<char>, Datum)>) -> Seq<(Seq<char>, Datum)>
    decreases entries.len(),
{
    if entries.len() == 0 {
        Seq::empty()
    } else if entries[0].1 is Absent {
        present_entries(entries.drop_first())
    } else {
        seq![entries[0]] + present_entries(entries.drop_first())
    }
}

proof fn lemma_digit_char(d: nat)
    requires
        d < 10,
    ensures
        is_digit(digit_char(d)),
        digit_char(d) as int - '0' as int == d,
{
}

proof fn lemma_decimal_text(n: nat)
    ensures
        all_digits(decimal_text(n)),
        digits_value(decimal_text(n)) == n,
        newline_free(decimal_text(n)),
    decreases n,
{
    let t = decimal_text(n);
    if n < 10 {
        lemma_digit_char(n);
        assert(t.drop_last() =~= Seq::<char>::empty());
        assert(t.last() == digit_char(n));
        assert(digits_value(t) == digits_value(t.drop_last()) * 10 + (t.last() as int - '0' as int));
    } else {
        lemma_decimal_text(n / 10);
        lemma_digit_char(n % 10);
        let h = decimal_text(n / 10);
        assert(t.drop_last() =~= h);
        assert(t.last() == digit_char(n % 10));
        assert(n == (n / 10) * 10 + n % 10) by (nonlinear_arith);
        assert(digits_value(t) == digits_value(h) * 10 + (t.last() as int - '0' as int));
        assert forall|i: int| 0 <= i < t.len() implies is_digit(#[trigger] t[i]) by {
            if i < h.len() {
                assert(t[i] == h[i]);
            }
        }
    }
}

/// A scalar line reads back as the scalar, and holds no line break.
proof fn lemma_scalar(d: Datum, shape: Shape, rest: Seq<char>, nested: bool)
    requires
        scalar_fits(d, shape),
        scalar_line(d) is Some,
    ensures
        parse_value(shape, scalar_line(d)->0 + seq!['\n'] + rest, nested) == Ok::<
            (Datum, Seq<char>),
            Error,
        >((d, rest)),
        scalar_line(d)->0.len() > 0,
        newline_free(scalar_line(d)->0),
{
    let line = scalar_line(d)->0;
    match d {
        Datum::Unsigned(n) => {
            lemma_decimal_text(n as nat);
            assert(is_digit(line[0]));
        },
        Datum::Signed(n) => {
            if n >= 0 {
                lemma_decimal_text(n as nat);
                assert(is_digit(line[0]));
            } else {
                lemma_decimal_text((-n) as nat);
                assert(line.drop_first() =~= decimal_text((-n) as nat));
                assert forall|i: int| 0 <= i < line.len() implies line[i] != '\n' by {
                    if i > 0 {
                        assert(line[i] == decimal_text((-n) as nat)[i - 1]);
                    }
                }
                assert(!is_digit(line[0]));
            }
        },
        _ => {},
    }
    lemma_split_line_append(line, rest);
}

/// The lines of a sequence element read back as the element; they start
/// with a character that is not a line break.
proof fn lemma_item(d: Datum, shape: Shape, rest: Seq<char>, nested: bool)
    requires
        item_fits(d, shape),
        item_lines(d) is Some,
    ensures
        parse_value(shape, item_lines(d)->0 + rest, nested) == Ok::<(Datum, Seq<char>), Error>(
            (d, rest),
        ),
        item_lines(d)->0.len() > 0,
        item_lines(d)->0[0] != '\n',
{
    match d {
        Datum::Present(inner) => {
            let s = shape->Optional_0;
            lemma_scalar(*inner, *s, rest, nested);
            let line = scalar_line(*inner)->0;
            assert(line[0] != '\n');
            assert((line + seq!['\n'] + rest)[0] == line[0]);
        },
        _ => {
            lemma_scalar(d, shape, rest, nested);
            let line = scalar_line(d)->0;
            assert(line[0] != '\n');
        },
    }
}

/// The lines of a sequence's elements read back as the elements, up to a
/// blank line or the end of the input.
proof fn lemma_items(items: Seq<Datum>, elem: Shape, rest: Seq<char>)
    requires
        forall|i: int| 0 <= i < items.len() ==> item_fits(#[trigger] items[i], elem),
        items_lines(items) is Some,
        at_delimiter(rest),
    ensures
        parse_elements(elem, items_lines(items)->0 + rest) == Ok::<
            (Seq<Datum>, Seq<char>),
            Error,
        >((items, rest)),
        items.len() > 0 ==> items_lines(items)->0.len() > 0 && items_lines(items)->0[0] != '\n',
    decreases items.len(),
{
    if items.len() == 0 {
        assert(items_lines(items)->0 + rest =~= rest);
        assert(items =~= Seq::<Datum>::empty());
    } else {
        let tail = items.drop_first();
        assert forall|i: int| 0 <= i < tail.len() implies item_fits(#[trigger] tail[i], elem) by {
            assert(tail[i] == items[i + 1]);
        }
        let a = item_lines(items[0])->0;
        let b = items_lines(tail)->0;
        lemma_item(items[0], elem, b + rest, false);
        lemma_items(tail, elem, rest);
        let s = items_lines(items)->0 + rest;
        assert(s =~= a + (b + rest));
        assert(s[0] == a[0]);
        assert(seq![items[0]] + tail =~= items);
        assert((a + b)[0] == a[0]);
    }
}

/// A field's value lines read back as the value.
proof fn lemma_value(d: Datum, shape: Shape, rest: Seq<char>)
    requires
        value_fits(d, shape),
        !(d is Absent),
        value_lines(d) is Some,
        at_delimiter(rest),
    ensures
        parse_value(shape, value_lines(d)->0 + rest, true) == Ok::<(Datum, Seq<char>), Error>(
            (d, rest),
        ),
{
    match d {
        Datum::Sequence(items) => {
            reveal_with_fuel(parse_value, 2);
            lemma_items(items, *shape->Sequence_0, rest);
            assert(parse_elements(*shape->Sequence_0, value_lines(d)->0 + rest) == Ok::<
                (Seq<Datum>, Seq<char>),
                Error,
            >((items, rest)));
        },
        Datum::Present(inner) => {
            match *inner {
                Datum::Sequence(items) => {
                    reveal_with_fuel(parse_value, 3);
                    let s = shape->Optional_0;
                    lemma_items(items, *s->Sequence_0, rest);
                    let t = value_lines(d)->0;
                    assert((t + rest)[0] == t[0]);
                },
                _ => {
                    lemma_item(d, shape, rest, true);
                },
            }
        },
        _ => {
            lemma_item(d, shape, rest, true);
        },
    }
}

/// One field's block reads back as the field.
#[verifier::rlimit(80)]
proof fn lemma_block(fields: Vec<FieldShape>, key: Seq<char>, v: Datum, after: Seq<char>)
    requires
        first_field(fields@, key) is Some,
        value_fits(v, fields@[first_field(fields@, key)->0].shape),
        !(v is Absent),
        newline_free(key),
        value_lines(v) is Some,
    ensures
        parse_field(fields, name_line(key) + value_lines(v)->0 + seq!['\n'] + after) == Ok::<
            ((Seq<char>, Datum), Seq<char>),
            Error,
        >(((key, v), after)),
{
    let t = value_lines(v)->0;
    let k = first_field(fields@, key)->0;
    let after_value = seq!['\n'] + after;
    lemma_value(v, fields@[k].shape, after_value);
    let line = seq!['%'] + key + seq!['%'];
    assert forall|i: int| 0 <= i < line.len() implies line[i] != '\n' by {
        if 0 < i < line.len() - 1 {
            assert(line[i] == key[i - 1]);
        }
    }
    let s = name_line(key) + t + seq!['\n'] + after;
    assert(s =~= line + seq!['\n'] + (t + after_value));
    lemma_split_line_append(line, t + after_value);
    assert(split_line(s) == (line, t + after_value));
    assert(field_key(line) =~= key);
    assert(crate::cursor::field_name(s) == Ok::<(Seq<char>, Seq<char>), Error>((key, t + after_value)));
    assert(after_value.drop_first() =~= after);
    assert(crate::text::skip_delimiter(after_value) == Ok::<Seq<char>, Error>(after));
}

/// The blocks of a record's fields, up to the end of the input, read back as
/// its present fields.
#[verifier::rlimit(80)]
proof fn lemma_fields(fields: Vec<FieldShape>, entries: Seq<(Seq<char>, Datum)>)
    requires
        record_fits(fields@, entries),
        fields_text(entries) is Some,
    ensures
        parse_fields(fields, fields_text(entries)->0) == Ok::<
            (Seq<(Seq<char>, Datum)>, Seq<char>),
            Error,
        >((present_entries(entries), Seq::empty())),
    decreases entries.len(),
{
    if entries.len() > 0 {
        let tail = entries.drop_first();
        assert forall|i: int| 0 <= i < tail.len() implies {
            let (key, v) = #[trigger] tail[i];
            &&& first_field(fields@, key) is Some
            &&& value_fits(v, fields@[first_field(fields@, key)->0].shape)
        } by {
            assert(tail[i] == entries[i + 1]);
        }
        lemma_fields(fields, tail);
        let (key, v) = entries[0];
        let b = fields_text(tail)->0;
        if v is Absent {
            assert(fields_text(entries)->0 =~= b);
        } else {
            let t = value_lines(v)->0;
            lemma_block(fields, key, v, b);
            let s = fields_text(entries)->0;
            assert(s =~= name_line(key) + t + seq!['\n'] + b);
            assert(s[0] == '%');
            assert(seq![(key, v)] + present_entries(tail) =~= present_entries(entries));
        }
    }
}

/// Decoding what the encoder writes gives back the record, without its
/// absent fields (the encoder leaves them out, and a field that a document
/// leaves out is absent). This holds for every record whose fields the shape
/// knows, with values of their shapes, that the encoder can write.
pub proof fn lemma_round_trip(fields: Vec<FieldShape>, entries: Seq<(Seq<char>, Datum)>)
    requires
        record_fits(fields@, entries),
        document_text(Datum::Record(entries)) is Some,
    ensures
        parse_document(Shape::Record(fields), document_text(Datum::Record(entries))->0) == Ok::<
            Datum,
            Error,
        >(Datum::Record(present_entries(entries))),
{
    lemma_fields(fields, entries);
}

/// Decoding a value never grows the input, and a value that starts on a
/// non-blank line consumes some of it. So the guards in [`parse_elements`]
/// and [`parse_fields`] always hold.
pub proof fn lemma_value_progress(shape: Shape, s: Seq<char>, nested: bool)
    ensures
        parse_value(shape, s, nested) matches Ok((v, r)) ==> r.len() <= s.len() && (!at_delimiter(s)
            ==> r.len() < s.len()),
    decreases s.len(), shape, 0nat,
{
    if s.len() > 0 {
        lemma_split_line_shrinks(s);
    }
    match shape {
        Shape::Optional(inner) => {
            lemma_value_progress(*inner, s, nested);
        },
        Shape::Sequence(elem) => {
            lemma_elements_progress(*elem, s);
        },
        Shape::Record(fields) => {
            lemma_fields_progress(fields, s);
        },
        _ => {},
    }
}

/// Decoding the elements of a sequence never grows the input, and consumes
/// some of it when they start on a non-blank line.
pub proof fn lemma_elements_progress(elem: Shape, s: Seq<char>)
    ensures
        parse_elements(elem, s) matches Ok((vs, r)) ==> r.len() <= s.len() && (!at_delimiter(s)
            ==> r.len() < s.len()),
    decreases s.len(), elem, 1nat,
{
    if !at_delimiter(s) {
        lemma_value_progress(elem, s, false);
        match parse_value(elem, s, false) {
            Ok((v, rest)) => {
                if rest.len() < s.len() {
                    lemma_elements_progress(elem, rest);
                }
            },
            Err(_) => {},
        }
    }
}

/// Decoding a field consumes some of the input.
pub proof fn lemma_field_progress(fields: Vec<FieldShape>, s: Seq<char>)
    ensures
        parse_field(fields, s) matches Ok((e, r)) ==> r.len() < s.len(),
    decreases s.len(), fields, 0nat,
{
    if s.len() > 0 {
        lemma_split_line_shrinks(s);
        match crate::cursor::field_name(s) {
            Ok((key, after_name)) => match first_field(fields@, key) {
                Some(i) => {
                    lemma_value_progress(fields@[i].shape, after_name, true);
                },
                None => {},
            },
            Err(_) => {},
        }
    }
}

/// Decoding the fields of a record never grows the input, and consumes some
/// of it when they start on a non-blank line.
pub proof fn lemma_fields_progress(fields: Vec<FieldShape>, s: Seq<char>)
    ensures
        parse_fields(fields, s) matches Ok((es, r)) ==> r.len() <= s.len() && (!at_delimiter(s)
            ==> r.len() < s.len()),
    decreases s.len(), fields, 1nat,
{
    if !at_delimiter(s) {
        lemma_field_progress(fields, s);
        match parse_field(fields, s) {
            Ok((e, rest)) => {
                lemma_fields_progress(fields, rest);
            },
            Err(_) => {},
        }
    }
}

/// The text is empty or ends with a line break.
pub open spec fn ends_line(s: Seq<char>) -> bool {
    s.len() == 0 || s.last() == '\n'
}

/// The text without its final character, if it has one.
pub open spec fn trim_break(s: Seq<char>) -> Seq<char> {
    if s.len() == 0 {
        s
    } else {
        s.drop_last()
    }
}

/// A non-empty input is its first line, a line break and the rest; or,
/// without a line break, just its first line.
proof fn lemma_split_line_parts(s: Seq<char>)
    requires
        s.len() > 0,
    ensures
        s == split_line(s).0 + seq!['\n'] + split_line(s).1 || (s == split_line(s).0
            && split_line(s).1.len() == 0),
    decreases s.len(),
{
    let t = s.drop_first();
    if s[0] == '\n' {
        assert(s =~= Seq::<char>::empty() + seq!['\n'] + t);
    } else if t.len() == 0 {
        assert(seq![s[0]] + Seq::<char>::empty() =~= s);
    } else {
        lemma_split_line_parts(t);
        let (l, r) = split_line(t);
        assert(s =~= seq![s[0]] + t);
        assert(split_line(s) == (seq![s[0]] + l, r));
        if t == l + seq!['\n'] + r {
            assert(s =~= (seq![s[0]] + l) + seq!['\n'] + r);
        } else {
            assert(s =~= seq![s[0]] + l);
        }
    }
}

/// Reading a non-empty line reads the same line when the final line break of
/// the input is missing.
proof fn lemma_trim_line(s: Seq<char>)
    requires
        ends_line(s),
        s.len() > 0,
        split_line(s).0.len() > 0,
    ensures
        ends_line(split_line(s).1),
        trim_break(s).len() > 0,
        split_line(trim_break(s)) == (split_line(s).0, trim_break(split_line(s).1)),
{
    let (l, r) = split_line(s);
    lemma_split_line_parts(s);
    lemma_split_line_shrinks(s);
    if s == l + seq!['\n'] + r {
        if r.len() > 0 {
            assert(r.last() == s.last());
            assert(trim_break(s) =~= l + seq!['\n'] + trim_break(r));
            lemma_split_line_append(l, trim_break(r));
        } else {
            assert(trim_break(s) =~= l);
            assert(l.subrange(0, l.len() as int) =~= l);
            crate::text::lemma_split_line(l, l.len() as int);
        }
    } else {
        assert(s.last() == l[l.len() - 1]);
    }
}

/// Consuming a blank line is unaffected by a missing final line break.
proof fn lemma_trim_skip(s: Seq<char>)
    requires
        ends_line(s),
        at_delimiter(s),
    ensures
        at_delimiter(trim_break(s)),
        ends_line(skip_delimiter(s)->Ok_0),
        skip_delimiter(trim_break(s)) == Ok::<Seq<char>, Error>(trim_break(skip_delimiter(s)->Ok_0)),
{
    if s.len() > 1 {
        assert(trim_break(s)[0] == s[0]);
        assert(trim_break(s).drop_first() =~= trim_break(s.drop_first()));
        assert(s.drop_first().last() == s.last());
        assert(skip_delimiter(s) == Ok::<Seq<char>, Error>(s.drop_first()));
        assert(skip_delimiter(trim_break(s)) == Ok::<Seq<char>, Error>(trim_break(s).drop_first()));
    } else if s.len() == 1 {
        assert(s.drop_first() =~= Seq::<char>::empty());
        assert(trim_break(s) =~= Seq::<char>::empty());
    }
}

/// A missing final line break does not change whether the next line is blank.
proof fn lemma_trim_delimiter(s: Seq<char>)
    requires
        ends_line(s),
    ensures
        at_delimiter(trim_break(s)) == at_delimiter(s),
        !at_delimiter(s) ==> trim_break(s).len() == s.len() - 1 && trim_break(s).len() > 0,
{
    if s.len() > 1 {
        assert(trim_break(s)[0] == s[0]);
    }
}

/// A value that decodes from an input ending in a line break decodes the
/// same without that line break, and leaves the rest without it.
proof fn lemma_trim_value(shape: Shape, s: Seq<char>, nested: bool)
    requires
        ends_line(s),
        parse_value(shape, s, nested) is Ok,
    ensures
        ends_line(parse_value(shape, s, nested)->Ok_0.1),
        parse_value(shape, trim_break(s), nested) == Ok::<(Datum, Seq<char>), Error>(
            (
                parse_value(shape, s, nested)->Ok_0.0,
                trim_break(parse_value(shape, s, nested)->Ok_0.1),
            ),
        ),
    decreases s.len(), shape, 0nat,
{
    lemma_trim_delimiter(s);
    match shape {
        Shape::Str | Shape::Char | Shape::Unsigned(_) | Shape::Signed(_) => {
            lemma_trim_line(s);
        },
        Shape::Unit => {
            lemma_trim_skip(s);
        },
        Shape::Optional(inner) => {
            if at_delimiter(s) {
                lemma_trim_skip(s);
            } else {
                lemma_trim_value(*inner, s, nested);
            }
        },
        Shape::Sequence(elem) => {
            lemma_trim_elements(*elem, s);
        },
        Shape::Record(fields) => {
            lemma_trim_fields(fields, s);
        },
        _ => {},
    }
}

/// As [`lemma_trim_value`], for the elements of a sequence.
proof fn lemma_trim_elements(elem: Shape, s: Seq<char>)
    requires
        ends_line(s),
        parse_elements(elem, s) is Ok,
    ensures
        ends_line(parse_elements(elem, s)->Ok_0.1),
        parse_elements(elem, trim_break(s)) == Ok::<(Seq<Datum>, Seq<char>), Error>(
            (parse_elements(elem, s)->Ok_0.0, trim_break(parse_elements(elem, s)->Ok_0.1)),
        ),
    decreases s.len(), elem, 1nat,
{
    lemma_trim_delimiter(s);
    if !at_delimiter(s) {
        lemma_trim_value(elem, s, false);
        let rest = parse_value(elem, s, false)->Ok_0.1;
        if rest.len() < s.len() {
            lemma_trim_elements(elem, rest);
        }
    }
}

/// As [`lemma_trim_value`], for one field of a record.
proof fn lemma_trim_field(fields: Vec<FieldShape>, s: Seq<char>)
    requires
        ends_line(s),
        parse_field(fields, s) is Ok,
    ensures
        ends_line(parse_field(fields, s)->Ok_0.1),
        parse_field(fields, trim_break(s)) == Ok::<((Seq<char>, Datum), Seq<char>), Error>(
            (parse_field(fields, s)->Ok_0.0, trim_break(parse_field(fields, s)->Ok_0.1)),
        ),
    decreases s.len(), fields, 0nat,
{
    lemma_split_line_shrinks(s);
    lemma_trim_line(s);
    let (line, after_name) = split_line(s);
    let key = field_key(line);
    let i = first_field(fields@, key)->0;
    lemma_trim_value(fields@[i].shape, after_name, true);
    let after_value = parse_value(fields@[i].shape, after_name, true)->Ok_0.1;
    lemma_trim_skip(after_value);
}

/// As [`lemma_trim_value`], for the fields of a record.
proof fn lemma_trim_fields(fields: Vec<FieldShape>, s: Seq<char>)
    requires
        ends_line(s),
        parse_fields(fields, s) is Ok,
    ensures
        ends_line(parse_fields(fields, s)->Ok_0.1),
        parse_fields(fields, trim_break(s)) == Ok::<(Seq<(Seq<char>, Datum)>, Seq<char>), Error>(
            (parse_fields(fields, s)->Ok_0.0, trim_break(parse_fields(fields, s)->Ok_0.1)),
        ),
    decreases s.len(), fields, 1nat,
{
    lemma_trim_delimiter(s);
    if at_delimiter(s) {
        lemma_trim_skip(s);
    } else {
        lemma_trim_field(fields, s);
        let rest = parse_field(fields, s)->Ok_0.1;
        if rest.len() < s.len() {
            lemma_trim_fields(fields, rest);
        }
    }
}

/// The final line break of a document may be left out: a document that
/// decodes reads the same without it. So the blank line after the last
/// field is optional, and where the document ends in a blank line, the line
/// break before it may be left out as well.
pub proof fn lemma_final_delimiter_optional(shape: Shape, s: Seq<char>)
    requires
        ends_line(s),
        parse_document(shape, s) is Ok,
    ensures
        parse_document(shape, trim_break(s)) == parse_document(shape, s),
        ends_line(trim_break(s)) ==> parse_document(shape, trim_break(trim_break(s)))
            == parse_document(shape, s),
{
    let fields = shape->Record_0;
    lemma_trim_fields(fields, s);
    if ends_line(trim_break(s)) {
        lemma_trim_fields(fields, trim_break(s));
    }
}

/// A sequence field whose value is followed at once by a blank line holds no
/// elements; the blank line is left for the field to end on. (A sequence of
/// sequences is refused instead: see `lemma_nested_sequence_rejected`.)
pub proof fn lemma_empty_sequence(elem: Shape, rest: Seq<char>)
    requires
        !holds_sequence(elem),
    ensures
        parse_value(Shape::Sequence(Box::new(elem)), seq!['\n'] + rest, true) == Ok::<
            (Datum, Seq<char>),
            Error,
        >((Datum::Sequence(Seq::empty()), seq!['\n'] + rest)),
{
    reveal_with_fuel(parse_value, 2);
    assert((seq!['\n'] + rest)[0] == '\n');
}

/// A sequence of sequences is refused, whatever the text says, before any
/// of it is read.
pub proof fn lemma_nested_sequence_rejected(elem: Shape, s: Seq<char>, nested: bool)
    ensures
        parse_value(Shape::Sequence(Box::new(Shape::Sequence(Box::new(elem)))), s, nested)
            == Err::<(Datum, Seq<char>), Error>(Error::UnsupportedValueKind),
        crate::decode::refused_here(Shape::Sequence(Box::new(Shape::Sequence(Box::new(elem)))), nested),
{
    assert(holds_sequence(Shape::Sequence(Box::new(elem))));
}

/// Where a record expects a field name, a non-blank line without both `%`
/// markers is an error, never read as a value.
pub proof fn lemma_malformed_field_name(fields: Vec<FieldShape>, line: Seq<char>, rest: Seq<char>)
    requires
        line.len() > 0,
        newline_free(line),
        !is_field_name(line),
    ensures
        parse_fields(fields, line + seq!['\n'] + rest) == Err::<
            (Seq<(Seq<char>, Datum)>, Seq<char>),
            Error,
        >(Error::MalformedFieldName),
{
    reveal_with_fuel(parse_fields, 2);
    lemma_split_line_append(line, rest);
    assert(line[0] != '\n');
    assert((line + seq!['\n'] + rest)[0] == line[0]);
}

} // verus!

use archlinux_repo::encode::to_string;
use archlinux_repo::text::format_decimal;
use archlinux_repo::{from_str, Field, FieldShape, IntWidth, Shape, Value};

fn field(name: &str, shape: Shape) -> FieldShape {
    FieldShape {
        name: name.to_owned(),
        shape,
    }
}

fn entry(name: &str, value: Value) -> Field {
    Field {
        name: name.to_owned(),
        value,
    }
}

fn text(s: &str) -> Value {
    Value::Str(s.to_owned())
}

fn shape() -> Shape {
    Shape::Record(vec![
        field("NAME", Shape::Str),
        field("DESC", Shape::Optional(Box::new(Shape::Str))),
        field("SIZE", Shape::Unsigned(IntWidth::W64)),
        field("DELTA", Shape::Signed(IntWidth::W64)),
        field("MARK", Shape::Char),
        field("DEPENDS", Shape::Sequence(Box::new(Shape::Str))),
        field(
            "GROUPS",
            Shape::Optional(Box::new(Shape::Sequence(Box::new(Shape::Str)))),
        ),
    ])
}

#[test]
fn encoder_writes_one_block_per_field() {
    let value = Value::Record(vec![
        entry("NAME", text("sample-pkg")),
        entry("DEPENDS", Value::Sequence(vec![text("libfoo"), text("libbar")])),
    ]);
    assert_eq!(
        Some("%NAME%\nsample-pkg\n\n%DEPENDS%\nlibfoo\nlibbar\n\n".to_owned()),
        to_string(&value)
    );
}

#[test]
fn encoder_leaves_out_absent_fields() {
    let value = Value::Record(vec![
        entry("NAME", text("a")),
        entry("DESC", Value::Absent),
        entry("DEPENDS", Value::Sequence(vec![])),
    ]);
    assert_eq!(
        Some("%NAME%\na\n\n%DEPENDS%\n\n".to_owned()),
        to_string(&value)
    );
}

#[test]
fn round_trip_keeps_every_kind() {
    let value = Value::Record(vec![
        entry("NAME", text("pkg")),
        entry("DESC", Value::Present(Box::new(text("a package")))),
        entry("SIZE", Value::Unsigned(18446744073709551615)),
        entry("DELTA", Value::Signed(i64::MIN)),
        entry("MARK", Value::Char('x')),
        entry("DEPENDS", Value::Sequence(vec![text("a"), text("b>=1")])),
        entry(
            "GROUPS",
            Value::Present(Box::new(Value::Sequence(vec![text("base")]))),
        ),
    ]);
    let written = to_string(&value).unwrap();
    assert_eq!(value, from_str(&written, &shape()).unwrap());
}

#[test]
fn round_trip_drops_absent_fields() {
    let value = Value::Record(vec![
        entry("NAME", text("pkg")),
        entry("DESC", Value::Absent),
        entry("DELTA", Value::Signed(-42)),
    ]);
    let written = to_string(&value).unwrap();
    assert_eq!("%NAME%\npkg\n\n%DELTA%\n-42\n\n", written);
    assert_eq!(
        Value::Record(vec![entry("NAME", text("pkg")), entry("DELTA", Value::Signed(-42))]),
        from_str(&written, &shape()).unwrap()
    );
}

#[test]
fn encoder_rejects_what_the_grammar_cannot_hold() {
    let line_break = Value::Record(vec![entry("NAME", text("a\nb"))]);
    assert_eq!(None, to_string(&line_break));
    let empty = Value::Record(vec![entry("NAME", text(""))]);
    assert_eq!(None, to_string(&empty));
    let nested = Value::Record(vec![entry(
        "DEPENDS",
        Value::Sequence(vec![Value::Sequence(vec![text("a")])]),
    )]);
    assert_eq!(None, to_string(&nested));
    let bad_key = Value::Record(vec![entry("NA\nME", text("a"))]);
    assert_eq!(None, to_string(&bad_key));
    assert_eq!(None, to_string(&text("not a record")));
    let empty_present = Value::Record(vec![entry(
        "GROUPS",
        Value::Present(Box::new(Value::Sequence(vec![]))),
    )]);
    assert_eq!(None, to_string(&empty_present));
}

#[test]
fn decimal_formatting() {
    assert_eq!("0", format_decimal(0));
    assert_eq!("7", format_decimal(7));
    assert_eq!("1592300880", format_decimal(1592300880));
    assert_eq!("18446744073709551615", format_decimal(u64::MAX));
}

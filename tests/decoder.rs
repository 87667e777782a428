use archlinux_repo::number::{parse_signed_line, parse_unsigned_line};
use archlinux_repo::decode::decode_value;
use archlinux_repo::{from_str, Deserializer, Error, Field, FieldShape, IntWidth, Shape, Value};

fn field(name: &str, shape: Shape) -> FieldShape {
    FieldShape {
        name: name.to_owned(),
        shape,
    }
}

fn entry(name: &str, value: Value) -> Field {
    Field {
        name: name.to_owned(),
        value,
    }
}

fn text(s: &str) -> Value {
    Value::Str(s.to_owned())
}

fn strings(items: &[&str]) -> Value {
    Value::Sequence(items.iter().map(|s| text(s)).collect())
}

fn package_shape() -> Shape {
    Shape::Record(vec![
        field("NAME", Shape::Str),
        field("DEPENDS", Shape::Sequence(Box::new(Shape::Str))),
    ])
}

#[test]
fn test_struct() {
    let shape = Shape::Record(vec![
        field("NAME", Shape::Str),
        field("DEPENDS", Shape::Sequence(Box::new(Shape::Str))),
        field("BUILDDATE", Shape::Unsigned(IntWidth::W32)),
    ]);
    let j = r#"%NAME%
mingw-w64-x86_64-vcdimager

%BUILDDATE%
1592300880

%DEPENDS%
mingw-w64-x86_64-libcdio
mingw-w64-x86_64-libxml2
mingw-w64-x86_64-popt"#;
    let expected = Value::Record(vec![
        entry("NAME", text("mingw-w64-x86_64-vcdimager")),
        entry("BUILDDATE", Value::Unsigned(1592300880)),
        entry(
            "DEPENDS",
            strings(&[
                "mingw-w64-x86_64-libcdio",
                "mingw-w64-x86_64-libxml2",
                "mingw-w64-x86_64-popt",
            ]),
        ),
    ]);
    assert_eq!(expected, from_str(j, &shape).unwrap());
}

#[test]
fn end_to_end_record() {
    let input = "%NAME%\nsample-pkg\n\n%DEPENDS%\nlibfoo\nlibbar\n\n";
    let decoded = from_str(input, &package_shape()).unwrap();
    let expected = Value::Record(vec![
        entry("NAME", text("sample-pkg")),
        entry("DEPENDS", strings(&["libfoo", "libbar"])),
    ]);
    assert_eq!(expected, decoded);
}

#[test]
fn end_to_end_record_leaves_no_input() {
    let input = "%NAME%\nsample-pkg\n\n%DEPENDS%\nlibfoo\nlibbar\n\n";
    let mut de = Deserializer::from_str(input);
    let shape = package_shape();
    let fields = match &shape {
        Shape::Record(fields) => fields,
        _ => unreachable!(),
    };
    let entries = archlinux_repo::decode::decode_record(&mut de, fields).unwrap();
    assert_eq!(2, entries.len());
    assert_eq!("", de.remaining());
}

#[test]
fn missing_optional_field_is_absent() {
    let input = "%NAME%\nsample-pkg\n\n%DEPENDS%\nlibfoo\nlibbar\n\n";
    let shape = Shape::Record(vec![
        field("NAME", Shape::Str),
        field("DEPENDS", Shape::Sequence(Box::new(Shape::Str))),
        field("DESC", Shape::Optional(Box::new(Shape::Str))),
    ]);
    let decoded = from_str(input, &shape).unwrap();
    assert_eq!(Some(&text("sample-pkg")), decoded.field("NAME"));
    assert_eq!(None, decoded.field("DESC"));
}

#[test]
fn last_field_needs_no_trailing_blank_line() {
    let decoded = from_str("%NAME%\nsample-pkg", &package_shape()).unwrap();
    assert_eq!(Value::Record(vec![entry("NAME", text("sample-pkg"))]), decoded);
    let decoded = from_str("%NAME%\na\n\n%DEPENDS%\nx\ny", &package_shape()).unwrap();
    assert_eq!(
        Value::Record(vec![
            entry("NAME", text("a")),
            entry("DEPENDS", strings(&["x", "y"])),
        ]),
        decoded
    );
}

#[test]
fn sequence_before_blank_line_is_empty() {
    let decoded = from_str("%DEPENDS%\n\n%NAME%\nx\n", &package_shape()).unwrap();
    assert_eq!(
        Value::Record(vec![
            entry("DEPENDS", strings(&[])),
            entry("NAME", text("x")),
        ]),
        decoded
    );
}

#[test]
fn sequence_of_sequences_is_rejected() {
    let shape = Shape::Record(vec![field(
        "LIST",
        Shape::Sequence(Box::new(Shape::Sequence(Box::new(Shape::Str)))),
    )]);
    assert_eq!(Err(Error::UnsupportedValueKind), from_str("%LIST%\na\nb\n", &shape));
    assert_eq!(Err(Error::UnsupportedValueKind), from_str("%LIST%\n1\n", &shape));
    assert_eq!(Err(Error::UnsupportedValueKind), from_str("%LIST%\n\n", &shape));
    assert_eq!(Err(Error::UnsupportedValueKind), from_str("%LIST%\n", &shape));
    let optional_inner = Shape::Record(vec![field(
        "LIST",
        Shape::Sequence(Box::new(Shape::Optional(Box::new(Shape::Sequence(Box::new(
            Shape::Str,
        )))))),
    )]);
    assert_eq!(Err(Error::UnsupportedValueKind), from_str("%LIST%\n\n", &optional_inner));
}

#[test]
fn name_line_without_markers_is_malformed() {
    let shape = package_shape();
    assert_eq!(Err(Error::MalformedFieldName), from_str("NAME%\nx\n", &shape));
    assert_eq!(Err(Error::MalformedFieldName), from_str("%NAME\nx\n", &shape));
    assert_eq!(Err(Error::MalformedFieldName), from_str("NAME\nx\n", &shape));
    assert_eq!(Err(Error::MalformedFieldName), from_str("%\nx\n", &shape));
}

#[test]
fn integer_width_is_enforced() {
    let narrow = Shape::Record(vec![field("N", Shape::Unsigned(IntWidth::W8))]);
    let wide = Shape::Record(vec![field("N", Shape::Unsigned(IntWidth::W16))]);
    assert_eq!(Err(Error::IntegerFormatError), from_str("%N%\n256\n", &narrow));
    assert_eq!(
        Value::Record(vec![entry("N", Value::Unsigned(256))]),
        from_str("%N%\n256\n", &wide).unwrap()
    );
}

#[test]
fn integer_lines() {
    assert_eq!(Some(255), parse_unsigned_line("255", IntWidth::W8));
    assert_eq!(Some(7), parse_unsigned_line("+007", IntWidth::W8));
    assert_eq!(None, parse_unsigned_line("-0", IntWidth::W8));
    assert_eq!(None, parse_unsigned_line("", IntWidth::W64));
    assert_eq!(None, parse_unsigned_line("+", IntWidth::W64));
    assert_eq!(None, parse_unsigned_line("12a", IntWidth::W64));
    assert_eq!(
        Some(u64::MAX),
        parse_unsigned_line("18446744073709551615", IntWidth::W64)
    );
    assert_eq!(None, parse_unsigned_line("18446744073709551616", IntWidth::W64));
    assert_eq!(Some(-128), parse_signed_line("-128", IntWidth::W8));
    assert_eq!(None, parse_signed_line("-129", IntWidth::W8));
    assert_eq!(Some(127), parse_signed_line("+127", IntWidth::W8));
    assert_eq!(None, parse_signed_line("128", IntWidth::W8));
    assert_eq!(Some(i64::MIN), parse_signed_line("-9223372036854775808", IntWidth::W64));
    assert_eq!(None, parse_signed_line("-", IntWidth::W64));
}

#[test]
fn scalar_errors() {
    let chars = Shape::Record(vec![field("C", Shape::Char)]);
    assert_eq!(
        Value::Record(vec![entry("C", Value::Char('é'))]),
        from_str("%C%\né\n", &chars).unwrap()
    );
    assert_eq!(Err(Error::CharacterOverflow), from_str("%C%\nab\n", &chars));
    assert_eq!(Err(Error::UnexpectedEnd), from_str("%C%\n", &chars));
    let signed = Shape::Record(vec![field("S", Shape::Signed(IntWidth::W32))]);
    assert_eq!(
        Value::Record(vec![entry("S", Value::Signed(-5))]),
        from_str("%S%\n-5\n", &signed).unwrap()
    );
    assert_eq!(Err(Error::IntegerFormatError), from_str("%S%\nx\n", &signed));
}

#[test]
fn blank_scalar_is_not_a_value() {
    let shape = Shape::Record(vec![field("A", Shape::Str), field("B", Shape::Str)]);
    assert_eq!(Err(Error::EmptyValueNotAllowed), from_str("%B%\nx\n\n%A%\n\n\n", &shape));
}

#[test]
fn optional_value_may_be_a_blank_line() {
    let shape = Shape::Record(vec![
        field("DESC", Shape::Optional(Box::new(Shape::Str))),
        field("NAME", Shape::Str),
    ]);
    assert_eq!(
        Value::Record(vec![entry("DESC", Value::Absent), entry("NAME", text("n"))]),
        from_str("%DESC%\n\n\n%NAME%\nn\n", &shape).unwrap()
    );
    assert_eq!(
        Value::Record(vec![entry("DESC", Value::Present(Box::new(text("d"))))]),
        from_str("%DESC%\nd\n", &shape).unwrap()
    );
    // The absent value's blank line does not also end the field.
    assert_eq!(Err(Error::DelimiterExpected), from_str("%DESC%\n\n%NAME%\nn\n", &shape));
}

#[test]
fn unsupported_kinds_are_rejected() {
    for kind in [Shape::Bool, Shape::Float, Shape::Bytes, Shape::Variant] {
        let shape = Shape::Record(vec![field("X", kind)]);
        assert_eq!(Err(Error::UnsupportedValueKind), from_str("%X%\ntrue\n", &shape));
    }
    assert_eq!(
        Err(Error::UnsupportedValueKind),
        from_str("%OTHER%\nx\n", &package_shape())
    );
}

#[test]
fn root_must_be_a_record() {
    assert_eq!(Err(Error::RootMustBeRecord), from_str("x\n", &Shape::Str));
    assert_eq!(
        Err(Error::RootMustBeRecord),
        from_str("x\n", &Shape::Sequence(Box::new(Shape::Str)))
    );
    assert_eq!(
        Err(Error::RootMustBeRecord),
        from_str("x\n", &Shape::Optional(Box::new(Shape::Str)))
    );
}

#[test]
fn trailing_input_is_reported() {
    // The blank line that ends the record is consumed; one more is not.
    assert_eq!(
        Value::Record(vec![entry("NAME", text("x"))]),
        from_str("%NAME%\nx\n\n\n", &package_shape()).unwrap()
    );
    assert_eq!(
        Err(Error::TrailingData),
        from_str("%NAME%\nx\n\n\n\n", &package_shape())
    );
    assert_eq!(Ok(Value::Record(vec![])), from_str("\n", &package_shape()));
    assert_eq!(Ok(Value::Record(vec![])), from_str("", &package_shape()));
}

#[test]
fn value_after_scalar_needs_blank_line() {
    assert_eq!(
        Err(Error::DelimiterExpected),
        from_str("%NAME%\nx\ny\n", &package_shape())
    );
    let shape = Shape::Record(vec![field("N", Shape::Unsigned(IntWidth::W8))]);
    let optional = Shape::Record(vec![field("N", Shape::Optional(Box::new(Shape::Str)))]);
    assert_eq!(
        Value::Record(vec![entry("N", Value::Absent)]),
        from_str("%N%\n\n", &optional).unwrap()
    );
    assert_eq!(Err(Error::IntegerFormatError), from_str("%N%\n\n", &shape));
}

#[test]
fn nested_record_value() {
    let shape = Shape::Record(vec![
        field(
            "INNER",
            Shape::Record(vec![field("A", Shape::Str), field("B", Shape::Str)]),
        ),
        field("NAME", Shape::Str),
    ]);
    let decoded = from_str("%INNER%\n%A%\na\n\n%B%\nb\n\n\n\n%NAME%\nn\n", &shape).unwrap();
    assert_eq!(
        Value::Record(vec![
            entry(
                "INNER",
                Value::Record(vec![entry("A", text("a")), entry("B", text("b"))])
            ),
            entry("NAME", text("n")),
        ]),
        decoded
    );
}

#[test]
fn cursor_reads_lines() {
    let mut de = Deserializer::from_str("a\n\nb");
    assert!(!de.peek_delimiter());
    assert_eq!(Ok("a"), de.parse_line());
    assert!(de.peek_delimiter());
    assert_eq!(Ok(()), de.parse_delimiter());
    assert_eq!(Err(Error::DelimiterExpected), de.parse_delimiter());
    assert_eq!(Ok("b"), de.parse_line());
    assert!(de.peek_delimiter());
    assert_eq!(Ok(()), de.parse_delimiter());
    assert_eq!(Err(Error::UnexpectedEnd), de.parse_line());
    let mut de = Deserializer::from_str("%KEY%\n");
    assert_eq!(Ok("KEY"), de.parse_field_name());
    assert_eq!("", de.remaining());
}

#[test]
fn unit_value_is_a_blank_line() {
    let shape = Shape::Record(vec![field("U", Shape::Unit)]);
    assert_eq!(
        Value::Record(vec![entry("U", Value::Unit)]),
        from_str("%U%\n\n", &shape).unwrap()
    );
    assert_eq!(Err(Error::DelimiterExpected), from_str("%U%\nx\n", &shape));
}

#[test]
fn refused_shapes_read_nothing() {
    for (shape, nested) in [
        (Shape::Bool, true),
        (Shape::Float, true),
        (Shape::Bytes, true),
        (Shape::Variant, true),
        (Shape::Sequence(Box::new(Shape::Str)), false),
        (
            Shape::Sequence(Box::new(Shape::Sequence(Box::new(Shape::Str)))),
            true,
        ),
    ] {
        let mut de = Deserializer::from_str("true\nx\n");
        assert_eq!(Err(Error::UnsupportedValueKind), decode_value(&mut de, &shape, nested));
        assert_eq!("true\nx\n", de.remaining());
    }
}

#[test]
fn final_line_breaks_may_be_left_out() {
    let shape = Shape::Record(vec![
        field("NAME", Shape::Str),
        field("DEPENDS", Shape::Sequence(Box::new(Shape::Str))),
        field("DESC", Shape::Optional(Box::new(Shape::Str))),
        field("U", Shape::Unit),
    ]);
    for full in [
        "%NAME%\nx\n\n%DEPENDS%\na\nb\n\n",
        "%DEPENDS%\n\n",
        "%NAME%\nx\n\n%DESC%\n\n\n",
        "%U%\n\n\n",
        "%NAME%\nx\n\n\n",
    ] {
        let expected = from_str(full, &shape).unwrap();
        assert_eq!(expected, from_str(&full[..full.len() - 1], &shape).unwrap());
        assert_eq!(expected, from_str(&full[..full.len() - 2], &shape).unwrap());
    }
}

use binrw_engine::cursor::Cursor;
use binrw_engine::endian::{ByteOrder, Endian};
use binrw_engine::engine::{read, read_with, Configuration};
use binrw_engine::error::{Error, IoFailure, Violation};
use binrw_engine::expr::Expr;
use binrw_engine::schema::{
    Assertion, Body, CondEndian, FieldDirective, FieldKind, Mode, Parser, Schema, Scope, Shape,
    Timing, TypeDescriptor, VariantDescriptor,
};
use binrw_engine::value::Value;

fn big() -> Configuration {
    Configuration::new(Endian::Big)
}

fn one(ty: TypeDescriptor) -> Schema {
    Schema::new(vec![ty])
}

fn record(fields: Vec<Value>) -> Value {
    Value::Record(0, fields)
}

fn bytes_list(bytes: &[u8]) -> Value {
    Value::List(bytes.iter().map(|b| Value::Int(*b as i128)).collect())
}

#[test]
fn magic_then_big_endian_field() {
    let mut ty = TypeDescriptor::structure(vec![FieldDirective::unsigned("val", 4)]);
    ty.magic = Some(b"TEST".to_vec());
    let schema = one(ty);
    let mut cursor = Cursor::new(b"TEST\x00\x00\x00\x01".to_vec());
    let value = read(&schema, 0, &mut cursor, &big());
    assert_eq!(value, Ok(record(vec![Value::Int(1)])));
    assert_eq!(cursor.position(), 8);
}

#[test]
fn wrong_magic_fails_at_position_zero() {
    let mut ty = TypeDescriptor::structure(vec![FieldDirective::unsigned("val", 4)]);
    ty.magic = Some(b"TEST".to_vec());
    let schema = one(ty);
    let mut cursor = Cursor::new(b"BEST\x00\x00\x00\x01".to_vec());
    let value = read(&schema, 0, &mut cursor, &big());
    assert_eq!(value, Err(Error::BadMagic { pos: 0 }));
    assert_eq!(cursor.position(), 0);
}

#[test]
fn magic_on_short_input_is_io() {
    let mut ty = TypeDescriptor::structure(vec![]);
    ty.magic = Some(b"TEST".to_vec());
    let schema = one(ty);
    let mut cursor = Cursor::new(b"TE".to_vec());
    let value = read(&schema, 0, &mut cursor, &big());
    assert_eq!(value, Err(Error::Io { underlying: IoFailure::UnexpectedEof }));
}

#[test]
fn failed_assertion_carries_payload() {
    let mut ty = TypeDescriptor::structure(vec![
        FieldDirective::unsigned("some_val", 4),
        FieldDirective::unsigned("some_smaller_val", 4),
    ]);
    if let Body::Struct(scope) = &mut ty.body {
        scope.asserts.push(Assertion {
            condition: Expr::greater(Expr::Field(0), Expr::Field(1)),
            message: "some_val > some_smaller_val".to_string(),
            payload: vec![Expr::Field(0), Expr::Field(1)],
        });
    }
    let schema = one(ty);
    let mut cursor = Cursor::new(b"\x00\x00\x00\x01\x00\x00\x00\xFF".to_vec());
    let error = read(&schema, 0, &mut cursor, &big()).unwrap_err();
    assert_eq!(error.payload(), Some(&vec![Value::Int(1), Value::Int(255)]));
    assert_eq!(
        error,
        Error::AssertFail {
            pos: 0,
            message: "some_val > some_smaller_val".to_string(),
            payload: vec![Value::Int(1), Value::Int(255)],
        }
    );
}

#[test]
fn passing_assertion_lets_the_value_through() {
    let mut ty = TypeDescriptor::structure(vec![
        FieldDirective::unsigned("a", 1),
        FieldDirective::unsigned("b", 1),
    ]);
    if let Body::Struct(scope) = &mut ty.body {
        scope.asserts.push(Assertion {
            condition: Expr::greater(Expr::Field(0), Expr::Field(1)),
            message: "a > b".to_string(),
            payload: vec![],
        });
    }
    let schema = one(ty);
    let mut cursor = Cursor::new(vec![9, 3]);
    let value = read(&schema, 0, &mut cursor, &big());
    assert_eq!(value, Ok(record(vec![Value::Int(9), Value::Int(3)])));
}

#[test]
fn first_failing_assertion_wins() {
    let mut ty = TypeDescriptor::structure(vec![FieldDirective::unsigned("a", 1)]);
    if let Body::Struct(scope) = &mut ty.body {
        scope.asserts.push(Assertion {
            condition: Expr::equals(Expr::Field(0), Expr::Int(1)),
            message: "first".to_string(),
            payload: vec![],
        });
        scope.asserts.push(Assertion {
            condition: Expr::equals(Expr::Field(0), Expr::Int(2)),
            message: "second".to_string(),
            payload: vec![],
        });
    }
    let schema = one(ty);
    let mut cursor = Cursor::new(vec![7]);
    let error = read(&schema, 0, &mut cursor, &big()).unwrap_err();
    assert_eq!(
        error,
        Error::AssertFail { pos: 0, message: "first".to_string(), payload: vec![] }
    );
}

#[test]
fn try_on_empty_stream_is_absent() {
    let mut field = FieldDirective::unsigned("maybe_u32", 4);
    field.try_flag = true;
    let schema = one(TypeDescriptor::structure(vec![field]));
    let mut cursor = Cursor::new(vec![]);
    let value = read(&schema, 0, &mut cursor, &big());
    assert_eq!(value, Ok(record(vec![Value::Absent])));
    assert_eq!(cursor.position(), 0);
}

#[test]
fn try_rewinds_to_where_the_field_began() {
    let mut field = FieldDirective::unsigned("maybe_u32", 4);
    field.try_flag = true;
    field.pad_before = 1;
    let schema = one(TypeDescriptor::structure(vec![
        FieldDirective::unsigned("head", 1),
        field,
        FieldDirective::unsigned("tail", 1),
    ]));
    let mut cursor = Cursor::new(vec![5, 6, 7]);
    let value = read(&schema, 0, &mut cursor, &big());
    assert_eq!(value, Ok(record(vec![Value::Int(5), Value::Absent, Value::Int(6)])));
    assert_eq!(cursor.position(), 2);
}

#[test]
fn try_that_succeeds_keeps_the_value() {
    let mut field = FieldDirective::unsigned("maybe_u16", 2);
    field.try_flag = true;
    let schema = one(TypeDescriptor::structure(vec![field]));
    let mut cursor = Cursor::new(vec![1, 2]);
    let value = read(&schema, 0, &mut cursor, &big());
    assert_eq!(value, Ok(record(vec![Value::Int(0x0102)])));
}

fn counted() -> Schema {
    let mut data = FieldDirective::unsigned("data", 1);
    data.count = Some(Expr::Field(0));
    one(TypeDescriptor::structure(vec![FieldDirective::unsigned("size", 4), data]))
}

#[test]
fn count_reads_that_many_elements() {
    let mut cursor = Cursor::new(b"\x00\x00\x00\x04\x01\x02\x03\x04".to_vec());
    let value = read(&counted(), 0, &mut cursor, &big());
    assert_eq!(value, Ok(record(vec![Value::Int(4), bytes_list(&[1, 2, 3, 4])])));
    assert_eq!(cursor.position(), 8);
}

#[test]
fn count_beyond_the_bytes_is_io() {
    let mut cursor = Cursor::new(b"\x00\x00\x00\x05\x01\x02\x03\x04".to_vec());
    let value = read(&counted(), 0, &mut cursor, &big());
    assert_eq!(value, Err(Error::Io { underlying: IoFailure::UnexpectedEof }));
}

#[test]
fn negative_count_is_io() {
    let mut data = FieldDirective::unsigned("data", 1);
    data.count = Some(Expr::minus(Expr::Int(0), Expr::Field(0)));
    let schema = one(TypeDescriptor::structure(vec![FieldDirective::unsigned("size", 1), data]));
    let mut cursor = Cursor::new(vec![3, 1, 2, 3]);
    let value = read(&schema, 0, &mut cursor, &big());
    assert_eq!(value, Err(Error::Io { underlying: IoFailure::InvalidCount }));
}

#[test]
fn count_of_zero_is_an_empty_sequence() {
    let mut cursor = Cursor::new(b"\x00\x00\x00\x00".to_vec());
    let value = read(&counted(), 0, &mut cursor, &big());
    assert_eq!(value, Ok(record(vec![Value::Int(0), Value::List(vec![])])));
}

fn reference(timing: Timing) -> Schema {
    let mut ptr = FieldDirective::new(
        "ptr",
        FieldKind::Pointer { width: 1, target: Shape::unsigned(1) },
    );
    ptr.timing = timing;
    ptr.offset = Some(Expr::Field(1));
    one(TypeDescriptor::structure(vec![ptr, FieldDirective::unsigned("base", 1)]))
}

#[test]
fn deferred_reference_sees_a_later_sibling() {
    let mut cursor = Cursor::new(vec![1, 2, 0, 0x2A]);
    let value = read(&reference(Timing::Deferred), 0, &mut cursor, &big());
    assert_eq!(value, Ok(record(vec![Value::Int(0x2A), Value::Int(2)])));
    assert_eq!(cursor.position(), 2);
}

#[test]
fn inline_reference_to_a_later_sibling_is_rejected() {
    let mut cursor = Cursor::new(vec![1, 2, 0, 0x2A]);
    let value = read(&reference(Timing::Inline), 0, &mut cursor, &big());
    assert_eq!(
        value,
        Err(Error::ContractViolation { description: Violation::ForwardReference })
    );
}

#[test]
fn inline_reference_sees_an_earlier_sibling() {
    let mut ptr = FieldDirective::new(
        "ptr",
        FieldKind::Pointer { width: 1, target: Shape::unsigned(2) },
    );
    ptr.timing = Timing::Inline;
    ptr.offset = Some(Expr::Field(0));
    let schema = one(TypeDescriptor::structure(vec![
        FieldDirective::unsigned("base", 1),
        ptr,
        FieldDirective::unsigned("next", 1),
    ]));
    let mut cursor = Cursor::new(vec![3, 1, 9, 0, 0xAB, 0xCD]);
    let value = read(&schema, 0, &mut cursor, &big());
    assert_eq!(
        value,
        Ok(record(vec![Value::Int(3), Value::Int(0xABCD), Value::Int(9)]))
    );
    assert_eq!(cursor.position(), 3);
}

#[test]
fn reference_is_relative_to_the_starting_offset() {
    let ptr = FieldDirective::new(
        "ptr",
        FieldKind::Pointer { width: 2, target: Shape::unsigned(1) },
    );
    let schema = one(TypeDescriptor::structure(vec![ptr]));
    let mut cursor = Cursor::new(b"\x00\xFF\xFF\xFF\x02\x00".to_vec());
    cursor.set_position(4);
    let config = Configuration {
        endianness: Endian::Little,
        arguments: vec![],
        starting_offset: Some(4),
    };
    // The pointer read at 4 is 2; six is past the end.
    let value = read(&schema, 0, &mut cursor, &config);
    assert_eq!(value, Err(Error::Io { underlying: IoFailure::UnexpectedEof }));
    let mut cursor = Cursor::new(b"\x01\x00\x00\x00\x00\x07".to_vec());
    let value = read(&schema, 0, &mut cursor, &config);
    assert_eq!(value, Ok(record(vec![Value::Int(7)])));
    assert_eq!(cursor.position(), 2);
}

fn failing_variant(magic: &[u8]) -> VariantDescriptor {
    let mut v = VariantDescriptor::new(vec![]);
    v.magic = Some(magic.to_vec());
    v
}

#[test]
fn collect_all_reports_every_variant() {
    let mut second = VariantDescriptor::new(vec![FieldDirective::unsigned("wide", 8)]);
    second.magic = None;
    let schema = one(TypeDescriptor::choice(
        vec![failing_variant(&[1]), second, failing_variant(&[3])],
        Mode::CollectAll,
    ));
    let mut cursor = Cursor::new(vec![9, 9]);
    let value = read(&schema, 0, &mut cursor, &big());
    assert_eq!(
        value,
        Err(Error::EnumErrors {
            pos: 0,
            errors: vec![
                Error::BadMagic { pos: 0 },
                Error::Io { underlying: IoFailure::UnexpectedEof },
                Error::BadMagic { pos: 0 },
            ],
        })
    );
    assert_eq!(cursor.position(), 0);
}

#[test]
fn collect_all_still_stops_at_a_success() {
    let schema = one(TypeDescriptor::choice(
        vec![failing_variant(&[1]), failing_variant(&[9]), failing_variant(&[3])],
        Mode::CollectAll,
    ));
    let mut cursor = Cursor::new(vec![9, 9]);
    let value = read(&schema, 0, &mut cursor, &big());
    assert_eq!(value, Ok(Value::Record(1, vec![])));
    assert_eq!(cursor.position(), 1);
}

#[test]
fn first_match_takes_the_first_variant_that_parses() {
    let mut jump = VariantDescriptor::new(vec![FieldDirective::unsigned("loc", 4)]);
    jump.magic = Some(vec![1]);
    let mut begin = VariantDescriptor::new(vec![
        FieldDirective::unsigned("var_count", 2),
        FieldDirective::unsigned("local_count", 2),
    ]);
    begin.magic = Some(vec![2]);
    let schema = one(TypeDescriptor::choice(
        vec![failing_variant(&[0]), jump, begin],
        Mode::FirstMatch,
    ));
    let mut cursor = Cursor::new(vec![2, 0, 1, 0, 2]);
    let value = read(&schema, 0, &mut cursor, &big());
    assert_eq!(value, Ok(Value::Record(2, vec![Value::Int(1), Value::Int(2)])));
    assert_eq!(cursor.position(), 5);
}

#[test]
fn first_match_without_a_distinguishing_error_is_no_variant_match() {
    let schema = one(TypeDescriptor::choice(
        vec![failing_variant(&[0]), failing_variant(&[1])],
        Mode::FirstMatch,
    ));
    let mut cursor = Cursor::new(vec![7]);
    let value = read(&schema, 0, &mut cursor, &big());
    assert_eq!(
        value,
        Err(Error::NoVariantMatch {
            pos: 0,
            errors: vec![Error::BadMagic { pos: 0 }, Error::BadMagic { pos: 0 }],
        })
    );
}

#[test]
fn first_match_hands_out_the_last_error() {
    let mut first = VariantDescriptor::new(vec![FieldDirective::unsigned("wide", 8)]);
    first.magic = Some(vec![7]);
    let schema = one(TypeDescriptor::choice(
        vec![first, failing_variant(&[1])],
        Mode::FirstMatch,
    ));
    let mut cursor = Cursor::new(vec![7, 0]);
    let value = read(&schema, 0, &mut cursor, &big());
    assert_eq!(value, Err(Error::BadMagic { pos: 0 }));
    let mut last = VariantDescriptor::new(vec![FieldDirective::unsigned("wide", 8)]);
    last.magic = Some(vec![7]);
    let schema = one(TypeDescriptor::choice(
        vec![failing_variant(&[1]), last],
        Mode::FirstMatch,
    ));
    let mut cursor = Cursor::new(vec![7, 0]);
    let value = read(&schema, 0, &mut cursor, &big());
    assert_eq!(value, Err(Error::Io { underlying: IoFailure::UnexpectedEof }));
}

#[test]
fn no_variants_is_no_variant_match() {
    let schema = one(TypeDescriptor::choice(vec![], Mode::FirstMatch));
    let mut cursor = Cursor::new(vec![7]);
    let value = read(&schema, 0, &mut cursor, &big());
    assert_eq!(value, Err(Error::NoVariantMatch { pos: 0, errors: vec![] }));
}

#[test]
fn field_order_wins_over_type_order() {
    let mut first = FieldDirective::unsigned("first", 4);
    first.endian = CondEndian::Fixed(ByteOrder::Big);
    let mut ty = TypeDescriptor::structure(vec![first, FieldDirective::unsigned("second", 4)]);
    ty.endian = CondEndian::Fixed(ByteOrder::Little);
    let schema = one(ty);
    let mut cursor = Cursor::new(vec![0, 0, 0, 1, 1, 0, 0, 0]);
    let value = read(&schema, 0, &mut cursor, &big());
    assert_eq!(value, Ok(record(vec![Value::Int(1), Value::Int(1)])));
}

#[test]
fn guarded_order_follows_the_data() {
    let mut other = FieldDirective::unsigned("other_val", 2);
    other.endian = CondEndian::Cond(
        ByteOrder::Little,
        Expr::equals(Expr::Field(0), Expr::Int(3)),
    );
    let mut ty = TypeDescriptor::structure(vec![FieldDirective::unsigned("val", 1), other]);
    ty.endian = CondEndian::Fixed(ByteOrder::Big);
    let schema = one(ty);
    let mut cursor = Cursor::new(b"\x03\x01\x00".to_vec());
    let value = read(&schema, 0, &mut cursor, &big());
    assert_eq!(value, Ok(record(vec![Value::Int(3), Value::Int(1)])));
    let mut cursor = Cursor::new(b"\x04\x01\x00".to_vec());
    let value = read(&schema, 0, &mut cursor, &big());
    assert_eq!(value, Ok(record(vec![Value::Int(4), Value::Int(0x100)])));
}

#[test]
fn variant_order_wins_over_type_order() {
    let mut v = VariantDescriptor::new(vec![FieldDirective::unsigned("x", 2)]);
    v.endian = CondEndian::Fixed(ByteOrder::Little);
    let mut ty = TypeDescriptor::choice(vec![v], Mode::FirstMatch);
    ty.endian = CondEndian::Fixed(ByteOrder::Big);
    let schema = one(ty);
    let mut cursor = Cursor::new(vec![1, 0]);
    let value = read(&schema, 0, &mut cursor, &big());
    assert_eq!(value, Ok(Value::Record(0, vec![Value::Int(1)])));
}

#[test]
fn configured_order_is_used_without_overrides() {
    let schema = one(TypeDescriptor::structure(vec![FieldDirective::unsigned("x", 2)]));
    let mut cursor = Cursor::new(vec![1, 0]);
    let value = read(&schema, 0, &mut cursor, &Configuration::new(Endian::Little));
    assert_eq!(value, Ok(record(vec![Value::Int(1)])));
    let mut cursor = Cursor::new(vec![1, 0]);
    let value = read(&schema, 0, &mut cursor, &Configuration::new(Endian::Big));
    assert_eq!(value, Ok(record(vec![Value::Int(0x100)])));
}

#[test]
fn native_order_is_the_order_of_the_machine() {
    let schema = one(TypeDescriptor::structure(vec![FieldDirective::unsigned("x", 2)]));
    let mut cursor = Cursor::new(1u16.to_ne_bytes().to_vec());
    let value = read(&schema, 0, &mut cursor, &Configuration::new(Endian::Native));
    assert_eq!(value, Ok(record(vec![Value::Int(1)])));
}

#[test]
fn signed_field_is_twos_complement() {
    let schema = one(TypeDescriptor::structure(vec![FieldDirective::new(
        "value",
        FieldKind::Plain(Shape::signed(4)),
    )]));
    let mut cursor = Cursor::new(vec![0xFF, 0xFF, 0xFF, 0xFF]);
    let value = read(&schema, 0, &mut cursor, &big());
    assert_eq!(value, Ok(record(vec![Value::Int(-1)])));
}

#[test]
fn condition_decides_whether_a_field_is_read() {
    let mut first = FieldDirective::unsigned("first_byte", 1);
    first.condition = Some(Expr::equals(Expr::Field(0), Expr::Int(1)));
    let mut other = FieldDirective::unsigned("other_byte", 1);
    other.condition = Some(Expr::negate(Expr::equals(Expr::Field(0), Expr::Int(1))));
    let schema = one(TypeDescriptor::structure(vec![
        FieldDirective::unsigned("var", 4),
        first,
        other,
    ]));
    let mut cursor = Cursor::new(b"\x00\x00\x00\x01\x03".to_vec());
    let value = read(&schema, 0, &mut cursor, &big());
    assert_eq!(
        value,
        Ok(record(vec![Value::Int(1), Value::Int(3), Value::Absent]))
    );
    assert_eq!(cursor.position(), 5);
}

#[test]
fn calc_uses_earlier_fields() {
    let mut plus = FieldDirective::unsigned("var_plus_3", 4);
    plus.calc = Some(Expr::plus(Expr::Int(3), Expr::Field(0)));
    let schema = one(TypeDescriptor::structure(vec![FieldDirective::unsigned("var", 4), plus]));
    let mut cursor = Cursor::new(b"\x00\x00\x00\x01".to_vec());
    let value = read(&schema, 0, &mut cursor, &big());
    assert_eq!(value, Ok(record(vec![Value::Int(1), Value::Int(4)])));
    assert_eq!(cursor.position(), 4);
}

#[test]
fn calc_of_a_later_field_is_rejected() {
    let mut early = FieldDirective::unsigned("early", 1);
    early.calc = Some(Expr::Field(1));
    let schema = one(TypeDescriptor::structure(vec![early, FieldDirective::unsigned("late", 1)]));
    let mut cursor = Cursor::new(vec![1]);
    let value = read(&schema, 0, &mut cursor, &big());
    assert_eq!(
        value,
        Err(Error::ContractViolation { description: Violation::ForwardReference })
    );
}

#[test]
fn default_reads_nothing() {
    let mut path = FieldDirective::unsigned("path", 4);
    path.default_flag = true;
    let schema = one(TypeDescriptor::structure(vec![path]));
    let mut cursor = Cursor::new(vec![]);
    let value = read(&schema, 0, &mut cursor, &big());
    assert_eq!(value, Ok(record(vec![Value::Int(0)])));
}

#[test]
fn restore_position_rewinds_after_the_field() {
    let mut test = FieldDirective::unsigned("test", 4);
    test.restore_position = true;
    let mut test_bytes = FieldDirective::unsigned("test_bytes", 1);
    test_bytes.count = Some(Expr::Int(4));
    let schema = one(TypeDescriptor::structure(vec![test, test_bytes]));
    let mut cursor = Cursor::new(b"\x00\x00\x00\x01".to_vec());
    let value = read(&schema, 0, &mut cursor, &big());
    assert_eq!(value, Ok(record(vec![Value::Int(1), bytes_list(&[0, 0, 0, 1])])));
}

#[test]
fn padding_and_alignment_skip_bytes() {
    let mut a = FieldDirective::unsigned("a", 1);
    a.pad_before = 1;
    a.pad_after = 1;
    a.align_after = 4;
    let mut b = FieldDirective::unsigned("b", 1);
    b.align_before = 2;
    let schema = one(TypeDescriptor::structure(vec![a, b]));
    let mut cursor = Cursor::new(vec![0, 7, 0, 0, 8, 0]);
    let value = read(&schema, 0, &mut cursor, &big());
    assert_eq!(value, Ok(record(vec![Value::Int(7), Value::Int(8)])));
    assert_eq!(cursor.position(), 5);
}

#[test]
fn map_is_applied_to_what_was_read() {
    let mut doubled = FieldDirective::unsigned("doubled", 1);
    doubled.map = Some(binrw_engine::schema::Mapping {
        forward: Expr::times(Expr::This, Expr::Int(2)),
        inverse: None,
    });
    let schema = one(TypeDescriptor::structure(vec![doubled]));
    let mut cursor = Cursor::new(vec![21]);
    let value = read(&schema, 0, &mut cursor, &big());
    assert_eq!(value, Ok(record(vec![Value::Int(42)])));
}

#[test]
fn until_zero_reads_a_terminated_string() {
    let mut name = FieldDirective::unsigned("name", 1);
    name.parser = Some(Parser::UntilZero);
    let schema = one(TypeDescriptor::structure(vec![name, FieldDirective::unsigned("next", 1)]));
    let mut cursor = Cursor::new(b"Test\x00\x69".to_vec());
    let value = read(&schema, 0, &mut cursor, &big());
    assert_eq!(value, Ok(record(vec![bytes_list(b"Test"), Value::Int(0x69)])));
    let mut cursor = Cursor::new(b"Test".to_vec());
    let value = read(&schema, 0, &mut cursor, &big());
    assert_eq!(value, Err(Error::Io { underlying: IoFailure::UnexpectedEof }));
}

#[test]
fn remaining_reads_to_the_end() {
    let mut rest = FieldDirective::unsigned("rest", 1);
    rest.parser = Some(Parser::Remaining);
    let schema = one(TypeDescriptor::structure(vec![FieldDirective::unsigned("head", 1), rest]));
    let mut cursor = Cursor::new(vec![1, 2, 3]);
    let value = read(&schema, 0, &mut cursor, &big());
    assert_eq!(value, Ok(record(vec![Value::Int(1), bytes_list(&[2, 3])])));
    assert_eq!(cursor.position(), 3);
}

fn nested() -> Schema {
    let mut inner = TypeDescriptor::structure(vec![{
        let mut sum = FieldDirective::unsigned("sum", 1);
        sum.map = Some(binrw_engine::schema::Mapping {
            forward: Expr::plus(Expr::This, Expr::Arg(0)),
            inverse: Some(Expr::minus(Expr::This, Expr::Arg(0))),
        });
        sum
    }]);
    inner.imports = 1;
    let outer = TypeDescriptor::structure(vec![
        FieldDirective::unsigned("val", 1),
        FieldDirective::new(
            "test",
            FieldKind::Plain(Shape::Nested {
                ty: 0,
                args: vec![Expr::plus(Expr::Field(0), Expr::Int(3))],
            }),
        ),
    ]);
    Schema::new(vec![inner, outer])
}

#[test]
fn arguments_are_passed_to_a_nested_type() {
    let mut cursor = Cursor::new(vec![10, 1]);
    let value = read(&nested(), 1, &mut cursor, &big());
    assert_eq!(
        value,
        Ok(record(vec![Value::Int(10), record(vec![Value::Int(14)])]))
    );
}

#[test]
fn wrong_number_of_arguments_is_a_contract_violation() {
    let mut cursor = Cursor::new(vec![10, 1]);
    let value = read(&nested(), 0, &mut cursor, &big());
    assert_eq!(
        value,
        Err(Error::ContractViolation { description: Violation::ArityMismatch })
    );
}

#[test]
fn arguments_that_no_type_imports_are_a_contract_violation() {
    let schema = one(TypeDescriptor::structure(vec![FieldDirective::unsigned("x", 1)]));
    let mut cursor = Cursor::new(vec![1]);
    let config = Configuration {
        endianness: Endian::Big,
        arguments: vec![Value::Int(1)],
        starting_offset: None,
    };
    assert_eq!(
        read(&schema, 0, &mut cursor, &config),
        Err(Error::ContractViolation { description: Violation::ArityMismatch })
    );
    assert_eq!(
        binrw_engine::engine::write(&schema, 0, &mut cursor, &config, &record(vec![Value::Int(1)])),
        Err(Error::ContractViolation { description: Violation::ArityMismatch })
    );
}

#[test]
fn a_type_may_only_name_types_before_it() {
    let schema = one(TypeDescriptor::structure(vec![FieldDirective::new(
        "again",
        FieldKind::Plain(Shape::Nested { ty: 0, args: vec![] }),
    )]));
    let mut cursor = Cursor::new(vec![1]);
    let value = read(&schema, 0, &mut cursor, &big());
    assert_eq!(
        value,
        Err(Error::ContractViolation { description: Violation::UnknownType })
    );
    let value = read(&schema, 5, &mut cursor, &big());
    assert_eq!(
        value,
        Err(Error::ContractViolation { description: Violation::UnknownType })
    );
}

#[test]
fn nested_type_inherits_the_resolved_order() {
    let inner = TypeDescriptor::structure(vec![FieldDirective::unsigned("x", 2)]);
    let mut field = FieldDirective::new(
        "inner",
        FieldKind::Plain(Shape::Nested { ty: 0, args: vec![] }),
    );
    field.endian = CondEndian::Fixed(ByteOrder::Little);
    let outer = TypeDescriptor::structure(vec![field, FieldDirective::unsigned("y", 2)]);
    let schema = Schema::new(vec![inner, outer]);
    let mut cursor = Cursor::new(vec![1, 0, 0, 1]);
    let value = read_with(&schema, 1, &mut cursor, ByteOrder::Big, 0, &vec![]);
    assert_eq!(
        value,
        Ok(record(vec![record(vec![Value::Int(1)]), Value::Int(1)]))
    );
}

#[test]
fn bad_width_is_a_contract_violation() {
    let schema = one(TypeDescriptor::structure(vec![FieldDirective::unsigned("x", 9)]));
    let mut cursor = Cursor::new(vec![0; 16]);
    let value = read(&schema, 0, &mut cursor, &big());
    assert_eq!(
        value,
        Err(Error::ContractViolation { description: Violation::BadWidth })
    );
}

#[test]
fn field_magic_is_checked_where_the_field_stands() {
    let mut tagged = FieldDirective::unsigned("tagged", 1);
    tagged.magic = Some(vec![0xAA]);
    let schema = one(TypeDescriptor::structure(vec![FieldDirective::unsigned("head", 1), tagged]));
    let mut cursor = Cursor::new(vec![1, 0xAA, 5]);
    let value = read(&schema, 0, &mut cursor, &big());
    assert_eq!(value, Ok(record(vec![Value::Int(1), Value::Int(5)])));
    let mut cursor = Cursor::new(vec![1, 0xAB, 5]);
    let value = read(&schema, 0, &mut cursor, &big());
    assert_eq!(value, Err(Error::BadMagic { pos: 1 }));
}

#[test]
fn scope_is_unused_without_fields() {
    let scope = Scope::new(vec![]);
    assert!(scope.fields.is_empty());
    assert!(scope.asserts.is_empty());
}

#[test]
fn padding_beyond_any_position_is_an_invalid_seek() {
    let schema = one(TypeDescriptor::structure(vec![
        FieldDirective::unsigned("a", 1),
        FieldDirective::unsigned("b", 1).with_pad_before(usize::MAX),
    ]));
    let mut cursor = Cursor::new(vec![1, 2]);
    assert_eq!(
        read(&schema, 0, &mut cursor, &big()),
        Err(Error::Io { underlying: IoFailure::InvalidSeek })
    );
    assert_eq!(cursor.position(), 0);
}

#[test]
fn reference_before_the_stream_is_an_invalid_seek() {
    let ptr = FieldDirective::new(
        "ptr",
        FieldKind::Pointer { width: 1, target: Shape::unsigned(1) },
    )
    .with_offset(Expr::Int(-5));
    let schema = one(TypeDescriptor::structure(vec![ptr]));
    let mut cursor = Cursor::new(vec![1, 2]);
    assert_eq!(
        read(&schema, 0, &mut cursor, &big()),
        Err(Error::Io { underlying: IoFailure::InvalidSeek })
    );
}

#[test]
fn reference_past_the_end_is_an_unexpected_eof() {
    let ptr = FieldDirective::new(
        "ptr",
        FieldKind::Pointer { width: 1, target: Shape::unsigned(1) },
    );
    let schema = one(TypeDescriptor::structure(vec![ptr]));
    let mut cursor = Cursor::new(vec![9, 2]);
    assert_eq!(
        read(&schema, 0, &mut cursor, &big()),
        Err(Error::Io { underlying: IoFailure::UnexpectedEof })
    );
}

#[test]
fn errors_of_a_nested_type_come_through_unchanged() {
    let inner = TypeDescriptor::structure(vec![FieldDirective::unsigned("x", 1)])
        .with_magic(vec![0xCA, 0xFE])
        .with_assert(
            Assertion {
                condition: Expr::less(Expr::Field(0), Expr::Int(10)),
                message: "x < 10".to_string(),
                payload: vec![Expr::Field(0)],
            },
        );
    let outer = TypeDescriptor::structure(vec![
        FieldDirective::unsigned("head", 2),
        FieldDirective::new("inner", FieldKind::Plain(Shape::Nested { ty: 0, args: vec![] })),
    ]);
    let schema = Schema::new(vec![inner, outer]);
    let mut cursor = Cursor::new(vec![0, 0, 0xCA, 0xFF, 1]);
    assert_eq!(read(&schema, 1, &mut cursor, &big()), Err(Error::BadMagic { pos: 2 }));
    let mut cursor = Cursor::new(vec![0, 0, 0xCA, 0xFE, 11]);
    assert_eq!(
        read(&schema, 1, &mut cursor, &big()),
        Err(Error::AssertFail {
            pos: 4,
            message: "x < 10".to_string(),
            payload: vec![Value::Int(11)],
        })
    );
    let mut cursor = Cursor::new(vec![0, 0, 0xCA, 0xFE, 9]);
    assert_eq!(
        read(&schema, 1, &mut cursor, &big()),
        Ok(record(vec![Value::Int(0), record(vec![Value::Int(9)])]))
    );
}

#[test]
fn failed_assertion_of_a_variant_moves_on_to_the_next() {
    let strict = VariantDescriptor::new(vec![FieldDirective::unsigned("x", 1)]).with_assert(
        Assertion {
            condition: Expr::equals(Expr::Field(0), Expr::Int(1)),
            message: "x == 1".to_string(),
            payload: vec![],
        },
    );
    let loose = VariantDescriptor::new(vec![FieldDirective::unsigned("y", 1)]);
    let schema = one(TypeDescriptor::choice(vec![strict, loose], Mode::FirstMatch));
    let mut cursor = Cursor::new(vec![1]);
    assert_eq!(
        read(&schema, 0, &mut cursor, &big()),
        Ok(Value::Record(0, vec![Value::Int(1)]))
    );
    let mut cursor = Cursor::new(vec![2]);
    assert_eq!(
        read(&schema, 0, &mut cursor, &big()),
        Ok(Value::Record(1, vec![Value::Int(2)]))
    );
}

#[test]
fn checked_schema_never_fails_on_what_the_check_looks_for() {
    let inner = TypeDescriptor::structure(vec![
        FieldDirective::unsigned("n", 1),
        FieldDirective::unsigned("items", 2).with_count(Expr::plus(Expr::Field(0), Expr::Arg(0))),
    ])
    .with_imports(1);
    let outer = TypeDescriptor::choice(
        vec![
            VariantDescriptor::new(vec![
                FieldDirective::unsigned("kind", 1),
                FieldDirective::new(
                    "body",
                    FieldKind::Plain(Shape::Nested { ty: 0, args: vec![Expr::Field(0)] }),
                )
                .only_if(Expr::less(Expr::Field(0), Expr::Int(4))),
                FieldDirective::new(
                    "far",
                    FieldKind::Pointer { width: 1, target: Shape::unsigned(2) },
                )
                .with_offset(Expr::or_else(Expr::Field(1), Expr::Int(0)))
                .tried(),
            ])
            .with_magic(vec![0xAB]),
            VariantDescriptor::new(vec![FieldDirective::unsigned("raw", 4).little()]),
        ],
        Mode::CollectAll,
    );
    let schema = Schema::checked(vec![inner, outer]).unwrap();
    for seed in 0..200u32 {
        let len = (seed % 9) as usize;
        let mut data: Vec<u8> = (0..len)
            .map(|k| (seed.wrapping_mul(2654435761).wrapping_add(k as u32 * 40503) >> 7) as u8)
            .collect();
        if seed % 2 == 0 && !data.is_empty() {
            data[0] = 0xAB;
        }
        let mut cursor = Cursor::new(data);
        fn foreseen(e: &Error) -> bool {
            match e {
                Error::ContractViolation { description } => matches!(
                    description,
                    Violation::UnknownType
                        | Violation::BadWidth
                        | Violation::ArityMismatch
                        | Violation::ForwardReference
                ),
                _ => false,
            }
        }
        if let Err(e) = read(&schema, 1, &mut cursor, &big()) {
            assert!(!foreseen(&e), "{:?}", e);
            if let Error::EnumErrors { errors, .. } = &e {
                assert_eq!(errors.len(), 2);
                assert!(errors.iter().all(|e| !foreseen(e)));
            }
        }
    }
}

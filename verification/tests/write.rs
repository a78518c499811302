use binrw_engine::cursor::Cursor;
use binrw_engine::endian::{ByteOrder, Endian};
use binrw_engine::engine::{read, write_with, Configuration};
use binrw_engine::error::{Error, IoFailure, Violation};
use binrw_engine::expr::Expr;
use binrw_engine::schema::{
    CondEndian, FieldDirective, FieldKind, Mapping, Mode, Parser, Schema, Shape, TypeDescriptor,
    VariantDescriptor,
};
use binrw_engine::value::Value;

fn big() -> Configuration {
    Configuration::new(Endian::Big)
}

fn one(ty: TypeDescriptor) -> Schema {
    Schema::new(vec![ty])
}

fn record(fields: Vec<Value>) -> Value {
    Value::Record(0, fields)
}

fn bytes_list(bytes: &[u8]) -> Value {
    Value::List(bytes.iter().map(|b| Value::Int(*b as i128)).collect())
}

fn written(schema: &Schema, ty: usize, config: &Configuration, value: &Value) -> Vec<u8> {
    let mut cursor = Cursor::new(vec![]);
    assert_eq!(binrw_engine::engine::write(schema, ty, &mut cursor, config, value), Ok(()));
    let end = cursor.position();
    let bytes = cursor.into_inner();
    assert_eq!(end, bytes.len());
    bytes
}

fn round_trip(schema: &Schema, ty: usize, config: &Configuration, bytes: &[u8]) {
    let mut cursor = Cursor::new(bytes.to_vec());
    let value = read(schema, ty, &mut cursor, config).unwrap();
    assert_eq!(cursor.position(), bytes.len());
    assert_eq!(written(schema, ty, config, &value), bytes);
}

#[test]
fn magic_and_field_are_written() {
    let mut ty = TypeDescriptor::structure(vec![FieldDirective::unsigned("val", 4)]);
    ty.magic = Some(b"TEST".to_vec());
    let schema = one(ty);
    let bytes = written(&schema, 0, &big(), &record(vec![Value::Int(1)]));
    assert_eq!(bytes, b"TEST\x00\x00\x00\x01");
    round_trip(&schema, 0, &big(), b"TEST\x00\x00\x00\x01");
}

#[test]
fn little_endian_is_written_low_byte_first() {
    let schema = one(TypeDescriptor::structure(vec![FieldDirective::unsigned("val", 4)]));
    let bytes = written(
        &schema,
        0,
        &Configuration::new(Endian::Little),
        &record(vec![Value::Int(0x01020304)]),
    );
    assert_eq!(bytes, vec![4, 3, 2, 1]);
}

#[test]
fn native_write_is_read_back_natively() {
    let schema = one(TypeDescriptor::structure(vec![FieldDirective::unsigned("val", 2)]));
    let config = Configuration::new(Endian::Native);
    let bytes = written(&schema, 0, &config, &record(vec![Value::Int(0x0102)]));
    assert_eq!(bytes, 0x0102u16.to_ne_bytes().to_vec());
}

#[test]
fn signed_value_is_written_in_twos_complement() {
    let schema = one(TypeDescriptor::structure(vec![FieldDirective::new(
        "v",
        FieldKind::Plain(Shape::signed(2)),
    )]));
    let bytes = written(&schema, 0, &big(), &record(vec![Value::Int(-2)]));
    assert_eq!(bytes, vec![0xFF, 0xFE]);
    round_trip(&schema, 0, &big(), &[0x80, 0x00]);
}

#[test]
fn value_that_does_not_fit_is_an_overflow() {
    let schema = one(TypeDescriptor::structure(vec![FieldDirective::unsigned("v", 1)]));
    let mut cursor = Cursor::new(vec![9, 9]);
    cursor.set_position(1);
    let result = binrw_engine::engine::write(&schema, 0, &mut cursor, &big(), &record(vec![Value::Int(256)]));
    assert_eq!(
        result,
        Err(Error::ContractViolation { description: Violation::Overflow })
    );
    assert_eq!(cursor.position(), 1);
    assert_eq!(cursor.get_ref(), &vec![9, 9]);
    let result = binrw_engine::engine::write(&schema, 0, &mut cursor, &big(), &record(vec![Value::Int(-1)]));
    assert_eq!(
        result,
        Err(Error::ContractViolation { description: Violation::Overflow })
    );
}

#[test]
fn value_of_the_wrong_shape_is_rejected() {
    let schema = one(TypeDescriptor::structure(vec![FieldDirective::unsigned("v", 1)]));
    let mut cursor = Cursor::new(vec![]);
    let shape = Err(Error::ContractViolation { description: Violation::ShapeMismatch });
    assert_eq!(binrw_engine::engine::write(&schema, 0, &mut cursor, &big(), &Value::Int(1)), shape);
    assert_eq!(binrw_engine::engine::write(&schema, 0, &mut cursor, &big(), &record(vec![])), shape);
    assert_eq!(
        binrw_engine::engine::write(&schema, 0, &mut cursor, &big(), &record(vec![Value::Bool(true)])),
        shape
    );
    assert_eq!(
        binrw_engine::engine::write(&schema, 0, &mut cursor, &big(), &Value::Record(1, vec![Value::Int(1)])),
        shape
    );
    assert_eq!(
        binrw_engine::engine::write(&schema, 3, &mut cursor, &big(), &record(vec![Value::Int(1)])),
        Err(Error::ContractViolation { description: Violation::UnknownType })
    );
}

#[test]
fn write_overwrites_and_extends() {
    let schema = one(TypeDescriptor::structure(vec![FieldDirective::unsigned("v", 2)]));
    let mut cursor = Cursor::new(vec![1, 2, 3]);
    cursor.set_position(2);
    let result = binrw_engine::engine::write(&schema, 0, &mut cursor, &big(), &record(vec![Value::Int(0xAABB)]));
    assert_eq!(result, Ok(()));
    assert_eq!(cursor.position(), 4);
    assert_eq!(cursor.get_ref(), &vec![1, 2, 0xAA, 0xBB]);
}

#[test]
fn write_past_the_end_fills_with_zeros() {
    let schema = one(TypeDescriptor::structure(vec![FieldDirective::unsigned("v", 1)]));
    let mut cursor = Cursor::new(vec![1]);
    cursor.set_position(3);
    let result = binrw_engine::engine::write(&schema, 0, &mut cursor, &big(), &record(vec![Value::Int(7)]));
    assert_eq!(result, Ok(()));
    assert_eq!(cursor.get_ref(), &vec![1, 0, 0, 7]);
}

#[test]
fn counted_field_round_trips() {
    let mut data = FieldDirective::unsigned("data", 1);
    data.count = Some(Expr::Field(0));
    let schema = one(TypeDescriptor::structure(vec![FieldDirective::unsigned("size", 4), data]));
    round_trip(&schema, 0, &big(), b"\x00\x00\x00\x04\x01\x02\x03\x04");
    let bytes = written(
        &schema,
        0,
        &big(),
        &record(vec![Value::Int(2), bytes_list(&[8, 9])]),
    );
    assert_eq!(bytes, vec![0, 0, 0, 2, 8, 9]);
}

#[test]
fn false_condition_writes_nothing() {
    let mut first = FieldDirective::unsigned("first_byte", 1);
    first.condition = Some(Expr::equals(Expr::Field(0), Expr::Int(1)));
    let mut other = FieldDirective::unsigned("other_byte", 1);
    other.condition = Some(Expr::negate(Expr::equals(Expr::Field(0), Expr::Int(1))));
    let schema = one(TypeDescriptor::structure(vec![
        FieldDirective::unsigned("var", 4),
        first,
        other,
    ]));
    round_trip(&schema, 0, &big(), b"\x00\x00\x00\x01\x03");
    round_trip(&schema, 0, &big(), b"\x00\x00\x00\x02\x05");
}

#[test]
fn absent_tried_field_writes_nothing() {
    let mut field = FieldDirective::unsigned("maybe_u32", 4);
    field.try_flag = true;
    field.magic = Some(vec![0xEE]);
    let schema = one(TypeDescriptor::structure(vec![field]));
    assert_eq!(written(&schema, 0, &big(), &record(vec![Value::Absent])), vec![]);
    assert_eq!(
        written(&schema, 0, &big(), &record(vec![Value::Int(1)])),
        vec![0xEE, 0, 0, 0, 1]
    );
}

#[test]
fn default_and_calc_write_nothing() {
    let mut skipped = FieldDirective::unsigned("skipped", 4);
    skipped.default_flag = true;
    let mut plus = FieldDirective::unsigned("var_plus_3", 4);
    plus.calc = Some(Expr::plus(Expr::Int(3), Expr::Field(0)));
    let schema = one(TypeDescriptor::structure(vec![
        FieldDirective::unsigned("var", 1),
        skipped,
        plus,
    ]));
    let bytes = written(
        &schema,
        0,
        &big(),
        &record(vec![Value::Int(1), Value::Int(0), Value::Int(4)]),
    );
    assert_eq!(bytes, vec![1]);
}

#[test]
fn padding_is_written_as_zeros() {
    let mut a = FieldDirective::unsigned("a", 1);
    a.pad_before = 1;
    a.pad_after = 1;
    a.align_after = 4;
    let mut b = FieldDirective::unsigned("b", 1);
    b.align_before = 2;
    let schema = one(TypeDescriptor::structure(vec![a, b]));
    let bytes = written(&schema, 0, &big(), &record(vec![Value::Int(7), Value::Int(8)]));
    assert_eq!(bytes, vec![0, 7, 0, 0, 8]);
    round_trip(&schema, 0, &big(), &[0, 7, 0, 0, 8]);
}

#[test]
fn map_is_undone_only_with_an_inverse() {
    let mut doubled = FieldDirective::unsigned("doubled", 1);
    doubled.map = Some(Mapping {
        forward: Expr::times(Expr::This, Expr::Int(2)),
        inverse: None,
    });
    let schema = one(TypeDescriptor::structure(vec![doubled]));
    assert_eq!(written(&schema, 0, &big(), &record(vec![Value::Int(42)])), vec![42]);
    let mut shifted = FieldDirective::unsigned("shifted", 1);
    shifted.map = Some(Mapping {
        forward: Expr::plus(Expr::This, Expr::Int(10)),
        inverse: Some(Expr::minus(Expr::This, Expr::Int(10))),
    });
    let schema = one(TypeDescriptor::structure(vec![shifted]));
    assert_eq!(written(&schema, 0, &big(), &record(vec![Value::Int(42)])), vec![32]);
    round_trip(&schema, 0, &big(), &[32]);
}

#[test]
fn terminated_string_round_trips() {
    let mut name = FieldDirective::unsigned("name", 1);
    name.parser = Some(Parser::UntilZero);
    let schema = one(TypeDescriptor::structure(vec![name, FieldDirective::unsigned("next", 1)]));
    round_trip(&schema, 0, &big(), b"Test\x00\x69");
    let mut cursor = Cursor::new(vec![]);
    let result = binrw_engine::engine::write(
        &schema,
        0,
        &mut cursor,
        &big(),
        &record(vec![bytes_list(&[1, 0, 2]), Value::Int(1)]),
    );
    assert_eq!(
        result,
        Err(Error::ContractViolation { description: Violation::ShapeMismatch })
    );
    let result = binrw_engine::engine::write(
        &schema,
        0,
        &mut cursor,
        &big(),
        &record(vec![Value::List(vec![Value::Int(256)]), Value::Int(1)]),
    );
    assert_eq!(
        result,
        Err(Error::ContractViolation { description: Violation::ShapeMismatch })
    );
}

#[test]
fn remaining_bytes_round_trip() {
    let mut rest = FieldDirective::unsigned("rest", 1);
    rest.parser = Some(Parser::Remaining);
    let schema = one(TypeDescriptor::structure(vec![FieldDirective::unsigned("head", 1), rest]));
    round_trip(&schema, 0, &big(), &[1, 2, 3]);
}

#[test]
fn variant_is_chosen_by_the_value() {
    let mut nop = VariantDescriptor::new(vec![]);
    nop.magic = Some(vec![0]);
    let mut jump = VariantDescriptor::new(vec![FieldDirective::unsigned("loc", 4)]);
    jump.magic = Some(vec![1]);
    jump.endian = CondEndian::Fixed(ByteOrder::Little);
    let schema = one(TypeDescriptor::choice(vec![nop, jump], Mode::FirstMatch));
    let bytes = written(&schema, 0, &big(), &Value::Record(1, vec![Value::Int(5)]));
    assert_eq!(bytes, vec![1, 5, 0, 0, 0]);
    round_trip(&schema, 0, &big(), &[1, 5, 0, 0, 0]);
    round_trip(&schema, 0, &big(), &[0]);
    let mut cursor = Cursor::new(vec![]);
    let result = binrw_engine::engine::write(&schema, 0, &mut cursor, &big(), &Value::Record(2, vec![]));
    assert_eq!(
        result,
        Err(Error::ContractViolation { description: Violation::ShapeMismatch })
    );
}

#[test]
fn nested_type_round_trips_with_arguments() {
    let mut inner = TypeDescriptor::structure(vec![{
        let mut sum = FieldDirective::unsigned("sum", 1);
        sum.map = Some(Mapping {
            forward: Expr::plus(Expr::This, Expr::Arg(0)),
            inverse: Some(Expr::minus(Expr::This, Expr::Arg(0))),
        });
        sum
    }]);
    inner.imports = 1;
    let outer = TypeDescriptor::structure(vec![
        FieldDirective::unsigned("val", 1),
        FieldDirective::new(
            "test",
            FieldKind::Plain(Shape::Nested {
                ty: 0,
                args: vec![Expr::plus(Expr::Field(0), Expr::Int(3))],
            }),
        ),
    ]);
    let schema = Schema::new(vec![inner, outer]);
    round_trip(&schema, 1, &big(), &[10, 1]);
    let mut cursor = Cursor::new(vec![]);
    let result = binrw_engine::engine::write(&schema, 0, &mut cursor, &big(), &record(vec![Value::Int(10)]));
    assert_eq!(
        result,
        Err(Error::ContractViolation { description: Violation::ArityMismatch })
    );
}

#[test]
fn reference_is_written_in_two_passes() {
    let ptr = FieldDirective::new(
        "ptr",
        FieldKind::Pointer { width: 1, target: Shape::unsigned(1) },
    );
    let schema = one(TypeDescriptor::structure(vec![ptr, FieldDirective::unsigned("x", 1)]));
    let value = record(vec![Value::Int(0x2A), Value::Int(7)]);
    let bytes = written(&schema, 0, &big(), &value);
    assert_eq!(bytes, vec![2, 7, 0x2A]);
    let mut cursor = Cursor::new(bytes);
    assert_eq!(read(&schema, 0, &mut cursor, &big()), Ok(value));
    assert_eq!(cursor.position(), 2);
}

#[test]
fn reference_is_relative_to_its_offset() {
    let mut ptr = FieldDirective::new(
        "ptr",
        FieldKind::Pointer { width: 2, target: Shape::unsigned(2) },
    );
    ptr.offset = Some(Expr::Field(1));
    let schema = one(TypeDescriptor::structure(vec![ptr, FieldDirective::unsigned("base", 1)]));
    let value = record(vec![Value::Int(0xABCD), Value::Int(1)]);
    let bytes = written(&schema, 0, &big(), &value);
    assert_eq!(bytes, vec![0, 2, 1, 0xAB, 0xCD]);
    let mut cursor = Cursor::new(bytes);
    assert_eq!(read(&schema, 0, &mut cursor, &big()), Ok(value));
    let too_far = record(vec![Value::Int(0xABCD), Value::Int(9)]);
    let mut cursor = Cursor::new(vec![]);
    assert_eq!(
        binrw_engine::engine::write(&schema, 0, &mut cursor, &big(), &too_far),
        Err(Error::ContractViolation { description: Violation::Overflow })
    );
}

#[test]
fn restore_position_lets_the_next_field_overwrite() {
    let mut first = FieldDirective::unsigned("first", 2);
    first.restore_position = true;
    let schema = one(TypeDescriptor::structure(vec![first, FieldDirective::unsigned("second", 1)]));
    let bytes_after = {
        let mut cursor = Cursor::new(vec![]);
        let value = record(vec![Value::Int(0x0102), Value::Int(9)]);
        assert_eq!(binrw_engine::engine::write(&schema, 0, &mut cursor, &big(), &value), Ok(()));
        assert_eq!(cursor.position(), 1);
        cursor.into_inner()
    };
    assert_eq!(bytes_after, vec![9, 2]);
}

#[test]
fn write_with_takes_a_settled_order() {
    let schema = one(TypeDescriptor::structure(vec![FieldDirective::unsigned("v", 2)]));
    let mut cursor = Cursor::new(vec![]);
    let value = record(vec![Value::Int(1)]);
    assert_eq!(
        write_with(&schema, 0, &mut cursor, ByteOrder::Little, 0, &vec![], &value),
        Ok(())
    );
    assert_eq!(cursor.get_ref(), &vec![1, 0]);
}

#[test]
fn io_failure_is_told_apart() {
    assert_ne!(IoFailure::UnexpectedEof, IoFailure::InvalidSeek);
}

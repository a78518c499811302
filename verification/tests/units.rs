use binrw_engine::directive::{build_type_prelude, build_variant_prelude};
use binrw_engine::endian::{
    apply_override, native_order, order_of_probe, resolve_order, settle, ByteOrder, Endian,
};
use binrw_engine::error::{Error, Violation};
use binrw_engine::expr::{eval, Expr};
use binrw_engine::prelude::{destructure_imports, PreludeGenerator, Step};
use binrw_engine::sink::int_write;
use binrw_engine::stream::read_int;
use binrw_engine::schema::{
    Assertion, CondEndian, FieldDirective, FieldKind, Mapping, Parser, Schema, Shape, Timing,
    TypeDescriptor, VariantDescriptor,
};
use binrw_engine::value::{duplicate_all, Value};

#[test]
fn precedence_for_every_placement() {
    let orders = [None, Some(ByteOrder::Big), Some(ByteOrder::Little)];
    let configured = [Endian::Big, Endian::Little, Endian::Native];
    let natives = [ByteOrder::Big, ByteOrder::Little];
    for field in orders {
        for variant in orders {
            for ty in orders {
                for config in configured {
                    for native in natives {
                        let expected = field.or(variant).or(ty).unwrap_or(match config {
                            Endian::Big => ByteOrder::Big,
                            Endian::Little => ByteOrder::Little,
                            Endian::Native => native,
                        });
                        assert_eq!(resolve_order(field, variant, ty, config, native), expected);
                    }
                }
            }
        }
    }
}

#[test]
fn settle_and_override() {
    assert_eq!(settle(Endian::Native, ByteOrder::Little), ByteOrder::Little);
    assert_eq!(settle(Endian::Big, ByteOrder::Little), ByteOrder::Big);
    assert_eq!(apply_override(None, ByteOrder::Big), ByteOrder::Big);
    assert_eq!(apply_override(Some(ByteOrder::Little), ByteOrder::Big), ByteOrder::Little);
    assert_eq!(ByteOrder::Big.flip(), ByteOrder::Little);
    assert_eq!(ByteOrder::Little.flip(), ByteOrder::Big);
}

#[test]
fn native_order_matches_the_machine() {
    let expected = if 1u16.to_ne_bytes()[0] == 1 {
        ByteOrder::Little
    } else {
        ByteOrder::Big
    };
    assert_eq!(native_order(), expected);
    assert_eq!(order_of_probe(1), ByteOrder::Little);
    assert_eq!(order_of_probe(0), ByteOrder::Big);
}

fn decoded(data: &[u8], pos: usize, width: usize, signed: bool, order: ByteOrder) -> i128 {
    match read_int(&data.to_vec(), pos, width, signed, order) {
        Ok((Value::Int(v), end)) => {
            assert_eq!(end, pos + width);
            v
        }
        other => panic!("not an integer: {:?}", other),
    }
}

fn encoded(v: i128, width: usize, signed: bool, order: ByteOrder) -> Result<Vec<u8>, Error> {
    let mut buf = Vec::new();
    let end = int_write(&mut buf, 0, &Value::Int(v), width, signed, order)?;
    assert_eq!(end, buf.len());
    Ok(buf)
}

fn overflow() -> Error {
    Error::ContractViolation { description: Violation::Overflow }
}

#[test]
fn codec_exact_values() {
    let data = vec![0x12, 0x34, 0x56, 0x78, 0x9A];
    assert_eq!(decoded(&data, 0, 4, false, ByteOrder::Big), 0x12345678);
    assert_eq!(decoded(&data, 0, 4, false, ByteOrder::Little), 0x78563412);
    assert_eq!(decoded(&data, 1, 3, false, ByteOrder::Big), 0x345678);
    assert_eq!(decoded(&data, 4, 1, true, ByteOrder::Big), 0x9A - 0x100);
    assert_eq!(decoded(&data, 4, 1, false, ByteOrder::Big), 0x9A);
    let wide = vec![0xFF; 8];
    assert_eq!(decoded(&wide, 0, 8, false, ByteOrder::Big), u64::MAX as i128);
    assert_eq!(decoded(&wide, 0, 8, true, ByteOrder::Little), -1);
    assert_eq!(encoded(0x12345678, 4, false, ByteOrder::Big), Ok(vec![0x12, 0x34, 0x56, 0x78]));
    assert_eq!(
        encoded(0x12345678, 4, false, ByteOrder::Little),
        Ok(vec![0x78, 0x56, 0x34, 0x12])
    );
    assert_eq!(encoded(-1, 2, true, ByteOrder::Big), Ok(vec![0xFF, 0xFF]));
    assert_eq!(encoded(-129, 1, true, ByteOrder::Big), Err(overflow()));
    assert_eq!(encoded(-128, 1, true, ByteOrder::Big), Ok(vec![0x80]));
    assert_eq!(encoded(128, 1, true, ByteOrder::Big), Err(overflow()));
    assert_eq!(encoded(127, 1, true, ByteOrder::Big), Ok(vec![0x7F]));
    assert_eq!(encoded(255, 1, false, ByteOrder::Big), Ok(vec![0xFF]));
    assert_eq!(encoded(65535, 2, false, ByteOrder::Big), Ok(vec![0xFF, 0xFF]));
    assert_eq!(encoded(65536, 2, false, ByteOrder::Big), Err(overflow()));
    assert_eq!(
        encoded(u64::MAX as i128, 8, false, ByteOrder::Little),
        Ok(vec![0xFF; 8])
    );
    assert_eq!(encoded(1i128 << 64, 8, false, ByteOrder::Little), Err(overflow()));
}

#[test]
fn widths_and_bounds_are_refused() {
    let data = vec![0u8; 16];
    let width = Err(Error::ContractViolation { description: Violation::BadWidth });
    assert_eq!(read_int(&data, 0, 0, false, ByteOrder::Big), width);
    assert_eq!(read_int(&data, 0, 9, false, ByteOrder::Big), width);
    assert_eq!(
        read_int(&data, 13, 4, false, ByteOrder::Big),
        Err(Error::Io { underlying: binrw_engine::error::IoFailure::UnexpectedEof })
    );
    assert_eq!(
        read_int(&data, usize::MAX, 4, false, ByteOrder::Big),
        Err(Error::Io { underlying: binrw_engine::error::IoFailure::UnexpectedEof })
    );
    let mut buf = Vec::new();
    assert_eq!(
        int_write(&mut buf, 0, &Value::Int(0), 0, false, ByteOrder::Big),
        Err(Error::ContractViolation { description: Violation::BadWidth })
    );
    assert_eq!(
        int_write(&mut buf, 0, &Value::Bool(true), 1, false, ByteOrder::Big),
        Err(Error::ContractViolation { description: Violation::ShapeMismatch })
    );
    assert_eq!(
        int_write(&mut buf, usize::MAX, &Value::Int(0), 1, false, ByteOrder::Big),
        Err(Error::Io { underlying: binrw_engine::error::IoFailure::InvalidSeek })
    );
    assert!(buf.is_empty());
}

#[test]
fn codec_round_trips_on_values() {
    for order in [ByteOrder::Big, ByteOrder::Little] {
        for signed in [false, true] {
            for width in 1..=8usize {
                for seed in 0..50u64 {
                    let bytes: Vec<u8> = (0..width)
                        .map(|k| (seed.wrapping_mul(2654435761).wrapping_add(k as u64 * 97) >> 3) as u8)
                        .collect();
                    let value = decoded(&bytes, 0, width, signed, order);
                    assert_eq!(encoded(value, width, signed, order), Ok(bytes));
                }
            }
        }
    }
}

fn scope() -> (Vec<Value>, Vec<Value>) {
    (
        vec![
            Value::Int(5),
            Value::Absent,
            Value::Bool(true),
            Value::List(vec![Value::Int(1), Value::Int(2)]),
        ],
        vec![Value::Int(100)],
    )
}

fn run(e: Expr) -> Result<Value, Violation> {
    let (siblings, args) = scope();
    eval(&e, &siblings, &args, None)
}

#[test]
fn expressions_evaluate() {
    assert_eq!(run(Expr::Int(7)), Ok(Value::Int(7)));
    assert_eq!(run(Expr::Bool(false)), Ok(Value::Bool(false)));
    assert_eq!(run(Expr::Field(0)), Ok(Value::Int(5)));
    assert_eq!(run(Expr::Arg(0)), Ok(Value::Int(100)));
    assert_eq!(run(Expr::plus(Expr::Field(0), Expr::Arg(0))), Ok(Value::Int(105)));
    assert_eq!(run(Expr::minus(Expr::Field(0), Expr::Arg(0))), Ok(Value::Int(-95)));
    assert_eq!(run(Expr::times(Expr::Field(0), Expr::Arg(0))), Ok(Value::Int(500)));
    assert_eq!(run(Expr::equals(Expr::Field(0), Expr::Int(5))), Ok(Value::Bool(true)));
    assert_eq!(run(Expr::equals(Expr::Field(2), Expr::Bool(false))), Ok(Value::Bool(false)));
    assert_eq!(run(Expr::less(Expr::Field(0), Expr::Int(5))), Ok(Value::Bool(false)));
    assert_eq!(run(Expr::greater(Expr::Field(0), Expr::Int(4))), Ok(Value::Bool(true)));
    assert_eq!(run(Expr::negate(Expr::Field(2))), Ok(Value::Bool(false)));
    assert_eq!(run(Expr::both(Expr::Field(2), Expr::Bool(true))), Ok(Value::Bool(true)));
    assert_eq!(run(Expr::len_of(Expr::Field(3))), Ok(Value::Int(2)));
    assert_eq!(run(Expr::or_else(Expr::Field(1), Expr::Int(9))), Ok(Value::Int(9)));
    assert_eq!(run(Expr::or_else(Expr::Field(0), Expr::Int(9))), Ok(Value::Int(5)));
}

#[test]
fn expressions_fail_as_contract_violations() {
    assert_eq!(run(Expr::Field(4)), Err(Violation::ForwardReference));
    assert_eq!(run(Expr::Field(1)), Err(Violation::AbsentOperand));
    assert_eq!(run(Expr::Arg(1)), Err(Violation::ArityMismatch));
    assert_eq!(run(Expr::This), Err(Violation::AbsentOperand));
    assert_eq!(run(Expr::plus(Expr::Field(2), Expr::Int(1))), Err(Violation::TypeMismatch));
    assert_eq!(run(Expr::less(Expr::Field(2), Expr::Field(2))), Err(Violation::TypeMismatch));
    assert_eq!(run(Expr::equals(Expr::Field(2), Expr::Int(1))), Err(Violation::TypeMismatch));
    assert_eq!(run(Expr::negate(Expr::Int(1))), Err(Violation::TypeMismatch));
    assert_eq!(run(Expr::len_of(Expr::Int(1))), Err(Violation::TypeMismatch));
    assert_eq!(
        run(Expr::plus(Expr::Int(i128::MAX), Expr::Int(1))),
        Err(Violation::Overflow)
    );
    assert_eq!(
        run(Expr::minus(Expr::Int(i128::MIN), Expr::Int(1))),
        Err(Violation::Overflow)
    );
    assert_eq!(
        run(Expr::times(Expr::Int(i128::MAX), Expr::Int(2))),
        Err(Violation::Overflow)
    );
    assert_eq!(
        run(Expr::plus(Expr::Field(9), Expr::Field(1))),
        Err(Violation::ForwardReference)
    );
    assert_eq!(
        run(Expr::or_else(Expr::Field(9), Expr::Int(1))),
        Err(Violation::ForwardReference)
    );
    let (siblings, args) = scope();
    assert_eq!(
        eval(&Expr::This, &siblings, &args, Some(&Value::Int(3))),
        Ok(Value::Int(3))
    );
    assert_eq!(
        eval(&Expr::This, &siblings, &args, Some(&Value::Absent)),
        Err(Violation::AbsentOperand)
    );
}

#[test]
fn override_is_evaluated_in_the_scope() {
    let (siblings, args) = scope();
    let cond = CondEndian::Cond(ByteOrder::Little, Expr::Field(2));
    assert_eq!(cond.evaluate(&siblings, &args), Ok(Some(ByteOrder::Little)));
    let cond = CondEndian::Cond(ByteOrder::Little, Expr::negate(Expr::Field(2)));
    assert_eq!(cond.evaluate(&siblings, &args), Ok(Some(ByteOrder::Big)));
    let cond = CondEndian::Cond(ByteOrder::Little, Expr::Field(0));
    assert_eq!(cond.evaluate(&siblings, &args), Err(Violation::TypeMismatch));
    assert_eq!(CondEndian::Inherited.evaluate(&siblings, &args), Ok(None));
    assert_eq!(
        CondEndian::Fixed(ByteOrder::Big).evaluate(&siblings, &args),
        Ok(Some(ByteOrder::Big))
    );
}

#[test]
fn values_are_duplicated_in_depth() {
    let (siblings, _) = scope();
    assert_eq!(duplicate_all(&siblings), siblings);
    let nested = Value::Record(3, vec![Value::List(vec![Value::Absent]), Value::Int(-4)]);
    assert_eq!(nested.duplicate(), nested);
}

#[test]
fn prelude_is_built_back_to_front() {
    let magic = Some(b"TEST".to_vec());
    let endian = CondEndian::Fixed(ByteOrder::Little);
    let ty = TypeDescriptor::structure(vec![]).with_imports(2);
    let steps = PreludeGenerator::new(Vec::new(), Some(&ty))
        .prefix_magic(&magic)
        .prefix_endian(&endian)
        .prefix_imports()
        .finish();
    assert_eq!(
        steps,
        vec![
            Step::BindImports(2),
            Step::SetEndian(&endian),
            Step::Magic(magic.as_ref().unwrap()),
        ]
    );
}

#[test]
fn prelude_leaves_out_what_is_not_declared() {
    let none: Option<Vec<u8>> = None;
    let endian = CondEndian::Inherited;
    let ty = TypeDescriptor::structure(vec![]);
    let steps = PreludeGenerator::new(Vec::new(), Some(&ty))
        .prefix_magic(&none)
        .prefix_imports()
        .finish();
    assert_eq!(steps, vec![]);
    let imports = TypeDescriptor::structure(vec![]).with_imports(1);
    let steps = PreludeGenerator::new(vec![Step::SetEndian(&endian)], None)
        .prefix_imports()
        .finish();
    assert_eq!(steps, vec![Step::SetEndian(&endian)]);
    let steps = PreludeGenerator::new(vec![Step::SetEndian(&endian)], Some(&imports))
        .prefix_imports()
        .finish();
    assert_eq!(steps, vec![Step::BindImports(1), Step::SetEndian(&endian)]);
    assert_eq!(destructure_imports(0), None);
    assert_eq!(destructure_imports(3), Some(3));
}

#[test]
fn preludes_of_types_and_variants() {
    let ty = TypeDescriptor::structure(vec![])
        .with_magic(vec![1, 2])
        .with_endian(CondEndian::Fixed(ByteOrder::Big))
        .with_imports(1);
    assert_eq!(
        build_type_prelude(&ty),
        vec![
            Step::BindImports(1),
            Step::SetEndian(&CondEndian::Fixed(ByteOrder::Big)),
            Step::Magic(&vec![1, 2]),
        ]
    );
    let variant = VariantDescriptor::new(vec![]).with_magic(vec![7]);
    assert_eq!(
        build_variant_prelude(&variant),
        vec![Step::SetEndian(&CondEndian::Inherited), Step::Magic(&vec![7])]
    );
}

#[test]
fn builders_set_one_directive_each() {
    let d = FieldDirective::unsigned("x", 2)
        .little()
        .with_magic(vec![9])
        .only_if(Expr::Bool(true))
        .with_timing(Timing::Inline)
        .with_offset(Expr::Int(4))
        .with_pad_before(1)
        .with_align_before(2)
        .with_pad_after(3)
        .with_align_after(4)
        .with_count(Expr::Int(2))
        .with_map(Mapping { forward: Expr::This, inverse: None })
        .parse_with(Parser::Remaining)
        .with_calc(Expr::Int(0))
        .as_default()
        .tried()
        .restoring();
    assert_eq!(
        d,
        FieldDirective {
            name: "x".to_string(),
            kind: FieldKind::Plain(Shape::unsigned(2)),
            endian: CondEndian::Fixed(ByteOrder::Little),
            magic: Some(vec![9]),
            condition: Some(Expr::Bool(true)),
            default_flag: true,
            timing: Timing::Inline,
            offset: Some(Expr::Int(4)),
            pad_before: 1,
            align_before: 2,
            pad_after: 3,
            align_after: 4,
            count: Some(Expr::Int(2)),
            map: Some(Mapping { forward: Expr::This, inverse: None }),
            parser: Some(Parser::Remaining),
            calc: Some(Expr::Int(0)),
            try_flag: true,
            restore_position: true,
        }
    );
    let d = FieldDirective::unsigned("y", 1).big();
    assert_eq!(d.endian, CondEndian::Fixed(ByteOrder::Big));
    let d = FieldDirective::unsigned("y", 1).is_big(Expr::Field(0));
    assert_eq!(d.endian, CondEndian::Cond(ByteOrder::Big, Expr::Field(0)));
    let d = FieldDirective::unsigned("y", 1).is_little(Expr::Field(0));
    assert_eq!(d.endian, CondEndian::Cond(ByteOrder::Little, Expr::Field(0)));
    let d = FieldDirective::unsigned("y", 1).with_endian(CondEndian::Inherited);
    assert_eq!(d.endian, CondEndian::Inherited);
    let a = Assertion::new(Expr::Bool(true), "always").with_payload(vec![Expr::Int(1)]);
    let ty = TypeDescriptor::structure(vec![]).with_assert(a);
    let expected = Assertion {
        condition: Expr::Bool(true),
        message: "always".to_string(),
        payload: vec![Expr::Int(1)],
    };
    match &ty.body {
        binrw_engine::schema::Body::Struct(scope) => assert_eq!(scope.asserts, vec![expected]),
        _ => panic!("a structure has a scope"),
    }
    let v = VariantDescriptor::new(vec![])
        .with_endian(CondEndian::Fixed(ByteOrder::Big))
        .with_assert(Assertion::new(Expr::Bool(false), "never"));
    assert_eq!(v.endian, CondEndian::Fixed(ByteOrder::Big));
    assert_eq!(v.scope.asserts.len(), 1);
}

fn nested_field(ty: usize, args: Vec<Expr>) -> FieldDirective {
    FieldDirective::new("inner", FieldKind::Plain(Shape::Nested { ty, args }))
}

#[test]
fn sound_schema_passes_the_check() {
    let inner = TypeDescriptor::structure(vec![
        FieldDirective::unsigned("a", 4).only_if(Expr::equals(Expr::Arg(0), Expr::Int(1))),
    ])
    .with_imports(1);
    let outer = TypeDescriptor::structure(vec![
        FieldDirective::unsigned("n", 1),
        nested_field(0, vec![Expr::Field(0)]),
        FieldDirective::new("p", FieldKind::Pointer { width: 2, target: Shape::unsigned(1) })
            .with_offset(Expr::Field(3)),
        FieldDirective::unsigned("base", 1),
    ])
    .with_assert(Assertion::new(Expr::less(Expr::Field(0), Expr::Field(3)), "n < base"));
    let schema = Schema::new(vec![inner, outer]);
    assert_eq!(schema.offence(), None);
    assert!(Schema::checked(schema.types).is_ok());
}

fn offence_of(ty: TypeDescriptor) -> Option<Violation> {
    Schema::new(vec![TypeDescriptor::structure(vec![]).with_imports(1), ty]).offence()
}

#[test]
fn check_finds_each_kind_of_offence() {
    let bad = |field: FieldDirective| offence_of(TypeDescriptor::structure(vec![field]));
    assert_eq!(bad(FieldDirective::unsigned("w", 0)), Some(Violation::BadWidth));
    assert_eq!(bad(FieldDirective::unsigned("w", 9)), Some(Violation::BadWidth));
    assert_eq!(
        bad(FieldDirective::new(
            "p",
            FieldKind::Pointer { width: 16, target: Shape::unsigned(1) }
        )),
        Some(Violation::BadWidth)
    );
    assert_eq!(bad(nested_field(1, vec![])), Some(Violation::UnknownType));
    assert_eq!(bad(nested_field(7, vec![])), Some(Violation::UnknownType));
    assert_eq!(bad(nested_field(0, vec![])), Some(Violation::ArityMismatch));
    assert_eq!(bad(nested_field(0, vec![Expr::Int(1)])), None);
    assert_eq!(
        bad(nested_field(0, vec![Expr::Field(0)])),
        Some(Violation::ForwardReference)
    );
    assert_eq!(
        bad(FieldDirective::unsigned("c", 1).with_calc(Expr::Field(0))),
        Some(Violation::ForwardReference)
    );
    assert_eq!(
        bad(FieldDirective::unsigned("c", 1).only_if(Expr::Arg(0))),
        Some(Violation::ArityMismatch)
    );
    assert_eq!(
        bad(FieldDirective::unsigned("c", 1).is_big(Expr::negate(Expr::Field(3)))),
        Some(Violation::ForwardReference)
    );
    let pointer = |timing| {
        TypeDescriptor::structure(vec![
            FieldDirective::new("p", FieldKind::Pointer { width: 1, target: Shape::unsigned(1) })
                .with_timing(timing)
                .with_offset(Expr::Field(1)),
            FieldDirective::unsigned("base", 1),
        ])
    };
    assert_eq!(offence_of(pointer(Timing::Deferred)), None);
    assert_eq!(offence_of(pointer(Timing::Inline)), Some(Violation::ForwardReference));
    let asserted = TypeDescriptor::structure(vec![FieldDirective::unsigned("a", 1)])
        .with_assert(Assertion::new(Expr::Field(1), "beyond the scope"));
    assert_eq!(offence_of(asserted), Some(Violation::ForwardReference));
    let variants = TypeDescriptor::choice(
        vec![VariantDescriptor::new(vec![FieldDirective::unsigned("w", 0)])],
        binrw_engine::schema::Mode::FirstMatch,
    );
    assert_eq!(offence_of(variants), Some(Violation::BadWidth));
    assert_eq!(
        Schema::checked(vec![TypeDescriptor::structure(vec![nested_field(0, vec![])])]),
        Err(Error::ContractViolation { description: Violation::UnknownType })
    );
}

#[test]
fn violations_are_described() {
    assert_eq!(
        Violation::ArityMismatch.description(),
        "the number of arguments differs from the number imported"
    );
    assert_eq!(
        Violation::BadWidth.description(),
        "the width of an integer is not of one to eight bytes"
    );
    assert!(Error::BadMagic { pos: 3 }.is_bad_magic());
    assert!(!Error::violation(Violation::Overflow).is_bad_magic());
    assert_eq!(Error::BadMagic { pos: 3 }.payload(), None);
}

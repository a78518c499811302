//! The description of a layout: types, their fields, and the directives that
//! say how each field is read and written.

use crate::endian::ByteOrder;
use crate::error::Violation;
use crate::expr::{eval, eval_model, Expr};
use crate::value::{models, Value, ValueModel};
use vstd::prelude::*;

verus! {

/// A byte-order override, as one level of a layout may declare it.
#[derive(Debug, PartialEq, Eq)]
pub enum CondEndian {
    /// No override: the order of the level above is kept.
    Inherited,
    /// This order, whatever is inherited.
    Fixed(ByteOrder),
    /// This order where the condition holds, the other where it does not.
    Cond(ByteOrder, Expr),
}

/// What is read where a field stands: an integer, or a type of the schema.
#[derive(Debug, PartialEq, Eq)]
pub enum Shape {
    /// An integer of `width` bytes, unsigned or in two's complement.
    Int { width: usize, signed: bool },
    /// The type at index `ty` of the schema, read with these arguments.
    Nested { ty: usize, args: Vec<Expr> },
}

/// The kind of a field.
#[derive(Debug, PartialEq, Eq)]
pub enum FieldKind {
    /// The value stands where the field stands.
    Plain(Shape),
    /// An unsigned integer of `width` bytes stands where the field stands; the
    /// value stands elsewhere in the stream, at that integer past a base.
    Pointer { width: usize, target: Shape },
}

/// When the second step of a field, which follows its reference, is taken.
#[derive(Clone, Copy, Debug, PartialEq, Eq, Structural)]
pub enum Timing {
    /// At once, seeing the siblings declared before the field.
    Inline,
    /// After every field of the scope has been read, seeing all of them.
    Deferred,
}

/// A parser that replaces a field's own.
#[derive(Clone, Copy, Debug, PartialEq, Eq, Structural)]
pub enum Parser {
    /// Bytes up to a zero byte, which is consumed and left out.
    UntilZero,
    /// Every byte that is left.
    Remaining,
}

/// A mapping applied to what a field reads, with the mapping that undoes it
/// where the field is to be written.
#[derive(Debug, PartialEq, Eq)]
pub struct Mapping {
    pub forward: Expr,
    pub inverse: Option<Expr>,
}

/// A condition on a scope, with what to report when it fails.
#[derive(Debug, PartialEq, Eq)]
pub struct Assertion {
    pub condition: Expr,
    pub message: String,
    pub payload: Vec<Expr>,
}

/// One field of a type, with its directives.
#[derive(Debug, PartialEq, Eq)]
pub struct FieldDirective {
    pub name: String,
    pub kind: FieldKind,
    pub endian: CondEndian,
    pub magic: Option<Vec<u8>>,
    pub condition: Option<Expr>,
    pub default_flag: bool,
    pub timing: Timing,
    pub offset: Option<Expr>,
    pub pad_before: usize,
    pub align_before: usize,
    pub pad_after: usize,
    pub align_after: usize,
    pub count: Option<Expr>,
    pub map: Option<Mapping>,
    pub parser: Option<Parser>,
    pub calc: Option<Expr>,
    pub try_flag: bool,
    pub restore_position: bool,
}

/// The fields of a type or of a variant, and the assertions on them.
#[derive(Debug, PartialEq, Eq)]
pub struct Scope {
    pub fields: Vec<FieldDirective>,
    pub asserts: Vec<Assertion>,
}

/// One alternative of a type with variants.
#[derive(Debug, PartialEq, Eq)]
pub struct VariantDescriptor {
    /// The constant that tells this variant from the others; without one the
    /// variant is tried by parsing it.
    pub magic: Option<Vec<u8>>,
    pub endian: CondEndian,
    pub scope: Scope,
}

/// What is done when no variant parses.
#[derive(Clone, Copy, Debug, PartialEq, Eq, Structural)]
pub enum Mode {
    /// The first variant that parses is taken.
    FirstMatch,
    /// As `FirstMatch`, but a total failure reports every variant's error.
    CollectAll,
}

/// What a type is made of.
#[derive(Debug, PartialEq, Eq)]
pub enum Body {
    Struct(Scope),
    Enum(Vec<VariantDescriptor>, Mode),
}

/// The description of one type.
#[derive(Debug, PartialEq, Eq)]
pub struct TypeDescriptor {
    /// The number of arguments that the type takes.
    pub imports: usize,
    pub endian: CondEndian,
    pub magic: Option<Vec<u8>>,
    pub body: Body,
}

/// The types of a layout. A type may hold fields of the types before it.
#[derive(Debug, PartialEq, Eq)]
pub struct Schema {
    pub types: Vec<TypeDescriptor>,
}

/// What an override says in a scope: an order, or nothing.
pub open spec fn override_model(
    endian: CondEndian,
    siblings: Seq<ValueModel>,
    args: Seq<ValueModel>,
) -> Result<Option<ByteOrder>, Violation> {
    match endian {
        CondEndian::Inherited => Ok(None),
        CondEndian::Fixed(order) => Ok(Some(order)),
        CondEndian::Cond(order, condition) => match eval_model(condition, siblings, args, None) {
            Ok(ValueModel::Bool(holds)) => Ok(
                Some(
                    if holds {
                        order
                    } else {
                        order.flipped()
                    },
                ),
            ),
            Ok(_) => Err(Violation::TypeMismatch),
            Err(x) => Err(x),
        },
    }
}

impl CondEndian {
    /// Evaluates this override in a scope.
    pub fn evaluate(&self, siblings: &Vec<Value>, args: &Vec<Value>) -> (r: Result<
        Option<ByteOrder>,
        Violation,
    >)
        ensures
            r == override_model(*self, models(siblings@), models(args@)),
    {
        match self {
            CondEndian::Inherited => Ok(None),
            CondEndian::Fixed(order) => Ok(Some(*order)),
            CondEndian::Cond(order, condition) => match eval(condition, siblings, args, None) {
                Ok(Value::Bool(holds)) => Ok(
                    Some(
                        if holds {
                            *order
                        } else {
                            order.flip()
                        },
                    ),
                ),
                Ok(_) => Err(Violation::TypeMismatch),
                Err(x) => Err(x),
            },
        }
    }
}

impl Shape {
    /// An unsigned integer of `width` bytes.
    pub fn unsigned(width: usize) -> (s: Shape)
        ensures
            s == (Shape::Int { width, signed: false }),
    {
        Shape::Int { width, signed: false }
    }

    /// An integer of `width` bytes in two's complement.
    pub fn signed(width: usize) -> (s: Shape)
        ensures
            s == (Shape::Int { width, signed: true }),
    {
        Shape::Int { width, signed: true }
    }
}

/// A field without directives: read in its own kind, in the inherited byte
/// order, with nothing before or after it.
pub open spec fn bare(d: FieldDirective) -> bool {
    &&& d.endian is Inherited
    &&& d.magic is None
    &&& d.condition is None
    &&& !d.default_flag
    &&& d.timing == Timing::Deferred
    &&& d.offset is None
    &&& d.pad_before == 0
    &&& d.align_before == 0
    &&& d.pad_after == 0
    &&& d.align_after == 0
    &&& d.count is None
    &&& d.map is None
    &&& d.parser is None
    &&& d.calc is None
    &&& !d.try_flag
    &&& !d.restore_position
}

impl FieldDirective {
    /// A field of the given kind without directives.
    pub fn new(name: &str, kind: FieldKind) -> (d: FieldDirective)
        ensures
            d.name@ == name@,
            d.kind == kind,
            bare(d),
    {
        FieldDirective {
            name: name.to_owned(),
            kind,
            endian: CondEndian::Inherited,
            magic: None,
            condition: None,
            default_flag: false,
            timing: Timing::Deferred,
            offset: None,
            pad_before: 0,
            align_before: 0,
            pad_after: 0,
            align_after: 0,
            count: None,
            map: None,
            parser: None,
            calc: None,
            try_flag: false,
            restore_position: false,
        }
    }

    /// An unsigned integer field of `width` bytes without directives.
    pub fn unsigned(name: &str, width: usize) -> (d: FieldDirective)
        ensures
            d.name@ == name@,
            d.kind == FieldKind::Plain(Shape::Int { width, signed: false }),
            bare(d),
    {
        FieldDirective::new(name, FieldKind::Plain(Shape::Int { width, signed: false }))
    }
}

impl FieldDirective {
    /// Declares the byte-order override of the field.
    pub fn with_endian(self, endian: CondEndian) -> (d: FieldDirective)
        ensures
            d == (FieldDirective { endian, ..self }),
    {
        FieldDirective { endian, ..self }
    }

    /// Declares the constant that stands before the field.
    pub fn with_magic(self, magic: Vec<u8>) -> (d: FieldDirective)
        ensures
            d == (FieldDirective { magic: Some(magic), ..self }),
    {
        FieldDirective { magic: Some(magic), ..self }
    }

    /// Declares the condition on which the field is read.
    pub fn only_if(self, condition: Expr) -> (d: FieldDirective)
        ensures
            d == (FieldDirective { condition: Some(condition), ..self }),
    {
        FieldDirective { condition: Some(condition), ..self }
    }

    /// Sets the field to its default: nothing is read for it.
    pub fn as_default(self) -> (d: FieldDirective)
        ensures
            d == (FieldDirective { default_flag: true, ..self }),
    {
        FieldDirective { default_flag: true, ..self }
    }

    /// Declares when the reference of the field is followed.
    pub fn with_timing(self, timing: Timing) -> (d: FieldDirective)
        ensures
            d == (FieldDirective { timing, ..self }),
    {
        FieldDirective { timing, ..self }
    }

    /// Declares the position that the reference of the field is relative to.
    pub fn with_offset(self, offset: Expr) -> (d: FieldDirective)
        ensures
            d == (FieldDirective { offset: Some(offset), ..self }),
    {
        FieldDirective { offset: Some(offset), ..self }
    }

    /// Declares the number of bytes skipped before the field.
    pub fn with_pad_before(self, pad: usize) -> (d: FieldDirective)
        ensures
            d == (FieldDirective { pad_before: pad, ..self }),
    {
        FieldDirective { pad_before: pad, ..self }
    }

    /// Declares the alignment of the field.
    pub fn with_align_before(self, align: usize) -> (d: FieldDirective)
        ensures
            d == (FieldDirective { align_before: align, ..self }),
    {
        FieldDirective { align_before: align, ..self }
    }

    /// Declares the number of bytes skipped after the field.
    pub fn with_pad_after(self, pad: usize) -> (d: FieldDirective)
        ensures
            d == (FieldDirective { pad_after: pad, ..self }),
    {
        FieldDirective { pad_after: pad, ..self }
    }

    /// Declares the alignment of what follows the field.
    pub fn with_align_after(self, align: usize) -> (d: FieldDirective)
        ensures
            d == (FieldDirective { align_after: align, ..self }),
    {
        FieldDirective { align_after: align, ..self }
    }

    /// Declares the number of elements of the field.
    pub fn with_count(self, count: Expr) -> (d: FieldDirective)
        ensures
            d == (FieldDirective { count: Some(count), ..self }),
    {
        FieldDirective { count: Some(count), ..self }
    }

    /// Declares the mapping applied to what the field reads.
    pub fn with_map(self, map: Mapping) -> (d: FieldDirective)
        ensures
            d == (FieldDirective { map: Some(map), ..self }),
    {
        FieldDirective { map: Some(map), ..self }
    }

    /// Declares the parser that replaces the field's own.
    pub fn parse_with(self, parser: Parser) -> (d: FieldDirective)
        ensures
            d == (FieldDirective { parser: Some(parser), ..self }),
    {
        FieldDirective { parser: Some(parser), ..self }
    }

    /// Declares the expression that the field is computed by.
    pub fn with_calc(self, calc: Expr) -> (d: FieldDirective)
        ensures
            d == (FieldDirective { calc: Some(calc), ..self }),
    {
        FieldDirective { calc: Some(calc), ..self }
    }

    /// Marks the field as only tried: a failure leaves it absent.
    pub fn tried(self) -> (d: FieldDirective)
        ensures
            d == (FieldDirective { try_flag: true, ..self }),
    {
        FieldDirective { try_flag: true, ..self }
    }

    /// Marks the field as restoring the position after it.
    pub fn restoring(self) -> (d: FieldDirective)
        ensures
            d == (FieldDirective { restore_position: true, ..self }),
    {
        FieldDirective { restore_position: true, ..self }
    }

    /// Declares the byte order of the field as big-endian.
    pub fn big(self) -> (d: FieldDirective)
        ensures
            d == (FieldDirective { endian: CondEndian::Fixed(ByteOrder::Big), ..self }),
    {
        FieldDirective { endian: CondEndian::Fixed(ByteOrder::Big), ..self }
    }

    /// Declares the byte order of the field as little-endian.
    pub fn little(self) -> (d: FieldDirective)
        ensures
            d == (FieldDirective { endian: CondEndian::Fixed(ByteOrder::Little), ..self }),
    {
        FieldDirective { endian: CondEndian::Fixed(ByteOrder::Little), ..self }
    }

    /// Declares the byte order of the field as big-endian where the condition
    /// holds, and little-endian where it does not.
    pub fn is_big(self, condition: Expr) -> (d: FieldDirective)
        ensures
            d == (FieldDirective { endian: CondEndian::Cond(ByteOrder::Big, condition), ..self }),
    {
        FieldDirective { endian: CondEndian::Cond(ByteOrder::Big, condition), ..self }
    }

    /// Declares the byte order of the field as little-endian where the
    /// condition holds, and big-endian where it does not.
    pub fn is_little(self, condition: Expr) -> (d: FieldDirective)
        ensures
            d == (FieldDirective {
                endian: CondEndian::Cond(ByteOrder::Little, condition),
                ..self
            }),
    {
        FieldDirective { endian: CondEndian::Cond(ByteOrder::Little, condition), ..self }
    }
}

impl Assertion {
    /// An assertion with a message and no payload.
    pub fn new(condition: Expr, message: &str) -> (a: Assertion)
        ensures
            a.condition == condition,
            a.message@ == message@,
            a.payload@.len() == 0,
    {
        Assertion { condition, message: message.to_owned(), payload: Vec::new() }
    }

    /// Declares the values that a failure of the assertion carries.
    pub fn with_payload(self, payload: Vec<Expr>) -> (a: Assertion)
        ensures
            a == (Assertion { payload, ..self }),
    {
        Assertion { payload, ..self }
    }
}

impl Scope {
    /// Adds an assertion after those that the scope has.
    pub fn with_assert(self, assertion: Assertion) -> (s: Scope)
        ensures
            s.fields == self.fields,
            s.asserts@ == self.asserts@.push(assertion),
    {
        let mut asserts = self.asserts;
        asserts.push(assertion);
        Scope { fields: self.fields, asserts }
    }
}

impl VariantDescriptor {
    /// Declares the constant that tells the variant from the others.
    pub fn with_magic(self, magic: Vec<u8>) -> (v: VariantDescriptor)
        ensures
            v == (VariantDescriptor { magic: Some(magic), ..self }),
    {
        VariantDescriptor { magic: Some(magic), ..self }
    }

    /// Declares the byte-order override of the variant.
    pub fn with_endian(self, endian: CondEndian) -> (v: VariantDescriptor)
        ensures
            v == (VariantDescriptor { endian, ..self }),
    {
        VariantDescriptor { endian, ..self }
    }

    /// Adds an assertion after those that the variant has.
    pub fn with_assert(self, assertion: Assertion) -> (v: VariantDescriptor)
        ensures
            v.magic == self.magic,
            v.endian == self.endian,
            v.scope.fields == self.scope.fields,
            v.scope.asserts@ == self.scope.asserts@.push(assertion),
    {
        VariantDescriptor {
            magic: self.magic,
            endian: self.endian,
            scope: self.scope.with_assert(assertion),
        }
    }
}

impl TypeDescriptor {
    /// Declares the number of arguments that the type takes.
    pub fn with_imports(self, imports: usize) -> (d: TypeDescriptor)
        ensures
            d == (TypeDescriptor { imports, ..self }),
    {
        TypeDescriptor { imports, ..self }
    }

    /// Declares the constant that opens the type.
    pub fn with_magic(self, magic: Vec<u8>) -> (d: TypeDescriptor)
        ensures
            d == (TypeDescriptor { magic: Some(magic), ..self }),
    {
        TypeDescriptor { magic: Some(magic), ..self }
    }

    /// Declares the byte-order override of the type.
    pub fn with_endian(self, endian: CondEndian) -> (d: TypeDescriptor)
        ensures
            d == (TypeDescriptor { endian, ..self }),
    {
        TypeDescriptor { endian, ..self }
    }

    /// Adds an assertion after those that the type has. A type with variants
    /// has none of its own and is left as it is.
    pub fn with_assert(self, assertion: Assertion) -> (d: TypeDescriptor)
        ensures
            d.imports == self.imports,
            d.endian == self.endian,
            d.magic == self.magic,
            match self.body {
                Body::Struct(scope) => d.body is Struct && d.body->Struct_0.fields == scope.fields
                    && d.body->Struct_0.asserts@ == scope.asserts@.push(assertion),
                Body::Enum(_, _) => d.body == self.body,
            },
    {
        let body = match self.body {
            Body::Struct(scope) => Body::Struct(scope.with_assert(assertion)),
            Body::Enum(variants, mode) => Body::Enum(variants, mode),
        };
        TypeDescriptor { imports: self.imports, endian: self.endian, magic: self.magic, body }
    }
}

impl Scope {
    /// A scope of these fields, without assertions.
    pub fn new(fields: Vec<FieldDirective>) -> (s: Scope)
        ensures
            s.fields == fields,
            s.asserts@.len() == 0,
    {
        Scope { fields, asserts: Vec::new() }
    }
}

impl VariantDescriptor {
    /// A variant of these fields, told by parsing it, without override.
    pub fn new(fields: Vec<FieldDirective>) -> (v: VariantDescriptor)
        ensures
            v.magic is None,
            v.endian is Inherited,
            v.scope.fields == fields,
            v.scope.asserts@.len() == 0,
    {
        VariantDescriptor { magic: None, endian: CondEndian::Inherited, scope: Scope::new(fields) }
    }
}

impl TypeDescriptor {
    /// A type of these fields that takes no arguments and has no constant,
    /// no override and no assertion.
    pub fn structure(fields: Vec<FieldDirective>) -> (d: TypeDescriptor)
        ensures
            d.imports == 0,
            d.endian is Inherited,
            d.magic is None,
            d.body is Struct,
            d.body->Struct_0.fields == fields,
            d.body->Struct_0.asserts@.len() == 0,
    {
        TypeDescriptor {
            imports: 0,
            endian: CondEndian::Inherited,
            magic: None,
            body: Body::Struct(Scope::new(fields)),
        }
    }

    /// A type of these variants that takes no arguments and has no constant
    /// and no override.
    pub fn choice(variants: Vec<VariantDescriptor>, mode: Mode) -> (d: TypeDescriptor)
        ensures
            d.imports == 0,
            d.endian is Inherited,
            d.magic is None,
            d.body == Body::Enum(variants, mode),
    {
        TypeDescriptor {
            imports: 0,
            endian: CondEndian::Inherited,
            magic: None,
            body: Body::Enum(variants, mode),
        }
    }
}

impl Schema {
    /// A schema of these types. A type may hold fields of the types before
    /// it.
    pub fn new(types: Vec<TypeDescriptor>) -> (s: Schema)
        ensures
            s.types == types,
    {
        Schema { types }
    }
}

} // verus!

//! Reading: the pipeline that every field goes through, the scope that runs
//! it over the fields of a type, and the choice among the variants of a type.
//!
//! Each step is stated twice: as a function on models, which says what is
//! read, and as executable code that is proved to read just that.

use crate::directive::{
    apply_map, asserts_model, base_model, build_type_prelude, build_variant_prelude,
    check_asserts, check_condition, condition_model, count_model, default_model, default_value,
    eval_all, eval_all_model, eval_count, eval_target, mapped_model, prelude_model, run_prelude,
    target_model, type_prelude, variant_prelude,
};
use crate::endian::{apply_override, overridden, ByteOrder};
use crate::error::{error_models, lemma_view_errors, Error, ErrorModel, Violation};
use crate::schema::{
    override_model, Body, FieldDirective, FieldKind, Mode, Schema, Scope, Shape, Timing,
    VariantDescriptor,
};
use crate::stream::{
    int_read, magic_passed, pad_to, padded, parsed, parser_read, pass_magic, read_int,
    run_parser, violated, Parsed,
};
use crate::value::{lemma_view_items, models, Value, ValueModel};
use vstd::prelude::*;

verus! {

/// What a scope is read in: the schema and the bytes, the type that the scope
/// belongs to, the byte order and the base of references that it inherits,
/// and the arguments of the type.
pub struct Frame {
    pub schema: Schema,
    pub data: Seq<u8>,
    pub ty: nat,
    pub order: ByteOrder,
    pub base: nat,
    pub args: Seq<ValueModel>,
}

/// A field whose second step waits for the end of the scope, with the byte
/// order that was settled for it.
#[derive(Clone, Copy, Debug, PartialEq, Eq, Structural)]
pub struct Pending {
    pub index: usize,
    pub order: ByteOrder,
}

/// What the pipeline leaves of one field.
pub struct FieldOut {
    pub value: ValueModel,
    pub pos: nat,
    pub order: ByteOrder,
    pub deferred: bool,
}

/// What the first pass over a scope leaves: the value of each field, the
/// fields that wait for their second step, and the position.
pub struct Gathered {
    pub siblings: Seq<ValueModel>,
    pub registry: Seq<Pending>,
    pub pos: nat,
}

/// What stands in the stream where a field of this kind stands: for a
/// reference, the unsigned integer that points to the value.
pub open spec fn inline_shape(kind: FieldKind) -> Shape {
    match kind {
        FieldKind::Plain(shape) => shape,
        FieldKind::Pointer { width, .. } => Shape::Int { width, signed: false },
    }
}

/// Whether a field that holds `v` has a reference to follow.
pub open spec fn follows(d: FieldDirective, v: ValueModel) -> bool {
    d.kind is Pointer && v is Int
}

/// The error of a type none of whose variants parsed at `pos`.
///
/// Where every variant's error is asked for, they are handed out together.
/// Otherwise the error of the variant tried last is handed out, unless no
/// variant failed for a reason of its own, that is, each one failed on a
/// constant or there was none to try.
pub open spec fn failure_model(mode: Mode, pos: nat, errors: Seq<ErrorModel>) -> ErrorModel {
    match mode {
        Mode::CollectAll => ErrorModel::EnumErrors { pos, errors },
        Mode::FirstMatch => if undistinguished(errors) {
            ErrorModel::NoVariantMatch { pos, errors }
        } else {
            errors.last()
        },
    }
}

/// Whether none of the errors tells more than that a constant did not match.
pub open spec fn undistinguished(errors: Seq<ErrorModel>) -> bool {
    forall|i: int| 0 <= i < errors.len() ==> (#[trigger] errors[i]).is_bad_magic()
}

/// What is read at `pos` for a shape.
pub open spec fn shape_model(
    f: Frame,
    shape: Shape,
    order: ByteOrder,
    pos: nat,
    siblings: Seq<ValueModel>,
) -> Parsed
    decreases f.ty, 0nat, 0nat,
{
    match shape {
        Shape::Int { width, signed } => int_read(f.data, pos, width as nat, signed, order),
        Shape::Nested { ty, args } => if ty >= f.ty {
            Err(violated(Violation::UnknownType))
        } else {
            match eval_all_model(args@, 0, siblings, f.args, Seq::empty()) {
                Err(x) => Err(violated(x)),
                Ok(passed) => type_model(f.schema, f.data, ty as nat, pos, order, f.base, passed),
            }
        },
    }
}

/// What is read at `pos` for `n` elements of a shape, put after `acc`.
pub open spec fn repeat_model(
    f: Frame,
    shape: Shape,
    order: ByteOrder,
    pos: nat,
    siblings: Seq<ValueModel>,
    n: nat,
    acc: Seq<ValueModel>,
) -> Parsed
    decreases f.ty, 1nat, n - acc.len(),
{
    if acc.len() >= n {
        Ok((ValueModel::List(acc), pos))
    } else {
        match shape_model(f, shape, order, pos, siblings) {
            Err(e) => Err(e),
            Ok((v, p)) => repeat_model(f, shape, order, p, siblings, n, acc.push(v)),
        }
    }
}

/// The value that a reference field points to, where it holds `pointer`.
pub open spec fn deref_model(
    f: Frame,
    d: FieldDirective,
    order: ByteOrder,
    pointer: int,
    siblings: Seq<ValueModel>,
) -> Result<ValueModel, ErrorModel>
    decreases f.ty, 1nat, 0nat,
{
    match d.kind {
        FieldKind::Pointer { target, .. } => match target_model(
            base_model(d.offset, siblings, f.args, f.base),
            pointer,
        ) {
            Err(e) => Err(e),
            Ok(t) => match shape_model(f, target, order, t, siblings) {
                Err(e) => Err(e),
                Ok((v, _)) => Ok(v),
            },
        },
        FieldKind::Plain(_) => Ok(ValueModel::Int(pointer)),
    }
}

/// The value that a field makes at `pos`, before any mapping: its default,
/// else what it computes, else what its replacing parser reads, else as many
/// elements as its count asks for, else what its own kind reads.
pub open spec fn made_model(
    f: Frame,
    d: FieldDirective,
    order: ByteOrder,
    pos: nat,
    siblings: Seq<ValueModel>,
) -> Parsed
    decreases f.ty, 2nat, 0nat,
{
    if d.default_flag {
        Ok((default_model(d), pos))
    } else if d.calc is Some {
        match crate::expr::eval_model(d.calc->0, siblings, f.args, None) {
            Ok(v) => Ok((v, pos)),
            Err(x) => Err(violated(x)),
        }
    } else if d.parser is Some {
        parser_read(d.parser->0, f.data, pos)
    } else if d.count is Some {
        match count_model(d.count->0, siblings, f.args) {
            Err(e) => Err(e),
            Ok(n) => repeat_model(f, inline_shape(d.kind), order, pos, siblings, n, Seq::empty()),
        }
    } else {
        shape_model(f, inline_shape(d.kind), order, pos, siblings)
    }
}

/// What a field produces from `pos` on, once its condition and its constant
/// have passed: the value it makes, mapped; the padding after it; and the
/// reference followed at once or left for the end of the scope.
pub open spec fn produced_model(
    f: Frame,
    d: FieldDirective,
    order: ByteOrder,
    pos: nat,
    siblings: Seq<ValueModel>,
) -> Result<(ValueModel, nat, bool), ErrorModel>
    decreases f.ty, 3nat, 0nat,
{
    match made_model(f, d, order, pos, siblings) {
        Err(e) => Err(e),
        Ok((made, p)) => match mapped_model(d.map, made, siblings, f.args) {
            Err(x) => Err(violated(x)),
            Ok(v) => match padded(p, d.pad_after as nat, d.align_after as nat) {
                Err(e) => Err(e),
                Ok(after) => if !follows(d, v) {
                    Ok((v, after, false))
                } else if d.timing == Timing::Deferred {
                    Ok((v, after, true))
                } else {
                    match deref_model(f, d, order, v->Int_0, siblings) {
                        Err(e) => Err(e),
                        Ok(target) => Ok((target, after, false)),
                    }
                },
            },
        },
    }
}

/// What the pipeline makes of one field that begins at `pos`.
///
/// In order: the padding before it; its byte order; its condition, which
/// where false leaves the field absent; its constant; then what it produces.
/// A field that is only tried and fails is absent, and the position is where
/// the field began. A field that restores the position leaves it where the
/// field began.
pub open spec fn field_model(f: Frame, d: FieldDirective, pos: nat, siblings: Seq<ValueModel>)
    -> Result<FieldOut, ErrorModel>
    decreases f.ty, 4nat, 0nat,
{
    match padded(pos, d.pad_before as nat, d.align_before as nat) {
        Err(e) => Err(e),
        Ok(start) => match override_model(d.endian, siblings, f.args) {
            Err(x) => Err(violated(x)),
            Ok(level) => {
                let order = overridden(level, f.order);
                match condition_model(d.condition, siblings, f.args) {
                    Err(x) => Err(violated(x)),
                    Ok(false) => Ok(
                        FieldOut {
                            value: ValueModel::Absent,
                            pos: if d.restore_position {
                                pos
                            } else {
                                start
                            },
                            order,
                            deferred: false,
                        },
                    ),
                    Ok(true) => match magic_passed(f.data, start, d.magic) {
                        Err(e) => Err(e),
                        Ok(body) => match produced_model(f, d, order, body, siblings) {
                            Ok((value, after, deferred)) => Ok(
                                FieldOut {
                                    value,
                                    pos: if d.restore_position {
                                        pos
                                    } else {
                                        after
                                    },
                                    order,
                                    deferred,
                                },
                            ),
                            Err(e) => if d.try_flag {
                                Ok(
                                    FieldOut {
                                        value: ValueModel::Absent,
                                        pos,
                                        order,
                                        deferred: false,
                                    },
                                )
                            } else {
                                Err(e)
                            },
                        },
                    },
                }
            },
        },
    }
}

/// The first pass over the fields of a scope, from the `i`-th on: each field
/// in declaration order, seeing the fields before it.
pub open spec fn inline_model(
    f: Frame,
    fields: Seq<FieldDirective>,
    i: nat,
    pos: nat,
    siblings: Seq<ValueModel>,
    registry: Seq<Pending>,
) -> Result<Gathered, ErrorModel>
    decreases f.ty, 5nat, fields.len() - i,
{
    if i >= fields.len() {
        Ok(Gathered { siblings, registry, pos })
    } else {
        match field_model(f, fields[i as int], pos, siblings) {
            Err(e) => Err(e),
            Ok(out) => inline_model(
                f,
                fields,
                i + 1,
                out.pos,
                siblings.push(out.value),
                if out.deferred {
                    registry.push(Pending { index: i as usize, order: out.order })
                } else {
                    registry
                },
            ),
        }
    }
}

/// The second pass over a scope, from the `k`-th waiting field on: each
/// reference is followed in declaration order, seeing every field of the
/// scope, those declared after it too.
pub open spec fn deferred_model(
    f: Frame,
    fields: Seq<FieldDirective>,
    registry: Seq<Pending>,
    k: nat,
    siblings: Seq<ValueModel>,
) -> Result<Seq<ValueModel>, ErrorModel>
    decreases f.ty, 5nat, registry.len() - k,
{
    if k >= registry.len() {
        Ok(siblings)
    } else {
        let index = registry[k as int].index as int;
        if 0 <= index < fields.len() && index < siblings.len() && siblings[index] is Int {
            match deref_model(
                f,
                fields[index],
                registry[k as int].order,
                siblings[index]->Int_0,
                siblings,
            ) {
                Err(e) => Err(e),
                Ok(target) => deferred_model(
                    f,
                    fields,
                    registry,
                    k + 1,
                    siblings.update(index, target),
                ),
            }
        } else {
            deferred_model(f, fields, registry, k + 1, siblings)
        }
    }
}

/// What is read at `pos` for a scope: the first pass over its fields, the
/// second pass over those that wait, and last its assertions. The fields
/// come out as a record with the tag `tag`.
pub open spec fn scope_model(f: Frame, scope: Scope, tag: nat, pos: nat) -> Parsed
    decreases f.ty, 6nat, 0nat,
{
    match inline_model(f, scope.fields@, 0, pos, Seq::empty(), Seq::empty()) {
        Err(e) => Err(e),
        Ok(first) => match deferred_model(f, scope.fields@, first.registry, 0, first.siblings) {
            Err(e) => Err(e),
            Ok(siblings) => match asserts_model(scope.asserts@, 0, siblings, f.args, pos) {
                Err(e) => Err(e),
                Ok(()) => Ok((ValueModel::Record(tag, siblings), first.pos)),
            },
        },
    }
}

/// What is read at `pos` for one variant: its prelude, then its scope.
pub open spec fn variant_model(f: Frame, v: VariantDescriptor, tag: nat, pos: nat) -> Parsed
    decreases f.ty, 7nat, 0nat,
{
    match prelude_model(variant_prelude(&v), 0, f.data, pos, f.order, f.args) {
        Err(e) => Err(e),
        Ok((p, o)) => scope_model(
            Frame { schema: f.schema, data: f.data, ty: f.ty, order: o, base: f.base, args: f.args },
            v.scope,
            tag,
            p,
        ),
    }
}

/// The choice among the variants from the `k`-th on, each tried at `pos`:
/// the first that parses is taken; `errors` holds what the ones before it
/// failed with.
pub open spec fn select_model(
    f: Frame,
    variants: Seq<VariantDescriptor>,
    mode: Mode,
    pos: nat,
    k: nat,
    errors: Seq<ErrorModel>,
) -> Parsed
    decreases f.ty, 8nat, variants.len() - k,
{
    if k >= variants.len() {
        Err(failure_model(mode, pos, errors))
    } else {
        match variant_model(f, variants[k as int], k, pos) {
            Ok(found) => Ok(found),
            Err(e) => select_model(f, variants, mode, pos, k + 1, errors.push(e)),
        }
    }
}

/// What is read at `pos` for the type at index `ty` of the schema: its
/// prelude, then its fields, or the choice among its variants. The type has
/// to be passed as many arguments as it imports.
pub open spec fn type_model(
    schema: Schema,
    data: Seq<u8>,
    ty: nat,
    pos: nat,
    order: ByteOrder,
    base: nat,
    args: Seq<ValueModel>,
) -> Parsed
    decreases ty, 9nat, 0nat,
{
    if ty >= schema.types@.len() {
        Err(violated(Violation::UnknownType))
    } else if args.len() != schema.types@[ty as int].imports {
        Err(violated(Violation::ArityMismatch))
    } else {
        let d = schema.types@[ty as int];
        match prelude_model(type_prelude(&d), 0, data, pos, order, args) {
            Err(e) => Err(e),
            Ok((p, o)) => {
                let f = Frame { schema, data, ty, order: o, base, args };
                match d.body {
                    Body::Struct(scope) => scope_model(f, scope, 0, p),
                    Body::Enum(variants, mode) => select_model(
                        f,
                        variants@,
                        mode,
                        p,
                        0,
                        Seq::empty(),
                    ),
                }
            },
        }
    }
}

/// What a scope is read in, as the executable code holds it.
pub struct Ctx<'a> {
    pub schema: &'a Schema,
    pub data: &'a Vec<u8>,
    pub ty: usize,
    pub order: ByteOrder,
    pub base: usize,
    pub args: &'a Vec<Value>,
}

impl<'a> View for Ctx<'a> {
    type V = Frame;

    open spec fn view(&self) -> Frame {
        Frame {
            schema: *self.schema,
            data: self.data@,
            ty: self.ty as nat,
            order: self.order,
            base: self.base as nat,
            args: models(self.args@),
        }
    }
}

/// What the pipeline leaves of one field, as the executable code holds it.
pub struct FieldRead {
    pub value: Value,
    pub pos: usize,
    pub order: ByteOrder,
    pub deferred: bool,
}

impl View for FieldRead {
    type V = FieldOut;

    open spec fn view(&self) -> FieldOut {
        FieldOut {
            value: self.value@,
            pos: self.pos as nat,
            order: self.order,
            deferred: self.deferred,
        }
    }
}

/// The model of a value that an executable step arrived at.
pub open spec fn followed(r: Result<Value, Error>) -> Result<ValueModel, ErrorModel> {
    match r {
        Ok(v) => Ok(v@),
        Err(e) => Err(e@),
    }
}

/// The model of what an executable step produced for a field.
pub open spec fn produced(r: Result<(Value, usize, bool), Error>) -> Result<
    (ValueModel, nat, bool),
    ErrorModel,
> {
    match r {
        Ok((v, p, deferred)) => Ok((v@, p as nat, deferred)),
        Err(e) => Err(e@),
    }
}

/// The model of what the executable pipeline left of a field.
pub open spec fn field_out(r: Result<FieldRead, Error>) -> Result<FieldOut, ErrorModel> {
    match r {
        Ok(out) => Ok(out@),
        Err(e) => Err(e@),
    }
}

/// Reads what stands at `pos` for a shape.
pub fn read_shape(ctx: &Ctx, shape: &Shape, order: ByteOrder, pos: usize, siblings: &Vec<Value>)
    -> (r: Result<(Value, usize), Error>)
    ensures
        parsed(r) == shape_model(ctx@, *shape, order, pos as nat, models(siblings@)),
    decreases ctx.ty, 0nat, 0nat,
{
    match shape {
        Shape::Int { width, signed } => read_int(ctx.data, pos, *width, *signed, order),
        Shape::Nested { ty, args } => {
            if *ty >= ctx.ty {
                Err(Error::violation(Violation::UnknownType))
            } else {
                match eval_all(args, siblings, ctx.args) {
                    Err(x) => Err(Error::violation(x)),
                    Ok(passed) => read_type(
                        ctx.schema,
                        ctx.data,
                        *ty,
                        pos,
                        order,
                        ctx.base,
                        &passed,
                    ),
                }
            }
        },
    }
}

/// Reads `n` elements of a shape from `pos` on.
pub fn read_repeat(
    ctx: &Ctx,
    shape: &Shape,
    order: ByteOrder,
    pos: usize,
    siblings: &Vec<Value>,
    n: usize,
) -> (r: Result<(Value, usize), Error>)
    ensures
        parsed(r) == repeat_model(
            ctx@,
            *shape,
            order,
            pos as nat,
            models(siblings@),
            n as nat,
            Seq::empty(),
        ),
    decreases ctx.ty, 1nat, 0nat,
{
    let mut items: Vec<Value> = Vec::new();
    let mut at: usize = pos;
    assert(models(items@) =~= Seq::<ValueModel>::empty());
    while items.len() < n
        invariant
            items@.len() <= n,
            repeat_model(
                ctx@,
                *shape,
                order,
                at as nat,
                models(siblings@),
                n as nat,
                models(items@),
            ) == repeat_model(
                ctx@,
                *shape,
                order,
                pos as nat,
                models(siblings@),
                n as nat,
                Seq::empty(),
            ),
        decreases n - items@.len(),
    {
        match read_shape(ctx, shape, order, at, siblings) {
            Err(e) => {
                return Err(e);
            },
            Ok((v, p)) => {
                let ghost before = models(items@);
                let ghost added = v@;
                items.push(v);
                assert(models(items@) =~= before.push(added));
                at = p;
            },
        }
    }
    proof {
        lemma_view_items(0, items);
    }
    Ok((Value::List(items), at))
}

/// Follows the reference of a field that holds `pointer`.
pub fn follow(
    ctx: &Ctx,
    d: &FieldDirective,
    order: ByteOrder,
    pointer: i128,
    siblings: &Vec<Value>,
) -> (r: Result<Value, Error>)
    ensures
        followed(r) == deref_model(ctx@, *d, order, pointer as int, models(siblings@)),
    decreases ctx.ty, 1nat, 0nat,
{
    match &d.kind {
        FieldKind::Pointer { target, .. } => {
            match eval_target(&d.offset, siblings, ctx.args, ctx.base, pointer) {
                Err(e) => Err(e),
                Ok(t) => match read_shape(ctx, target, order, t, siblings) {
                    Err(e) => Err(e),
                    Ok((v, _)) => Ok(v),
                },
            }
        },
        FieldKind::Plain(_) => Ok(Value::Int(pointer)),
    }
}

/// Makes the value of a field at `pos`, before any mapping.
pub fn make(ctx: &Ctx, d: &FieldDirective, order: ByteOrder, pos: usize, siblings: &Vec<Value>)
    -> (r: Result<(Value, usize), Error>)
    ensures
        parsed(r) == made_model(ctx@, *d, order, pos as nat, models(siblings@)),
    decreases ctx.ty, 2nat, 0nat,
{
    if d.default_flag {
        return Ok((default_value(d), pos));
    }
    if let Some(calc) = &d.calc {
        return match crate::expr::eval(calc, siblings, ctx.args, None) {
            Ok(v) => Ok((v, pos)),
            Err(x) => Err(Error::violation(x)),
        };
    }
    if let Some(parser) = &d.parser {
        return run_parser(*parser, ctx.data, pos);
    }
    match &d.kind {
        FieldKind::Plain(shape) => make_of(ctx, d, shape, order, pos, siblings),
        FieldKind::Pointer { width, .. } => {
            let shape = Shape::Int { width: *width, signed: false };
            make_of(ctx, d, &shape, order, pos, siblings)
        },
    }
}

/// Reads a field's elements, or its one value, in the shape that stands in
/// the stream for it.
fn make_of(
    ctx: &Ctx,
    d: &FieldDirective,
    shape: &Shape,
    order: ByteOrder,
    pos: usize,
    siblings: &Vec<Value>,
) -> (r: Result<(Value, usize), Error>)
    requires
        !d.default_flag,
        d.calc is None,
        d.parser is None,
        *shape == inline_shape(d.kind),
    ensures
        parsed(r) == made_model(ctx@, *d, order, pos as nat, models(siblings@)),
    decreases ctx.ty, 1nat, 1nat,
{
    if let Some(count) = &d.count {
        match eval_count(count, siblings, ctx.args) {
            Err(e) => Err(e),
            Ok(n) => read_repeat(ctx, shape, order, pos, siblings, n),
        }
    } else {
        read_shape(ctx, shape, order, pos, siblings)
    }
}

/// Produces a field from `pos` on, once its condition and its constant have
/// passed.
pub fn produce(ctx: &Ctx, d: &FieldDirective, order: ByteOrder, pos: usize, siblings: &Vec<Value>)
    -> (r: Result<(Value, usize, bool), Error>)
    ensures
        produced(r) == produced_model(ctx@, *d, order, pos as nat, models(siblings@)),
    decreases ctx.ty, 3nat, 0nat,
{
    let (made, p) = match make(ctx, d, order, pos, siblings) {
        Err(e) => {
            return Err(e);
        },
        Ok(pair) => pair,
    };
    let v = match apply_map(&d.map, made, siblings, ctx.args) {
        Err(x) => {
            return Err(Error::violation(x));
        },
        Ok(v) => v,
    };
    let after = match pad_to(p, d.pad_after, d.align_after) {
        Err(e) => {
            return Err(e);
        },
        Ok(after) => after,
    };
    let is_pointer = match &d.kind {
        FieldKind::Pointer { .. } => true,
        FieldKind::Plain(_) => false,
    };
    match v {
        Value::Int(pointer) => {
            if !is_pointer {
                Ok((Value::Int(pointer), after, false))
            } else if d.timing == Timing::Deferred {
                Ok((Value::Int(pointer), after, true))
            } else {
                match follow(ctx, d, order, pointer, siblings) {
                    Err(e) => Err(e),
                    Ok(target) => Ok((target, after, false)),
                }
            }
        },
        other => Ok((other, after, false)),
    }
}

/// Runs the pipeline on one field that begins at `pos`.
pub fn read_field(ctx: &Ctx, d: &FieldDirective, pos: usize, siblings: &Vec<Value>) -> (r: Result<
    FieldRead,
    Error,
>)
    ensures
        field_out(r) == field_model(ctx@, *d, pos as nat, models(siblings@)),
    decreases ctx.ty, 4nat, 0nat,
{
    let start = match pad_to(pos, d.pad_before, d.align_before) {
        Err(e) => {
            return Err(e);
        },
        Ok(start) => start,
    };
    let level = match d.endian.evaluate(siblings, ctx.args) {
        Err(x) => {
            return Err(Error::violation(x));
        },
        Ok(level) => level,
    };
    let order = apply_override(level, ctx.order);
    let wanted = match check_condition(&d.condition, siblings, ctx.args) {
        Err(x) => {
            return Err(Error::violation(x));
        },
        Ok(wanted) => wanted,
    };
    if !wanted {
        return Ok(
            FieldRead {
                value: Value::Absent,
                pos: if d.restore_position {
                    pos
                } else {
                    start
                },
                order,
                deferred: false,
            },
        );
    }
    let body = match pass_magic(ctx.data, start, &d.magic) {
        Err(e) => {
            return Err(e);
        },
        Ok(body) => body,
    };
    match produce(ctx, d, order, body, siblings) {
        Ok((value, after, deferred)) => Ok(
            FieldRead {
                value,
                pos: if d.restore_position {
                    pos
                } else {
                    after
                },
                order,
                deferred,
            },
        ),
        Err(e) => {
            if d.try_flag {
                Ok(FieldRead { value: Value::Absent, pos, order, deferred: false })
            } else {
                Err(e)
            }
        },
    }
}

/// The model of what the executable first pass gathered.
pub open spec fn gathered(r: Result<(Vec<Value>, Vec<Pending>, usize), Error>) -> Result<
    Gathered,
    ErrorModel,
> {
    match r {
        Ok((siblings, registry, pos)) => Ok(
            Gathered { siblings: models(siblings@), registry: registry@, pos: pos as nat },
        ),
        Err(e) => Err(e@),
    }
}

/// The model of the values that an executable pass left.
pub open spec fn resolved(r: Result<Vec<Value>, Error>) -> Result<Seq<ValueModel>, ErrorModel> {
    match r {
        Ok(siblings) => Ok(models(siblings@)),
        Err(e) => Err(e@),
    }
}

/// The first pass over the fields of a scope that begins at `pos`.
pub fn read_inline(ctx: &Ctx, fields: &Vec<FieldDirective>, pos: usize) -> (r: Result<
    (Vec<Value>, Vec<Pending>, usize),
    Error,
>)
    ensures
        gathered(r) == inline_model(ctx@, fields@, 0, pos as nat, Seq::empty(), Seq::empty()),
    decreases ctx.ty, 5nat, 0nat,
{
    let mut siblings: Vec<Value> = Vec::new();
    let mut registry: Vec<Pending> = Vec::new();
    let mut at: usize = pos;
    let mut i: usize = 0;
    assert(models(siblings@) =~= Seq::<ValueModel>::empty());
    while i < fields.len()
        invariant
            i <= fields.len(),
            inline_model(ctx@, fields@, i as nat, at as nat, models(siblings@), registry@)
                == inline_model(ctx@, fields@, 0, pos as nat, Seq::empty(), Seq::empty()),
        decreases fields.len() - i,
    {
        match read_field(ctx, &fields[i], at, &siblings) {
            Err(e) => {
                return Err(e);
            },
            Ok(out) => {
                let ghost before = models(siblings@);
                let ghost added = out.value@;
                if out.deferred {
                    registry.push(Pending { index: i, order: out.order });
                }
                at = out.pos;
                siblings.push(out.value);
                assert(models(siblings@) =~= before.push(added));
            },
        }
        i += 1;
    }
    Ok((siblings, registry, at))
}

/// The second pass over a scope: follows the reference of each field that
/// waits, in declaration order.
pub fn resolve_deferred(
    ctx: &Ctx,
    fields: &Vec<FieldDirective>,
    registry: &Vec<Pending>,
    siblings: Vec<Value>,
) -> (r: Result<Vec<Value>, Error>)
    ensures
        resolved(r) == deferred_model(ctx@, fields@, registry@, 0, models(siblings@)),
    decreases ctx.ty, 5nat, 0nat,
{
    let ghost first = models(siblings@);
    let mut values = siblings;
    let mut k: usize = 0;
    while k < registry.len()
        invariant
            k <= registry.len(),
            first == models(siblings@),
            deferred_model(ctx@, fields@, registry@, k as nat, models(values@)) == deferred_model(
                ctx@,
                fields@,
                registry@,
                0,
                first,
            ),
        decreases registry.len() - k,
    {
        let pending = registry[k];
        let index = pending.index;
        let pointer = if index < fields.len() && index < values.len() {
            match &values[index] {
                Value::Int(pointer) => Some(*pointer),
                _ => None,
            }
        } else {
            None
        };
        if let Some(pointer) = pointer {
            match follow(ctx, &fields[index], pending.order, pointer, &values) {
                Err(e) => {
                    return Err(e);
                },
                Ok(target) => {
                    let ghost before = models(values@);
                    let ghost found = target@;
                    values.set(index, target);
                    assert(models(values@) =~= before.update(index as int, found));
                },
            }
        }
        k += 1;
    }
    Ok(values)
}

/// Reads a scope at `pos`: the first pass over its fields, the second pass
/// over those that wait, and last its assertions.
pub fn read_scope(ctx: &Ctx, scope: &Scope, tag: usize, pos: usize) -> (r: Result<
    (Value, usize),
    Error,
>)
    ensures
        parsed(r) == scope_model(ctx@, *scope, tag as nat, pos as nat),
    decreases ctx.ty, 6nat, 0nat,
{
    let (first, registry, at) = match read_inline(ctx, &scope.fields, pos) {
        Err(e) => {
            return Err(e);
        },
        Ok(first) => first,
    };
    let siblings = match resolve_deferred(ctx, &scope.fields, &registry, first) {
        Err(e) => {
            return Err(e);
        },
        Ok(siblings) => siblings,
    };
    match check_asserts(&scope.asserts, &siblings, ctx.args, pos) {
        Err(e) => Err(e),
        Ok(()) => {
            proof {
                lemma_view_items(tag, siblings);
            }
            Ok((Value::Record(tag, siblings), at))
        },
    }
}

/// Reads one variant at `pos`: its prelude, then its scope.
pub fn read_variant(ctx: &Ctx, v: &VariantDescriptor, tag: usize, pos: usize) -> (r: Result<
    (Value, usize),
    Error,
>)
    ensures
        parsed(r) == variant_model(ctx@, *v, tag as nat, pos as nat),
    decreases ctx.ty, 7nat, 0nat,
{
    let steps = build_variant_prelude(v);
    match run_prelude(&steps, ctx.data, pos, ctx.order, ctx.args) {
        Err(e) => Err(e),
        Ok((p, o)) => {
            let inner = Ctx {
                schema: ctx.schema,
                data: ctx.data,
                ty: ctx.ty,
                order: o,
                base: ctx.base,
                args: ctx.args,
            };
            read_scope(&inner, &v.scope, tag, p)
        },
    }
}

/// The error of a type none of whose variants parsed at `pos`.
pub fn total_failure(mode: Mode, pos: usize, errors: Vec<Error>) -> (e: Error)
    ensures
        e@ == failure_model(mode, pos as nat, error_models(errors@)),
{
    proof {
        lemma_view_errors(pos, errors);
    }
    match mode {
        Mode::CollectAll => Error::EnumErrors { pos, errors },
        Mode::FirstMatch => {
            let mut all_magic = true;
            let mut k: usize = 0;
            while k < errors.len()
                invariant
                    k <= errors.len(),
                    all_magic == undistinguished(error_models(errors@).subrange(0, k as int)),
                decreases errors.len() - k,
            {
                let ghost seen = error_models(errors@).subrange(0, k as int);
                let ghost more = error_models(errors@).subrange(0, k + 1);
                if !errors[k].is_bad_magic() {
                    all_magic = false;
                    assert(!more[k as int].is_bad_magic());
                } else {
                    assert forall|i: int| 0 <= i < seen.len() implies seen[i] == more[i] by {}
                }
                k += 1;
            }
            assert(error_models(errors@).subrange(0, errors@.len() as int) =~= error_models(
                errors@,
            ));
            if all_magic {
                Error::NoVariantMatch { pos, errors }
            } else {
                let mut errors = errors;
                match errors.pop() {
                    Some(last) => last,
                    None => Error::NoVariantMatch { pos, errors },
                }
            }
        },
    }
}

/// Chooses among the variants of a type, each tried at `pos`.
pub fn select_variant(ctx: &Ctx, variants: &Vec<VariantDescriptor>, mode: Mode, pos: usize) -> (r:
    Result<(Value, usize), Error>)
    ensures
        parsed(r) == select_model(ctx@, variants@, mode, pos as nat, 0, Seq::empty()),
    decreases ctx.ty, 8nat, 0nat,
{
    let mut errors: Vec<Error> = Vec::new();
    let mut k: usize = 0;
    assert(error_models(errors@) =~= Seq::<ErrorModel>::empty());
    while k < variants.len()
        invariant
            k <= variants.len(),
            select_model(ctx@, variants@, mode, pos as nat, k as nat, error_models(errors@))
                == select_model(ctx@, variants@, mode, pos as nat, 0, Seq::empty()),
        decreases variants.len() - k,
    {
        match read_variant(ctx, &variants[k], k, pos) {
            Ok(found) => {
                return Ok(found);
            },
            Err(e) => {
                let ghost before = error_models(errors@);
                let ghost added = e@;
                errors.push(e);
                assert(error_models(errors@) =~= before.push(added));
            },
        }
        k += 1;
    }
    Err(total_failure(mode, pos, errors))
}

/// Reads the type at index `ty` of the schema from `pos` on, in the byte
/// order `order` unless the layout overrides it, with references relative to
/// `base` unless a field says otherwise, and with the arguments `args`.
///
/// Returns the value and the position after it.
pub fn read_type(
    schema: &Schema,
    data: &Vec<u8>,
    ty: usize,
    pos: usize,
    order: ByteOrder,
    base: usize,
    args: &Vec<Value>,
) -> (r: Result<(Value, usize), Error>)
    ensures
        parsed(r) == type_model(
            *schema,
            data@,
            ty as nat,
            pos as nat,
            order,
            base as nat,
            models(args@),
        ),
    decreases ty, 9nat, 0nat,
{
    if ty >= schema.types.len() {
        return Err(Error::violation(Violation::UnknownType));
    }
    let d = &schema.types[ty];
    if args.len() != d.imports {
        return Err(Error::violation(Violation::ArityMismatch));
    }
    let steps = build_type_prelude(d);
    match run_prelude(&steps, data, pos, order, args) {
        Err(e) => Err(e),
        Ok((p, o)) => {
            let ctx = Ctx { schema, data, ty, order: o, base, args };
            match &d.body {
                Body::Struct(scope) => read_scope(&ctx, scope, 0, p),
                Body::Enum(variants, mode) => select_variant(&ctx, variants, *mode, p),
            }
        },
    }
}

} // verus!

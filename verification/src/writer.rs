//! Writing: the pipeline that every field goes through, the two passes over
//! the fields of a scope, and the choice of the variant that a value names.
//!
//! Each step is stated twice: as a function on models, which says what is
//! written, and as executable code that is proved to write just that.

use crate::codec::{encode_int, int_bytes, representable, MAX_WIDTH};
use crate::directive::{
    base_model, build_type_prelude, build_variant_prelude, check_condition, condition_model,
    eval_all, eval_all_model, type_prelude, variant_prelude,
};
use crate::endian::{apply_override, overridden, ByteOrder};
use crate::error::{Error, ErrorModel, Violation};
use crate::expr::{eval, eval_model, Expr};
use crate::prelude::Step;
use crate::reader::inline_shape;
use crate::schema::{
    override_model, Body, FieldDirective, FieldKind, Mapping, Schema, Scope, Shape,
};
use crate::sink::{
    int_write, int_write_model, magic_write, magic_write_model, pad_write, pad_write_model,
    parser_write, parser_write_model, put, put_model, written, zero_bytes, zeros, Written,
};
use crate::stream::violated;
use crate::value::{lemma_view_items, models, Value, ValueModel};
use vstd::prelude::*;

verus! {

/// What a scope is written in: the schema, the type that the scope belongs
/// to, the byte order and the base of references that it inherits, and the
/// arguments of the type.
pub struct Desk {
    pub schema: Schema,
    pub ty: nat,
    pub order: ByteOrder,
    pub base: nat,
    pub args: Seq<ValueModel>,
}

/// The place that was kept free for a reference, with the byte order that
/// was settled for the field.
#[derive(Clone, Copy, Debug, PartialEq, Eq, Structural)]
pub struct Hole {
    pub at: usize,
    pub order: ByteOrder,
}

/// A reference field whose value has yet to be written, and the place kept
/// free for the reference.
#[derive(Clone, Copy, Debug, PartialEq, Eq, Structural)]
pub struct Slot {
    pub index: usize,
    pub hole: Hole,
}

/// The bytes and the position after a field, and the place kept free where
/// the field is a reference.
pub type Placed = Result<(Seq<u8>, nat, Option<Hole>), ErrorModel>;

/// What the first pass over a scope leaves: the bytes, the position, and the
/// references that have yet to be written.
pub struct Drafted {
    pub buf: Seq<u8>,
    pub pos: nat,
    pub registry: Seq<Slot>,
}

/// Where a prelude leaves a write: the bytes, the position, and the byte
/// order that it settled.
pub type Opened = Result<(Seq<u8>, nat, ByteOrder), ErrorModel>;

/// A step that left no place free.
pub open spec fn unheld(w: Written) -> Placed {
    match w {
        Ok((buf, pos)) => Ok((buf, pos, None)),
        Err(e) => Err(e),
    }
}

/// What one step of a prelude does to a write.
pub open spec fn step_write_model(
    step: Step,
    buf: Seq<u8>,
    pos: nat,
    order: ByteOrder,
    args: Seq<ValueModel>,
) -> Opened {
    match step {
        Step::BindImports(n) => if args.len() == n {
            Ok((buf, pos, order))
        } else {
            Err(violated(Violation::ArityMismatch))
        },
        Step::SetEndian(endian) => match override_model(*endian, Seq::empty(), args) {
            Ok(level) => Ok((buf, pos, overridden(level, order))),
            Err(x) => Err(violated(x)),
        },
        Step::Magic(bytes) => match put_model(buf, pos, bytes@) {
            Ok((b, p)) => Ok((b, p, order)),
            Err(e) => Err(e),
        },
    }
}

/// What the steps of a prelude from the `k`-th on do to a write.
#[verifier::opaque]
pub open spec fn prelude_write_model(
    steps: Seq<Step>,
    k: nat,
    buf: Seq<u8>,
    pos: nat,
    order: ByteOrder,
    args: Seq<ValueModel>,
) -> Opened
    decreases steps.len() - k,
{
    if k >= steps.len() {
        Ok((buf, pos, order))
    } else {
        match step_write_model(steps[k as int], buf, pos, order, args) {
            Ok((b, p, o)) => prelude_write_model(steps, k + 1, b, p, o, args),
            Err(e) => Err(e),
        }
    }
}

/// The value that is written for a field that holds `v`: what the inverse of
/// its mapping makes of `v`, or `v` itself where the field has no mapping or
/// its mapping has no inverse.
pub open spec fn unmapped_model(
    map: Option<Mapping>,
    v: ValueModel,
    siblings: Seq<ValueModel>,
    args: Seq<ValueModel>,
) -> Result<ValueModel, Violation> {
    match map {
        Some(m) => match m.inverse {
            Some(inverse) => eval_model(inverse, siblings, args, Some(v)),
            None => Ok(v),
        },
        None => Ok(v),
    }
}

/// What is written at `pos` for a value of a shape.
pub open spec fn wshape_model(
    f: Desk,
    shape: Shape,
    order: ByteOrder,
    v: ValueModel,
    buf: Seq<u8>,
    pos: nat,
    siblings: Seq<ValueModel>,
) -> Written
    decreases f.ty, 0nat, 0nat,
{
    match shape {
        Shape::Int { width, signed } => int_write_model(buf, pos, v, width as nat, signed, order),
        Shape::Nested { ty, args } => if ty >= f.ty {
            Err(violated(Violation::UnknownType))
        } else {
            match eval_all_model(args@, 0, siblings, f.args, Seq::empty()) {
                Err(x) => Err(violated(x)),
                Ok(passed) => wtype_model(f.schema, ty as nat, v, buf, pos, order, f.base, passed),
            }
        },
    }
}

/// What is written at `pos` for the elements of a sequence from the `k`-th
/// on.
pub open spec fn wrepeat_model(
    f: Desk,
    shape: Shape,
    order: ByteOrder,
    items: Seq<ValueModel>,
    k: nat,
    buf: Seq<u8>,
    pos: nat,
    siblings: Seq<ValueModel>,
) -> Written
    decreases f.ty, 1nat, items.len() - k,
{
    if k >= items.len() {
        Ok((buf, pos))
    } else {
        match wshape_model(f, shape, order, items[k as int], buf, pos, siblings) {
            Err(e) => Err(e),
            Ok((b, p)) => wrepeat_model(f, shape, order, items, k + 1, b, p, siblings),
        }
    }
}

/// What is written at `pos` for the value `w` of a field: nothing for a
/// default or a computed field; else what the counterpart of its replacing
/// parser writes; else the elements of a counted field; else what its own
/// kind writes, which for a reference is a place kept free.
pub open spec fn wmade_model(
    f: Desk,
    d: FieldDirective,
    order: ByteOrder,
    w: ValueModel,
    buf: Seq<u8>,
    pos: nat,
    siblings: Seq<ValueModel>,
) -> Placed
    decreases f.ty, 2nat, 0nat,
{
    if d.default_flag || d.calc is Some {
        Ok((buf, pos, None))
    } else if d.parser is Some {
        unheld(parser_write_model(d.parser->0, w, buf, pos))
    } else if d.count is Some {
        match w {
            ValueModel::List(items) => unheld(
                wrepeat_model(f, inline_shape(d.kind), order, items, 0, buf, pos, siblings),
            ),
            _ => Err(violated(Violation::ShapeMismatch)),
        }
    } else {
        match d.kind {
            FieldKind::Plain(shape) => unheld(wshape_model(f, shape, order, w, buf, pos, siblings)),
            FieldKind::Pointer { width, .. } => if width == 0 || width > MAX_WIDTH {
                Err(violated(Violation::BadWidth))
            } else {
                match put_model(buf, pos, zeros(width as nat)) {
                    Err(e) => Err(e),
                    Ok((b, p)) => Ok((b, p, Some(Hole { at: pos as usize, order }))),
                }
            },
        }
    }
}

/// What a field writes from `pos` on, once its condition and its constant
/// have passed: its value, mapped back where the mapping has an inverse,
/// and the padding after it.
pub open spec fn wproduced_model(
    f: Desk,
    d: FieldDirective,
    order: ByteOrder,
    v: ValueModel,
    buf: Seq<u8>,
    pos: nat,
    siblings: Seq<ValueModel>,
) -> Placed
    decreases f.ty, 3nat, 0nat,
{
    match unmapped_model(d.map, v, siblings, f.args) {
        Err(x) => Err(violated(x)),
        Ok(w) => match wmade_model(f, d, order, w, buf, pos, siblings) {
            Err(e) => Err(e),
            Ok((b, p, hole)) => match pad_write_model(
                b,
                p,
                d.pad_after as nat,
                d.align_after as nat,
            ) {
                Err(e) => Err(e),
                Ok((padded, after)) => Ok((padded, after, hole)),
            },
        },
    }
}

/// What the pipeline writes for one field that begins at `pos` and holds
/// `v`.
///
/// A field that is only tried and is absent writes nothing. Else, in order:
/// the padding before it, as zeros; its byte order; its condition, which
/// where false ends the field; its constant; then what it produces. A field
/// that restores the position leaves it where the field began.
pub open spec fn wfield_model(
    f: Desk,
    d: FieldDirective,
    v: ValueModel,
    buf: Seq<u8>,
    pos: nat,
    siblings: Seq<ValueModel>,
) -> Placed
    decreases f.ty, 4nat, 0nat,
{
    if d.try_flag && v is Absent {
        Ok((buf, pos, None))
    } else {
        match pad_write_model(buf, pos, d.pad_before as nat, d.align_before as nat) {
            Err(e) => Err(e),
            Ok((b1, start)) => match override_model(d.endian, siblings, f.args) {
                Err(x) => Err(violated(x)),
                Ok(level) => match condition_model(d.condition, siblings, f.args) {
                    Err(x) => Err(violated(x)),
                    Ok(false) => Ok(
                        (
                            b1,
                            if d.restore_position {
                                pos
                            } else {
                                start
                            },
                            None,
                        ),
                    ),
                    Ok(true) => match magic_write_model(b1, start, d.magic) {
                        Err(e) => Err(e),
                        Ok((b2, body)) => match wproduced_model(
                            f,
                            d,
                            overridden(level, f.order),
                            v,
                            b2,
                            body,
                            siblings,
                        ) {
                            Err(e) => Err(e),
                            Ok((b3, after, hole)) => Ok(
                                (
                                    b3,
                                    if d.restore_position {
                                        pos
                                    } else {
                                        after
                                    },
                                    hole,
                                ),
                            ),
                        },
                    },
                },
            },
        }
    }
}

/// The first pass over the fields of a scope, from the `i`-th on: each field
/// in declaration order, seeing the values of the fields before it.
pub open spec fn winline_model(
    f: Desk,
    fields: Seq<FieldDirective>,
    items: Seq<ValueModel>,
    i: nat,
    buf: Seq<u8>,
    pos: nat,
    registry: Seq<Slot>,
) -> Result<Drafted, ErrorModel>
    decreases f.ty, 5nat, fields.len() - i,
{
    if i >= fields.len() {
        Ok(Drafted { buf, pos, registry })
    } else if i >= items.len() {
        Err(violated(Violation::ShapeMismatch))
    } else {
        match wfield_model(f, fields[i as int], items[i as int], buf, pos, items.subrange(0, i as int)) {
            Err(e) => Err(e),
            Ok((b, p, hole)) => winline_model(
                f,
                fields,
                items,
                i + 1,
                b,
                p,
                match hole {
                    Some(h) => registry.push(Slot { index: i as usize, hole: h }),
                    None => registry,
                },
            ),
        }
    }
}

/// The reference that points from a base to a position.
pub open spec fn pointer_model(base: Result<int, Violation>, pos: nat, width: nat) -> Result<
    int,
    ErrorModel,
> {
    if width == 0 || width > MAX_WIDTH {
        Err(violated(Violation::BadWidth))
    } else {
        match base {
            Err(x) => Err(violated(x)),
            Ok(b) => if representable(pos - b, width, false) {
                Ok(pos - b)
            } else {
                Err(violated(Violation::Overflow))
            },
        }
    }
}

/// The second pass over a scope, from the `k`-th waiting reference on: the
/// value of each is written where the first pass ended, one after the other
/// in declaration order, and the place kept free is filled with the
/// reference to it.
pub open spec fn wpatch_model(
    f: Desk,
    fields: Seq<FieldDirective>,
    items: Seq<ValueModel>,
    registry: Seq<Slot>,
    k: nat,
    buf: Seq<u8>,
    pos: nat,
) -> Written
    decreases f.ty, 5nat, registry.len() - k,
{
    if k >= registry.len() {
        Ok((buf, pos))
    } else {
        let slot = registry[k as int];
        let index = slot.index as int;
        if index < fields.len() && index < items.len() && fields[index].kind is Pointer {
            let d = fields[index];
            let width = d.kind->Pointer_width as nat;
            match pointer_model(base_model(d.offset, items, f.args, f.base), pos, width) {
                Err(e) => Err(e),
                Ok(pointer) => match put_model(
                    buf,
                    slot.hole.at as nat,
                    int_bytes(pointer, width, slot.hole.order),
                ) {
                    Err(e) => Err(e),
                    Ok((filled, _)) => match wshape_model(
                        f,
                        d.kind->Pointer_target,
                        slot.hole.order,
                        items[index],
                        filled,
                        pos,
                        items,
                    ) {
                        Err(e) => Err(e),
                        Ok((b, p)) => wpatch_model(f, fields, items, registry, k + 1, b, p),
                    },
                },
            }
        } else {
            wpatch_model(f, fields, items, registry, k + 1, buf, pos)
        }
    }
}

/// What is written at `pos` for the fields of a scope: the first pass over
/// the fields, then the second pass over the references.
pub open spec fn wscope_model(
    f: Desk,
    scope: Scope,
    items: Seq<ValueModel>,
    buf: Seq<u8>,
    pos: nat,
) -> Written
    decreases f.ty, 6nat, 0nat,
{
    if items.len() != scope.fields@.len() {
        Err(violated(Violation::ShapeMismatch))
    } else {
        match winline_model(f, scope.fields@, items, 0, buf, pos, Seq::empty()) {
            Err(e) => Err(e),
            Ok(draft) => wpatch_model(
                f,
                scope.fields@,
                items,
                draft.registry,
                0,
                draft.buf,
                draft.pos,
            ),
        }
    }
}

/// What is written at `pos` for a value of the type at index `ty` of the
/// schema: its prelude, then its fields, or the prelude and the fields of
/// the variant that the value names. The type has to be passed as many
/// arguments as it imports, and the value has to be a record.
pub open spec fn wtype_model(
    schema: Schema,
    ty: nat,
    v: ValueModel,
    buf: Seq<u8>,
    pos: nat,
    order: ByteOrder,
    base: nat,
    args: Seq<ValueModel>,
) -> Written
    decreases ty, 7nat, 0nat,
{
    if ty >= schema.types@.len() {
        Err(violated(Violation::UnknownType))
    } else if args.len() != schema.types@[ty as int].imports {
        Err(violated(Violation::ArityMismatch))
    } else if !(v is Record) {
        Err(violated(Violation::ShapeMismatch))
    } else {
        let d = schema.types@[ty as int];
        let tag = v->Record_0;
        let items = v->Record_1;
        match prelude_write_model(type_prelude(&d), 0, buf, pos, order, args) {
            Err(e) => Err(e),
            Ok((b, p, o)) => match d.body {
                Body::Struct(scope) => if tag != 0 {
                    Err(violated(Violation::ShapeMismatch))
                } else {
                    wscope_model(Desk { schema, ty, order: o, base, args }, scope, items, b, p)
                },
                Body::Enum(variants, _) => if tag >= variants@.len() {
                    Err(violated(Violation::ShapeMismatch))
                } else {
                    match prelude_write_model(
                        variant_prelude(&variants@[tag as int]),
                        0,
                        b,
                        p,
                        o,
                        args,
                    ) {
                        Err(e) => Err(e),
                        Ok((b2, next, o2)) => wscope_model(
                            Desk { schema, ty, order: o2, base, args },
                            variants@[tag as int].scope,
                            items,
                            b2,
                            next,
                        ),
                    }
                },
            },
        }
    }
}

/// What a scope is written in, as the executable code holds it.
pub struct WriteCtx<'a> {
    pub schema: &'a Schema,
    pub ty: usize,
    pub order: ByteOrder,
    pub base: usize,
    pub args: &'a Vec<Value>,
}

impl<'a> View for WriteCtx<'a> {
    type V = Desk;

    open spec fn view(&self) -> Desk {
        Desk {
            schema: *self.schema,
            ty: self.ty as nat,
            order: self.order,
            base: self.base as nat,
            args: models(self.args@),
        }
    }
}

/// The model of what an executable step wrote for a field.
pub open spec fn placed(r: Result<(usize, Option<Hole>), Error>, buf: Vec<u8>) -> Placed {
    match r {
        Ok((p, hole)) => Ok((buf@, p as nat, hole)),
        Err(e) => Err(e@),
    }
}

/// The model of what the executable first pass wrote.
pub open spec fn drafted(r: Result<(usize, Vec<Slot>), Error>, buf: Vec<u8>) -> Result<
    Drafted,
    ErrorModel,
> {
    match r {
        Ok((p, registry)) => Ok(Drafted { buf: buf@, pos: p as nat, registry: registry@ }),
        Err(e) => Err(e@),
    }
}

/// The model of where an executable prelude left a write.
pub open spec fn opened(r: Result<(usize, ByteOrder), Error>, buf: Vec<u8>) -> Opened {
    match r {
        Ok((p, o)) => Ok((buf@, p as nat, o)),
        Err(e) => Err(e@),
    }
}

/// Runs the steps of a prelude on a write.
pub fn write_prelude(
    steps: &Vec<Step>,
    buf: &mut Vec<u8>,
    pos: usize,
    order: ByteOrder,
    args: &Vec<Value>,
) -> (r: Result<(usize, ByteOrder), Error>)
    ensures
        opened(r, *final(buf)) == prelude_write_model(
            steps@,
            0,
            old(buf)@,
            pos as nat,
            order,
            models(args@),
        ),
{
    reveal(prelude_write_model);
    let mut at: usize = pos;
    let mut current: ByteOrder = order;
    let mut k: usize = 0;
    while k < steps.len()
        invariant
            k <= steps.len(),
            prelude_write_model(steps@, k as nat, buf@, at as nat, current, models(args@))
                == prelude_write_model(steps@, 0, old(buf)@, pos as nat, order, models(args@)),
        decreases steps.len() - k,
    {
        reveal(prelude_write_model);
        match &steps[k] {
            Step::BindImports(n) => {
                if args.len() != *n {
                    return Err(Error::violation(Violation::ArityMismatch));
                }
            },
            Step::SetEndian(endian) => {
                let empty: Vec<Value> = Vec::new();
                assert(models(empty@) =~= Seq::<ValueModel>::empty());
                match endian.evaluate(&empty, args) {
                    Ok(level) => {
                        current = apply_override(level, current);
                    },
                    Err(x) => {
                        return Err(Error::violation(x));
                    },
                }
            },
            Step::Magic(bytes) => {
                match put(buf, at, bytes) {
                    Ok(p) => {
                        at = p;
                    },
                    Err(e) => {
                        return Err(e);
                    },
                }
            },
        }
        k += 1;
    }
    Ok((at, current))
}

/// Writes a value of a shape at `pos`.
pub fn write_shape(
    ctx: &WriteCtx,
    shape: &Shape,
    order: ByteOrder,
    v: &Value,
    buf: &mut Vec<u8>,
    pos: usize,
    siblings: &Vec<Value>,
) -> (r: Result<usize, Error>)
    ensures
        written(r, *final(buf)) == wshape_model(
            ctx@,
            *shape,
            order,
            v@,
            old(buf)@,
            pos as nat,
            models(siblings@),
        ),
    decreases ctx.ty, 0nat, 0nat,
{
    match shape {
        Shape::Int { width, signed } => int_write(buf, pos, v, *width, *signed, order),
        Shape::Nested { ty, args } => {
            if *ty >= ctx.ty {
                Err(Error::violation(Violation::UnknownType))
            } else {
                match eval_all(args, siblings, ctx.args) {
                    Err(x) => Err(Error::violation(x)),
                    Ok(passed) => write_type(
                        ctx.schema,
                        *ty,
                        v,
                        buf,
                        pos,
                        order,
                        ctx.base,
                        &passed,
                    ),
                }
            }
        },
    }
}

/// Writes the elements of a sequence from `pos` on.
pub fn write_repeat(
    ctx: &WriteCtx,
    shape: &Shape,
    order: ByteOrder,
    items: &Vec<Value>,
    buf: &mut Vec<u8>,
    pos: usize,
    siblings: &Vec<Value>,
) -> (r: Result<usize, Error>)
    ensures
        written(r, *final(buf)) == wrepeat_model(
            ctx@,
            *shape,
            order,
            models(items@),
            0,
            old(buf)@,
            pos as nat,
            models(siblings@),
        ),
    decreases ctx.ty, 1nat, 0nat,
{
    let mut at: usize = pos;
    let mut k: usize = 0;
    while k < items.len()
        invariant
            k <= items.len(),
            wrepeat_model(
                ctx@,
                *shape,
                order,
                models(items@),
                k as nat,
                buf@,
                at as nat,
                models(siblings@),
            ) == wrepeat_model(
                ctx@,
                *shape,
                order,
                models(items@),
                0,
                old(buf)@,
                pos as nat,
                models(siblings@),
            ),
        decreases items.len() - k,
    {
        match write_shape(ctx, shape, order, &items[k], buf, at, siblings) {
            Err(e) => {
                return Err(e);
            },
            Ok(p) => {
                at = p;
            },
        }
        k += 1;
    }
    Ok(at)
}

/// Writes the value `w` of a field at `pos`.
pub fn write_made(
    ctx: &WriteCtx,
    d: &FieldDirective,
    order: ByteOrder,
    w: &Value,
    buf: &mut Vec<u8>,
    pos: usize,
    siblings: &Vec<Value>,
) -> (r: Result<(usize, Option<Hole>), Error>)
    ensures
        placed(r, *final(buf)) == wmade_model(
            ctx@,
            *d,
            order,
            w@,
            old(buf)@,
            pos as nat,
            models(siblings@),
        ),
    decreases ctx.ty, 2nat, 0nat,
{
    if d.default_flag || d.calc.is_some() {
        return Ok((pos, None));
    }
    if let Some(parser) = &d.parser {
        return match parser_write(*parser, w, buf, pos) {
            Ok(p) => Ok((p, None)),
            Err(e) => Err(e),
        };
    }
    if d.count.is_some() {
        return match w {
            Value::List(items) => {
                proof {
                    lemma_view_items(0, *items);
                }
                let written = match &d.kind {
                    FieldKind::Plain(shape) => write_repeat(
                        ctx,
                        shape,
                        order,
                        items,
                        buf,
                        pos,
                        siblings,
                    ),
                    FieldKind::Pointer { width, .. } => {
                        let shape = Shape::Int { width: *width, signed: false };
                        write_repeat(ctx, &shape, order, items, buf, pos, siblings)
                    },
                };
                match written {
                    Ok(p) => Ok((p, None)),
                    Err(e) => Err(e),
                }
            },
            _ => Err(Error::violation(Violation::ShapeMismatch)),
        };
    }
    match &d.kind {
        FieldKind::Plain(shape) => match write_shape(ctx, shape, order, w, buf, pos, siblings) {
            Ok(p) => Ok((p, None)),
            Err(e) => Err(e),
        },
        FieldKind::Pointer { width, .. } => {
            if *width == 0 || *width > MAX_WIDTH {
                Err(Error::violation(Violation::BadWidth))
            } else {
                let free = zero_bytes(*width);
                match put(buf, pos, &free) {
                    Err(e) => Err(e),
                    Ok(p) => Ok((p, Some(Hole { at: pos, order }))),
                }
            }
        },
    }
}

/// Writes what a field produces from `pos` on.
pub fn write_produced(
    ctx: &WriteCtx,
    d: &FieldDirective,
    order: ByteOrder,
    v: &Value,
    buf: &mut Vec<u8>,
    pos: usize,
    siblings: &Vec<Value>,
) -> (r: Result<(usize, Option<Hole>), Error>)
    ensures
        placed(r, *final(buf)) == wproduced_model(
            ctx@,
            *d,
            order,
            v@,
            old(buf)@,
            pos as nat,
            models(siblings@),
        ),
    decreases ctx.ty, 3nat, 0nat,
{
    let inverse: Option<&Expr> = match &d.map {
        Some(m) => match &m.inverse {
            Some(inverse) => Some(inverse),
            None => None,
        },
        None => None,
    };
    let made = match inverse {
        Some(inverse) => match eval(inverse, siblings, ctx.args, Some(v)) {
            Err(x) => {
                return Err(Error::violation(x));
            },
            Ok(w) => write_made(ctx, d, order, &w, buf, pos, siblings),
        },
        None => write_made(ctx, d, order, v, buf, pos, siblings),
    };
    match made {
        Err(e) => Err(e),
        Ok((p, hole)) => match pad_write(buf, p, d.pad_after, d.align_after) {
            Err(e) => Err(e),
            Ok(after) => Ok((after, hole)),
        },
    }
}

/// Runs the pipeline on one field that begins at `pos` and holds `v`.
pub fn write_field(
    ctx: &WriteCtx,
    d: &FieldDirective,
    v: &Value,
    buf: &mut Vec<u8>,
    pos: usize,
    siblings: &Vec<Value>,
) -> (r: Result<(usize, Option<Hole>), Error>)
    ensures
        placed(r, *final(buf)) == wfield_model(
            ctx@,
            *d,
            v@,
            old(buf)@,
            pos as nat,
            models(siblings@),
        ),
    decreases ctx.ty, 4nat, 0nat,
{
    let absent = match v {
        Value::Absent => true,
        _ => false,
    };
    if d.try_flag && absent {
        return Ok((pos, None));
    }
    let start = match pad_write(buf, pos, d.pad_before, d.align_before) {
        Err(e) => {
            return Err(e);
        },
        Ok(start) => start,
    };
    let level = match d.endian.evaluate(siblings, ctx.args) {
        Err(x) => {
            return Err(Error::violation(x));
        },
        Ok(level) => level,
    };
    let wanted = match check_condition(&d.condition, siblings, ctx.args) {
        Err(x) => {
            return Err(Error::violation(x));
        },
        Ok(wanted) => wanted,
    };
    if !wanted {
        return Ok(
            (
                if d.restore_position {
                    pos
                } else {
                    start
                },
                None,
            ),
        );
    }
    let body = match magic_write(buf, start, &d.magic) {
        Err(e) => {
            return Err(e);
        },
        Ok(body) => body,
    };
    let order = apply_override(level, ctx.order);
    match write_produced(ctx, d, order, v, buf, body, siblings) {
        Err(e) => Err(e),
        Ok((after, hole)) => Ok(
            (
                if d.restore_position {
                    pos
                } else {
                    after
                },
                hole,
            ),
        ),
    }
}

/// The first pass over the fields of a scope that begins at `pos`.
pub fn write_inline(
    ctx: &WriteCtx,
    fields: &Vec<FieldDirective>,
    items: &Vec<Value>,
    buf: &mut Vec<u8>,
    pos: usize,
) -> (r: Result<(usize, Vec<Slot>), Error>)
    ensures
        drafted(r, *final(buf)) == winline_model(
            ctx@,
            fields@,
            models(items@),
            0,
            old(buf)@,
            pos as nat,
            Seq::empty(),
        ),
    decreases ctx.ty, 5nat, 0nat,
{
    let mut seen: Vec<Value> = Vec::new();
    let mut registry: Vec<Slot> = Vec::new();
    let mut at: usize = pos;
    let mut i: usize = 0;
    while i < fields.len()
        invariant
            i <= fields.len(),
            i <= items.len(),
            models(seen@) == models(items@).subrange(0, i as int),
            winline_model(ctx@, fields@, models(items@), i as nat, buf@, at as nat, registry@)
                == winline_model(
                ctx@,
                fields@,
                models(items@),
                0,
                old(buf)@,
                pos as nat,
                Seq::empty(),
            ),
        decreases fields.len() - i,
    {
        if i >= items.len() {
            return Err(Error::violation(Violation::ShapeMismatch));
        }
        match write_field(ctx, &fields[i], &items[i], buf, at, &seen) {
            Err(e) => {
                return Err(e);
            },
            Ok((p, hole)) => {
                if let Some(h) = hole {
                    registry.push(Slot { index: i, hole: h });
                }
                at = p;
                let ghost before = models(seen@);
                let copy = items[i].duplicate();
                let ghost added = copy@;
                seen.push(copy);
                assert(models(seen@) =~= before.push(added));
            },
        }
        i += 1;
    }
    Ok((at, registry))
}

/// The reference that points from the base of a field to `pos`.
pub fn eval_pointer(
    offset: &Option<Expr>,
    siblings: &Vec<Value>,
    args: &Vec<Value>,
    base: usize,
    pos: usize,
    width: usize,
) -> (r: Result<i128, Error>)
    ensures
        match r {
            Ok(pointer) => pointer_model(
                base_model(*offset, models(siblings@), models(args@), base as nat),
                pos as nat,
                width as nat,
            ) == Ok::<int, ErrorModel>(pointer as int),
            Err(e) => pointer_model(
                base_model(*offset, models(siblings@), models(args@), base as nat),
                pos as nat,
                width as nat,
            ) == Err::<int, ErrorModel>(e@),
        },
{
    if width == 0 || width > MAX_WIDTH {
        return Err(Error::violation(Violation::BadWidth));
    }
    let from: Result<i128, Violation> = match offset {
        None => Ok(base as i128),
        Some(e) => match eval(e, siblings, args, None) {
            Ok(Value::Int(b)) => Ok(b),
            Ok(_) => Err(Violation::TypeMismatch),
            Err(x) => Err(x),
        },
    };
    proof {
        crate::codec::lemma_span_grows(width as nat, 8);
        crate::codec::lemma_span_values();
    }
    match from {
        Err(x) => Err(Error::violation(x)),
        Ok(b) => match (pos as i128).checked_sub(b) {
            Some(pointer) => {
                if crate::codec::fits(pointer, width, false) {
                    Ok(pointer)
                } else {
                    Err(Error::violation(Violation::Overflow))
                }
            },
            None => Err(Error::violation(Violation::Overflow)),
        },
    }
}

/// The second pass over a scope: writes the value of each waiting reference
/// and fills the place kept free for it.
pub fn write_patches(
    ctx: &WriteCtx,
    fields: &Vec<FieldDirective>,
    items: &Vec<Value>,
    registry: &Vec<Slot>,
    buf: &mut Vec<u8>,
    pos: usize,
) -> (r: Result<usize, Error>)
    ensures
        written(r, *final(buf)) == wpatch_model(
            ctx@,
            fields@,
            models(items@),
            registry@,
            0,
            old(buf)@,
            pos as nat,
        ),
    decreases ctx.ty, 5nat, 0nat,
{
    let mut at: usize = pos;
    let mut k: usize = 0;
    while k < registry.len()
        invariant
            k <= registry.len(),
            wpatch_model(ctx@, fields@, models(items@), registry@, k as nat, buf@, at as nat)
                == wpatch_model(
                ctx@,
                fields@,
                models(items@),
                registry@,
                0,
                old(buf)@,
                pos as nat,
            ),
        decreases registry.len() - k,
    {
        let slot = registry[k];
        let index = slot.index;
        if index < fields.len() && index < items.len() {
            let d = &fields[index];
            match &d.kind {
                FieldKind::Pointer { width, target } => {
                    let pointer = match eval_pointer(
                        &d.offset,
                        items,
                        ctx.args,
                        ctx.base,
                        at,
                        *width,
                    ) {
                        Err(e) => {
                            return Err(e);
                        },
                        Ok(pointer) => pointer,
                    };
                    let bytes = match encode_int(pointer, *width, false, slot.hole.order) {
                        Err(x) => {
                            return Err(Error::violation(x));
                        },
                        Ok(bytes) => bytes,
                    };
                    match put(buf, slot.hole.at, &bytes) {
                        Err(e) => {
                            return Err(e);
                        },
                        Ok(_) => {},
                    }
                    match write_shape(
                        ctx,
                        target,
                        slot.hole.order,
                        &items[index],
                        buf,
                        at,
                        items,
                    ) {
                        Err(e) => {
                            return Err(e);
                        },
                        Ok(p) => {
                            at = p;
                        },
                    }
                },
                FieldKind::Plain(_) => {},
            }
        }
        k += 1;
    }
    Ok(at)
}

/// Writes the fields of a scope from `pos` on.
pub fn write_scope(
    ctx: &WriteCtx,
    scope: &Scope,
    items: &Vec<Value>,
    buf: &mut Vec<u8>,
    pos: usize,
) -> (r: Result<usize, Error>)
    ensures
        written(r, *final(buf)) == wscope_model(
            ctx@,
            *scope,
            models(items@),
            old(buf)@,
            pos as nat,
        ),
    decreases ctx.ty, 6nat, 0nat,
{
    if items.len() != scope.fields.len() {
        return Err(Error::violation(Violation::ShapeMismatch));
    }
    match write_inline(ctx, &scope.fields, items, buf, pos) {
        Err(e) => Err(e),
        Ok((p, registry)) => write_patches(ctx, &scope.fields, items, &registry, buf, p),
    }
}

/// Writes a value of the type at index `ty` of the schema from `pos` on, in
/// the byte order `order` unless the layout overrides it, with references
/// relative to `base` unless a field says otherwise, and with the arguments
/// `args`.
///
/// Returns the position after the value. Where it fails, the buffer may hold
/// part of the value.
pub fn write_type(
    schema: &Schema,
    ty: usize,
    v: &Value,
    buf: &mut Vec<u8>,
    pos: usize,
    order: ByteOrder,
    base: usize,
    args: &Vec<Value>,
) -> (r: Result<usize, Error>)
    ensures
        written(r, *final(buf)) == wtype_model(
            *schema,
            ty as nat,
            v@,
            old(buf)@,
            pos as nat,
            order,
            base as nat,
            models(args@),
        ),
    decreases ty, 7nat, 0nat,
{
    if ty >= schema.types.len() {
        return Err(Error::violation(Violation::UnknownType));
    }
    if args.len() != schema.types[ty].imports {
        return Err(Error::violation(Violation::ArityMismatch));
    }
    let (tag, items) = match v {
        Value::Record(tag, items) => (*tag, items),
        _ => {
            return Err(Error::violation(Violation::ShapeMismatch));
        },
    };
    proof {
        lemma_view_items(tag, *items);
    }
    let d = &schema.types[ty];
    let steps = build_type_prelude(d);
    let (p, o) = match write_prelude(&steps, buf, pos, order, args) {
        Err(e) => {
            return Err(e);
        },
        Ok(entered) => entered,
    };
    match &d.body {
        Body::Struct(scope) => {
            if tag != 0 {
                Err(Error::violation(Violation::ShapeMismatch))
            } else {
                let ctx = WriteCtx { schema, ty, order: o, base, args };
                write_scope(&ctx, scope, items, buf, p)
            }
        },
        Body::Enum(variants, _) => {
            if tag >= variants.len() {
                Err(Error::violation(Violation::ShapeMismatch))
            } else {
                let variant = &variants[tag];
                let steps = build_variant_prelude(variant);
                match write_prelude(&steps, buf, p, o, args) {
                    Err(e) => Err(e),
                    Ok((next, o2)) => {
                        let ctx = WriteCtx { schema, ty, order: o2, base, args };
                        write_scope(&ctx, &variant.scope, items, buf, next)
                    },
                }
            }
        },
    }
}

} // verus!

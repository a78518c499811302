//! What a schema that passed its check can no longer fail with: reading a
//! type of such a schema never ends in a violation that the check looks
//! for, whatever the bytes.

use crate::directive::{
    asserts_model, base_model, count_model, eval_all_model, mapped_model, prelude_model,
    target_model, type_prelude, variant_prelude,
};
use crate::endian::ByteOrder;
use crate::error::{ErrorModel, Violation};
use crate::expr::{eval_model, Expr};
use crate::reader::{
    deferred_model, deref_model, field_model, inline_model, inline_shape, made_model,
    produced_model, repeat_model, scope_model, select_model, shape_model, type_model, variant_model,
    Frame, Pending,
};
use crate::schema::{
    override_model, Assertion, Body, CondEndian, FieldDirective, Mode, Schema, Scope, Shape,
    TypeDescriptor, VariantDescriptor,
};
use crate::validate::{
    expr_offence, map_offence, asserts_offence, endian_offence, exprs_offence, field_offence,
    fields_offence, offset_view, option_offence, schema_offence, scope_offence, shape_offence,
    type_offence, variants_offence, well_formed,
};
use crate::value::ValueModel;
use vstd::prelude::*;

verus! {

/// A violation that the check of a schema looks for.
pub open spec fn foreseen(x: Violation) -> bool {
    x == Violation::UnknownType || x == Violation::BadWidth || x == Violation::ArityMismatch || x
        == Violation::ForwardReference
}

/// An error that the check of a schema rules out.
pub open spec fn ruled_out(e: ErrorModel) -> bool {
    e is ContractViolation && foreseen(e->ContractViolation_description)
}

/// Whether a step ended well, or in an error that the check of a schema does
/// not rule out.
pub open spec fn clean<T>(r: Result<T, ErrorModel>) -> bool {
    r is Err ==> !ruled_out(r->Err_0)
}

/// Whether an evaluation ended well, or in a violation that the check of a
/// schema does not look for.
pub open spec fn fair<T>(r: Result<T, Violation>) -> bool {
    r is Err ==> !foreseen(r->Err_0)
}

/// Every type of the schema passes the check.
pub open spec fn sound_types(schema: Schema) -> bool {
    forall|t: int|
        0 <= t < schema.types@.len() ==> type_offence(
            schema,
            t as nat,
            #[trigger] schema.types@[t],
        ) is None
}

/// A frame in which a scope of a checked schema is read: the type is one of
/// the schema, and it is passed as many arguments as it imports.
pub open spec fn sound_frame(f: Frame) -> bool {
    &&& sound_types(f.schema)
    &&& f.ty < f.schema.types@.len()
    &&& f.args.len() == f.schema.types@[f.ty as int].imports
    &&& f.data.len() <= usize::MAX
}

/// In a schema that is well formed, every type passes the check.
pub proof fn lemma_well_formed_types(schema: Schema, t: nat)
    requires
        schema_offence(schema, t) is None,
    ensures
        forall|u: int|
            t <= u < schema.types@.len() ==> type_offence(
                schema,
                u as nat,
                #[trigger] schema.types@[u],
            ) is None,
    decreases schema.types@.len() - t,
{
    if t < schema.types@.len() {
        lemma_well_formed_types(schema, t + 1);
    }
}

/// No field from the `i`-th on has anything wrong with it where the fields
/// from the `i`-th on have not.
pub proof fn lemma_fields_each(
    schema: Schema,
    bound: nat,
    fields: Seq<FieldDirective>,
    i: nat,
    imports: nat,
)
    requires
        fields_offence(schema, bound, fields, i, imports) is None,
    ensures
        forall|j: int|
            i <= j < fields.len() ==> field_offence(
                schema,
                bound,
                #[trigger] fields[j],
                j as nat,
                fields.len(),
                imports,
            ) is None,
    decreases fields.len() - i,
{
    if i < fields.len() {
        lemma_fields_each(schema, bound, fields, i + 1, imports);
    }
}

/// No variant from the `k`-th on has anything wrong with it where the
/// variants from the `k`-th on have not.
pub proof fn lemma_variants_each(
    schema: Schema,
    bound: nat,
    variants: Seq<VariantDescriptor>,
    k: nat,
    imports: nat,
)
    requires
        variants_offence(schema, bound, variants, k, imports) is None,
    ensures
        forall|j: int|
            k <= j < variants.len() ==> endian_offence((#[trigger] variants[j]).endian, 0, imports)
                is None && scope_offence(schema, bound, variants[j].scope, imports) is None,
    decreases variants.len() - k,
{
    if k < variants.len() {
        lemma_variants_each(schema, bound, variants, k + 1, imports);
    }
}

/// An expression that the check let through never fails with a violation
/// that the check looks for, where it is evaluated with the siblings and the
/// arguments that the check counted on.
pub proof fn lemma_checked_expr(
    e: Expr,
    visible: nat,
    imports: nat,
    siblings: Seq<ValueModel>,
    args: Seq<ValueModel>,
    this: Option<ValueModel>,
)
    requires
        expr_offence(e, visible, imports) is None,
        visible <= siblings.len(),
        imports <= args.len(),
    ensures
        fair(eval_model(e, siblings, args, this)),
    decreases e,
{
    reveal(eval_model);
    match e {
        Expr::Len(a) => {
            lemma_checked_expr(*a, visible, imports, siblings, args, this);
        },
        Expr::Not(a) => {
            lemma_checked_expr(*a, visible, imports, siblings, args, this);
        },
        Expr::OrElse(a, b) => {
            lemma_checked_expr(*a, visible, imports, siblings, args, this);
            lemma_checked_expr(*b, visible, imports, siblings, args, this);
        },
        Expr::Add(a, b) => {
            lemma_checked_expr(*a, visible, imports, siblings, args, this);
            lemma_checked_expr(*b, visible, imports, siblings, args, this);
        },
        Expr::Sub(a, b) => {
            lemma_checked_expr(*a, visible, imports, siblings, args, this);
            lemma_checked_expr(*b, visible, imports, siblings, args, this);
        },
        Expr::Mul(a, b) => {
            lemma_checked_expr(*a, visible, imports, siblings, args, this);
            lemma_checked_expr(*b, visible, imports, siblings, args, this);
        },
        Expr::Eq(a, b) => {
            lemma_checked_expr(*a, visible, imports, siblings, args, this);
            lemma_checked_expr(*b, visible, imports, siblings, args, this);
        },
        Expr::Lt(a, b) => {
            lemma_checked_expr(*a, visible, imports, siblings, args, this);
            lemma_checked_expr(*b, visible, imports, siblings, args, this);
        },
        Expr::And(a, b) => {
            lemma_checked_expr(*a, visible, imports, siblings, args, this);
            lemma_checked_expr(*b, visible, imports, siblings, args, this);
        },
        _ => {},
    }
}

/// A field with nothing wrong has nothing wrong in any of its parts.
pub proof fn lemma_field_parts(
    schema: Schema,
    bound: nat,
    d: FieldDirective,
    index: nat,
    total: nat,
    imports: nat,
)
    requires
        field_offence(schema, bound, d, index, total, imports) is None,
    ensures
        endian_offence(d.endian, index, imports) is None,
        option_offence(d.condition, index, imports) is None,
        option_offence(d.calc, index, imports) is None,
        option_offence(d.count, index, imports) is None,
        map_offence(d.map, index, imports) is None,
        option_offence(d.offset, offset_view(d, index, total), imports) is None,
        shape_offence(schema, bound, inline_shape(d.kind), index, imports) is None,
        d.kind is Pointer ==> shape_offence(
            schema,
            bound,
            d.kind->Pointer_target,
            offset_view(d, index, total),
            imports,
        ) is None,
{
    reveal(field_offence);
}

/// Expressions that the check let through never fail on the order of the
/// fields or on the number of the arguments.
pub proof fn lemma_checked_exprs(
    exprs: Seq<Expr>,
    k: nat,
    visible: nat,
    imports: nat,
    siblings: Seq<ValueModel>,
    args: Seq<ValueModel>,
    acc: Seq<ValueModel>,
)
    requires
        exprs_offence(exprs, k, visible, imports) is None,
        visible <= siblings.len(),
        imports <= args.len(),
    ensures
        fair(eval_all_model(exprs, k, siblings, args, acc)),
        eval_all_model(exprs, k, siblings, args, acc) is Ok ==> eval_all_model(
            exprs,
            k,
            siblings,
            args,
            acc,
        )->Ok_0.len() == acc.len() + if k <= exprs.len() {
            exprs.len() - k
        } else {
            0
        },
    decreases exprs.len() - k,
{
    reveal(eval_all_model);
    if k < exprs.len() {
        lemma_checked_expr(exprs[k as int], visible, imports, siblings, args, None);
        let r = eval_model(exprs[k as int], siblings, args, None);
        if r is Ok {
            lemma_checked_exprs(exprs, k + 1, visible, imports, siblings, args, acc.push(r->Ok_0));
        }
    }
}

/// An expression that may not be declared, and that the check let through,
/// never fails on the order of the fields or on the number of the arguments.
pub proof fn lemma_checked_option(
    e: Option<Expr>,
    visible: nat,
    imports: nat,
    siblings: Seq<ValueModel>,
    args: Seq<ValueModel>,
    this: Option<ValueModel>,
)
    requires
        option_offence(e, visible, imports) is None,
        visible <= siblings.len(),
        imports <= args.len(),
    ensures
        e is Some ==> fair(eval_model(e->0, siblings, args, this)),
{
    if e is Some {
        lemma_checked_expr(e->0, visible, imports, siblings, args, this);
    }
}

/// An override that the check let through evaluates fairly.
pub proof fn lemma_checked_endian(
    endian: CondEndian,
    visible: nat,
    imports: nat,
    siblings: Seq<ValueModel>,
    args: Seq<ValueModel>,
)
    requires
        endian_offence(endian, visible, imports) is None,
        visible <= siblings.len(),
        imports <= args.len(),
    ensures
        fair(override_model(endian, siblings, args)),
{
    match endian {
        CondEndian::Cond(_, condition) => {
            lemma_checked_expr(condition, visible, imports, siblings, args, None);
        },
        _ => {},
    }
}

/// The prelude of a type that the check let through ends cleanly.
pub proof fn lemma_checked_type_prelude(
    d: TypeDescriptor,
    data: Seq<u8>,
    pos: nat,
    order: ByteOrder,
    args: Seq<ValueModel>,
)
    requires
        endian_offence(d.endian, 0, d.imports as nat) is None,
        args.len() == d.imports,
    ensures
        clean(prelude_model(type_prelude(&d), 0, data, pos, order, args)),
{
    reveal_with_fuel(prelude_model, 4);
    lemma_checked_endian(d.endian, 0, d.imports as nat, Seq::empty(), args);
}

/// The prelude of a variant that the check let through ends cleanly.
pub proof fn lemma_checked_variant_prelude(
    v: VariantDescriptor,
    imports: nat,
    data: Seq<u8>,
    pos: nat,
    order: ByteOrder,
    args: Seq<ValueModel>,
)
    requires
        endian_offence(v.endian, 0, imports) is None,
        imports <= args.len(),
    ensures
        clean(prelude_model(variant_prelude(&v), 0, data, pos, order, args)),
{
    reveal_with_fuel(prelude_model, 3);
    lemma_checked_endian(v.endian, 0, imports, Seq::empty(), args);
}

/// The assertions that the check let through end cleanly.
pub proof fn lemma_checked_asserts(
    asserts: Seq<Assertion>,
    k: nat,
    total: nat,
    imports: nat,
    siblings: Seq<ValueModel>,
    args: Seq<ValueModel>,
    pos: nat,
)
    requires
        asserts_offence(asserts, k, total, imports) is None,
        total <= siblings.len(),
        imports <= args.len(),
    ensures
        clean(asserts_model(asserts, k, siblings, args, pos)),
    decreases asserts.len() - k,
{
    reveal(asserts_model);
    if k < asserts.len() {
        let a = asserts[k as int];
        lemma_checked_expr(a.condition, total, imports, siblings, args, None);
        lemma_checked_exprs(a.payload@, 0, total, imports, siblings, args, Seq::empty());
        lemma_checked_asserts(asserts, k + 1, total, imports, siblings, args, pos);
    }
}

/// A shape that the check let through is read cleanly.
pub proof fn lemma_sound_shape(
    f: Frame,
    shape: Shape,
    order: ByteOrder,
    pos: nat,
    siblings: Seq<ValueModel>,
    visible: nat,
)
    requires
        sound_frame(f),
        shape_offence(f.schema, f.ty, shape, visible, f.args.len()) is None,
        visible <= siblings.len(),
    ensures
        clean(shape_model(f, shape, order, pos, siblings)),
    decreases f.ty, 0nat, 0nat,
{
    match shape {
        Shape::Int { .. } => {},
        Shape::Nested { ty, args } => {
            lemma_checked_exprs(args@, 0, visible, f.args.len(), siblings, f.args, Seq::empty());
            let passed = eval_all_model(args@, 0, siblings, f.args, Seq::empty());
            if passed is Ok {
                lemma_sound_type(f.schema, f.data, ty as nat, pos, order, f.base, passed->Ok_0);
            }
        },
    }
}

/// The elements of a shape that the check let through are read cleanly.
pub proof fn lemma_sound_repeat(
    f: Frame,
    shape: Shape,
    order: ByteOrder,
    pos: nat,
    siblings: Seq<ValueModel>,
    visible: nat,
    n: nat,
    acc: Seq<ValueModel>,
)
    requires
        sound_frame(f),
        shape_offence(f.schema, f.ty, shape, visible, f.args.len()) is None,
        visible <= siblings.len(),
    ensures
        clean(repeat_model(f, shape, order, pos, siblings, n, acc)),
    decreases f.ty, 1nat, n - acc.len(),
{
    if acc.len() < n {
        lemma_sound_shape(f, shape, order, pos, siblings, visible);
        let r = shape_model(f, shape, order, pos, siblings);
        if r is Ok {
            lemma_sound_repeat(f, shape, order, r->Ok_0.1, siblings, visible, n, acc.push(r->Ok_0.0));
        }
    }
}

/// The reference of a field that the check let through is followed cleanly.
pub proof fn lemma_sound_deref(
    f: Frame,
    d: FieldDirective,
    order: ByteOrder,
    pointer: int,
    siblings: Seq<ValueModel>,
    index: nat,
    total: nat,
)
    requires
        sound_frame(f),
        field_offence(f.schema, f.ty, d, index, total, f.args.len()) is None,
        offset_view(d, index, total) <= siblings.len(),
    ensures
        clean(deref_model(f, d, order, pointer, siblings)),
    decreases f.ty, 1nat, 0nat,
{
    let view = offset_view(d, index, total);
    lemma_field_parts(f.schema, f.ty, d, index, total, f.args.len());
    lemma_checked_option(d.offset, view, f.args.len(), siblings, f.args, None);
    if d.kind is Pointer {
        let target = target_model(base_model(d.offset, siblings, f.args, f.base), pointer);
        if target is Ok {
            lemma_sound_shape(f, d.kind->Pointer_target, order, target->Ok_0, siblings, view);
        }
    }
}

/// What a field that the check let through makes, it makes cleanly.
pub proof fn lemma_sound_made(
    f: Frame,
    d: FieldDirective,
    order: ByteOrder,
    pos: nat,
    siblings: Seq<ValueModel>,
    total: nat,
)
    requires
        sound_frame(f),
        field_offence(f.schema, f.ty, d, siblings.len(), total, f.args.len()) is None,
    ensures
        clean(made_model(f, d, order, pos, siblings)),
    decreases f.ty, 2nat, 0nat,
{
    let index = siblings.len();
    lemma_field_parts(f.schema, f.ty, d, index, total, f.args.len());
    lemma_checked_option(d.calc, index, f.args.len(), siblings, f.args, None);
    lemma_checked_option(d.count, index, f.args.len(), siblings, f.args, None);
    let shape = inline_shape(d.kind);
    if !d.default_flag && d.calc is None && d.parser is None {
        if d.count is Some {
            let n = count_model(d.count->0, siblings, f.args);
            if n is Ok {
                lemma_sound_repeat(f, shape, order, pos, siblings, index, n->Ok_0, Seq::empty());
            }
        } else {
            lemma_sound_shape(f, shape, order, pos, siblings, index);
        }
    }
}

/// What a field that the check let through produces, it produces cleanly.
pub proof fn lemma_sound_produced(
    f: Frame,
    d: FieldDirective,
    order: ByteOrder,
    pos: nat,
    siblings: Seq<ValueModel>,
    total: nat,
)
    requires
        sound_frame(f),
        siblings.len() <= total,
        field_offence(f.schema, f.ty, d, siblings.len(), total, f.args.len()) is None,
    ensures
        clean(produced_model(f, d, order, pos, siblings)),
    decreases f.ty, 3nat, 0nat,
{
    let index = siblings.len();
    lemma_field_parts(f.schema, f.ty, d, index, total, f.args.len());
    lemma_sound_made(f, d, order, pos, siblings, total);
    let made = made_model(f, d, order, pos, siblings);
    if made is Ok {
        if d.map is Some {
            lemma_checked_expr(
                d.map->0.forward,
                index,
                f.args.len(),
                siblings,
                f.args,
                Some(made->Ok_0.0),
            );
        }
        let v = mapped_model(d.map, made->Ok_0.0, siblings, f.args);
        if v is Ok && d.timing == crate::schema::Timing::Inline {
            if v->Ok_0 is Int {
                lemma_sound_deref(f, d, order, v->Ok_0->Int_0, siblings, index, total);
            }
        }
    }
}

/// A field that the check let through is read cleanly.
pub proof fn lemma_sound_field(
    f: Frame,
    d: FieldDirective,
    pos: nat,
    siblings: Seq<ValueModel>,
    total: nat,
)
    requires
        sound_frame(f),
        siblings.len() <= total,
        field_offence(f.schema, f.ty, d, siblings.len(), total, f.args.len()) is None,
    ensures
        clean(field_model(f, d, pos, siblings)),
    decreases f.ty, 4nat, 0nat,
{
    let index = siblings.len();
    lemma_field_parts(f.schema, f.ty, d, index, total, f.args.len());
    lemma_checked_endian(d.endian, index, f.args.len(), siblings, f.args);
    lemma_checked_option(d.condition, index, f.args.len(), siblings, f.args, None);
    let level = override_model(d.endian, siblings, f.args);
    let start = crate::stream::padded(pos, d.pad_before as nat, d.align_before as nat);
    if start is Ok && level is Ok {
        let body = crate::stream::magic_passed(f.data, start->Ok_0, d.magic);
        if body is Ok {
            lemma_sound_produced(
                f,
                d,
                crate::endian::overridden(level->Ok_0, f.order),
                body->Ok_0,
                siblings,
                total,
            );
        }
    }
}

/// The first pass over fields that the check let through ends cleanly, with
/// one value for every field.
pub proof fn lemma_sound_inline(
    f: Frame,
    fields: Seq<FieldDirective>,
    i: nat,
    pos: nat,
    siblings: Seq<ValueModel>,
    registry: Seq<Pending>,
)
    requires
        sound_frame(f),
        siblings.len() == i <= fields.len(),
        fields_offence(f.schema, f.ty, fields, 0, f.args.len()) is None,
    ensures
        clean(inline_model(f, fields, i, pos, siblings, registry)),
    decreases f.ty, 5nat, fields.len() - i,
{
    if i < fields.len() {
        lemma_fields_each(f.schema, f.ty, fields, 0, f.args.len());
        lemma_sound_field(f, fields[i as int], pos, siblings, fields.len());
        let out = field_model(f, fields[i as int], pos, siblings);
        if out is Ok {
            let waiting = if out->Ok_0.deferred {
                registry.push(Pending { index: i as usize, order: out->Ok_0.order })
            } else {
                registry
            };
            lemma_sound_inline(f, fields, i + 1, out->Ok_0.pos, siblings.push(out->Ok_0.value), waiting);
        }
    }
}

/// The second pass over fields that the check let through ends cleanly.
pub proof fn lemma_sound_deferred(
    f: Frame,
    fields: Seq<FieldDirective>,
    registry: Seq<Pending>,
    k: nat,
    siblings: Seq<ValueModel>,
)
    requires
        sound_frame(f),
        siblings.len() == fields.len(),
        fields_offence(f.schema, f.ty, fields, 0, f.args.len()) is None,
    ensures
        clean(deferred_model(f, fields, registry, k, siblings)),
    decreases f.ty, 5nat, registry.len() - k,
{
    if k < registry.len() {
        let index = registry[k as int].index as int;
        if 0 <= index < fields.len() && index < siblings.len() && siblings[index] is Int {
            lemma_fields_each(f.schema, f.ty, fields, 0, f.args.len());
            lemma_sound_deref(
                f,
                fields[index],
                registry[k as int].order,
                siblings[index]->Int_0,
                siblings,
                index as nat,
                fields.len(),
            );
            let target = deref_model(
                f,
                fields[index],
                registry[k as int].order,
                siblings[index]->Int_0,
                siblings,
            );
            if target is Ok {
                lemma_sound_deferred(f, fields, registry, k + 1, siblings.update(index, target->Ok_0));
            }
        } else {
            lemma_sound_deferred(f, fields, registry, k + 1, siblings);
        }
    }
}

/// A scope that the check let through is read cleanly.
pub proof fn lemma_sound_scope(f: Frame, scope: Scope, tag: nat, pos: nat)
    requires
        sound_frame(f),
        scope_offence(f.schema, f.ty, scope, f.args.len()) is None,
    ensures
        clean(scope_model(f, scope, tag, pos)),
    decreases f.ty, 6nat, 0nat,
{
    let fields = scope.fields@;
    lemma_sound_inline(f, fields, 0, pos, Seq::empty(), Seq::empty());
    let first = inline_model(f, fields, 0, pos, Seq::empty(), Seq::empty());
    if first is Ok {
        crate::laws::lemma_inline_gathers_all(f, fields, 0, pos, Seq::empty(), Seq::empty());
        lemma_sound_deferred(f, fields, first->Ok_0.registry, 0, first->Ok_0.siblings);
        let second = deferred_model(f, fields, first->Ok_0.registry, 0, first->Ok_0.siblings);
        if second is Ok {
            crate::laws::lemma_deferred_keeps_all(
                f,
                fields,
                first->Ok_0.registry,
                0,
                first->Ok_0.siblings,
            );
            lemma_checked_asserts(
                scope.asserts@,
                0,
                fields.len(),
                f.args.len(),
                second->Ok_0,
                f.args,
                pos,
            );
        }
    }
}

/// A variant that the check let through is read cleanly.
pub proof fn lemma_sound_variant(f: Frame, v: VariantDescriptor, tag: nat, pos: nat)
    requires
        sound_frame(f),
        endian_offence(v.endian, 0, f.args.len()) is None,
        scope_offence(f.schema, f.ty, v.scope, f.args.len()) is None,
    ensures
        clean(variant_model(f, v, tag, pos)),
    decreases f.ty, 7nat, 0nat,
{
    lemma_checked_variant_prelude(v, f.args.len(), f.data, pos, f.order, f.args);
    let entered = prelude_model(variant_prelude(&v), 0, f.data, pos, f.order, f.args);
    if entered is Ok {
        let inner = Frame {
            schema: f.schema,
            data: f.data,
            ty: f.ty,
            order: entered->Ok_0.1,
            base: f.base,
            args: f.args,
        };
        lemma_sound_scope(inner, v.scope, tag, entered->Ok_0.0);
    }
}

/// Whether each of the errors is one that the check does not rule out.
pub open spec fn all_clean(errors: Seq<ErrorModel>) -> bool {
    forall|i: int| 0 <= i < errors.len() ==> !ruled_out(#[trigger] errors[i])
}

/// The choice among variants that the check let through ends cleanly.
pub proof fn lemma_sound_select(
    f: Frame,
    variants: Seq<VariantDescriptor>,
    mode: Mode,
    pos: nat,
    k: nat,
    errors: Seq<ErrorModel>,
)
    requires
        sound_frame(f),
        variants_offence(f.schema, f.ty, variants, 0, f.args.len()) is None,
        all_clean(errors),
    ensures
        clean(select_model(f, variants, mode, pos, k, errors)),
    decreases f.ty, 8nat, variants.len() - k,
{
    if k < variants.len() {
        lemma_variants_each(f.schema, f.ty, variants, 0, f.args.len());
        lemma_sound_variant(f, variants[k as int], k, pos);
        let tried = variant_model(f, variants[k as int], k, pos);
        if tried is Err {
            lemma_sound_select(f, variants, mode, pos, k + 1, errors.push(tried->Err_0));
        }
    }
}

/// Reading a type of a schema every type of which passes the check never
/// ends in a violation that the check looks for, where the type is passed
/// as many arguments as it imports or is not a type of the schema at all.
pub proof fn lemma_sound_type(
    schema: Schema,
    data: Seq<u8>,
    ty: nat,
    pos: nat,
    order: ByteOrder,
    base: nat,
    args: Seq<ValueModel>,
)
    requires
        sound_types(schema),
        data.len() <= usize::MAX,
        ty < schema.types@.len(),
        args.len() == schema.types@[ty as int].imports,
    ensures
        clean(type_model(schema, data, ty, pos, order, base, args)),
    decreases ty, 9nat, 0nat,
{
    let d = schema.types@[ty as int];
    lemma_checked_type_prelude(d, data, pos, order, args);
    let entered = prelude_model(type_prelude(&d), 0, data, pos, order, args);
    if entered is Ok {
        let f = Frame { schema, data, ty, order: entered->Ok_0.1, base, args };
        match d.body {
            Body::Struct(scope) => {
                lemma_sound_scope(f, scope, 0, entered->Ok_0.0);
            },
            Body::Enum(variants, mode) => {
                lemma_sound_select(f, variants@, mode, entered->Ok_0.0, 0, Seq::empty());
            },
        }
    }
}

/// What the check is for: reading a type of a well-formed schema with as
/// many arguments as the type imports never ends in an unknown type, a bad
/// width, a wrong number of arguments or a forward reference.
pub proof fn lemma_checked_schema_reads_cleanly(
    schema: Schema,
    data: Seq<u8>,
    ty: nat,
    pos: nat,
    order: ByteOrder,
    base: nat,
    args: Seq<ValueModel>,
)
    requires
        well_formed(schema),
        data.len() <= usize::MAX,
        ty < schema.types@.len(),
        args.len() == schema.types@[ty as int].imports,
    ensures
        clean(type_model(schema, data, ty, pos, order, base, args)),
{
    lemma_well_formed_types(schema, 0);
    lemma_sound_type(schema, data, ty, pos, order, base, args);
}

} // verus!

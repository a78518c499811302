//! What holds of the engine as a whole: the precedence of byte-order
//! overrides along the pipeline, what each pass over a scope sees, what a
//! tried field absorbs, what a choice among variants reports, and that a
//! layout that loses nothing writes back the bytes that it read.
//!
//! A layout loses something where a field is rewound after it is read, is a
//! reference, or is mapped by a mapping that its inverse does not undo; and
//! bytes are lost where padding that is skipped is not all zero.

use crate::codec::lemma_bytes_round_trip;
use crate::directive::{
    condition_model, count_model, eval_all_model, prelude_model, step_model, type_prelude,
    variant_prelude,
};
use crate::endian::{overridden, precedence, settled, ByteOrder, Endian};
use crate::error::{ErrorModel, Violation};
use crate::expr::{eval_model, Expr};
use crate::prelude::Step;
use crate::reader::{
    inline_shape,    deferred_model, failure_model, field_model, inline_model, made_model, produced_model,
    repeat_model, scope_model, select_model, shape_model, type_model, variant_model, Frame, Pending,
};
use crate::schema::{
    override_model, Body, Mapping, Parser, TypeDescriptor, FieldDirective, FieldKind, Mode, Schema, Scope, Shape,
    VariantDescriptor,
};
use crate::sink::{
    as_bytes, parser_write_model, magic_write_model, overlaid, pad_write_model, put_model, zeros,
};
use crate::stream::{byte_values, lemma_zero_from, magic_passed, padded, parser_read, zero_from};
use crate::value::ValueModel;
use crate::writer::{
    prelude_write_model, wfield_model, winline_model, wmade_model, wproduced_model, wrepeat_model,
    wscope_model, wshape_model, wtype_model, Desk, Drafted, Slot,
};
use vstd::prelude::*;

verus! {

/// A value that the engine can hold: where it is an integer, one of the
/// widest width.
pub open spec fn within(x: ValueModel) -> bool {
    x is Int ==> i128::MIN <= x->Int_0 <= i128::MAX
}

/// Values each of which the engine can hold.
pub open spec fn all_within(items: Seq<ValueModel>) -> bool {
    forall|i: int| 0 <= i < items.len() ==> within(#[trigger] items[i])
}

/// A mapping that loses nothing: it has an inverse, and the inverse gives
/// back every value that the mapping maps, whatever the scope.
pub open spec fn undone(m: Mapping) -> bool {
    &&& m.inverse is Some
    &&& forall|x: ValueModel, siblings: Seq<ValueModel>, args: Seq<ValueModel>|
        #![trigger eval_model(m.forward, siblings, args, Some(x))]
        within(x) && all_within(siblings) && all_within(args) && eval_model(
            m.forward,
            siblings,
            args,
            Some(x),
        ) is Ok ==> eval_model(
            m.inverse->0,
            siblings,
            args,
            Some(eval_model(m.forward, siblings, args, Some(x))->Ok_0),
        ) == Ok::<ValueModel, Violation>(x)
}

/// The mapping that adds a constant, with the mapping that subtracts it as
/// its inverse.
pub open spec fn shift(c: i128) -> Mapping {
    Mapping {
        forward: Expr::Add(Box::new(Expr::This), Box::new(Expr::Int(c))),
        inverse: Some(Expr::Sub(Box::new(Expr::This), Box::new(Expr::Int(c)))),
    }
}

/// Adding a constant loses nothing: subtracting it gives every value back.
pub proof fn lemma_shift_is_undone(c: i128)
    ensures
        undone(shift(c)),
{
    let m = shift(c);
    assert forall|x: ValueModel, siblings: Seq<ValueModel>, args: Seq<ValueModel>|
        within(x) && all_within(siblings) && all_within(args) && (#[trigger] eval_model(
            m.forward,
            siblings,
            args,
            Some(x),
        )) is Ok implies eval_model(
        m.inverse->0,
        siblings,
        args,
        Some(eval_model(m.forward, siblings, args, Some(x))->Ok_0),
    ) == Ok::<ValueModel, Violation>(x) by {
        reveal_with_fuel(eval_model, 3);
    }
}

/// A field that loses nothing: it is not rewound, is no reference, is not
/// both only tried and a default, is not padded before where it is both only
/// tried and conditional, has no mapping but one that its inverse undoes,
/// and where it is of a type of the schema, that type loses nothing.
pub open spec fn lossless_field(schema: Schema, bound: nat, d: FieldDirective) -> bool
    decreases bound, 0nat,
{
    &&& d.try_flag && d.condition is Some ==> d.pad_before == 0 && d.align_before <= 1
    &&& d.map is Some ==> undone(d.map->0)
    &&& !d.restore_position
    &&& d.default_flag ==> !d.try_flag
    &&& match d.kind {
        FieldKind::Plain(Shape::Int { .. }) => true,
        FieldKind::Plain(Shape::Nested { ty, .. }) => ty < bound ==> lossless_type(
            schema,
            ty as nat,
        ),
        FieldKind::Pointer { .. } => false,
    }
}

/// A scope all of whose fields lose nothing.
pub open spec fn lossless_scope(schema: Schema, bound: nat, scope: Scope) -> bool
    decreases bound, 1nat,
{
    forall|i: int|
        0 <= i < scope.fields@.len() ==> lossless_field(schema, bound, #[trigger] scope.fields@[i])
}

/// A type that loses nothing: every field of it, and of each of its
/// variants, loses nothing.
pub open spec fn lossless_type(schema: Schema, ty: nat) -> bool
    decreases ty, 2nat,
{
    ty < schema.types@.len() ==> match schema.types@[ty as int].body {
        Body::Struct(scope) => lossless_scope(schema, ty, scope),
        Body::Enum(variants, _) => forall|k: int|
            0 <= k < variants@.len() ==> lossless_scope(schema, ty, (#[trigger] variants@[k]).scope),
    }
}

/// The frame of a scope, without the bytes.
pub open spec fn desk_of(f: Frame) -> Desk {
    Desk { schema: f.schema, ty: f.ty, order: f.order, base: f.base, args: f.args }
}

/// Bytes laid at the end of a buffer are appended to it.
pub proof fn lemma_put_appends(buf: Seq<u8>, bytes: Seq<u8>)
    requires
        buf.len() + bytes.len() <= usize::MAX,
    ensures
        put_model(buf, buf.len(), bytes) == Ok::<(Seq<u8>, nat), ErrorModel>(
            (buf + bytes, buf.len() + bytes.len()),
        ),
{
    assert(overlaid(buf, buf.len(), bytes) =~= buf + bytes);
}

/// A buffer with the bytes of `data` from `pos` up to `p` after it.
#[verifier::opaque]
pub open spec fn appended(buf: Seq<u8>, data: Seq<u8>, pos: nat, p: nat) -> Seq<u8> {
    buf + data.subrange(pos as int, p as int)
}

/// Appending no bytes leaves the buffer, and appending two runs that meet
/// appends the run that they make.
pub proof fn lemma_appended(buf: Seq<u8>, data: Seq<u8>, a: nat, b: nat, c: nat)
    requires
        a <= b <= c <= data.len(),
    ensures
        appended(buf, data, a, a) == buf,
        appended(buf, data, a, b).len() == buf.len() + (b - a),
        appended(appended(buf, data, a, b), data, b, c) == appended(buf, data, a, c),
{
    reveal(appended);
}

/// Whether the bytes of `data` from `from` up to `to` are all zero.
pub open spec fn blank_run(data: Seq<u8>, from: nat, to: nat) -> bool {
    forall|i: int| from <= i < to ==> #[trigger] data[i] == 0
}

/// Whether the padding that is skipped at `pos` lies within the bytes and is
/// all zero: what a writer fills it with.
pub open spec fn blank_pad(data: Seq<u8>, pos: nat, pad: nat, align: nat) -> bool {
    match padded(pos, pad, align) {
        Ok(start) => start <= data.len() && blank_run(data, pos, start),
        Err(_) => true,
    }
}

/// Padding that is all zero is written back as it was skipped.
pub proof fn lemma_blank_padding(buf: Seq<u8>, data: Seq<u8>, pos: nat, pad: nat, align: nat)
    requires
        buf.len() == pos <= data.len() <= usize::MAX,
        padded(pos, pad, align) is Ok,
        blank_pad(data, pos, pad, align),
    ensures
        pos <= padded(pos, pad, align)->Ok_0 <= data.len(),
        pad_write_model(buf, pos, pad, align) == Ok::<(Seq<u8>, nat), ErrorModel>(
            (
                appended(buf, data, pos, padded(pos, pad, align)->Ok_0),
                padded(pos, pad, align)->Ok_0,
            ),
        ),
{
    reveal(appended);
    let start = padded(pos, pad, align)->Ok_0;
    assert(overlaid(buf, pos, zeros((start - pos) as nat)) =~= buf + data.subrange(
        pos as int,
        start as int,
    ));
}

/// Whether every padding that reading a shape at `pos` skips is all zero.
pub open spec fn blank_shape(
    f: Frame,
    shape: Shape,
    order: ByteOrder,
    pos: nat,
    siblings: Seq<ValueModel>,
) -> bool
    decreases f.ty, 0nat, 0nat,
{
    match shape {
        Shape::Int { .. } => true,
        Shape::Nested { ty, args } => ty < f.ty && eval_all_model(
            args@,
            0,
            siblings,
            f.args,
            Seq::empty(),
        ) is Ok ==> blank_type(
            f.schema,
            f.data,
            ty as nat,
            pos,
            order,
            f.base,
            eval_all_model(args@, 0, siblings, f.args, Seq::empty())->Ok_0,
        ),
    }
}

/// Whether every padding that reading the elements of a count from the
/// `k`-th on skips is all zero.
pub open spec fn blank_repeat(
    f: Frame,
    shape: Shape,
    order: ByteOrder,
    pos: nat,
    siblings: Seq<ValueModel>,
    n: nat,
    k: nat,
) -> bool
    decreases f.ty, 1nat, n - k,
{
    k < n ==> blank_shape(f, shape, order, pos, siblings) && (shape_model(
        f,
        shape,
        order,
        pos,
        siblings,
    ) is Ok ==> blank_repeat(
        f,
        shape,
        order,
        shape_model(f, shape, order, pos, siblings)->Ok_0.1,
        siblings,
        n,
        k + 1,
    ))
}

/// Whether every padding that making the value of a field skips is all zero.
pub open spec fn blank_made(
    f: Frame,
    d: FieldDirective,
    order: ByteOrder,
    pos: nat,
    siblings: Seq<ValueModel>,
) -> bool
    decreases f.ty, 2nat, 0nat,
{
    if d.default_flag || d.calc is Some || d.parser is Some {
        true
    } else if d.count is Some {
        count_model(d.count->0, siblings, f.args) is Ok ==> blank_repeat(
            f,
            inline_shape(d.kind),
            order,
            pos,
            siblings,
            count_model(d.count->0, siblings, f.args)->Ok_0,
            0,
        )
    } else {
        blank_shape(f, inline_shape(d.kind), order, pos, siblings)
    }
}

/// Whether every padding that producing a field skips is all zero.
pub open spec fn blank_produced(
    f: Frame,
    d: FieldDirective,
    order: ByteOrder,
    pos: nat,
    siblings: Seq<ValueModel>,
) -> bool
    decreases f.ty, 3nat, 0nat,
{
    blank_made(f, d, order, pos, siblings) && (made_model(f, d, order, pos, siblings) is Ok
        ==> blank_pad(
        f.data,
        made_model(f, d, order, pos, siblings)->Ok_0.1,
        d.pad_after as nat,
        d.align_after as nat,
    ))
}

/// Whether every padding that reading a field skips is all zero.
pub open spec fn blank_field(f: Frame, d: FieldDirective, pos: nat, siblings: Seq<ValueModel>)
    -> bool
    decreases f.ty, 4nat, 0nat,
{
    let start = padded(pos, d.pad_before as nat, d.align_before as nat);
    let level = override_model(d.endian, siblings, f.args);
    blank_pad(f.data, pos, d.pad_before as nat, d.align_before as nat) && (start is Ok && level
        is Ok && magic_passed(f.data, start->Ok_0, d.magic) is Ok ==> blank_produced(
        f,
        d,
        overridden(level->Ok_0, f.order),
        magic_passed(f.data, start->Ok_0, d.magic)->Ok_0,
        siblings,
    ))
}

/// Whether every padding that the first pass over the fields from the
/// `i`-th on skips is all zero.
pub open spec fn blank_inline(
    f: Frame,
    fields: Seq<FieldDirective>,
    i: nat,
    pos: nat,
    siblings: Seq<ValueModel>,
) -> bool
    decreases f.ty, 5nat, fields.len() - i,
{
    i < fields.len() ==> blank_field(f, fields[i as int], pos, siblings) && (field_model(
        f,
        fields[i as int],
        pos,
        siblings,
    ) is Ok ==> blank_inline(
        f,
        fields,
        i + 1,
        field_model(f, fields[i as int], pos, siblings)->Ok_0.pos,
        siblings.push(field_model(f, fields[i as int], pos, siblings)->Ok_0.value),
    ))
}

/// Whether every padding that reading a variant skips is all zero.
pub open spec fn blank_variant(f: Frame, v: VariantDescriptor, pos: nat) -> bool
    decreases f.ty, 7nat, 0nat,
{
    let entered = prelude_model(variant_prelude(&v), 0, f.data, pos, f.order, f.args);
    entered is Ok ==> blank_inline(
        Frame {
            schema: f.schema,
            data: f.data,
            ty: f.ty,
            order: entered->Ok_0.1,
            base: f.base,
            args: f.args,
        },
        v.scope.fields@,
        0,
        entered->Ok_0.0,
        Seq::empty(),
    )
}

/// Whether every padding that reading the variant that is chosen among those
/// from the `k`-th on skips is all zero.
pub open spec fn blank_select(f: Frame, variants: Seq<VariantDescriptor>, pos: nat, k: nat) -> bool
    decreases f.ty, 8nat, variants.len() - k,
{
    k < variants.len() ==> if variant_model(f, variants[k as int], k, pos) is Ok {
        blank_variant(f, variants[k as int], pos)
    } else {
        blank_select(f, variants, pos, k + 1)
    }
}

/// Whether every padding that reading a type at `pos` skips lies within the
/// bytes and is all zero.
pub open spec fn blank_type(
    schema: Schema,
    data: Seq<u8>,
    ty: nat,
    pos: nat,
    order: ByteOrder,
    base: nat,
    args: Seq<ValueModel>,
) -> bool
    decreases ty, 9nat, 0nat,
{
    let entered = prelude_model(
        type_prelude(&schema.types@[ty as int]),
        0,
        data,
        pos,
        order,
        args,
    );
    ty < schema.types@.len() && entered is Ok ==> {
        let f = Frame { schema, data, ty, order: entered->Ok_0.1, base, args };
        match schema.types@[ty as int].body {
            Body::Struct(scope) => blank_inline(f, scope.fields@, 0, entered->Ok_0.0, Seq::empty()),
            Body::Enum(variants, _) => blank_select(f, variants@, entered->Ok_0.0, 0),
        }
    }
}

/// A constant that a read passed is written back.
pub proof fn lemma_magic_round_trip(
    data: Seq<u8>,
    pos: nat,
    magic: Option<Vec<u8>>,
    buf: Seq<u8>,
)
    requires
        data.len() <= usize::MAX,
        buf.len() == pos <= data.len(),
        magic_passed(data, pos, magic) is Ok,
    ensures
        ({
            let body = magic_passed(data, pos, magic)->Ok_0;
            &&& pos <= body <= data.len()
            &&& magic_write_model(buf, pos, magic) == Ok::<(Seq<u8>, nat), ErrorModel>(
                (appended(buf, data, pos, body), body),
            )
        }),
{
    reveal(appended);
    match magic {
        Some(bytes) => {
            lemma_put_appends(buf, bytes@);
        },
        None => {
        },
    }
}

/// A prelude that a read passed writes back the bytes that the read passed
/// over, and settles the same byte order.
pub proof fn lemma_prelude_round_trip(
    steps: Seq<Step>,
    k: nat,
    data: Seq<u8>,
    pos: nat,
    order: ByteOrder,
    args: Seq<ValueModel>,
    buf: Seq<u8>,
)
    requires
        data.len() <= usize::MAX,
        buf.len() == pos <= data.len(),
        prelude_model(steps, k, data, pos, order, args) is Ok,
    ensures
        ({
            let (p, o) = prelude_model(steps, k, data, pos, order, args)->Ok_0;
            &&& pos <= p <= data.len()
            &&& prelude_write_model(steps, k, buf, pos, order, args) == Ok::<
                (Seq<u8>, nat, ByteOrder),
                ErrorModel,
            >((appended(buf, data, pos, p), p, o))
        }),
    decreases steps.len() - k,
{
    reveal(prelude_model);
    reveal(prelude_write_model);
    if k >= steps.len() {
        lemma_appended(buf, data, pos, pos, pos);
    } else {
        let (mid, o1) = step_model(steps[k as int], data, pos, order, args)->Ok_0;
        match steps[k as int] {
            Step::Magic(bytes) => {
                lemma_put_appends(buf, bytes@);
                assert(buf + bytes@ == appended(buf, data, pos, mid)) by {
                    reveal(appended);
                }
            },
            _ => {
                lemma_appended(buf, data, pos, pos, pos);
            },
        }
        let buf1 = appended(buf, data, pos, mid);
        lemma_appended(buf, data, pos, mid, mid);
        lemma_prelude_round_trip(steps, k + 1, data, mid, o1, args, buf1);
        let (p, _) = prelude_model(steps, k + 1, data, mid, o1, args)->Ok_0;
        lemma_appended(buf, data, pos, mid, p);
    }
}

/// A shape that loses nothing in a type with the index `bound`.
pub open spec fn lossless_shape(schema: Schema, bound: nat, shape: Shape) -> bool {
    match shape {
        Shape::Int { .. } => true,
        Shape::Nested { ty, .. } => ty < bound ==> lossless_type(schema, ty as nat),
    }
}

/// What a shape read, it writes back.
pub proof fn lemma_shape_round_trip(
    f: Frame,
    shape: Shape,
    order: ByteOrder,
    pos: nat,
    siblings: Seq<ValueModel>,
    buf: Seq<u8>,
)
    requires
        lossless_shape(f.schema, f.ty, shape),
        f.data.len() <= usize::MAX,
        all_within(siblings),
        all_within(f.args),
        blank_shape(f, shape, order, pos, siblings),
        buf.len() == pos <= f.data.len(),
        shape_model(f, shape, order, pos, siblings) is Ok,
    ensures
        ({
            let (v, p) = shape_model(f, shape, order, pos, siblings)->Ok_0;
            &&& pos <= p <= f.data.len()
            &&& !(v is Absent)
            &&& within(v)
            &&& wshape_model(desk_of(f), shape, order, v, buf, pos, siblings) == Ok::<
                (Seq<u8>, nat),
                ErrorModel,
            >((appended(buf, f.data, pos, p), p))
        }),
    decreases f.ty, 0nat, 0nat,
{
    match shape {
        Shape::Int { width, signed } => {
            let field = f.data.subrange(pos as int, (pos + width) as int);
            lemma_bytes_round_trip(field, signed, order);
            crate::codec::lemma_span_grows(width as nat, 8);
            crate::codec::lemma_span_values();
            lemma_put_appends(buf, field);
            reveal(appended);
        },
        Shape::Nested { ty, args } => {
            let passed = eval_all_model(args@, 0, siblings, f.args, Seq::empty())->Ok_0;
            lemma_eval_all_within(args@, 0, siblings, f.args, Seq::empty());
            lemma_type_round_trip(f.schema, f.data, ty as nat, pos, order, f.base, passed, buf);
        },
    }
}

/// The elements that a count read, it writes back.
pub proof fn lemma_repeat_round_trip(
    f: Frame,
    shape: Shape,
    order: ByteOrder,
    pos: nat,
    siblings: Seq<ValueModel>,
    n: nat,
    acc: Seq<ValueModel>,
    buf: Seq<u8>,
)
    requires
        lossless_shape(f.schema, f.ty, shape),
        f.data.len() <= usize::MAX,
        all_within(siblings),
        all_within(f.args),
        blank_repeat(f, shape, order, pos, siblings, n, acc.len()),
        buf.len() == pos <= f.data.len(),
        acc.len() <= n,
        repeat_model(f, shape, order, pos, siblings, n, acc) is Ok,
    ensures
        ({
            let (v, p) = repeat_model(f, shape, order, pos, siblings, n, acc)->Ok_0;
            &&& pos <= p <= f.data.len()
            &&& v is List
            &&& v->List_0.len() == n
            &&& v->List_0.subrange(0, acc.len() as int) == acc
            &&& wrepeat_model(desk_of(f), shape, order, v->List_0, acc.len(), buf, pos, siblings)
                == Ok::<(Seq<u8>, nat), ErrorModel>((appended(buf, f.data, pos, p), p))
        }),
    decreases f.ty, 1nat, n - acc.len(),
{
    if acc.len() >= n {
        lemma_appended(buf, f.data, pos, pos, pos);
    } else {
        let (x, mid) = shape_model(f, shape, order, pos, siblings)->Ok_0;
        lemma_shape_round_trip(f, shape, order, pos, siblings, buf);
        let buf1 = appended(buf, f.data, pos, mid);
        lemma_appended(buf, f.data, pos, mid, mid);
        lemma_repeat_round_trip(f, shape, order, mid, siblings, n, acc.push(x), buf1);
        let (v, p) = repeat_model(f, shape, order, mid, siblings, n, acc.push(x))->Ok_0;
        let items = v->List_0;
        assert(items[acc.len() as int] == items.subrange(0, (acc.len() + 1) as int)[acc.len() as int]);
        assert(items.subrange(0, acc.len() as int) =~= acc) by {
            assert forall|j: int| 0 <= j < acc.len() implies items[j] == acc[j] by {
                assert(items[j] == items.subrange(0, (acc.len() + 1) as int)[j]);
            }
        }
        lemma_appended(buf, f.data, pos, mid, p);
    }
}

/// What an expression evaluates to among values that the engine can hold,
/// the engine can hold.
pub proof fn lemma_eval_within(
    e: Expr,
    siblings: Seq<ValueModel>,
    args: Seq<ValueModel>,
    this: Option<ValueModel>,
)
    requires
        all_within(siblings),
        all_within(args),
        this is Some ==> within(this->0),
    ensures
        eval_model(e, siblings, args, this) is Ok ==> within(
            eval_model(e, siblings, args, this)->Ok_0,
        ),
    decreases e,
{
    reveal(eval_model);
    match e {
        Expr::OrElse(a, b) => {
            lemma_eval_within(*a, siblings, args, this);
            lemma_eval_within(*b, siblings, args, this);
        },
        _ => {},
    }
}

/// What expressions evaluate to among values that the engine can hold, the
/// engine can hold.
pub proof fn lemma_eval_all_within(
    exprs: Seq<Expr>,
    k: nat,
    siblings: Seq<ValueModel>,
    args: Seq<ValueModel>,
    acc: Seq<ValueModel>,
)
    requires
        all_within(siblings),
        all_within(args),
        all_within(acc),
    ensures
        eval_all_model(exprs, k, siblings, args, acc) is Ok ==> all_within(
            eval_all_model(exprs, k, siblings, args, acc)->Ok_0,
        ),
    decreases exprs.len() - k,
{
    reveal(eval_all_model);
    if k < exprs.len() {
        let r = eval_model(exprs[k as int], siblings, args, None);
        lemma_eval_within(exprs[k as int], siblings, args, None);
        if r is Ok {
            lemma_eval_all_within(exprs, k + 1, siblings, args, acc.push(r->Ok_0));
        }
    }
}

/// The models of values are values that the engine can hold.
pub proof fn lemma_models_within(items: Seq<crate::value::Value>)
    ensures
        all_within(crate::value::models(items)),
{
}

/// What an expression evaluates to is never the absent value.
pub proof fn lemma_eval_holds_something(
    e: Expr,
    siblings: Seq<ValueModel>,
    args: Seq<ValueModel>,
    this: Option<ValueModel>,
)
    ensures
        eval_model(e, siblings, args, this) is Ok ==> !(eval_model(e, siblings, args, this)->Ok_0
            is Absent),
    decreases e,
{
    reveal(eval_model);
    match e {
        Expr::OrElse(a, b) => {
            lemma_eval_holds_something(*a, siblings, args, this);
            lemma_eval_holds_something(*b, siblings, args, this);
        },
        _ => {},
    }
}

/// What a replacing parser read, its counterpart writes back.
pub proof fn lemma_parser_round_trip(parser: Parser, data: Seq<u8>, pos: nat, buf: Seq<u8>)
    requires
        data.len() <= usize::MAX,
        buf.len() == pos <= data.len(),
        parser_read(parser, data, pos) is Ok,
    ensures
        ({
            let (v, p) = parser_read(parser, data, pos)->Ok_0;
            &&& pos <= p <= data.len()
            &&& v is List
            &&& parser_write_model(parser, v, buf, pos) == Ok::<(Seq<u8>, nat), ErrorModel>(
                (appended(buf, data, pos, p), p),
            )
        }),
{
    reveal(appended);
    let (v, p) = parser_read(parser, data, pos)->Ok_0;
    match parser {
        Parser::UntilZero => {
            lemma_zero_from(data, pos);
            let z = zero_from(data, pos)->0;
            let run = data.subrange(pos as int, z as int);
            assert(as_bytes(byte_values(run)) =~= run);
            lemma_put_appends(buf, run.push(0u8));
            assert(buf + run.push(0u8) =~= buf + data.subrange(pos as int, p as int));
        },
        Parser::Remaining => {
            let run = data.subrange(pos as int, data.len() as int);
            assert(as_bytes(byte_values(run)) =~= run);
            assert(as_bytes(Seq::<ValueModel>::empty()) =~= Seq::<u8>::empty());
            lemma_put_appends(buf, run);
            if pos >= data.len() {
                assert(run =~= Seq::<u8>::empty());
            }
        },
    }
}

/// What a field that loses nothing made, it writes back.
pub proof fn lemma_made_round_trip(
    f: Frame,
    d: FieldDirective,
    order: ByteOrder,
    pos: nat,
    siblings: Seq<ValueModel>,
    buf: Seq<u8>,
)
    requires
        lossless_field(f.schema, f.ty, d),
        f.data.len() <= usize::MAX,
        all_within(siblings),
        all_within(f.args),
        blank_made(f, d, order, pos, siblings),
        buf.len() == pos <= f.data.len(),
        made_model(f, d, order, pos, siblings) is Ok,
    ensures
        ({
            let (v, p) = made_model(f, d, order, pos, siblings)->Ok_0;
            &&& pos <= p <= f.data.len()
            &&& d.try_flag ==> !(v is Absent)
            &&& within(v)
            &&& wmade_model(desk_of(f), d, order, v, buf, pos, siblings) == Ok::<
                (Seq<u8>, nat, Option<crate::writer::Hole>),
                ErrorModel,
            >((appended(buf, f.data, pos, p), p, None))
        }),
    decreases f.ty, 2nat, 0nat,
{
    let shape = d.kind->Plain_0;
    if d.default_flag {
        lemma_appended(buf, f.data, pos, pos, pos);
    } else if d.calc is Some {
        lemma_appended(buf, f.data, pos, pos, pos);
        lemma_eval_holds_something(d.calc->0, siblings, f.args, None);
        lemma_eval_within(d.calc->0, siblings, f.args, None);
    } else if d.parser is Some {
        lemma_parser_round_trip(d.parser->0, f.data, pos, buf);
    } else if d.count is Some {
        let n = count_model(d.count->0, siblings, f.args)->Ok_0;
        lemma_repeat_round_trip(f, shape, order, pos, siblings, n, Seq::empty(), buf);
    } else {
        lemma_shape_round_trip(f, shape, order, pos, siblings, buf);
    }
}

/// What a field that loses nothing produced, it writes back.
pub proof fn lemma_produced_round_trip(
    f: Frame,
    d: FieldDirective,
    order: ByteOrder,
    pos: nat,
    siblings: Seq<ValueModel>,
    buf: Seq<u8>,
)
    requires
        lossless_field(f.schema, f.ty, d),
        f.data.len() <= usize::MAX,
        all_within(siblings),
        all_within(f.args),
        blank_produced(f, d, order, pos, siblings),
        buf.len() == pos <= f.data.len(),
        produced_model(f, d, order, pos, siblings) is Ok,
    ensures
        ({
            let (v, p, deferred) = produced_model(f, d, order, pos, siblings)->Ok_0;
            &&& pos <= p <= f.data.len()
            &&& !deferred
            &&& d.try_flag ==> !(v is Absent)
            &&& within(v)
            &&& wproduced_model(desk_of(f), d, order, v, buf, pos, siblings) == Ok::<
                (Seq<u8>, nat, Option<crate::writer::Hole>),
                ErrorModel,
            >((appended(buf, f.data, pos, p), p, None))
        }),
    decreases f.ty, 3nat, 0nat,
{
    let (made, p) = made_model(f, d, order, pos, siblings)->Ok_0;
    lemma_made_round_trip(f, d, order, pos, siblings, buf);
    if d.map is Some {
        lemma_eval_holds_something(d.map->0.forward, siblings, f.args, Some(made));
        lemma_eval_within(d.map->0.forward, siblings, f.args, Some(made));
    }
    let after = appended(buf, f.data, pos, p);
    lemma_appended(buf, f.data, pos, p, p);
    lemma_blank_padding(after, f.data, p, d.pad_after as nat, d.align_after as nat);
    let end = padded(p, d.pad_after as nat, d.align_after as nat)->Ok_0;
    lemma_appended(buf, f.data, pos, p, end);
}

/// What a field that loses nothing read, it writes back.
pub proof fn lemma_field_round_trip(
    f: Frame,
    d: FieldDirective,
    pos: nat,
    siblings: Seq<ValueModel>,
    buf: Seq<u8>,
)
    requires
        lossless_field(f.schema, f.ty, d),
        f.data.len() <= usize::MAX,
        all_within(siblings),
        all_within(f.args),
        blank_field(f, d, pos, siblings),
        buf.len() == pos <= f.data.len(),
        field_model(f, d, pos, siblings) is Ok,
    ensures
        ({
            let out = field_model(f, d, pos, siblings)->Ok_0;
            &&& pos <= out.pos <= f.data.len()
            &&& !out.deferred
            &&& within(out.value)
            &&& wfield_model(desk_of(f), d, out.value, buf, pos, siblings) == Ok::<
                (Seq<u8>, nat, Option<crate::writer::Hole>),
                ErrorModel,
            >((appended(buf, f.data, pos, out.pos), out.pos, None))
        }),
    decreases f.ty, 4nat, 0nat,
{
    lemma_blank_padding(buf, f.data, pos, d.pad_before as nat, d.align_before as nat);
    let start = padded(pos, d.pad_before as nat, d.align_before as nat)->Ok_0;
    let padded_buf = appended(buf, f.data, pos, start);
    lemma_appended(buf, f.data, pos, pos, pos);
    lemma_appended(buf, f.data, pos, start, start);
    let level = override_model(d.endian, siblings, f.args)->Ok_0;
    let order = overridden(level, f.order);
    let wanted = condition_model(d.condition, siblings, f.args)->Ok_0;
    if wanted {
        lemma_magic_round_trip(f.data, start, d.magic, padded_buf);
        let body = magic_passed(f.data, start, d.magic)->Ok_0;
        let opened = appended(padded_buf, f.data, start, body);
        lemma_appended(buf, f.data, pos, start, body);
        lemma_appended(buf, f.data, pos, body, body);
        if produced_model(f, d, order, body, siblings) is Ok {
            lemma_produced_round_trip(f, d, order, body, siblings, opened);
            let (_, p, _) = produced_model(f, d, order, body, siblings)->Ok_0;
            lemma_appended(buf, f.data, pos, body, p);
        }
    }
}

/// Whether every field loses nothing.
pub open spec fn lossless_fields(schema: Schema, bound: nat, fields: Seq<FieldDirective>) -> bool {
    forall|i: int| 0 <= i < fields.len() ==> lossless_field(schema, bound, #[trigger] fields[i])
}

/// What the first pass read from the `i`-th field on, the first pass of the
/// writer writes back, and no field is left waiting.
pub proof fn lemma_inline_round_trip(
    f: Frame,
    fields: Seq<FieldDirective>,
    i: nat,
    pos: nat,
    siblings: Seq<ValueModel>,
    registry: Seq<Pending>,
    buf: Seq<u8>,
    waiting: Seq<Slot>,
)
    requires
        lossless_fields(f.schema, f.ty, fields),
        f.data.len() <= usize::MAX,
        all_within(siblings),
        all_within(f.args),
        blank_inline(f, fields, i, pos, siblings),
        buf.len() == pos <= f.data.len(),
        siblings.len() == i <= fields.len(),
        inline_model(f, fields, i, pos, siblings, registry) is Ok,
    ensures
        ({
            let g = inline_model(f, fields, i, pos, siblings, registry)->Ok_0;
            &&& pos <= g.pos <= f.data.len()
            &&& g.registry == registry
            &&& g.siblings.len() == fields.len()
            &&& g.siblings.subrange(0, i as int) == siblings
            &&& all_within(g.siblings)
            &&& winline_model(desk_of(f), fields, g.siblings, i, buf, pos, waiting) == Ok::<
                Drafted,
                ErrorModel,
            >(Drafted { buf: appended(buf, f.data, pos, g.pos), pos: g.pos, registry: waiting })
        }),
    decreases f.ty, 5nat, fields.len() - i,
{
    if i >= fields.len() {
        lemma_appended(buf, f.data, pos, pos, pos);
    } else {
        let d = fields[i as int];
        let out = field_model(f, d, pos, siblings)->Ok_0;
        lemma_field_round_trip(f, d, pos, siblings, buf);
        let buf1 = appended(buf, f.data, pos, out.pos);
        lemma_appended(buf, f.data, pos, out.pos, out.pos);
        let more = siblings.push(out.value);
        lemma_inline_round_trip(f, fields, i + 1, out.pos, more, registry, buf1, waiting);
        let g = inline_model(f, fields, i + 1, out.pos, more, registry)->Ok_0;
        assert(g.siblings[i as int] == g.siblings.subrange(0, (i + 1) as int)[i as int]);
        assert(g.siblings.subrange(0, i as int) =~= siblings) by {
            assert forall|j: int| 0 <= j < i implies g.siblings[j] == siblings[j] by {
                assert(g.siblings[j] == g.siblings.subrange(0, (i + 1) as int)[j]);
            }
        }
        lemma_appended(buf, f.data, pos, out.pos, g.pos);
    }
}

/// What a scope that loses nothing read, it writes back.
pub proof fn lemma_scope_round_trip(f: Frame, scope: Scope, tag: nat, pos: nat, buf: Seq<u8>)
    requires
        lossless_scope(f.schema, f.ty, scope),
        f.data.len() <= usize::MAX,
        all_within(f.args),
        blank_inline(f, scope.fields@, 0, pos, Seq::empty()),
        buf.len() == pos <= f.data.len(),
        scope_model(f, scope, tag, pos) is Ok,
    ensures
        ({
            let (v, p) = scope_model(f, scope, tag, pos)->Ok_0;
            &&& pos <= p <= f.data.len()
            &&& v is Record
            &&& v->Record_0 == tag
            &&& wscope_model(desk_of(f), scope, v->Record_1, buf, pos) == Ok::<
                (Seq<u8>, nat),
                ErrorModel,
            >((appended(buf, f.data, pos, p), p))
        }),
    decreases f.ty, 6nat, 0nat,
{
    lemma_inline_round_trip(
        f,
        scope.fields@,
        0,
        pos,
        Seq::empty(),
        Seq::empty(),
        buf,
        Seq::empty(),
    );
}

/// What the variant that was chosen read, it writes back under its own tag.
pub proof fn lemma_select_round_trip(
    f: Frame,
    variants: Seq<VariantDescriptor>,
    mode: Mode,
    pos: nat,
    k: nat,
    errors: Seq<ErrorModel>,
    buf: Seq<u8>,
)
    requires
        forall|j: int|
            0 <= j < variants.len() ==> lossless_scope(f.schema, f.ty, (#[trigger] variants[j]).scope),
        f.data.len() <= usize::MAX,
        all_within(f.args),
        blank_select(f, variants, pos, k),
        buf.len() == pos <= f.data.len(),
        select_model(f, variants, mode, pos, k, errors) is Ok,
    ensures
        ({
            let (v, p) = select_model(f, variants, mode, pos, k, errors)->Ok_0;
            &&& pos <= p <= f.data.len()
            &&& v is Record
            &&& k <= v->Record_0 < variants.len()
            &&& prelude_write_model(
                variant_prelude(&variants[v->Record_0 as int]),
                0,
                buf,
                pos,
                f.order,
                f.args,
            ) is Ok
            &&& ({
                let (b2, next, o2) = prelude_write_model(
                    variant_prelude(&variants[v->Record_0 as int]),
                    0,
                    buf,
                    pos,
                    f.order,
                    f.args,
                )->Ok_0;
                wscope_model(
                    Desk { schema: f.schema, ty: f.ty, order: o2, base: f.base, args: f.args },
                    variants[v->Record_0 as int].scope,
                    v->Record_1,
                    b2,
                    next,
                ) == Ok::<(Seq<u8>, nat), ErrorModel>((appended(buf, f.data, pos, p), p))
            })
        }),
    decreases f.ty, 8nat, variants.len() - k,
{
    let variant = variants[k as int];
    if variant_model(f, variant, k, pos) is Ok {
        let steps = variant_prelude(&variant);
        lemma_prelude_round_trip(steps, 0, f.data, pos, f.order, f.args, buf);
        let (mid, o1) = prelude_model(steps, 0, f.data, pos, f.order, f.args)->Ok_0;
        let inner = Frame {
            schema: f.schema,
            data: f.data,
            ty: f.ty,
            order: o1,
            base: f.base,
            args: f.args,
        };
        let buf1 = appended(buf, f.data, pos, mid);
        lemma_appended(buf, f.data, pos, mid, mid);
        assert(blank_variant(f, variant, pos));
        lemma_scope_round_trip(inner, variant.scope, k, mid, buf1);
        let (v, p) = scope_model(inner, variant.scope, k, mid)->Ok_0;
        lemma_appended(buf, f.data, pos, mid, p);
    } else {
        let e = variant_model(f, variant, k, pos)->Err_0;
        lemma_select_round_trip(f, variants, mode, pos, k + 1, errors.push(e), buf);
    }
}

/// Round trip: a type that loses nothing writes back the bytes that it read,
/// where the padding that was skipped is what a writer fills it with.
///
/// Where reading a value of such a type at `pos` succeeds and ends at `p`,
/// writing that value after the first `pos` bytes of anything gives those
/// bytes followed by the bytes that were read, and ends at `p` too.
pub proof fn lemma_type_round_trip(
    schema: Schema,
    data: Seq<u8>,
    ty: nat,
    pos: nat,
    order: ByteOrder,
    base: nat,
    args: Seq<ValueModel>,
    buf: Seq<u8>,
)
    requires
        lossless_type(schema, ty),
        data.len() <= usize::MAX,
        all_within(args),
        blank_type(schema, data, ty, pos, order, base, args),
        buf.len() == pos <= data.len(),
        type_model(schema, data, ty, pos, order, base, args) is Ok,
    ensures
        ({
            let (v, p) = type_model(schema, data, ty, pos, order, base, args)->Ok_0;
            &&& pos <= p <= data.len()
            &&& v is Record
            &&& wtype_model(schema, ty, v, buf, pos, order, base, args) == Ok::<
                (Seq<u8>, nat),
                ErrorModel,
            >((appended(buf, data, pos, p), p))
        }),
    decreases ty, 9nat, 0nat,
{
    let d = schema.types@[ty as int];
    let steps = type_prelude(&d);
    lemma_prelude_round_trip(steps, 0, data, pos, order, args, buf);
    let (mid, o1) = prelude_model(steps, 0, data, pos, order, args)->Ok_0;
    let f = Frame { schema, data, ty, order: o1, base, args };
    let buf1 = appended(buf, data, pos, mid);
    lemma_appended(buf, data, pos, mid, mid);
    match d.body {
        Body::Struct(scope) => {
            lemma_scope_round_trip(f, scope, 0, mid, buf1);
            let (v, p) = scope_model(f, scope, 0, mid)->Ok_0;
            lemma_appended(buf, data, pos, mid, p);
        },
        Body::Enum(variants, mode) => {
            lemma_select_round_trip(f, variants@, mode, mid, 0, Seq::empty(), buf1);
            let (v, p) = select_model(f, variants@, mode, mid, 0, Seq::empty())->Ok_0;
            lemma_appended(buf, data, pos, mid, p);
        },
    }
}

/// Round trip at the entry points: where a type that loses nothing reads a
/// value from the whole of `data`, and the padding that it skipped is all
/// zero, writing that value to an empty cursor gives `data`.
pub proof fn lemma_write_of_read(
    schema: Schema,
    data: Seq<u8>,
    ty: nat,
    order: ByteOrder,
    base: nat,
    args: Seq<ValueModel>,
)
    requires
        lossless_type(schema, ty),
        data.len() <= usize::MAX,
        all_within(args),
        blank_type(schema, data, ty, 0, order, base, args),
        crate::engine::read_model(schema, ty, data, 0, order, base, args).0 is Ok,
        crate::engine::read_model(schema, ty, data, 0, order, base, args).1 == data.len(),
    ensures
        crate::engine::write_model(
            schema,
            ty,
            crate::engine::read_model(schema, ty, data, 0, order, base, args).0->Ok_0,
            Seq::empty(),
            0,
            order,
            base,
            args,
        ) == (Ok::<(), ErrorModel>(()), data, data.len()),
{
    lemma_type_round_trip(schema, data, ty, 0, order, base, args, Seq::empty());
    reveal(appended);
}

/// The byte order that the prelude of a type settles is the type's own
/// override, or without one the order that the type was entered with.
pub proof fn lemma_type_level_order(
    d: TypeDescriptor,
    data: Seq<u8>,
    pos: nat,
    order: ByteOrder,
    args: Seq<ValueModel>,
)
    requires
        prelude_model(type_prelude(&d), 0, data, pos, order, args) is Ok,
    ensures
        override_model(d.endian, Seq::empty(), args) is Ok,
        prelude_model(type_prelude(&d), 0, data, pos, order, args)->Ok_0.1 == overridden(
            override_model(d.endian, Seq::empty(), args)->Ok_0,
            order,
        ),
{
    reveal_with_fuel(prelude_model, 4);
}

/// The byte order that the prelude of a variant settles is the variant's own
/// override, or without one the order that the variant was entered with.
pub proof fn lemma_variant_level_order(
    v: VariantDescriptor,
    data: Seq<u8>,
    pos: nat,
    order: ByteOrder,
    args: Seq<ValueModel>,
)
    requires
        prelude_model(variant_prelude(&v), 0, data, pos, order, args) is Ok,
    ensures
        override_model(v.endian, Seq::empty(), args) is Ok,
        prelude_model(variant_prelude(&v), 0, data, pos, order, args)->Ok_0.1 == overridden(
            override_model(v.endian, Seq::empty(), args)->Ok_0,
            order,
        ),
{
    reveal_with_fuel(prelude_model, 3);
}

/// Precedence along the pipeline: the byte order that a field of a variant
/// is read in is the field's own override, else the variant's, else the
/// type's, else the configured order, which may stand for the machine's.
///
/// The type is entered with the configured order, the variant with the order
/// that the prelude of the type settled, and the field with the order that
/// the prelude of the variant settled.
pub proof fn lemma_precedence_along_pipeline(
    f: Frame,
    ty: TypeDescriptor,
    variant: VariantDescriptor,
    d: FieldDirective,
    type_pos: nat,
    variant_pos: nat,
    field_pos: nat,
    siblings: Seq<ValueModel>,
    configured: Endian,
    native: ByteOrder,
)
    requires
        prelude_model(type_prelude(&ty), 0, f.data, type_pos, settled(configured, native), f.args)
            is Ok,
        prelude_model(
            variant_prelude(&variant),
            0,
            f.data,
            variant_pos,
            prelude_model(
                type_prelude(&ty),
                0,
                f.data,
                type_pos,
                settled(configured, native),
                f.args,
            )->Ok_0.1,
            f.args,
        ) is Ok,
        f.order == prelude_model(
            variant_prelude(&variant),
            0,
            f.data,
            variant_pos,
            prelude_model(
                type_prelude(&ty),
                0,
                f.data,
                type_pos,
                settled(configured, native),
                f.args,
            )->Ok_0.1,
            f.args,
        )->Ok_0.1,
        field_model(f, d, field_pos, siblings) is Ok,
    ensures
        override_model(d.endian, siblings, f.args) is Ok,
        override_model(variant.endian, Seq::empty(), f.args) is Ok,
        override_model(ty.endian, Seq::empty(), f.args) is Ok,
        field_model(f, d, field_pos, siblings)->Ok_0.order == precedence(
            override_model(d.endian, siblings, f.args)->Ok_0,
            override_model(variant.endian, Seq::empty(), f.args)->Ok_0,
            override_model(ty.endian, Seq::empty(), f.args)->Ok_0,
            configured,
            native,
        ),
{
    let entered = settled(configured, native);
    lemma_type_level_order(ty, f.data, type_pos, entered, f.args);
    let from_type = prelude_model(type_prelude(&ty), 0, f.data, type_pos, entered, f.args)->Ok_0.1;
    lemma_variant_level_order(variant, f.data, variant_pos, from_type, f.args);
    crate::endian::lemma_cascade_is_precedence(
        override_model(d.endian, siblings, f.args)->Ok_0,
        override_model(variant.endian, Seq::empty(), f.args)->Ok_0,
        override_model(ty.endian, Seq::empty(), f.args)->Ok_0,
        configured,
        native,
    );
}

/// Precedence along the pipeline for a type without variants: the byte order
/// that a field is read in is the field's own override, else the type's, else
/// the configured order, which may stand for the machine's.
pub proof fn lemma_precedence_in_struct(
    f: Frame,
    ty: TypeDescriptor,
    d: FieldDirective,
    type_pos: nat,
    field_pos: nat,
    siblings: Seq<ValueModel>,
    configured: Endian,
    native: ByteOrder,
)
    requires
        prelude_model(type_prelude(&ty), 0, f.data, type_pos, settled(configured, native), f.args)
            is Ok,
        f.order == prelude_model(
            type_prelude(&ty),
            0,
            f.data,
            type_pos,
            settled(configured, native),
            f.args,
        )->Ok_0.1,
        field_model(f, d, field_pos, siblings) is Ok,
    ensures
        override_model(d.endian, siblings, f.args) is Ok,
        override_model(ty.endian, Seq::empty(), f.args) is Ok,
        field_model(f, d, field_pos, siblings)->Ok_0.order == precedence(
            override_model(d.endian, siblings, f.args)->Ok_0,
            None,
            override_model(ty.endian, Seq::empty(), f.args)->Ok_0,
            configured,
            native,
        ),
{
    lemma_type_level_order(ty, f.data, type_pos, settled(configured, native), f.args);
}

/// What each pass sees: the first pass hands the `i`-th field exactly the
/// `i` values of the fields before it, and leaves one value for every field
/// of the scope, which is what the second pass starts from.
pub proof fn lemma_inline_gathers_all(
    f: Frame,
    fields: Seq<FieldDirective>,
    i: nat,
    pos: nat,
    siblings: Seq<ValueModel>,
    registry: Seq<Pending>,
)
    requires
        siblings.len() == i <= fields.len(),
        inline_model(f, fields, i, pos, siblings, registry) is Ok,
    ensures
        inline_model(f, fields, i, pos, siblings, registry)->Ok_0.siblings.len() == fields.len(),
        inline_model(f, fields, i, pos, siblings, registry)->Ok_0.siblings.subrange(0, i as int)
            == siblings,
    decreases fields.len() - i,
{
    if i >= fields.len() {
    } else {
        let out = field_model(f, fields[i as int], pos, siblings)->Ok_0;
        let more = siblings.push(out.value);
        let waiting = if out.deferred {
            registry.push(Pending { index: i as usize, order: out.order })
        } else {
            registry
        };
        lemma_inline_gathers_all(f, fields, i + 1, out.pos, more, waiting);
        let g = inline_model(f, fields, i + 1, out.pos, more, waiting)->Ok_0;
        assert(g.siblings.subrange(0, i as int) =~= siblings) by {
            assert forall|j: int| 0 <= j < i implies g.siblings[j] == siblings[j] by {
                assert(g.siblings[j] == g.siblings.subrange(0, (i + 1) as int)[j]);
            }
        }
    }
}

/// The second pass keeps one value for every field of the scope.
pub proof fn lemma_deferred_keeps_all(
    f: Frame,
    fields: Seq<FieldDirective>,
    registry: Seq<Pending>,
    k: nat,
    siblings: Seq<ValueModel>,
)
    requires
        deferred_model(f, fields, registry, k, siblings) is Ok,
    ensures
        deferred_model(f, fields, registry, k, siblings)->Ok_0.len() == siblings.len(),
    decreases registry.len() - k,
{
    if k < registry.len() {
        let index = registry[k as int].index as int;
        if 0 <= index < fields.len() && index < siblings.len() && siblings[index] is Int {
            let target = crate::reader::deref_model(
                f,
                fields[index],
                registry[k as int].order,
                siblings[index]->Int_0,
                siblings,
            )->Ok_0;
            lemma_deferred_keeps_all(f, fields, registry, k + 1, siblings.update(index, target));
        } else {
            lemma_deferred_keeps_all(f, fields, registry, k + 1, siblings);
        }
    }
}

/// A count that is read in full yields exactly as many elements as it asks
/// for, after those that it began with and in the order in which they stand
/// in the stream.
pub proof fn lemma_count_exact(
    f: Frame,
    shape: Shape,
    order: ByteOrder,
    pos: nat,
    siblings: Seq<ValueModel>,
    n: nat,
    acc: Seq<ValueModel>,
)
    requires
        acc.len() <= n,
        repeat_model(f, shape, order, pos, siblings, n, acc) is Ok,
    ensures
        repeat_model(f, shape, order, pos, siblings, n, acc)->Ok_0.0 is List,
        repeat_model(f, shape, order, pos, siblings, n, acc)->Ok_0.0->List_0.len() == n,
        repeat_model(f, shape, order, pos, siblings, n, acc)->Ok_0.0->List_0.subrange(
            0,
            acc.len() as int,
        ) == acc,
        acc.len() < n ==> shape_model(f, shape, order, pos, siblings) is Ok && repeat_model(
            f,
            shape,
            order,
            pos,
            siblings,
            n,
            acc,
        )->Ok_0.0->List_0[acc.len() as int] == shape_model(f, shape, order, pos, siblings)->Ok_0.0,
    decreases n - acc.len(),
{
    if acc.len() >= n {
    } else {
        let (x, mid) = shape_model(f, shape, order, pos, siblings)->Ok_0;
        lemma_count_exact(f, shape, order, mid, siblings, n, acc.push(x));
        let items = repeat_model(f, shape, order, mid, siblings, n, acc.push(x))->Ok_0.0->List_0;
        assert(items[acc.len() as int] == items.subrange(0, (acc.len() + 1) as int)[acc.len() as int]);
        assert(items.subrange(0, acc.len() as int) =~= acc) by {
            assert forall|j: int| 0 <= j < acc.len() implies items[j] == acc[j] by {
                assert(items[j] == items.subrange(0, (acc.len() + 1) as int)[j]);
            }
        }
    }
}

/// Naming a sibling that has not been produced yet is an ordering violation,
/// whatever else the scope holds.
pub proof fn lemma_forward_reference(
    index: usize,
    siblings: Seq<ValueModel>,
    args: Seq<ValueModel>,
    this: Option<ValueModel>,
)
    requires
        index >= siblings.len(),
    ensures
        eval_model(Expr::Field(index), siblings, args, this) == Err::<
            ValueModel,
            Violation,
        >(Violation::ForwardReference),
{
    reveal(eval_model);
}

/// A field that is only tried absorbs every failure of what it produces: it
/// is then absent, and the position is where the field began.
pub proof fn lemma_try_absorbs(f: Frame, d: FieldDirective, pos: nat, siblings: Seq<ValueModel>)
    requires
        d.try_flag,
        padded(pos, d.pad_before as nat, d.align_before as nat) is Ok,
        override_model(d.endian, siblings, f.args) is Ok,
        condition_model(d.condition, siblings, f.args) == Ok::<bool, Violation>(
            true,
        ),
        magic_passed(
            f.data,
            padded(pos, d.pad_before as nat, d.align_before as nat)->Ok_0,
            d.magic,
        ) is Ok,
    ensures
        field_model(f, d, pos, siblings) is Ok,
        produced_model(
            f,
            d,
            overridden(override_model(d.endian, siblings, f.args)->Ok_0, f.order),
            magic_passed(
                f.data,
                padded(pos, d.pad_before as nat, d.align_before as nat)->Ok_0,
                d.magic,
            )->Ok_0,
            siblings,
        ) is Err ==> field_model(f, d, pos, siblings)->Ok_0.value is Absent && field_model(
            f,
            d,
            pos,
            siblings,
        )->Ok_0.pos == pos && !field_model(f, d, pos, siblings)->Ok_0.deferred,
{
}

/// The errors of the variants from the `k`-th on, each tried at `pos`.
pub open spec fn variant_errors(
    f: Frame,
    variants: Seq<VariantDescriptor>,
    pos: nat,
) -> Seq<ErrorModel> {
    Seq::new(variants.len(), |k: int| variant_model(f, variants[k], k as nat, pos)->Err_0)
}

/// A choice among variants fails only where every variant fails, and then
/// reports on exactly one error per variant, in declaration order: all of
/// them where every error is asked for.
pub proof fn lemma_select_failure(
    f: Frame,
    variants: Seq<VariantDescriptor>,
    mode: Mode,
    pos: nat,
    k: nat,
    errors: Seq<ErrorModel>,
)
    requires
        k <= variants.len(),
        errors == variant_errors(f, variants, pos).subrange(0, k as int),
        select_model(f, variants, mode, pos, k, errors) is Err,
    ensures
        forall|j: int|
            k <= j < variants.len() ==> (#[trigger] variant_model(f, variants[j], j as nat, pos))
                is Err,
        select_model(f, variants, mode, pos, k, errors)->Err_0 == failure_model(
            mode,
            pos,
            variant_errors(f, variants, pos),
        ),
        mode == Mode::CollectAll ==> select_model(f, variants, mode, pos, k, errors)->Err_0
            == (ErrorModel::EnumErrors { pos, errors: variant_errors(f, variants, pos) })
            && variant_errors(f, variants, pos).len() == variants.len(),
    decreases variants.len() - k,
{
    let all = variant_errors(f, variants, pos);
    if k >= variants.len() {
        assert(all.subrange(0, k as int) =~= all);
    } else {
        let e = variant_model(f, variants[k as int], k, pos)->Err_0;
        assert(errors.push(e) =~= all.subrange(0, (k + 1) as int));
        lemma_select_failure(f, variants, mode, pos, k + 1, errors.push(e));
    }
}

} // verus!

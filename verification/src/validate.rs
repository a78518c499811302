//! Checking a schema when it is built: what can be told of a layout before
//! any byte is read.
//!
//! A schema that passes names only types that come before the type that
//! names them, passes each as many arguments as it imports, declares only
//! integers of one to eight bytes, and names in no expression a sibling that
//! is not produced where the expression is evaluated, nor an argument that
//! the type does not import.

use crate::codec::MAX_WIDTH;
use crate::error::{Error, Violation};
use crate::expr::Expr;
use crate::schema::{
    Assertion, Body, CondEndian, FieldDirective, FieldKind, Mapping, Schema, Scope, Shape,
    Timing, TypeDescriptor, VariantDescriptor,
};
use crate::stream::violated;
use vstd::prelude::*;

verus! {

/// The first of two findings.
pub open spec fn first_of(a: Option<Violation>, b: Option<Violation>) -> Option<Violation> {
    match a {
        Some(x) => Some(x),
        None => b,
    }
}

/// What is wrong with an expression that sees `visible` siblings and
/// `imports` arguments: the first sibling or argument that it names beyond
/// those, in the order in which it is written.
pub open spec fn expr_offence(e: Expr, visible: nat, imports: nat) -> Option<Violation>
    decreases e,
{
    match e {
        Expr::Int(_) => None,
        Expr::Bool(_) => None,
        Expr::This => None,
        Expr::Field(i) => if i >= visible {
            Some(Violation::ForwardReference)
        } else {
            None
        },
        Expr::Arg(i) => if i >= imports {
            Some(Violation::ArityMismatch)
        } else {
            None
        },
        Expr::Len(a) => expr_offence(*a, visible, imports),
        Expr::Not(a) => expr_offence(*a, visible, imports),
        Expr::OrElse(a, b) => first_of(
            expr_offence(*a, visible, imports),
            expr_offence(*b, visible, imports),
        ),
        Expr::Add(a, b) => first_of(
            expr_offence(*a, visible, imports),
            expr_offence(*b, visible, imports),
        ),
        Expr::Sub(a, b) => first_of(
            expr_offence(*a, visible, imports),
            expr_offence(*b, visible, imports),
        ),
        Expr::Mul(a, b) => first_of(
            expr_offence(*a, visible, imports),
            expr_offence(*b, visible, imports),
        ),
        Expr::Eq(a, b) => first_of(
            expr_offence(*a, visible, imports),
            expr_offence(*b, visible, imports),
        ),
        Expr::Lt(a, b) => first_of(
            expr_offence(*a, visible, imports),
            expr_offence(*b, visible, imports),
        ),
        Expr::And(a, b) => first_of(
            expr_offence(*a, visible, imports),
            expr_offence(*b, visible, imports),
        ),
    }
}

/// What is wrong with an expression that may not be declared.
pub open spec fn option_offence(e: Option<Expr>, visible: nat, imports: nat) -> Option<Violation> {
    match e {
        Some(e) => expr_offence(e, visible, imports),
        None => None,
    }
}

/// What is wrong with the expressions from the `k`-th on: the first finding.
pub open spec fn exprs_offence(exprs: Seq<Expr>, k: nat, visible: nat, imports: nat) -> Option<
    Violation,
>
    decreases exprs.len() - k,
{
    if k >= exprs.len() {
        None
    } else {
        first_of(
            expr_offence(exprs[k as int], visible, imports),
            exprs_offence(exprs, k + 1, visible, imports),
        )
    }
}

/// What is wrong with an override.
pub open spec fn endian_offence(endian: CondEndian, visible: nat, imports: nat) -> Option<
    Violation,
> {
    match endian {
        CondEndian::Cond(_, condition) => expr_offence(condition, visible, imports),
        _ => None,
    }
}

/// What is wrong with a mapping.
pub open spec fn map_offence(map: Option<Mapping>, visible: nat, imports: nat) -> Option<
    Violation,
> {
    match map {
        Some(m) => first_of(
            expr_offence(m.forward, visible, imports),
            option_offence(m.inverse, visible, imports),
        ),
        None => None,
    }
}

/// What is wrong with a width.
pub open spec fn width_offence(width: usize) -> Option<Violation> {
    if 1 <= width <= MAX_WIDTH {
        None
    } else {
        Some(Violation::BadWidth)
    }
}

/// What is wrong with a shape in the type at index `bound`: a bad width, a
/// type that does not come before `bound`, a number of arguments that
/// differs from what that type imports, or an argument that cannot be
/// evaluated.
pub open spec fn shape_offence(
    schema: Schema,
    bound: nat,
    shape: Shape,
    visible: nat,
    imports: nat,
) -> Option<Violation> {
    match shape {
        Shape::Int { width, .. } => width_offence(width),
        Shape::Nested { ty, args } => if ty >= bound || ty >= schema.types@.len() {
            Some(Violation::UnknownType)
        } else if args@.len() != schema.types@[ty as int].imports {
            Some(Violation::ArityMismatch)
        } else {
            exprs_offence(args@, 0, visible, imports)
        },
    }
}

/// The number of siblings that the offset of a field sees: at once, those
/// before it; at the end of the scope, all of them.
pub open spec fn offset_view(d: FieldDirective, index: nat, total: nat) -> nat {
    if d.timing == Timing::Inline {
        index
    } else {
        total
    }
}

/// What is wrong with the field at `index` of a scope of `total` fields.
#[verifier::opaque]
pub open spec fn field_offence(
    schema: Schema,
    bound: nat,
    d: FieldDirective,
    index: nat,
    total: nat,
    imports: nat,
) -> Option<Violation> {
    first_of(
        endian_offence(d.endian, index, imports),
        first_of(
            option_offence(d.condition, index, imports),
            first_of(
                option_offence(d.calc, index, imports),
                first_of(
                    option_offence(d.count, index, imports),
                    first_of(
                        map_offence(d.map, index, imports),
                        first_of(
                            option_offence(d.offset, offset_view(d, index, total), imports),
                            match d.kind {
                                FieldKind::Plain(shape) => shape_offence(
                                    schema,
                                    bound,
                                    shape,
                                    index,
                                    imports,
                                ),
                                FieldKind::Pointer { width, target } => first_of(
                                    width_offence(width),
                                    shape_offence(
                                        schema,
                                        bound,
                                        target,
                                        offset_view(d, index, total),
                                        imports,
                                    ),
                                ),
                            },
                        ),
                    ),
                ),
            ),
        ),
    )
}

/// What is wrong with the fields from the `i`-th on.
pub open spec fn fields_offence(
    schema: Schema,
    bound: nat,
    fields: Seq<FieldDirective>,
    i: nat,
    imports: nat,
) -> Option<Violation>
    decreases fields.len() - i,
{
    if i >= fields.len() {
        None
    } else {
        first_of(
            field_offence(schema, bound, fields[i as int], i, fields.len(), imports),
            fields_offence(schema, bound, fields, i + 1, imports),
        )
    }
}

/// What is wrong with an assertion of a scope of `total` fields.
pub open spec fn assertion_offence(a: Assertion, total: nat, imports: nat) -> Option<Violation> {
    first_of(expr_offence(a.condition, total, imports), exprs_offence(a.payload@, 0, total, imports))
}

/// What is wrong with the assertions from the `k`-th on.
pub open spec fn asserts_offence(asserts: Seq<Assertion>, k: nat, total: nat, imports: nat)
    -> Option<Violation>
    decreases asserts.len() - k,
{
    if k >= asserts.len() {
        None
    } else {
        first_of(
            assertion_offence(asserts[k as int], total, imports),
            asserts_offence(asserts, k + 1, total, imports),
        )
    }
}

/// What is wrong with a scope: with its fields, then with its assertions.
pub open spec fn scope_offence(schema: Schema, bound: nat, scope: Scope, imports: nat) -> Option<
    Violation,
> {
    first_of(
        fields_offence(schema, bound, scope.fields@, 0, imports),
        asserts_offence(scope.asserts@, 0, scope.fields@.len(), imports),
    )
}

/// What is wrong with the variants from the `k`-th on.
pub open spec fn variants_offence(
    schema: Schema,
    bound: nat,
    variants: Seq<VariantDescriptor>,
    k: nat,
    imports: nat,
) -> Option<Violation>
    decreases variants.len() - k,
{
    if k >= variants.len() {
        None
    } else {
        first_of(
            first_of(
                endian_offence(variants[k as int].endian, 0, imports),
                scope_offence(schema, bound, variants[k as int].scope, imports),
            ),
            variants_offence(schema, bound, variants, k + 1, imports),
        )
    }
}

/// What is wrong with the type at index `bound`.
pub open spec fn type_offence(schema: Schema, bound: nat, d: TypeDescriptor) -> Option<Violation> {
    first_of(
        endian_offence(d.endian, 0, d.imports as nat),
        match d.body {
            Body::Struct(scope) => scope_offence(schema, bound, scope, d.imports as nat),
            Body::Enum(variants, _) => variants_offence(
                schema,
                bound,
                variants@,
                0,
                d.imports as nat,
            ),
        },
    )
}

/// What is wrong with the types from the `t`-th on: the first finding, in
/// the order in which the schema is written.
pub open spec fn schema_offence(schema: Schema, t: nat) -> Option<Violation>
    decreases schema.types@.len() - t,
{
    if t >= schema.types@.len() {
        None
    } else {
        first_of(
            type_offence(schema, t, schema.types@[t as int]),
            schema_offence(schema, t + 1),
        )
    }
}

/// A schema in which nothing is wrong.
pub open spec fn well_formed(schema: Schema) -> bool {
    schema_offence(schema, 0) is None
}

fn check_expr(e: &Expr, visible: usize, imports: usize) -> (r: Option<Violation>)
    ensures
        r == expr_offence(*e, visible as nat, imports as nat),
    decreases e,
{
    match e {
        Expr::Int(_) => None,
        Expr::Bool(_) => None,
        Expr::This => None,
        Expr::Field(i) => if *i >= visible {
            Some(Violation::ForwardReference)
        } else {
            None
        },
        Expr::Arg(i) => if *i >= imports {
            Some(Violation::ArityMismatch)
        } else {
            None
        },
        Expr::Len(a) => check_expr(a, visible, imports),
        Expr::Not(a) => check_expr(a, visible, imports),
        Expr::OrElse(a, b) => first_found(
            check_expr(a, visible, imports),
            check_expr(b, visible, imports),
        ),
        Expr::Add(a, b) => first_found(
            check_expr(a, visible, imports),
            check_expr(b, visible, imports),
        ),
        Expr::Sub(a, b) => first_found(
            check_expr(a, visible, imports),
            check_expr(b, visible, imports),
        ),
        Expr::Mul(a, b) => first_found(
            check_expr(a, visible, imports),
            check_expr(b, visible, imports),
        ),
        Expr::Eq(a, b) => first_found(
            check_expr(a, visible, imports),
            check_expr(b, visible, imports),
        ),
        Expr::Lt(a, b) => first_found(
            check_expr(a, visible, imports),
            check_expr(b, visible, imports),
        ),
        Expr::And(a, b) => first_found(
            check_expr(a, visible, imports),
            check_expr(b, visible, imports),
        ),
    }
}

fn first_found(a: Option<Violation>, b: Option<Violation>) -> (r: Option<Violation>)
    ensures
        r == first_of(a, b),
{
    match a {
        Some(x) => Some(x),
        None => b,
    }
}

fn check_option(e: &Option<Expr>, visible: usize, imports: usize) -> (r: Option<Violation>)
    ensures
        r == option_offence(*e, visible as nat, imports as nat),
{
    match e {
        Some(e) => check_expr(e, visible, imports),
        None => None,
    }
}

fn check_exprs(exprs: &Vec<Expr>, visible: usize, imports: usize) -> (r: Option<Violation>)
    ensures
        r == exprs_offence(exprs@, 0, visible as nat, imports as nat),
{
    let mut k: usize = 0;
    while k < exprs.len()
        invariant
            k <= exprs.len(),
            exprs_offence(exprs@, k as nat, visible as nat, imports as nat) == exprs_offence(
                exprs@,
                0,
                visible as nat,
                imports as nat,
            ),
        decreases exprs.len() - k,
    {
        if let Some(x) = check_expr(&exprs[k], visible, imports) {
            return Some(x);
        }
        k += 1;
    }
    None
}

fn check_endian(endian: &CondEndian, visible: usize, imports: usize) -> (r: Option<Violation>)
    ensures
        r == endian_offence(*endian, visible as nat, imports as nat),
{
    match endian {
        CondEndian::Cond(_, condition) => check_expr(condition, visible, imports),
        _ => None,
    }
}

fn check_map(map: &Option<Mapping>, visible: usize, imports: usize) -> (r: Option<Violation>)
    ensures
        r == map_offence(*map, visible as nat, imports as nat),
{
    match map {
        Some(m) => match check_expr(&m.forward, visible, imports) {
            Some(x) => Some(x),
            None => check_option(&m.inverse, visible, imports),
        },
        None => None,
    }
}

fn check_width(width: usize) -> (r: Option<Violation>)
    ensures
        r == width_offence(width),
{
    if 1 <= width && width <= MAX_WIDTH {
        None
    } else {
        Some(Violation::BadWidth)
    }
}

fn check_shape(schema: &Schema, bound: usize, shape: &Shape, visible: usize, imports: usize) -> (r:
    Option<Violation>)
    ensures
        r == shape_offence(*schema, bound as nat, *shape, visible as nat, imports as nat),
{
    match shape {
        Shape::Int { width, .. } => check_width(*width),
        Shape::Nested { ty, args } => {
            if *ty >= bound || *ty >= schema.types.len() {
                Some(Violation::UnknownType)
            } else if args.len() != schema.types[*ty].imports {
                Some(Violation::ArityMismatch)
            } else {
                check_exprs(args, visible, imports)
            }
        },
    }
}

fn check_field(
    schema: &Schema,
    bound: usize,
    d: &FieldDirective,
    index: usize,
    total: usize,
    imports: usize,
) -> (r: Option<Violation>)
    ensures
        r == field_offence(
            *schema,
            bound as nat,
            *d,
            index as nat,
            total as nat,
            imports as nat,
        ),
{
    reveal(field_offence);
    if let Some(x) = check_endian(&d.endian, index, imports) {
        return Some(x);
    }
    if let Some(x) = check_option(&d.condition, index, imports) {
        return Some(x);
    }
    if let Some(x) = check_option(&d.calc, index, imports) {
        return Some(x);
    }
    if let Some(x) = check_option(&d.count, index, imports) {
        return Some(x);
    }
    if let Some(x) = check_map(&d.map, index, imports) {
        return Some(x);
    }
    let view = if d.timing == Timing::Inline {
        index
    } else {
        total
    };
    if let Some(x) = check_option(&d.offset, view, imports) {
        return Some(x);
    }
    match &d.kind {
        FieldKind::Plain(shape) => check_shape(schema, bound, shape, index, imports),
        FieldKind::Pointer { width, target } => match check_width(*width) {
            Some(x) => Some(x),
            None => check_shape(schema, bound, target, view, imports),
        },
    }
}

fn check_scope(schema: &Schema, bound: usize, scope: &Scope, imports: usize) -> (r: Option<
    Violation,
>)
    ensures
        r == scope_offence(*schema, bound as nat, *scope, imports as nat),
{
    let total = scope.fields.len();
    let mut i: usize = 0;
    while i < scope.fields.len()
        invariant
            i <= scope.fields.len(),
            total == scope.fields.len(),
            fields_offence(*schema, bound as nat, scope.fields@, i as nat, imports as nat)
                == fields_offence(*schema, bound as nat, scope.fields@, 0, imports as nat),
        decreases scope.fields.len() - i,
    {
        if let Some(x) = check_field(schema, bound, &scope.fields[i], i, total, imports) {
            return Some(x);
        }
        i += 1;
    }
    let mut k: usize = 0;
    while k < scope.asserts.len()
        invariant
            k <= scope.asserts.len(),
            total == scope.fields@.len(),
            fields_offence(*schema, bound as nat, scope.fields@, 0, imports as nat) is None,
            asserts_offence(scope.asserts@, k as nat, total as nat, imports as nat)
                == asserts_offence(scope.asserts@, 0, total as nat, imports as nat),
        decreases scope.asserts.len() - k,
    {
        if let Some(x) = check_expr(&scope.asserts[k].condition, total, imports) {
            return Some(x);
        }
        if let Some(x) = check_exprs(&scope.asserts[k].payload, total, imports) {
            return Some(x);
        }
        k += 1;
    }
    None
}

/// What is wrong with the variants of a type.
fn check_variants(
    schema: &Schema,
    bound: usize,
    variants: &Vec<VariantDescriptor>,
    imports: usize,
) -> (r: Option<Violation>)
    ensures
        r == variants_offence(*schema, bound as nat, variants@, 0, imports as nat),
{
    let mut k: usize = 0;
    while k < variants.len()
        invariant
            k <= variants.len(),
            variants_offence(*schema, bound as nat, variants@, k as nat, imports as nat)
                == variants_offence(*schema, bound as nat, variants@, 0, imports as nat),
        decreases variants.len() - k,
    {
        if let Some(x) = check_endian(&variants[k].endian, 0, imports) {
            return Some(x);
        }
        if let Some(x) = check_scope(schema, bound, &variants[k].scope, imports) {
            return Some(x);
        }
        k += 1;
    }
    None
}

fn check_type(schema: &Schema, bound: usize, d: &TypeDescriptor) -> (r: Option<Violation>)
    ensures
        r == type_offence(*schema, bound as nat, *d),
{
    if let Some(x) = check_endian(&d.endian, 0, d.imports) {
        return Some(x);
    }
    match &d.body {
        Body::Struct(scope) => check_scope(schema, bound, scope, d.imports),
        Body::Enum(variants, _) => check_variants(schema, bound, variants, d.imports),
    }
}

impl Schema {
    /// Checks the schema: the first thing that is wrong with it, in the order
    /// in which it is written, or nothing.
    pub fn offence(&self) -> (r: Option<Violation>)
        ensures
            r == schema_offence(*self, 0),
    {
        let mut t: usize = 0;
        while t < self.types.len()
            invariant
                t <= self.types.len(),
                schema_offence(*self, t as nat) == schema_offence(*self, 0),
            decreases self.types.len() - t,
        {
            if let Some(x) = check_type(self, t, &self.types[t]) {
                return Some(x);
            }
            t += 1;
        }
        None
    }

    /// A schema of these types, where nothing is wrong with them; else the
    /// first thing that is, as a contract violation.
    pub fn checked(types: Vec<TypeDescriptor>) -> (r: Result<Schema, Error>)
        ensures
            match r {
                Ok(schema) => schema.types == types && well_formed(schema),
                Err(e) => schema_offence(Schema { types }, 0) is Some && e@ == violated(
                    schema_offence(Schema { types }, 0)->0,
                ),
            },
    {
        let schema = Schema { types };
        match schema.offence() {
            None => Ok(schema),
            Some(x) => Err(Error::violation(x)),
        }
    }
}

} // verus!

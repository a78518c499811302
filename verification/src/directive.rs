//! What the directives of a field and of a scope evaluate to: conditions,
//! counts, offsets, mappings, arguments, assertions and preludes.

use crate::endian::{apply_override, overridden, ByteOrder};
use crate::error::{Error, ErrorModel, IoFailure, Violation};
use crate::expr::{eval, eval_model, Expr};
use crate::prelude::{destructured, PreludeGenerator, Step};
use crate::schema::{
    override_model, Assertion, FieldDirective, FieldKind, Mapping, Shape, TypeDescriptor,
    VariantDescriptor,
};
use crate::stream::{io_failure, magic_matched, match_magic, violated};
use crate::value::{lemma_view_items, models, Value, ValueModel};
use vstd::prelude::*;

verus! {

/// Whether a field is to be read: its condition, where it has one.
pub open spec fn condition_model(
    condition: Option<Expr>,
    siblings: Seq<ValueModel>,
    args: Seq<ValueModel>,
) -> Result<bool, Violation> {
    match condition {
        None => Ok(true),
        Some(e) => match eval_model(e, siblings, args, None) {
            Ok(ValueModel::Bool(holds)) => Ok(holds),
            Ok(_) => Err(Violation::TypeMismatch),
            Err(x) => Err(x),
        },
    }
}

/// The number of elements that a count asks for.
pub open spec fn count_model(count: Expr, siblings: Seq<ValueModel>, args: Seq<ValueModel>)
    -> Result<nat, ErrorModel> {
    match eval_model(count, siblings, args, None) {
        Ok(ValueModel::Int(n)) => if 0 <= n <= usize::MAX {
            Ok(n as nat)
        } else {
            Err(io_failure(IoFailure::InvalidCount))
        },
        Ok(_) => Err(violated(Violation::TypeMismatch)),
        Err(x) => Err(violated(x)),
    }
}

/// The position that a reference is relative to: what the field's offset
/// evaluates to, or the base of the scope where it declares none.
pub open spec fn base_model(
    offset: Option<Expr>,
    siblings: Seq<ValueModel>,
    args: Seq<ValueModel>,
    base: nat,
) -> Result<int, Violation> {
    match offset {
        None => Ok(base as int),
        Some(e) => match eval_model(e, siblings, args, None) {
            Ok(ValueModel::Int(b)) => Ok(b),
            Ok(_) => Err(Violation::TypeMismatch),
            Err(x) => Err(x),
        },
    }
}

/// The position that a reference points to.
pub open spec fn target_model(base: Result<int, Violation>, pointer: int) -> Result<
    nat,
    ErrorModel,
> {
    match base {
        Err(x) => Err(violated(x)),
        Ok(b) => if 0 <= b + pointer <= usize::MAX {
            Ok((b + pointer) as nat)
        } else {
            Err(io_failure(IoFailure::InvalidSeek))
        },
    }
}

/// What a field stores of the value it produced: the value itself, or what
/// its mapping makes of it.
pub open spec fn mapped_model(
    map: Option<Mapping>,
    v: ValueModel,
    siblings: Seq<ValueModel>,
    args: Seq<ValueModel>,
) -> Result<ValueModel, Violation> {
    match map {
        None => Ok(v),
        Some(m) => eval_model(m.forward, siblings, args, Some(v)),
    }
}

/// What a field holds when it is set to its default: an empty sequence for a
/// counted field, zero for an integer, and nothing for anything else.
pub open spec fn default_model(d: FieldDirective) -> ValueModel {
    if d.count is Some {
        ValueModel::List(Seq::empty())
    } else {
        match d.kind {
            FieldKind::Plain(Shape::Int { .. }) => ValueModel::Int(0),
            _ => ValueModel::Absent,
        }
    }
}

/// The values of `exprs` from the `k`-th on, put after `acc`. The first that
/// fails to evaluate ends it.
#[verifier::opaque]
pub open spec fn eval_all_model(
    exprs: Seq<Expr>,
    k: nat,
    siblings: Seq<ValueModel>,
    args: Seq<ValueModel>,
    acc: Seq<ValueModel>,
) -> Result<Seq<ValueModel>, Violation>
    decreases exprs.len() - k,
{
    if k >= exprs.len() {
        Ok(acc)
    } else {
        match eval_model(exprs[k as int], siblings, args, None) {
            Ok(v) => eval_all_model(exprs, k + 1, siblings, args, acc.push(v)),
            Err(x) => Err(x),
        }
    }
}

/// What one assertion says of a scope that began at `pos`.
pub open spec fn assertion_model(
    a: Assertion,
    siblings: Seq<ValueModel>,
    args: Seq<ValueModel>,
    pos: nat,
) -> Result<(), ErrorModel> {
    match eval_model(a.condition, siblings, args, None) {
        Ok(ValueModel::Bool(true)) => Ok(()),
        Ok(ValueModel::Bool(false)) => match eval_all_model(
            a.payload@,
            0,
            siblings,
            args,
            Seq::empty(),
        ) {
            Ok(payload) => Err(ErrorModel::AssertFail { pos, message: a.message@, payload }),
            Err(x) => Err(violated(x)),
        },
        Ok(_) => Err(violated(Violation::TypeMismatch)),
        Err(x) => Err(violated(x)),
    }
}

/// What the assertions from the `k`-th on say, in declared order: the first
/// that fails ends it.
#[verifier::opaque]
pub open spec fn asserts_model(
    asserts: Seq<Assertion>,
    k: nat,
    siblings: Seq<ValueModel>,
    args: Seq<ValueModel>,
    pos: nat,
) -> Result<(), ErrorModel>
    decreases asserts.len() - k,
{
    if k >= asserts.len() {
        Ok(())
    } else {
        match assertion_model(asserts[k as int], siblings, args, pos) {
            Ok(()) => asserts_model(asserts, k + 1, siblings, args, pos),
            Err(e) => Err(e),
        }
    }
}

/// Where a prelude leaves a read: the position after it and the byte order
/// that it settled.
pub type Entered = Result<(nat, ByteOrder), ErrorModel>;

/// What one step of a prelude does to a read.
pub open spec fn step_model(
    step: Step,
    data: Seq<u8>,
    pos: nat,
    order: ByteOrder,
    args: Seq<ValueModel>,
) -> Entered {
    match step {
        Step::BindImports(n) => if args.len() == n {
            Ok((pos, order))
        } else {
            Err(violated(Violation::ArityMismatch))
        },
        Step::SetEndian(endian) => match override_model(*endian, Seq::empty(), args) {
            Ok(level) => Ok((pos, overridden(level, order))),
            Err(x) => Err(violated(x)),
        },
        Step::Magic(bytes) => match magic_matched(data, pos, bytes@) {
            Ok(p) => Ok((p, order)),
            Err(e) => Err(e),
        },
    }
}

/// What the steps of a prelude from the `k`-th on do to a read.
#[verifier::opaque]
pub open spec fn prelude_model(
    steps: Seq<Step>,
    k: nat,
    data: Seq<u8>,
    pos: nat,
    order: ByteOrder,
    args: Seq<ValueModel>,
) -> Entered
    decreases steps.len() - k,
{
    if k >= steps.len() {
        Ok((pos, order))
    } else {
        match step_model(steps[k as int], data, pos, order, args) {
            Ok((p, o)) => prelude_model(steps, k + 1, data, p, o, args),
            Err(e) => Err(e),
        }
    }
}

/// The steps of a magic, where one is declared.
pub open spec fn magic_steps<'a>(magic: &'a Option<Vec<u8>>) -> Seq<Step<'a>> {
    match magic {
        Some(bytes) => seq![Step::Magic(bytes)],
        None => Seq::empty(),
    }
}

/// The steps of binding the arguments, where the type takes any.
pub open spec fn import_steps<'a>(imports: usize) -> Seq<Step<'a>> {
    match destructured(imports) {
        Some(n) => seq![Step::BindImports(n)],
        None => Seq::empty(),
    }
}

/// The prelude of a type: the arguments, then the byte order, then the
/// constant.
pub open spec fn type_prelude<'a>(d: &'a TypeDescriptor) -> Seq<Step<'a>> {
    import_steps(d.imports) + seq![Step::SetEndian(&d.endian)] + magic_steps(&d.magic)
}

/// The prelude of a variant: the byte order, then the constant.
pub open spec fn variant_prelude<'a>(v: &'a VariantDescriptor) -> Seq<Step<'a>> {
    seq![Step::SetEndian(&v.endian)] + magic_steps(&v.magic)
}

/// The model of where an executable prelude left a read.
pub open spec fn entered(r: Result<(usize, ByteOrder), Error>) -> Entered {
    match r {
        Ok((p, o)) => Ok((p as nat, o)),
        Err(e) => Err(e@),
    }
}

/// Builds the prelude of a type.
pub fn build_type_prelude<'a>(d: &'a TypeDescriptor) -> (r: Vec<Step<'a>>)
    ensures
        r@ == type_prelude(d),
{
    let steps = PreludeGenerator::new(Vec::new(), Some(d)).prefix_magic(&d.magic).prefix_endian(
        &d.endian,
    ).prefix_imports().finish();
    steps
}

/// Builds the prelude of a variant.
pub fn build_variant_prelude<'a>(v: &'a VariantDescriptor) -> (r: Vec<Step<'a>>)
    ensures
        r@ == variant_prelude(v),
{
    let steps = PreludeGenerator::new(Vec::new(), None).prefix_magic(&v.magic).prefix_endian(
        &v.endian,
    ).finish();
    steps
}

/// Whether a field is to be read.
pub fn check_condition(condition: &Option<Expr>, siblings: &Vec<Value>, args: &Vec<Value>) -> (r:
    Result<bool, Violation>)
    ensures
        r == condition_model(*condition, models(siblings@), models(args@)),
{
    match condition {
        None => Ok(true),
        Some(e) => match eval(e, siblings, args, None) {
            Ok(Value::Bool(holds)) => Ok(holds),
            Ok(_) => Err(Violation::TypeMismatch),
            Err(x) => Err(x),
        },
    }
}

/// The number of elements that a count asks for.
pub fn eval_count(count: &Expr, siblings: &Vec<Value>, args: &Vec<Value>) -> (r: Result<
    usize,
    Error,
>)
    ensures
        crate::stream::reached(r) == count_model(*count, models(siblings@), models(args@)),
{
    match eval(count, siblings, args, None) {
        Ok(Value::Int(n)) => {
            if 0 <= n && n <= usize::MAX as i128 {
                Ok(n as usize)
            } else {
                Err(Error::io(IoFailure::InvalidCount))
            }
        },
        Ok(_) => Err(Error::violation(Violation::TypeMismatch)),
        Err(x) => Err(Error::violation(x)),
    }
}

/// The position that a reference points to.
pub fn eval_target(
    offset: &Option<Expr>,
    siblings: &Vec<Value>,
    args: &Vec<Value>,
    base: usize,
    pointer: i128,
) -> (r: Result<usize, Error>)
    ensures
        crate::stream::reached(r) == target_model(
            base_model(*offset, models(siblings@), models(args@), base as nat),
            pointer as int,
        ),
{
    let from: Result<i128, Violation> = match offset {
        None => Ok(base as i128),
        Some(e) => match eval(e, siblings, args, None) {
            Ok(Value::Int(b)) => Ok(b),
            Ok(_) => Err(Violation::TypeMismatch),
            Err(x) => Err(x),
        },
    };
    match from {
        Err(x) => Err(Error::violation(x)),
        Ok(b) => match b.checked_add(pointer) {
            Some(t) => {
                if 0 <= t && t <= usize::MAX as i128 {
                    Ok(t as usize)
                } else {
                    Err(Error::io(IoFailure::InvalidSeek))
                }
            },
            None => Err(Error::io(IoFailure::InvalidSeek)),
        },
    }
}

/// What a field stores of the value it produced.
pub fn apply_map(map: &Option<Mapping>, v: Value, siblings: &Vec<Value>, args: &Vec<Value>) -> (r:
    Result<Value, Violation>)
    ensures
        crate::expr::evaluated(r) == mapped_model(*map, v@, models(siblings@), models(args@)),
{
    match map {
        None => Ok(v),
        Some(m) => eval(&m.forward, siblings, args, Some(&v)),
    }
}

/// What a field holds when it is set to its default.
pub fn default_value(d: &FieldDirective) -> (r: Value)
    ensures
        r@ == default_model(*d),
{
    if d.count.is_some() {
        let items: Vec<Value> = Vec::new();
        proof {
            lemma_view_items(0, items);
            assert(models(items@) =~= Seq::<ValueModel>::empty());
        }
        Value::List(items)
    } else {
        match &d.kind {
            FieldKind::Plain(Shape::Int { .. }) => Value::Int(0),
            _ => Value::Absent,
        }
    }
}

/// Evaluates every expression of `exprs`, in order.
pub fn eval_all(exprs: &Vec<Expr>, siblings: &Vec<Value>, args: &Vec<Value>) -> (r: Result<
    Vec<Value>,
    Violation,
>)
    ensures
        match r {
            Ok(values) => eval_all_model(
                exprs@,
                0,
                models(siblings@),
                models(args@),
                Seq::empty(),
            ) == Ok::<Seq<ValueModel>, Violation>(models(values@)),
            Err(x) => eval_all_model(exprs@, 0, models(siblings@), models(args@), Seq::empty())
                == Err::<Seq<ValueModel>, Violation>(x),
        },
{
    reveal(eval_all_model);
    let mut out: Vec<Value> = Vec::new();
    let mut k: usize = 0;
    assert(models(out@) =~= Seq::<ValueModel>::empty());
    while k < exprs.len()
        invariant
            k <= exprs.len(),
            eval_all_model(exprs@, k as nat, models(siblings@), models(args@), models(out@))
                == eval_all_model(exprs@, 0, models(siblings@), models(args@), Seq::empty()),
        decreases exprs.len() - k,
    {
        reveal(eval_all_model);
        match eval(&exprs[k], siblings, args, None) {
            Ok(v) => {
                let ghost before = models(out@);
                let ghost added = v@;
                out.push(v);
                assert(models(out@) =~= before.push(added));
            },
            Err(x) => {
                return Err(x);
            },
        }
        k += 1;
    }
    Ok(out)
}

/// Checks the assertions of a scope that began at `pos`, in declared order.
pub fn check_asserts(
    asserts: &Vec<Assertion>,
    siblings: &Vec<Value>,
    args: &Vec<Value>,
    pos: usize,
) -> (r: Result<(), Error>)
    ensures
        match r {
            Ok(()) => asserts_model(asserts@, 0, models(siblings@), models(args@), pos as nat)
                == Ok::<(), ErrorModel>(()),
            Err(e) => asserts_model(asserts@, 0, models(siblings@), models(args@), pos as nat)
                == Err::<(), ErrorModel>(e@),
        },
{
    reveal(asserts_model);
    let mut k: usize = 0;
    while k < asserts.len()
        invariant
            k <= asserts.len(),
            asserts_model(asserts@, k as nat, models(siblings@), models(args@), pos as nat)
                == asserts_model(asserts@, 0, models(siblings@), models(args@), pos as nat),
        decreases asserts.len() - k,
    {
        reveal(asserts_model);
        let a = &asserts[k];
        match eval(&a.condition, siblings, args, None) {
            Ok(Value::Bool(true)) => {},
            Ok(Value::Bool(false)) => {
                match eval_all(&a.payload, siblings, args) {
                    Ok(payload) => {
                        return Err(Error::AssertFail { pos, message: a.message.clone(), payload });
                    },
                    Err(x) => {
                        return Err(Error::violation(x));
                    },
                }
            },
            Ok(_) => {
                return Err(Error::violation(Violation::TypeMismatch));
            },
            Err(x) => {
                return Err(Error::violation(x));
            },
        }
        k += 1;
    }
    Ok(())
}

/// Runs the steps of a prelude on a read.
pub fn run_prelude(
    steps: &Vec<Step>,
    data: &Vec<u8>,
    pos: usize,
    order: ByteOrder,
    args: &Vec<Value>,
) -> (r: Result<(usize, ByteOrder), Error>)
    ensures
        entered(r) == prelude_model(steps@, 0, data@, pos as nat, order, models(args@)),
{
    reveal(prelude_model);
    let mut at: usize = pos;
    let mut current: ByteOrder = order;
    let mut k: usize = 0;
    while k < steps.len()
        invariant
            k <= steps.len(),
            prelude_model(steps@, k as nat, data@, at as nat, current, models(args@))
                == prelude_model(steps@, 0, data@, pos as nat, order, models(args@)),
        decreases steps.len() - k,
    {
        reveal(prelude_model);
        match &steps[k] {
            Step::BindImports(n) => {
                if args.len() != *n {
                    return Err(Error::violation(Violation::ArityMismatch));
                }
            },
            Step::SetEndian(endian) => {
                let empty: Vec<Value> = Vec::new();
                assert(models(empty@) =~= Seq::<ValueModel>::empty());
                match endian.evaluate(&empty, args) {
                    Ok(level) => {
                        current = apply_override(level, current);
                    },
                    Err(x) => {
                        return Err(Error::violation(x));
                    },
                }
            },
            Step::Magic(bytes) => {
                match match_magic(data, at, bytes) {
                    Ok(p) => {
                        at = p;
                    },
                    Err(e) => {
                        return Err(e);
                    },
                }
            },
        }
        k += 1;
    }
    Ok((at, current))
}

} // verus!

//! Expressions over the values of a scope, and their evaluation.
//!
//! A condition, a computed field, a count, an offset or an assertion is an
//! [`Expr`]: a small tree over integer and boolean constants, the siblings
//! that the scope has produced so far, and the arguments passed to the type.

use crate::error::Violation;
use crate::value::{models, Value, ValueModel};
use vstd::prelude::*;

verus! {

/// An expression over the values of a scope.
#[derive(Debug, PartialEq, Eq)]
pub enum Expr {
    /// An integer constant.
    Int(i128),
    /// A boolean constant.
    Bool(bool),
    /// The sibling with this declaration index.
    Field(usize),
    /// The argument at this place.
    Arg(usize),
    /// The value that the field has just produced.
    This,
    /// The first operand, or the second where the first is absent.
    OrElse(Box<Expr>, Box<Expr>),
    /// The number of items of a list.
    Len(Box<Expr>),
    Add(Box<Expr>, Box<Expr>),
    Sub(Box<Expr>, Box<Expr>),
    Mul(Box<Expr>, Box<Expr>),
    /// Equality of two integers or of two booleans.
    Eq(Box<Expr>, Box<Expr>),
    /// Whether the first integer is less than the second.
    Lt(Box<Expr>, Box<Expr>),
    Not(Box<Expr>),
    And(Box<Expr>, Box<Expr>),
}

/// The result of evaluating an expression, as a model.
pub type Evaluated = Result<ValueModel, Violation>;

/// A value looked up in a scope: it has to be there, and to hold something.
pub open spec fn looked_up(slots: Seq<ValueModel>, index: nat, missing: Violation) -> Evaluated {
    if index >= slots.len() {
        Err(missing)
    } else if slots[index as int] is Absent {
        Err(Violation::AbsentOperand)
    } else {
        Ok(slots[index as int])
    }
}

/// An integer result, which has to fit the widest integer the engine holds.
pub open spec fn fitted(z: int) -> Evaluated {
    if i128::MIN <= z <= i128::MAX {
        Ok(ValueModel::Int(z))
    } else {
        Err(Violation::Overflow)
    }
}

/// One of the three arithmetic operators: 0 adds, 1 subtracts, 2 multiplies.
pub open spec fn arithmetic(op: int, a: Evaluated, b: Evaluated) -> Evaluated {
    match (a, b) {
        (Err(x), _) => Err(x),
        (Ok(_), Err(y)) => Err(y),
        (Ok(ValueModel::Int(x)), Ok(ValueModel::Int(y))) => if op == 0 {
            fitted(x + y)
        } else if op == 1 {
            fitted(x - y)
        } else {
            fitted(x * y)
        },
        _ => Err(Violation::TypeMismatch),
    }
}

/// Equality of two evaluated operands.
pub open spec fn equality(a: Evaluated, b: Evaluated) -> Evaluated {
    match (a, b) {
        (Err(x), _) => Err(x),
        (Ok(_), Err(y)) => Err(y),
        (Ok(ValueModel::Int(x)), Ok(ValueModel::Int(y))) => Ok(ValueModel::Bool(x == y)),
        (Ok(ValueModel::Bool(x)), Ok(ValueModel::Bool(y))) => Ok(ValueModel::Bool(x == y)),
        _ => Err(Violation::TypeMismatch),
    }
}

/// Strict order of two evaluated operands.
pub open spec fn less_than(a: Evaluated, b: Evaluated) -> Evaluated {
    match (a, b) {
        (Err(x), _) => Err(x),
        (Ok(_), Err(y)) => Err(y),
        (Ok(ValueModel::Int(x)), Ok(ValueModel::Int(y))) => Ok(ValueModel::Bool(x < y)),
        _ => Err(Violation::TypeMismatch),
    }
}

/// Conjunction of two evaluated operands. Both are evaluated.
pub open spec fn conjunction(a: Evaluated, b: Evaluated) -> Evaluated {
    match (a, b) {
        (Err(x), _) => Err(x),
        (Ok(_), Err(y)) => Err(y),
        (Ok(ValueModel::Bool(x)), Ok(ValueModel::Bool(y))) => Ok(ValueModel::Bool(x && y)),
        _ => Err(Violation::TypeMismatch),
    }
}

/// Negation of an evaluated operand.
pub open spec fn negation(a: Evaluated) -> Evaluated {
    match a {
        Err(x) => Err(x),
        Ok(ValueModel::Bool(x)) => Ok(ValueModel::Bool(!x)),
        _ => Err(Violation::TypeMismatch),
    }
}

/// The length of an evaluated list.
pub open spec fn length(a: Evaluated) -> Evaluated {
    match a {
        Err(x) => Err(x),
        Ok(ValueModel::List(items)) => fitted(items.len() as int),
        _ => Err(Violation::TypeMismatch),
    }
}

/// The first operand unless it is an absent value, then the second.
pub open spec fn fallback(a: Evaluated, b: Evaluated) -> Evaluated {
    match a {
        Err(Violation::AbsentOperand) => b,
        _ => a,
    }
}

/// What an expression evaluates to.
///
/// `siblings` holds the fields of the scope that have been produced, in
/// declaration order: a sibling beyond its end has not been produced yet, and
/// naming it is an ordering violation. `args` holds the arguments of the
/// type, and `this` the value that the field at hand has just produced.
#[verifier::opaque]
pub open spec fn eval_model(
    e: Expr,
    siblings: Seq<ValueModel>,
    args: Seq<ValueModel>,
    this: Option<ValueModel>,
) -> Evaluated
    decreases e,
{
    match e {
        Expr::Int(i) => Ok(ValueModel::Int(i as int)),
        Expr::Bool(b) => Ok(ValueModel::Bool(b)),
        Expr::Field(i) => looked_up(siblings, i as nat, Violation::ForwardReference),
        Expr::Arg(i) => looked_up(args, i as nat, Violation::ArityMismatch),
        Expr::This => match this {
            Some(v) => looked_up(seq![v], 0, Violation::AbsentOperand),
            None => Err(Violation::AbsentOperand),
        },
        Expr::OrElse(a, b) => fallback(
            eval_model(*a, siblings, args, this),
            eval_model(*b, siblings, args, this),
        ),
        Expr::Len(a) => length(eval_model(*a, siblings, args, this)),
        Expr::Add(a, b) => arithmetic(
            0,
            eval_model(*a, siblings, args, this),
            eval_model(*b, siblings, args, this),
        ),
        Expr::Sub(a, b) => arithmetic(
            1,
            eval_model(*a, siblings, args, this),
            eval_model(*b, siblings, args, this),
        ),
        Expr::Mul(a, b) => arithmetic(
            2,
            eval_model(*a, siblings, args, this),
            eval_model(*b, siblings, args, this),
        ),
        Expr::Eq(a, b) => equality(
            eval_model(*a, siblings, args, this),
            eval_model(*b, siblings, args, this),
        ),
        Expr::Lt(a, b) => less_than(
            eval_model(*a, siblings, args, this),
            eval_model(*b, siblings, args, this),
        ),
        Expr::Not(a) => negation(eval_model(*a, siblings, args, this)),
        Expr::And(a, b) => conjunction(
            eval_model(*a, siblings, args, this),
            eval_model(*b, siblings, args, this),
        ),
    }
}

/// The model of an evaluation result.
pub open spec fn evaluated(r: Result<Value, Violation>) -> Evaluated {
    match r {
        Ok(v) => Ok(v@),
        Err(x) => Err(x),
    }
}

/// The model of the value that a field has just produced, where there is one.
pub open spec fn this_model(this: Option<&Value>) -> Option<ValueModel> {
    match this {
        Some(v) => Some(v@),
        None => None,
    }
}

fn look_up(slots: &Vec<Value>, index: usize, missing: Violation) -> (r: Result<Value, Violation>)
    ensures
        evaluated(r) == looked_up(models(slots@), index as nat, missing),
{
    if index >= slots.len() {
        Err(missing)
    } else {
        match &slots[index] {
            Value::Absent => Err(Violation::AbsentOperand),
            v => Ok(v.duplicate()),
        }
    }
}

fn fit(z: Option<i128>) -> (r: Result<Value, Violation>)
    ensures
        evaluated(r) == match z {
            Some(v) => Ok::<ValueModel, Violation>(ValueModel::Int(v as int)),
            None => Err(Violation::Overflow),
        },
{
    match z {
        Some(v) => Ok(Value::Int(v)),
        None => Err(Violation::Overflow),
    }
}

fn arith(op: u8, a: Result<Value, Violation>, b: Result<Value, Violation>) -> (r: Result<
    Value,
    Violation,
>)
    requires
        op <= 2,
    ensures
        evaluated(r) == arithmetic(op as int, evaluated(a), evaluated(b)),
{
    match (a, b) {
        (Err(x), _) => Err(x),
        (Ok(_), Err(y)) => Err(y),
        (Ok(Value::Int(x)), Ok(Value::Int(y))) => {
            if op == 0 {
                fit(x.checked_add(y))
            } else if op == 1 {
                fit(x.checked_sub(y))
            } else {
                fit(x.checked_mul(y))
            }
        },
        _ => Err(Violation::TypeMismatch),
    }
}

fn compare(op: u8, a: Result<Value, Violation>, b: Result<Value, Violation>) -> (r: Result<
    Value,
    Violation,
>)
    requires
        op <= 2,
    ensures
        evaluated(r) == if op == 0 {
            equality(evaluated(a), evaluated(b))
        } else if op == 1 {
            less_than(evaluated(a), evaluated(b))
        } else {
            conjunction(evaluated(a), evaluated(b))
        },
{
    match (a, b) {
        (Err(x), _) => Err(x),
        (Ok(_), Err(y)) => Err(y),
        (Ok(Value::Int(x)), Ok(Value::Int(y))) => {
            if op == 0 {
                Ok(Value::Bool(x == y))
            } else if op == 1 {
                Ok(Value::Bool(x < y))
            } else {
                Err(Violation::TypeMismatch)
            }
        },
        (Ok(Value::Bool(x)), Ok(Value::Bool(y))) => {
            if op == 0 {
                Ok(Value::Bool(x == y))
            } else if op == 1 {
                Err(Violation::TypeMismatch)
            } else {
                Ok(Value::Bool(x && y))
            }
        },
        _ => Err(Violation::TypeMismatch),
    }
}

fn unary(op: u8, a: Result<Value, Violation>) -> (r: Result<Value, Violation>)
    requires
        op <= 1,
    ensures
        evaluated(r) == if op == 0 {
            negation(evaluated(a))
        } else {
            length(evaluated(a))
        },
{
    match a {
        Err(x) => Err(x),
        Ok(Value::Bool(x)) => {
            if op == 0 {
                Ok(Value::Bool(!x))
            } else {
                Err(Violation::TypeMismatch)
            }
        },
        Ok(Value::List(items)) => {
            if op == 0 {
                Err(Violation::TypeMismatch)
            } else {
                proof {
                    crate::value::lemma_view_items(0, items);
                }
                Ok(Value::Int(items.len() as i128))
            }
        },
        _ => Err(Violation::TypeMismatch),
    }
}

/// Evaluates an expression in a scope.
///
/// `siblings` holds the fields produced so far, `args` the arguments of the
/// type, `this` the value that the field at hand has just produced.
pub fn eval(e: &Expr, siblings: &Vec<Value>, args: &Vec<Value>, this: Option<&Value>) -> (r:
    Result<Value, Violation>)
    ensures
        evaluated(r) == eval_model(*e, models(siblings@), models(args@), this_model(this)),
    decreases e,
{
    reveal(eval_model);
    match e {
        Expr::Int(i) => Ok(Value::Int(*i)),
        Expr::Bool(b) => Ok(Value::Bool(*b)),
        Expr::Field(i) => look_up(siblings, *i, Violation::ForwardReference),
        Expr::Arg(i) => look_up(args, *i, Violation::ArityMismatch),
        Expr::This => match this {
            Some(v) => match v {
                Value::Absent => Err(Violation::AbsentOperand),
                _ => Ok(v.duplicate()),
            },
            None => Err(Violation::AbsentOperand),
        },
        Expr::OrElse(a, b) => {
            let first = eval(a, siblings, args, this);
            let second = eval(b, siblings, args, this);
            match first {
                Err(Violation::AbsentOperand) => second,
                _ => first,
            }
        },
        Expr::Len(a) => unary(1, eval(a, siblings, args, this)),
        Expr::Add(a, b) => arith(0, eval(a, siblings, args, this), eval(b, siblings, args, this)),
        Expr::Sub(a, b) => arith(1, eval(a, siblings, args, this), eval(b, siblings, args, this)),
        Expr::Mul(a, b) => arith(2, eval(a, siblings, args, this), eval(b, siblings, args, this)),
        Expr::Eq(a, b) => compare(0, eval(a, siblings, args, this), eval(b, siblings, args, this)),
        Expr::Lt(a, b) => compare(1, eval(a, siblings, args, this), eval(b, siblings, args, this)),
        Expr::Not(a) => unary(0, eval(a, siblings, args, this)),
        Expr::And(a, b) => compare(2, eval(a, siblings, args, this), eval(b, siblings, args, this)),
    }
}

impl Expr {
    /// The sum of two expressions.
    pub fn plus(a: Expr, b: Expr) -> (e: Expr)
        ensures
            e == Expr::Add(Box::new(a), Box::new(b)),
    {
        Expr::Add(Box::new(a), Box::new(b))
    }

    /// The difference of two expressions.
    pub fn minus(a: Expr, b: Expr) -> (e: Expr)
        ensures
            e == Expr::Sub(Box::new(a), Box::new(b)),
    {
        Expr::Sub(Box::new(a), Box::new(b))
    }

    /// The product of two expressions.
    pub fn times(a: Expr, b: Expr) -> (e: Expr)
        ensures
            e == Expr::Mul(Box::new(a), Box::new(b)),
    {
        Expr::Mul(Box::new(a), Box::new(b))
    }

    /// Whether two expressions are equal.
    pub fn equals(a: Expr, b: Expr) -> (e: Expr)
        ensures
            e == Expr::Eq(Box::new(a), Box::new(b)),
    {
        Expr::Eq(Box::new(a), Box::new(b))
    }

    /// Whether the first expression is less than the second.
    pub fn less(a: Expr, b: Expr) -> (e: Expr)
        ensures
            e == Expr::Lt(Box::new(a), Box::new(b)),
    {
        Expr::Lt(Box::new(a), Box::new(b))
    }

    /// Whether the first expression is greater than the second: the second
    /// is less than the first.
    pub fn greater(a: Expr, b: Expr) -> (e: Expr)
        ensures
            e == Expr::Lt(Box::new(b), Box::new(a)),
    {
        Expr::Lt(Box::new(b), Box::new(a))
    }

    /// The negation of an expression.
    pub fn negate(a: Expr) -> (e: Expr)
        ensures
            e == Expr::Not(Box::new(a)),
    {
        Expr::Not(Box::new(a))
    }

    /// Whether both expressions hold.
    pub fn both(a: Expr, b: Expr) -> (e: Expr)
        ensures
            e == Expr::And(Box::new(a), Box::new(b)),
    {
        Expr::And(Box::new(a), Box::new(b))
    }

    /// The first expression, or the second where the first is absent.
    pub fn or_else(a: Expr, b: Expr) -> (e: Expr)
        ensures
            e == Expr::OrElse(Box::new(a), Box::new(b)),
    {
        Expr::OrElse(Box::new(a), Box::new(b))
    }

    /// The number of items of a list.
    pub fn len_of(a: Expr) -> (e: Expr)
        ensures
            e == Expr::Len(Box::new(a)),
    {
        Expr::Len(Box::new(a))
    }
}

} // verus!

//! The values that a layout is read into and written from.

use vstd::prelude::*;

verus! {

/// A value as the engine holds it while it runs.
#[derive(Debug, PartialEq, Eq)]
pub enum Value {
    /// What a field holds when nothing was read for it.
    Absent,
    /// An integer, whatever the width it was read from.
    Int(i128),
    /// A truth value, as a condition computes it.
    Bool(bool),
    /// A fixed-length ordered sequence of elements.
    List(Vec<Value>),
    /// The fields of a structured type in declaration order, with the index of
    /// the variant they belong to (zero for a type without variants).
    Record(usize, Vec<Value>),
}

/// The mathematical model of a [`Value`].
pub enum ValueModel {
    Absent,
    Int(int),
    Bool(bool),
    List(Seq<ValueModel>),
    Record(nat, Seq<ValueModel>),
}

/// The model of a value, part by part.
pub open spec fn model_of(v: Value) -> ValueModel
    decreases v,
{
    match v {
        Value::Absent => ValueModel::Absent,
        Value::Int(i) => ValueModel::Int(i as int),
        Value::Bool(b) => ValueModel::Bool(b),
        Value::List(items) => ValueModel::List(
            Seq::new(
                items@.len(),
                |k: int|
                    if 0 <= k < items@.len() {
                        model_of(items@[k])
                    } else {
                        ValueModel::Absent
                    },
            ),
        ),
        Value::Record(tag, items) => ValueModel::Record(
            tag as nat,
            Seq::new(
                items@.len(),
                |k: int|
                    if 0 <= k < items@.len() {
                        model_of(items@[k])
                    } else {
                        ValueModel::Absent
                    },
            ),
        ),
    }
}

impl View for Value {
    type V = ValueModel;

    open spec fn view(&self) -> ValueModel {
        model_of(*self)
    }
}

/// The models of a sequence of values, item by item.
pub open spec fn models(items: Seq<Value>) -> Seq<ValueModel> {
    Seq::new(items.len(), |k: int| items[k]@)
}

/// The model of a list or a record is made of the models of its items.
pub proof fn lemma_view_items(tag: usize, items: Vec<Value>)
    ensures
        Value::List(items)@ == ValueModel::List(models(items@)),
        Value::Record(tag, items)@ == ValueModel::Record(tag as nat, models(items@)),
{
    let list = Value::List(items)@;
    assert forall|k: int| 0 <= k < items@.len() implies list->List_0[k] == items@[k]@ by {}
    assert(list->List_0 =~= models(items@));
}

impl Value {
    /// A copy of this value, equal to it in every part.
    pub fn duplicate(&self) -> (r: Value)
        ensures
            r@ == self@,
        decreases self,
    {
        match self {
            Value::Absent => Value::Absent,
            Value::Int(i) => Value::Int(*i),
            Value::Bool(b) => Value::Bool(*b),
            Value::List(items) => {
                let copy = duplicate_all(items);
                proof {
                    lemma_view_items(0, *items);
                    lemma_view_items(0, copy);
                }
                Value::List(copy)
            },
            Value::Record(tag, items) => {
                let copy = duplicate_all(items);
                proof {
                    lemma_view_items(*tag, *items);
                    lemma_view_items(*tag, copy);
                }
                Value::Record(*tag, copy)
            },
        }
    }
}

/// A copy of each value of `items`, in order.
pub fn duplicate_all(items: &Vec<Value>) -> (r: Vec<Value>)
    ensures
        models(r@) == models(items@),
    decreases items,
{
    let mut out: Vec<Value> = Vec::new();
    let mut k: usize = 0;
    while k < items.len()
        invariant
            k <= items.len(),
            out@.len() == k,
            forall|j: int| 0 <= j < k ==> out@[j]@ == items@[j]@,
        decreases items.len() - k,
    {
        let c = items[k].duplicate();
        out.push(c);
        k += 1;
    }
    out
}

} // verus!

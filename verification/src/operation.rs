//! Operations: the deterministic state transitions that a step applies, and
//! the ordered list of them that all agents of a model share.

use crate::error::{SchemaError, StepError};
use crate::schema::{position, PropertySchema};
use vstd::prelude::*;

verus! {

/// One deterministic transition of an agent's property values.
#[derive(Debug)]
pub enum Operation {
    /// Add the constant `delta` to the property called `name`.
    AddToProperty { name: String, delta: i64 },
}

/// What an [`Operation`] says, with the name as a character sequence.
pub enum OperationView {
    AddToProperty { name: Seq<char>, delta: i64 },
}

impl OperationView {
    /// The name of the property that the operation reads and writes.
    pub open spec fn target(self) -> Seq<char> {
        match self {
            OperationView::AddToProperty { name, .. } => name,
        }
    }
}

impl View for Operation {
    type V = OperationView;

    open spec fn view(&self) -> OperationView {
        match *self {
            Operation::AddToProperty { name, delta } => OperationView::AddToProperty {
                name: name@,
                delta,
            },
        }
    }
}

impl Operation {
    /// The operation that adds `delta` to the property called `name`.
    pub fn add_to_property(name: &str, delta: i64) -> (op: Operation)
        ensures
            op@ == (OperationView::AddToProperty { name: name@, delta }),
    {
        Operation::AddToProperty { name: name.to_owned(), delta }
    }

    /// The name of the property that the operation reads and writes.
    pub fn target(&self) -> (name: &String)
        ensures
            name@ == self@.target(),
    {
        match self {
            Operation::AddToProperty { name, .. } => name,
        }
    }
}

/// What a list of operations says, in the same order.
pub open spec fn operation_views(ops: Seq<Operation>) -> Seq<OperationView> {
    ops.map_values(|op: Operation| op@)
}

/// Whether every operation of `ops` names a property of `names`.
pub open spec fn all_resolve(names: Seq<Seq<char>>, ops: Seq<OperationView>) -> bool {
    forall|k: int| 0 <= k < ops.len() ==> position(names, #[trigger] ops[k].target()).is_some()
}

/// An ordered sequence of operations. It cannot be changed once it exists,
/// and is shared by reference among all agents of a model.
#[derive(Debug)]
pub struct OperationList {
    ops: Vec<Operation>,
}

impl View for OperationList {
    type V = Seq<OperationView>;

    closed spec fn view(&self) -> Seq<OperationView> {
        operation_views(self.ops@)
    }
}

impl OperationList {
    /// Freezes `ops`, in the order given, into an operation list.
    pub fn new(ops: Vec<Operation>) -> (list: OperationList)
        ensures
            list@ == operation_views(ops@),
    {
        OperationList { ops }
    }

    /// The number of operations.
    pub fn len(&self) -> (n: usize)
        ensures
            n == self@.len(),
    {
        self.ops.len()
    }

    /// The operation at position `k`.
    pub fn get(&self, k: usize) -> (op: &Operation)
        requires
            k < self@.len(),
        ensures
            op@ == self@[k as int],
    {
        &self.ops[k]
    }

    /// Checks every operation against `schema`. Fails with `UnknownProperty`
    /// exactly when some operation names a property that `schema` lacks.
    pub fn validate(&self, schema: &PropertySchema) -> (r: Result<(), SchemaError>)
        ensures
            match r {
                Ok(_) => all_resolve(schema@, self@),
                Err(e) => e == SchemaError::UnknownProperty && !all_resolve(schema@, self@),
            },
    {
        let n = self.ops.len();
        let mut k: usize = 0;
        while k < n
            invariant
                n == self.ops.len(),
                k <= n,
                forall|j: int| 0 <= j < k ==> position(schema@, #[trigger] self@[j].target()).is_some(),
            decreases n - k,
        {
            if schema.index_of_name(self.ops[k].target()).is_err() {
                assert(position(schema@, self@[k as int].target()).is_none());
                return Err(SchemaError::UnknownProperty);
            }
            k += 1;
        }
        Ok(())
    }
}

/// The values that result from applying one operation to `values`, laid out
/// by `names`: the named property receives the sum, nothing else changes.
pub open spec fn apply_op(names: Seq<Seq<char>>, values: Seq<i64>, op: OperationView) -> Result<
    Seq<i64>,
    StepError,
> {
    match op {
        OperationView::AddToProperty { name, delta } => match position(names, name) {
            None => Err(StepError::UnknownProperty),
            Some(i) => match values[i].checked_add(delta) {
                Some(sum) => Ok(values.update(i, sum)),
                None => Err(StepError::Overflow),
            },
        },
    }
}

/// The values that result from applying `ops` to `values` one after the other
/// in list order, or the first error that an operation ran into.
pub open spec fn apply_all(names: Seq<Seq<char>>, values: Seq<i64>, ops: Seq<OperationView>) -> Result<
    Seq<i64>,
    StepError,
>
    decreases ops.len(),
{
    if ops.len() == 0 {
        Ok(values)
    } else {
        match apply_all(names, values, ops.drop_last()) {
            Ok(before) => apply_op(names, before, ops.last()),
            Err(e) => Err(e),
        }
    }
}

/// Applying an operation never changes the length of the array.
pub proof fn lemma_apply_op_keeps_layout(names: Seq<Seq<char>>, values: Seq<i64>, op: OperationView)
    requires
        values.len() == names.len(),
    ensures
        apply_op(names, values, op) matches Ok(next) ==> next.len() == names.len(),
{
}

/// Applying a list of operations never changes the length of the array.
pub proof fn lemma_apply_all_keeps_layout(
    names: Seq<Seq<char>>,
    values: Seq<i64>,
    ops: Seq<OperationView>,
)
    requires
        values.len() == names.len(),
    ensures
        apply_all(names, values, ops) matches Ok(next) ==> next.len() == names.len(),
    decreases ops.len(),
{
    if ops.len() > 0 {
        lemma_apply_all_keeps_layout(names, values, ops.drop_last());
        if let Ok(before) = apply_all(names, values, ops.drop_last()) {
            lemma_apply_op_keeps_layout(names, before, ops.last());
        }
    }
}

/// An error that the first `k` operations run into is the error of the whole
/// list: nothing after a failure is applied.
pub proof fn lemma_apply_all_stops_at_error(
    names: Seq<Seq<char>>,
    values: Seq<i64>,
    ops: Seq<OperationView>,
    k: int,
)
    requires
        0 <= k <= ops.len(),
        apply_all(names, values, ops.take(k)) is Err,
    ensures
        apply_all(names, values, ops) == apply_all(names, values, ops.take(k)),
    decreases ops.len() - k,
{
    if k < ops.len() {
        assert(ops.take(k + 1).drop_last() == ops.take(k));
        lemma_apply_all_stops_at_error(names, values, ops, k + 1);
    } else {
        assert(ops.take(k) == ops);
    }
}

/// Fold order: applying the list `first + second` is applying `first` and
/// then, to what it gives, `second`; an error in `first` is the error of the
/// whole.
pub proof fn lemma_apply_all_in_sequence(
    names: Seq<Seq<char>>,
    values: Seq<i64>,
    first: Seq<OperationView>,
    second: Seq<OperationView>,
)
    ensures
        apply_all(names, values, first + second) == match apply_all(names, values, first) {
            Ok(between) => apply_all(names, between, second),
            Err(e) => Err(e),
        },
    decreases second.len(),
{
    if second.len() == 0 {
        assert(first + second == first);
    } else {
        assert((first + second).drop_last() == first + second.drop_last());
        assert((first + second).last() == second.last());
        lemma_apply_all_in_sequence(names, values, first, second.drop_last());
    }
}

/// Applying a single operation as a list is applying that operation.
pub proof fn lemma_apply_all_single(names: Seq<Seq<char>>, values: Seq<i64>, op: OperationView)
    ensures
        apply_all(names, values, seq![op]) == apply_op(names, values, op),
{
    assert(seq![op].drop_last() == Seq::<OperationView>::empty());
    assert(seq![op].last() == op);
    assert(apply_all(names, values, Seq::<OperationView>::empty()) == Ok::<Seq<i64>, StepError>(values));
}

/// The result of `a` followed by `b`.
pub open spec fn apply_pair(
    names: Seq<Seq<char>>,
    values: Seq<i64>,
    a: OperationView,
    b: OperationView,
) -> Result<Seq<i64>, StepError> {
    match apply_op(names, values, a) {
        Ok(between) => apply_op(names, between, b),
        Err(e) => Err(e),
    }
}

/// Order sensitivity: the list `[a, b]` applies `a` first and `b` second, so
/// it and the reversed list give different results exactly when `a` and `b`
/// do not commute on the values at hand.
pub proof fn lemma_order_matters(
    names: Seq<Seq<char>>,
    values: Seq<i64>,
    a: OperationView,
    b: OperationView,
)
    ensures
        apply_all(names, values, seq![a, b]) == apply_pair(names, values, a, b),
        apply_all(names, values, seq![b, a]) == apply_pair(names, values, b, a),
        apply_all(names, values, seq![a, b]) != apply_all(names, values, seq![b, a]) <==> apply_pair(
            names,
            values,
            a,
            b,
        ) != apply_pair(names, values, b, a),
{
    assert(seq![a, b] == seq![a] + seq![b]);
    assert(seq![b, a] == seq![b] + seq![a]);
    lemma_apply_all_in_sequence(names, values, seq![a], seq![b]);
    lemma_apply_all_in_sequence(names, values, seq![b], seq![a]);
    lemma_apply_all_single(names, values, a);
    lemma_apply_all_single(names, values, b);
    if let Ok(between) = apply_op(names, values, a) {
        lemma_apply_all_single(names, between, b);
    }
    if let Ok(between) = apply_op(names, values, b) {
        lemma_apply_all_single(names, between, a);
    }
}

} // verus!

//! The custom nodes that come with the library.
use crate::interpreter::compiler::{considered, followed_by, no_records, prefixed, records_of};
use crate::interpreter::data::{
    bindings_of, clone_value, clone_values, outcome_of, values_view, Bindings,
    CustomNodeFailure, CustomNodeFailureView, JsonValue, Outcome, OutputRecord,
    RuntimeErrorView, ScenarioOutput, ScenarioRuntimeError, SingleScenarioOutput, VarContext,
    VarValue,
};
use crate::interpreter::{CustomNode, Expansion, Interpreter};
use crate::namemap::NameMap;
use vstd::prelude::*;
use vstd::std_specs::convert::FromSpecImpl;

verus! {

/// The component that runs the rest of the scenario once for each element of
/// an array.
pub struct ForEach;

/// The parameter that holds the array.
pub const VALUE_PARAM: &'static str = "value";

/// The name of the parameter that holds the array.
pub open spec fn value_param() -> Seq<char> {
    VALUE_PARAM@
}

/// Why `forEach` refused its parameters.
#[derive(Debug, PartialEq, Eq)]
pub enum ForEachError {
    WrongValueType(VarValue),
    NoValueParam,
}

/// The mathematical view of a `forEach` error.
pub enum ForEachErrorView {
    WrongValueType(JsonValue),
    NoValueParam,
}

impl View for ForEachError {
    type V = ForEachErrorView;

    open spec fn view(&self) -> ForEachErrorView {
        match self {
            ForEachError::WrongValueType(value) => ForEachErrorView::WrongValueType(value@),
            ForEachError::NoValueParam => ForEachErrorView::NoValueParam,
        }
    }
}

impl From<ForEachError> for ScenarioRuntimeError {
    fn from(error: ForEachError) -> (r: ScenarioRuntimeError) {
        ScenarioRuntimeError::CustomNodeError(CustomNodeFailure::ForEach(error))
    }
}

impl FromSpecImpl<ForEachError> for ScenarioRuntimeError {
    open spec fn obeys_from_spec() -> bool {
        true
    }

    open spec fn from_spec(error: ForEachError) -> ScenarioRuntimeError {
        ScenarioRuntimeError::CustomNodeError(CustomNodeFailure::ForEach(error))
    }
}

/// The view of a `forEach` error as a runtime error.
pub open spec fn for_each_error(error: ForEachErrorView) -> RuntimeErrorView {
    RuntimeErrorView::CustomNodeError(CustomNodeFailureView::ForEach(error))
}

/// What `forEach` makes of its parameters: the elements of the array under
/// `value`, in order; `WrongValueType` where `value` is no array;
/// `NoValueParam` where there is no `value`.
pub open spec fn for_each_expansion(parameters: Bindings) -> Expansion {
    if !parameters.contains_key(value_param()) {
        Err(for_each_error(ForEachErrorView::NoValueParam))
    } else {
        match parameters[value_param()] {
            JsonValue::Array(items) => Ok(items),
            other => Err(for_each_error(ForEachErrorView::WrongValueType(other))),
        }
    }
}

/// Whether the interpreter `next_part`, run once for each item from `from`
/// on with the item bound to `output_var`, may give `result`: the records of
/// the runs in the order of the items, or the first error.
pub open spec fn runs_yield<I: Interpreter>(
    next_part: &I,
    output_var: Seq<char>,
    items: Seq<JsonValue>,
    from: int,
    data: Bindings,
    result: Outcome,
) -> bool
    decreases items.len() - from,
{
    if from < 0 || from >= items.len() {
        result == no_records()
    } else {
        exists|first: Outcome| #[trigger]
            considered(first) && next_part.yields(data.insert(output_var, items[from]), first)
                && match first {
                Err(e) => result == Err::<Seq<OutputRecord>, RuntimeErrorView>(e),
                Ok(head) => exists|more: Outcome| #[trigger]
                    considered(more) && runs_yield(
                        next_part,
                        output_var,
                        items,
                        from + 1,
                        data,
                        more,
                    ) && followed_by(head, more, result),
            }
    }
}

impl CustomNode for ForEach {
    open spec fn expands_to(&self, parameters: Bindings, input: Bindings, result: Expansion) -> bool {
        result == for_each_expansion(parameters)
    }

    fn expand(&self, parameters: &NameMap<VarValue>, input: &VarContext) -> (r: Result<
        Vec<VarValue>,
        ScenarioRuntimeError,
    >) {
        match parameters.get(VALUE_PARAM) {
            Some(VarValue::Array(values)) => Ok(clone_values(values)),
            Some(other) => Err(
                ScenarioRuntimeError::from(ForEachError::WrongValueType(clone_value(other))),
            ),
            None => Err(ScenarioRuntimeError::from(ForEachError::NoValueParam)),
        }
    }
}

impl ForEach {
    /// Runs `next_part` once for each element of the array under `value`,
    /// the element bound to `output_var`, and gives the records of the runs
    /// in order. An empty array gives no record.
    pub fn run<I: Interpreter>(
        &self,
        output_var: &str,
        parameters: &NameMap<VarValue>,
        data: &VarContext,
        next_part: &I,
    ) -> (r: Result<ScenarioOutput, ScenarioRuntimeError>)
        ensures
            match for_each_expansion(bindings_of(parameters@)) {
                Ok(items) => runs_yield(next_part, output_var@, items, 0, data@, outcome_of(r)),
                Err(e) => outcome_of(r) == Err::<Seq<OutputRecord>, RuntimeErrorView>(e),
            },
    {
        let items = match self.expand(parameters, data) {
            Ok(items) => items,
            Err(e) => {
                return Err(e);
            },
        };
        let ghost values = values_view(items@);
        let mut out: Vec<SingleScenarioOutput> = Vec::new();
        let mut i: usize = 0;
        assert(records_of(out@) =~= Seq::empty());
        assert forall|tail: Outcome| #[trigger]
            runs_yield(next_part, output_var@, values, 0, data@, tail) implies runs_yield(
            next_part,
            output_var@,
            values,
            0,
            data@,
            prefixed(records_of(out@), tail),
        ) by {
            assert(prefixed(records_of(out@), tail) == tail) by {
                if let Ok(records) = tail {
                    assert(Seq::<OutputRecord>::empty() + records =~= records);
                }
            }
        }
        while i < items.len()
            invariant
                i <= items@.len(),
                values == values_view(items@),
                for_each_expansion(bindings_of(parameters@)) == Ok::<
                    Seq<JsonValue>,
                    RuntimeErrorView,
                >(values),
                forall|tail: Outcome| #[trigger]
                    runs_yield(next_part, output_var@, values, i as int, data@, tail)
                        ==> runs_yield(
                        next_part,
                        output_var@,
                        values,
                        0,
                        data@,
                        prefixed(records_of(out@), tail),
                    ),
            decreases items@.len() - i,
        {
            let ghost so_far = records_of(out@);
            let with_item = data.with_new_var(output_var, clone_value(&items[i]));
            assert(with_item@ == data@.insert(output_var@, values[i as int]));
            let run = next_part.run(&with_item);
            let ghost first = outcome_of(run);
            assert(considered(first));
            match run {
                Err(e) => {
                    assert(runs_yield(next_part, output_var@, values, i as int, data@, Err(e@)));
                    return Err(e);
                },
                Ok(part) => {
                    let mut records = part.0;
                    let ghost head = records_of(records@);
                    out.append(&mut records);
                    proof {
                        assert(records_of(out@) =~= so_far + head);
                        assert forall|tail: Outcome| #[trigger]
                            runs_yield(
                                next_part,
                                output_var@,
                                values,
                                i as int + 1,
                                data@,
                                tail,
                            ) implies runs_yield(
                            next_part,
                            output_var@,
                            values,
                            0,
                            data@,
                            prefixed(records_of(out@), tail),
                        ) by {
                            let here = prefixed(head, tail);
                            assert(followed_by(head, tail, here));
                            assert(considered(tail) && considered(first));
                            assert(runs_yield(
                                next_part,
                                output_var@,
                                values,
                                i as int,
                                data@,
                                here,
                            ));
                            assert(prefixed(so_far, here) == prefixed(so_far + head, tail)) by {
                                if let Ok(records) = tail {
                                    assert(so_far + (head + records) =~= (so_far + head) + records);
                                }
                            }
                        }
                    }
                },
            }
            i = i + 1;
        }
        let result = ScenarioOutput(out);
        proof {
            assert(runs_yield(next_part, output_var@, values, i as int, data@, no_records()));
            assert(prefixed(records_of(out@), no_records()) == Ok::<
                Seq<OutputRecord>,
                RuntimeErrorView,
            >(result@)) by {
                assert(records_of(out@) + Seq::<OutputRecord>::empty() =~= result@);
            }
        }
        Ok(result)
    }
}

} // verus!

//! What the models say of the values they stand for: every field and every
//! element, in order, and nothing else.

use vstd::prelude::*;
use vstd::string::*;

use crate::error;
use crate::error::{Error, ErrorModel};
use crate::filter;
use crate::filter::{Node, NodeModel, Root, RootModel};
use crate::json::{Json, JsonModel};
use crate::query::{Query, ScopeFilter};
use crate::render;
use crate::schema::Column;
use crate::tree;
use crate::tree::{Pred, Spec, SpecModel};

verus! {

/// Whether the text of an optional string is the given one.
pub open spec fn same_name(name: Option<String>, text: Option<Seq<char>>) -> bool {
    match (name, text) {
        (Some(name), Some(text)) => name@ == text,
        (None, None) => true,
        _ => false,
    }
}

/// Law: a column is modelled by its name, its type and its relation.
pub proof fn law_columns_are_modelled_by_their_fields(column: Column)
    ensures
        column@.column == column.column@,
        column@.field_type == column.field_type,
        same_name(column.relation, column@.relation),
{
}

/// Law: a predicate is modelled by its fields.
pub proof fn law_predicates_are_modelled_by_their_fields(pred: Pred)
    ensures
        pred@.column == pred.column@,
        same_name(pred.relation, pred@.relation),
        pred@.field_type == pred.field_type,
        pred@.operator == pred.operator@,
        pred.value is Some <==> pred@.value is Some,
        pred.value is Some ==> pred@.value->0 == pred.value->0@,
        match (pred.range, pred@.range) {
            (Some((from, to)), Some((first, second))) => first == from@ && second == to@,
            (None, None) => true,
            _ => false,
        },
{
}

/// Law: a leaf of the filter is modelled by its fields, a group by its
/// conjunction and its children in order.
pub proof fn law_nodes_are_modelled_by_their_fields(node: Node)
    ensures
        match (node, node@) {
            (
                Node::Leaf { field_type, field, relation, operator, value },
                NodeModel::Leaf(leaf),
            ) => {
                &&& leaf.field_type == field_type
                &&& leaf.field == field@
                &&& same_name(relation, leaf.relation)
                &&& leaf.operator == operator@
                &&& leaf.value == value@
            },
            (
                Node::Group { conjunction, children },
                NodeModel::Group { conjunction: modelled, children: models },
            ) => {
                &&& modelled == conjunction
                &&& models.len() == children@.len()
                &&& forall|i: int|
                    0 <= i < models.len() ==> #[trigger] models[i] == children@[i]@
            },
            _ => false,
        },
{
}

/// Law: a root is modelled by its elements in order, or by its only filter.
pub proof fn law_roots_are_modelled_by_their_filters(root: Root)
    ensures
        match (root, root@) {
            (Root::List(children), RootModel::List(models)) => {
                &&& models.len() == children@.len()
                &&& forall|i: int|
                    0 <= i < models.len() ==> #[trigger] models[i] == children@[i]@
            },
            (Root::One(node), RootModel::One(modelled)) => modelled == node@,
            _ => false,
        },
{
}

/// Law: a tree is modelled by its children in order, its child or its predicate.
pub proof fn law_trees_are_modelled_by_their_children(spec: Spec)
    ensures
        match (spec, spec@) {
            (Spec::And(children), SpecModel::And(models)) => {
                &&& models.len() == children@.len()
                &&& forall|i: int|
                    0 <= i < models.len() ==> #[trigger] models[i] == children@[i]@
            },
            (Spec::Or(children), SpecModel::Or(models)) => {
                &&& models.len() == children@.len()
                &&& forall|i: int|
                    0 <= i < models.len() ==> #[trigger] models[i] == children@[i]@
            },
            (Spec::Not(child), SpecModel::Not(modelled)) => *modelled == child@,
            (Spec::Pred(pred), SpecModel::Pred(modelled)) => modelled == pred@,
            _ => false,
        },
{
}

/// Law: a query is modelled by the fields and values of its scope, in order, and
/// by its filter.
pub proof fn law_queries_are_modelled_by_scope_and_filter(query: Query)
    ensures
        query@.scope.len() == query.scope@.len(),
        forall|i: int|
            0 <= i < query.scope@.len() ==> (#[trigger] query@.scope[i]).field
                == query.scope@[i].field@,
        forall|i: int|
            0 <= i < query.scope@.len() ==> (#[trigger] query@.scope[i]).value
                == query.scope@[i].value@,
        query.filter is Some <==> query@.filter is Some,
        query.filter is Some ==> query@.filter->0 == query.filter->0@,
{
}

/// Law: a condition of the scope is modelled by its field and its value.
pub proof fn law_conditions_are_modelled_by_field_and_value(condition: ScopeFilter)
    ensures
        condition@.field == condition.field@,
        condition@.value == condition.value@,
{
}

/// Law: a JSON value is modelled by its kind and what it carries.
pub proof fn law_json_is_modelled_by_its_content(value: Json)
    ensures
        match (value, value@) {
            (Json::Null, JsonModel::Null) => true,
            (Json::Bool(b), JsonModel::Bool(modelled)) => modelled == b,
            (Json::Number(n), JsonModel::Number(modelled)) => modelled == n,
            (Json::String(s), JsonModel::String(modelled)) => modelled == s@,
            (Json::Array(items), JsonModel::Array(models)) => {
                &&& models.len() == items@.len()
                &&& forall|i: int| 0 <= i < models.len() ==> #[trigger] models[i] == items@[i]@
            },
            (Json::Object(map), JsonModel::Object(modelled)) => modelled == map,
            _ => false,
        },
{
}

/// Law: an error is modelled by its reason and its detail.
pub proof fn law_errors_are_modelled_by_reason_and_detail(error: Error)
    ensures
        match (error, error@) {
            (Error::InvalidNode, ErrorModel::InvalidNode) => true,
            (Error::EmptyGroup, ErrorModel::EmptyGroup) => true,
            (Error::UnknownField(text), ErrorModel::UnknownField(modelled)) => modelled == text@,
            (
                Error::UnsupportedOperator(text),
                ErrorModel::UnsupportedOperator(modelled),
            ) => modelled == text@,
            (Error::InvalidValue(text), ErrorModel::InvalidValue(modelled)) => modelled == text@,
            (Error::TypeMismatch(text), ErrorModel::TypeMismatch(modelled)) => modelled == text@,
            _ => false,
        },
{
}

/// Law: the models of a list stand for its elements, one by one.
pub proof fn law_lists_are_modelled_by_their_elements(
    nodes: Seq<Node>,
    specs: Seq<Spec>,
    preds: Seq<&Pred>,
    args: Seq<Json>,
    i: int,
)
    ensures
        filter::models(nodes).len() == nodes.len(),
        0 <= i < nodes.len() ==> filter::models(nodes)[i] == nodes[i]@,
        tree::models(specs).len() == specs.len(),
        0 <= i < specs.len() ==> tree::models(specs)[i] == specs[i]@,
        tree::pred_models(preds).len() == preds.len(),
        0 <= i < preds.len() ==> tree::pred_models(preds)[i] == preds[i]@,
        render::arguments(args).len() == args.len(),
        0 <= i < args.len() ==> render::arguments(args)[i] == args[i]@,
{
}

/// Law: an outcome is modelled by what succeeded or by the error.
pub proof fn law_outcomes_are_modelled_by_result_or_error<T: View>(
    done: T,
    sql: String,
    args: Vec<Json>,
    error: Error,
)
    ensures
        error::outcome(Ok::<T, Error>(done)) == Ok::<T::V, ErrorModel>(done@),
        error::outcome(Err::<T, Error>(error)) == Err::<T::V, ErrorModel>(error@),
        render::outcome(Ok((sql, args))) == Ok::<_, ErrorModel>(
            (sql@, render::arguments(args@)),
        ),
        render::outcome(Err(error)) == Err::<(Seq<char>, Seq<JsonModel>), _>(error@),
{
}

/// Law: writing came to what was expected exactly when a success has the
/// expected text and its arguments stand behind those that were there, and a
/// failure has the expected error.
pub proof fn law_writing_comes_to_text_and_arguments_or_to_the_error(
    res: Result<String, Error>,
    before: Seq<Json>,
    after: Seq<Json>,
    text: Seq<char>,
    args: Seq<JsonModel>,
    error: ErrorModel,
)
    ensures
        render::wrote(res, before, after, Ok((text, args))) <==> {
            &&& res is Ok
            &&& res->Ok_0@ == text
            &&& render::arguments(after) == render::arguments(before) + args
        },
        render::wrote(res, before, after, Err(error)) <==> res is Err && res->Err_0@ == error,
{
}

} // verus!

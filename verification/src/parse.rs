//! Turns a filter tree into a specification tree.

use vstd::prelude::*;
use vstd::string::*;

use crate::error;
use crate::error::{Error, ErrorModel};
use crate::filter;
use crate::filter::{Conjunction, LeafModel, Node, NodeModel};
use crate::json;
use crate::json::{Json, JsonModel};
use crate::laws::fold;
use crate::operator;
use crate::operator::{is_valueless, positive_of, supports};
use crate::schema::{copy_name, ColumnModel, FieldType, Schema};
use crate::text::same;
use crate::tree;
use crate::tree::{Pred, PredModel, Spec, SpecModel};

verus! {

/// Whether a value is of the kind that fields of the given type are compared
/// with.
pub open spec fn fits(field_type: FieldType, value: JsonModel) -> bool {
    match field_type {
        FieldType::String => value is String,
        FieldType::Date => value is String,
        FieldType::Number => value is Number,
        FieldType::Boolean => value is Bool,
    }
}

/// The error for a value, shown as `text`, that does not fit the field type.
pub open spec fn misfit(field_type: FieldType, text: Seq<char>) -> ErrorModel {
    ErrorModel::InvalidValue("expected "@ + field_type.name() + ", got "@ + text)
}

/// The value a field of the given type is compared with.
pub open spec fn scalar(field_type: FieldType, value: JsonModel) -> Result<JsonModel, ErrorModel> {
    if fits(field_type, value) {
        Ok(value)
    } else {
        Err(misfit(field_type, json::compact(value)))
    }
}

/// The two ends of a range.
pub open spec fn ends(value: JsonModel) -> Result<(Seq<char>, Seq<char>), ErrorModel> {
    match value {
        JsonModel::Array(items) => if items.len() != 2 {
            Err(ErrorModel::InvalidValue("$between expects a pair"@))
        } else {
            match (items[0], items[1]) {
                (JsonModel::String(from), JsonModel::String(to)) => Ok((from, to)),
                _ => Err(ErrorModel::InvalidValue("$between expects two dates"@)),
            }
        },
        _ => Err(ErrorModel::InvalidValue("$between expects a pair"@)),
    }
}

/// The operator the predicate carries: the positive one behind a "not"
/// operator, any other operator itself.
pub open spec fn effective(op: Seq<char>) -> Seq<char> {
    match operator::negated(op) {
        Some(positive) => positive,
        None => op,
    }
}

/// The predicate that compares a column by a positive operator.
pub open spec fn predicate(column: ColumnModel, op: Seq<char>, value: JsonModel) -> Result<
    PredModel,
    ErrorModel,
> {
    let bare = PredModel {
        column: column.column,
        relation: column.relation,
        field_type: column.field_type,
        operator: op,
        value: None,
        range: None,
    };
    if operator::valueless().contains(op) {
        Ok(bare)
    } else if op == "$between"@ {
        match ends(value) {
            Ok(range) => Ok(PredModel { range: Some(range), ..bare }),
            Err(error) => Err(error),
        }
    } else {
        match scalar(column.field_type, value) {
            Ok(value) => Ok(PredModel { value: Some(value), ..bare }),
            Err(error) => Err(error),
        }
    }
}

/// What a leaf of the filter becomes.
pub open spec fn parsed_leaf(leaf: LeafModel, schema: Map<Seq<char>, ColumnModel>) -> Result<
    SpecModel,
    ErrorModel,
> {
    if !schema.contains_key(leaf.field) {
        Err(ErrorModel::UnknownField(leaf.field))
    } else {
        let column = schema[leaf.field];
        if column.field_type != leaf.field_type {
            Err(
                ErrorModel::TypeMismatch(
                    "field "@ + leaf.field + " is "@ + column.field_type.name() + ", filter says "@
                        + leaf.field_type.name(),
                ),
            )
        } else if !operator::operators(column.field_type).contains(leaf.operator) {
            Err(
                ErrorModel::UnsupportedOperator(
                    leaf.operator + " on "@ + column.field_type.name(),
                ),
            )
        } else {
            match predicate(column, effective(leaf.operator), leaf.value) {
                Err(error) => Err(error),
                Ok(pred) => if operator::negated(leaf.operator) is Some {
                    Ok(SpecModel::Not(Box::new(SpecModel::Pred(pred))))
                } else {
                    Ok(SpecModel::Pred(pred))
                },
            }
        }
    }
}

/// What a filter becomes: a tree of the same shape, or the first error from
/// left to right.
pub open spec fn parsed(node: NodeModel, schema: Map<Seq<char>, ColumnModel>) -> Result<
    SpecModel,
    ErrorModel,
>
    decreases node, 0nat,
{
    match node {
        NodeModel::Group { conjunction, children } => if children.len() == 0 {
            Err(ErrorModel::EmptyGroup)
        } else {
            match parsed_all(children, children.len(), schema) {
                Err(error) => Err(error),
                Ok(specs) => Ok(folded(conjunction, specs)),
            }
        },
        NodeModel::Leaf(leaf) => parsed_leaf(leaf, schema),
    }
}

/// What the first `n` nodes of a list become.
pub open spec fn parsed_all(
    nodes: Seq<NodeModel>,
    n: nat,
    schema: Map<Seq<char>, ColumnModel>,
) -> Result<Seq<SpecModel>, ErrorModel>
    decreases nodes, n,
{
    if n == 0 || n > nodes.len() {
        Ok(Seq::empty())
    } else {
        match parsed_all(nodes, (n - 1) as nat, schema) {
            Err(error) => Err(error),
            Ok(specs) => match parsed(nodes[n - 1], schema) {
                Err(error) => Err(error),
                Ok(spec) => Ok(specs.push(spec)),
            },
        }
    }
}

/// The one node a group folds into. `$not` negates the conjunction of all
/// children.
pub open spec fn folded(conjunction: Conjunction, specs: Seq<SpecModel>) -> SpecModel {
    match conjunction {
        Conjunction::And => SpecModel::And(specs),
        Conjunction::Or => SpecModel::Or(specs),
        Conjunction::Not => SpecModel::Not(Box::new(SpecModel::And(specs))),
    }
}

/// What parsing a list came to.
pub open spec fn list_outcome(res: Result<Vec<Spec>, Error>) -> Result<
    Seq<SpecModel>,
    ErrorModel,
> {
    match res {
        Ok(specs) => Ok(tree::models(specs@)),
        Err(error) => Err(error@),
    }
}

/// Turns one filter tree into a specification tree, rejecting anything the
/// schema does not allow. Nothing is dropped silently: an element that cannot be
/// understood is an error, not an omission.
pub fn parse(node: &Node, schema: &Schema) -> (res: Result<Spec, Error>)
    ensures
        error::outcome(res) == parsed(node@, schema@),
        res is Ok <==> fold::accepted(node@, schema@),
    decreases node, 1int,
{
    proof {
        fold::law_parse_accepts_exactly_the_allowed(node@, schema@);
    }
    match node {
        Node::Group { conjunction, children } => {
            if children.len() == 0 {
                return Err(Error::EmptyGroup);
            }
            assert(decreases_to!(*node => node->children));
            assert(node@->children =~= filter::models(children@));
            match parse_all(children, schema) {
                Err(error) => Err(error),
                Ok(specs) => Ok(fold_group(*conjunction, specs)),
            }
        },
        Node::Leaf { .. } => parse_leaf(node, schema),
    }
}

/// Parses every node of a list, or stops at the first that is rejected.
fn parse_all(nodes: &Vec<Node>, schema: &Schema) -> (res: Result<Vec<Spec>, Error>)
    ensures
        list_outcome(res) == parsed_all(filter::models(nodes@), nodes@.len(), schema@),
    decreases nodes, 0int,
{
    let mut specs: Vec<Spec> = Vec::new();
    assert(tree::models(specs@) =~= Seq::empty());
    for i in 0..nodes.len()
        invariant
            parsed_all(filter::models(nodes@), i as nat, schema@) == Ok::<_, ErrorModel>(
                tree::models(specs@),
            ),
    {
        assert(decreases_to!(*nodes => nodes[i as int]));
        assert(filter::models(nodes@)[i as int] == nodes@[i as int]@);
        match parse(&nodes[i], schema) {
            Err(error) => {
                proof {
                    lemma_error_stays(
                        filter::models(nodes@),
                        (i + 1) as nat,
                        nodes@.len(),
                        schema@,
                    );
                }
                return Err(error);
            },
            Ok(spec) => {
                assert(tree::models(specs@.push(spec)) =~= tree::models(specs@).push(spec@));
                specs.push(spec);
            },
        }
    }
    Ok(specs)
}

/// The first error of a list is the error of every longer prefix.
pub(crate) proof fn lemma_error_stays(
    nodes: Seq<NodeModel>,
    n: nat,
    m: nat,
    schema: Map<Seq<char>, ColumnModel>,
)
    requires
        n <= m <= nodes.len(),
        parsed_all(nodes, n, schema) is Err,
    ensures
        parsed_all(nodes, m, schema) == parsed_all(nodes, n, schema),
    decreases m,
{
    if n < m {
        lemma_error_stays(nodes, n, (m - 1) as nat, schema);
    }
}

/// Folds the children of a group into one node.
fn fold_group(conjunction: Conjunction, specs: Vec<Spec>) -> (res: Spec)
    ensures
        res@ == folded(conjunction, tree::models(specs@)),
{
    match conjunction {
        Conjunction::And => {
            let res = Spec::And(specs);
            assert(res@->And_0 =~= tree::models(specs@));
            res
        },
        Conjunction::Or => {
            let res = Spec::Or(specs);
            assert(res@->Or_0 =~= tree::models(specs@));
            res
        },
        Conjunction::Not => {
            let all = Spec::And(specs);
            assert(all@->And_0 =~= tree::models(specs@));
            Spec::Not(Box::new(all))
        },
    }
}

/// Parses a leaf. A group is not a leaf and is rejected.
fn parse_leaf(node: &Node, schema: &Schema) -> (res: Result<Spec, Error>)
    ensures
        match node@ {
            NodeModel::Leaf(leaf) => error::outcome(res) == parsed_leaf(leaf, schema@),
            NodeModel::Group { .. } => error::outcome(res) == Err::<SpecModel, _>(
                ErrorModel::InvalidNode,
            ),
        },
{
    match node {
        Node::Group { .. } => Err(Error::InvalidNode),
        Node::Leaf { field_type, field, relation: _, operator, value } => {
            let column = match schema.get(field.as_str()) {
                Some(column) => column,
                None => {
                    return Err(Error::UnknownField(field.clone()));
                },
            };
            if column.field_type != *field_type {
                let detail = "field ".to_owned().concat(field.as_str()).concat(" is ").concat(
                    column.field_type.to_string().as_str(),
                ).concat(", filter says ").concat(field_type.to_string().as_str());
                return Err(Error::TypeMismatch(detail));
            }
            if !supports(column.field_type, operator.as_str()) {
                let detail = operator.as_str().to_owned().concat(" on ").concat(
                    column.field_type.to_string().as_str(),
                );
                return Err(Error::UnsupportedOperator(detail));
            }
            let (positive, negate) = match positive_of(operator.as_str()) {
                Some(positive) => (positive.to_owned(), true),
                None => (operator.clone(), false),
            };
            let mut pred = Pred {
                column: column.column.clone(),
                relation: copy_name(&column.relation),
                field_type: column.field_type,
                operator: positive.clone(),
                value: None,
                range: None,
            };
            if !is_valueless(positive.as_str()) {
                if same(positive.as_str(), "$between") {
                    match between_value(value) {
                        Ok(range) => {
                            pred.range = Some(range);
                        },
                        Err(error) => {
                            return Err(error);
                        },
                    }
                } else {
                    match scalar_value(column.field_type, value) {
                        Ok(value) => {
                            pred.value = Some(value);
                        },
                        Err(error) => {
                            return Err(error);
                        },
                    }
                }
            }
            let spec = Spec::Pred(pred);
            assert(spec@ == SpecModel::Pred(pred@));
            if negate {
                Ok(Spec::Not(Box::new(spec)))
            } else {
                Ok(spec)
            }
        },
    }
}

/// The error for a value, shown as `text`, that does not fit the field type.
pub fn misfit_error(field_type: FieldType, text: &str) -> (res: Error)
    ensures
        res@ == misfit(field_type, text@),
{
    Error::InvalidValue(
        "expected ".to_owned().concat(field_type.to_string().as_str()).concat(", got ").concat(
            text,
        ),
    )
}

/// Checks that a value is of the kind the field type asks for.
pub(crate) fn scalar_value(field_type: FieldType, raw: &Json) -> (res: Result<Json, Error>)
    ensures
        error::outcome(res) == scalar(field_type, raw@),
{
    let ok = match (field_type, raw) {
        (FieldType::String, Json::String(_)) => true,
        (FieldType::Date, Json::String(_)) => true,
        (FieldType::Number, Json::Number(_)) => true,
        (FieldType::Boolean, Json::Bool(_)) => true,
        _ => false,
    };
    if ok {
        Ok(raw.clone())
    } else {
        Err(misfit_error(field_type, raw.to_text().as_str()))
    }
}

/// Checks that a value is a pair of dates.
fn between_value(raw: &Json) -> (res: Result<(String, String), Error>)
    ensures
        error::outcome(res) == ends(raw@),
{
    match raw {
        Json::Array(items) => {
            if items.len() != 2 {
                return Err(Error::InvalidValue("$between expects a pair".to_owned()));
            }
            assert(raw@->Array_0[0] == items@[0]@);
            assert(raw@->Array_0[1] == items@[1]@);
            match (&items[0], &items[1]) {
                (Json::String(from), Json::String(to)) => Ok((from.clone(), to.clone())),
                _ => Err(Error::InvalidValue("$between expects two dates".to_owned())),
            }
        },
        _ => Err(Error::InvalidValue("$between expects a pair".to_owned())),
    }
}

} // verus!

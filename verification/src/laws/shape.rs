//! The shape of what parsing gives: how a leaf becomes a predicate, and where
//! the parsed tree carries values.

use vstd::prelude::*;

use crate::error::ErrorModel;
use crate::filter::{LeafModel, NodeModel};
use crate::laws::fold;
use crate::laws::provenance;
use crate::operator;
use crate::parse;
use crate::schema::ColumnModel;
use crate::tree::{PredModel, SpecModel};

verus! {

/// What parsing came to, with a negation around the tree.
pub open spec fn negation(outcome: Result<SpecModel, ErrorModel>) -> Result<SpecModel, ErrorModel> {
    match outcome {
        Ok(spec) => Ok(SpecModel::Not(Box::new(spec))),
        Err(error) => Err(error),
    }
}

/// Whether a predicate carries exactly what its operator takes: two ends for a
/// range, nothing for an operator without a value, and otherwise one value of
/// the kind the field is compared with.
pub open spec fn shaped_pred(pred: PredModel) -> bool {
    &&& operator::operators(pred.field_type).contains(pred.operator)
    &&& operator::negated(pred.operator) is None
    &&& pred.range is Some <==> pred.operator == "$between"@
    &&& pred.value is Some <==> {
        &&& pred.operator != "$between"@
        &&& !operator::valueless().contains(pred.operator)
    }
    &&& pred.value is Some ==> parse::fits(pred.field_type, pred.value->0)
}

/// Whether no group of a tree is empty and every predicate in it carries
/// exactly what its operator takes.
pub open spec fn shaped(spec: SpecModel) -> bool
    decreases spec,
{
    match spec {
        SpecModel::And(children) => {
            &&& children.len() > 0
            &&& forall|i: int| 0 <= i < children.len() ==> shaped(#[trigger] children[i])
        },
        SpecModel::Or(children) => {
            &&& children.len() > 0
            &&& forall|i: int| 0 <= i < children.len() ==> shaped(#[trigger] children[i])
        },
        SpecModel::Not(child) => shaped(*child),
        SpecModel::Pred(pred) => shaped_pred(pred),
    }
}

/// Law: a leaf with a "not" operator that its type supports becomes what the
/// leaf with the operator behind it becomes, with a negation around it. Where
/// one is rejected, the other is, for the same reason.
pub proof fn law_a_not_operator_negates_the_positive_leaf(
    leaf: LeafModel,
    schema: Map<Seq<char>, ColumnModel>,
)
    requires
        operator::operators(leaf.field_type).contains(leaf.operator),
        operator::negated(leaf.operator) is Some,
    ensures
        parse::parsed_leaf(leaf, schema) == negation(
            parse::parsed_leaf(
                LeafModel { operator: operator::negated(leaf.operator)->0, ..leaf },
                schema,
            ),
        ),
{
    operator::law_negation_wraps_a_positive_operator(leaf.field_type, leaf.operator);
}

/// Law: the relation a leaf names has no influence, nor has its value where the
/// operator takes none. The relation of the predicate is that of the schema.
pub proof fn law_a_leaf_is_its_type_field_operator_and_value(
    a: LeafModel,
    b: LeafModel,
    schema: Map<Seq<char>, ColumnModel>,
)
    requires
        a.field_type == b.field_type,
        a.field == b.field,
        a.operator == b.operator,
        a.value == b.value || operator::valueless().contains(a.operator),
    ensures
        parse::parsed_leaf(a, schema) == parse::parsed_leaf(b, schema),
{
    if operator::negated(a.operator) is Some {
        operator::law_negation_keeps_the_need_for_a_value(a.operator);
    }
}

/// A group of well-shaped trees is well shaped.
proof fn lemma_shaped_group(specs: Seq<SpecModel>)
    requires
        specs.len() > 0,
        forall|i: int| 0 <= i < specs.len() ==> shaped(#[trigger] specs[i]),
    ensures
        shaped(SpecModel::And(specs)),
        shaped(SpecModel::Or(specs)),
{
}

/// Law: a parsed tree has no empty group, and a value and a range stand in it
/// exactly where the operator takes them.
pub proof fn law_a_parsed_tree_is_well_shaped(
    node: NodeModel,
    schema: Map<Seq<char>, ColumnModel>,
)
    requires
        parse::parsed(node, schema) is Ok,
    ensures
        shaped(parse::parsed(node, schema)->Ok_0),
    decreases node,
{
    match node {
        NodeModel::Leaf(leaf) => {
            operator::lemma_operator_names();
            fold::law_parse_accepts_exactly_the_allowed(node, schema);
            provenance::lemma_accepted_pred(leaf, schema);
            let pred = fold::leaf_pred(leaf, schema);
            assert(shaped_pred(pred));
            assert(shaped(SpecModel::Pred(pred)));
        },
        NodeModel::Group { conjunction, children } => {
            fold::lemma_parsed_all(children, children.len(), schema);
            let specs = parse::parsed_all(children, children.len(), schema)->Ok_0;
            assert forall|i: int| 0 <= i < specs.len() implies shaped(#[trigger] specs[i]) by {
                assert(parse::parsed(children[i], schema) == Ok::<_, ErrorModel>(specs[i]));
                law_a_parsed_tree_is_well_shaped(children[i], schema);
            }
            lemma_shaped_group(specs);
        },
    }
}

} // verus!

//! Where the parts of a parsed tree come from.

use vstd::prelude::*;

use crate::filter::{LeafModel, NodeModel};
use crate::laws::fold;
use crate::operator;
use crate::parse;
use crate::schema::ColumnModel;
use crate::tree;
use crate::tree::PredModel;

verus! {

/// Whether a predicate compares the column that the schema keeps under `field`.
pub open spec fn reads(
    pred: PredModel,
    field: Seq<char>,
    schema: Map<Seq<char>, ColumnModel>,
) -> bool {
    &&& schema.contains_key(field)
    &&& pred.column == schema[field].column
    &&& pred.relation == schema[field].relation
    &&& pred.field_type == schema[field].field_type
}

/// Every leaf of an allowed filter is allowed.
pub(crate) proof fn lemma_leaves_accepted(node: NodeModel, schema: Map<Seq<char>, ColumnModel>)
    requires
        fold::accepted(node, schema),
    ensures
        forall|i: int|
            0 <= i < fold::node_leaves(node).len() ==> fold::accepted_leaf(
                #[trigger] fold::node_leaves(node)[i],
                schema,
            ),
    decreases node, 0nat,
{
    match node {
        NodeModel::Leaf(leaf) => {
            assert(fold::accepted_leaf(leaf, schema));
            assert forall|i: int| 0 <= i < fold::node_leaves(node).len() implies fold::accepted_leaf(
                #[trigger] fold::node_leaves(node)[i],
                schema,
            ) by {
                assert(fold::node_leaves(node)[i] == leaf);
            }
        },
        NodeModel::Group { conjunction, children } => {
            lemma_leaves_accepted_all(children, children.len(), schema);
            assert(fold::node_leaves(node) == fold::node_leaves_all(children, children.len()));
        },
    }
}

proof fn lemma_leaves_accepted_all(
    nodes: Seq<NodeModel>,
    n: nat,
    schema: Map<Seq<char>, ColumnModel>,
)
    requires
        n <= nodes.len(),
        forall|i: int| 0 <= i < nodes.len() ==> fold::accepted(#[trigger] nodes[i], schema),
    ensures
        forall|i: int|
            0 <= i < fold::node_leaves_all(nodes, n).len() ==> fold::accepted_leaf(
                #[trigger] fold::node_leaves_all(nodes, n)[i],
                schema,
            ),
    decreases nodes, n,
{
    if n > 0 {
        let m = (n - 1) as nat;
        lemma_leaves_accepted_all(nodes, m, schema);
        lemma_leaves_accepted(nodes[n - 1], schema);
        let before = fold::node_leaves_all(nodes, m);
        let last = fold::node_leaves(nodes[n - 1]);
        assert forall|i: int| 0 <= i < (before + last).len() implies fold::accepted_leaf(
            #[trigger] (before + last)[i],
            schema,
        ) by {
            if i < before.len() {
                assert((before + last)[i] == before[i]);
            } else {
                assert((before + last)[i] == last[i - before.len()]);
            }
        }
    }
}

/// Law: identifiers come from the schema, never from the request. The `i`-th
/// predicate of a parsed tree compares the column that the schema keeps under
/// the field of the `i`-th leaf.
pub proof fn law_columns_come_from_the_schema(
    node: NodeModel,
    schema: Map<Seq<char>, ColumnModel>,
    i: int,
)
    requires
        parse::parsed(node, schema) is Ok,
        0 <= i < fold::node_leaves(node).len(),
    ensures
        reads(
            tree::leaves_of(parse::parsed(node, schema)->Ok_0)[i],
            fold::node_leaves(node)[i].field,
            schema,
        ),
{
    fold::law_fold_keeps_every_leaf(node, schema);
    fold::law_parse_accepts_exactly_the_allowed(node, schema);
    lemma_leaves_accepted(node, schema);
    lemma_accepted_pred(fold::node_leaves(node)[i], schema);
}

/// What the predicate of an allowed leaf is.
pub(crate) proof fn lemma_accepted_pred(leaf: LeafModel, schema: Map<Seq<char>, ColumnModel>)
    requires
        fold::accepted_leaf(leaf, schema),
    ensures
        reads(fold::leaf_pred(leaf, schema), leaf.field, schema),
        fold::leaf_pred(leaf, schema).operator == parse::effective(leaf.operator),
        operator::negated(fold::leaf_pred(leaf, schema).operator) is None,
        operator::operators(leaf.field_type).contains(fold::leaf_pred(leaf, schema).operator),
{
    operator::lemma_operator_names();
}

/// Law: one family of predicates. No predicate of a parsed tree carries a "not"
/// operator, and each carries one that the type of its column supports.
pub proof fn law_predicates_are_positive(
    node: NodeModel,
    schema: Map<Seq<char>, ColumnModel>,
    i: int,
)
    requires
        parse::parsed(node, schema) is Ok,
        0 <= i < tree::leaves_of(parse::parsed(node, schema)->Ok_0).len(),
    ensures
        ({
            let pred = tree::leaves_of(parse::parsed(node, schema)->Ok_0)[i];
            &&& operator::negated(pred.operator) is None
            &&& operator::operators(pred.field_type).contains(pred.operator)
        }),
{
    fold::law_fold_keeps_every_leaf(node, schema);
    fold::law_parse_accepts_exactly_the_allowed(node, schema);
    lemma_leaves_accepted(node, schema);
    lemma_accepted_pred(fold::node_leaves(node)[i], schema);
}

} // verus!

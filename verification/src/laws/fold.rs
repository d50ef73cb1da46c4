//! What holds of parsing: what is accepted, what it means, and that nothing is
//! lost on the way.

use vstd::prelude::*;

use crate::error::ErrorModel;
use crate::filter::{Conjunction, LeafModel, NodeModel};
use crate::json::JsonModel;
use crate::operator;
use crate::parse;
use crate::schema::ColumnModel;
use crate::tree;
use crate::tree::{PredModel, SpecModel};

verus! {

/// The leaves of a filter, from left to right.
pub open spec fn node_leaves(node: NodeModel) -> Seq<LeafModel>
    decreases node, 0nat,
{
    match node {
        NodeModel::Group { conjunction: _, children } => node_leaves_all(children, children.len()),
        NodeModel::Leaf(leaf) => seq![leaf],
    }
}

/// The leaves of the first `n` nodes of a list, from left to right.
pub open spec fn node_leaves_all(nodes: Seq<NodeModel>, n: nat) -> Seq<LeafModel>
    decreases nodes, n,
{
    if n == 0 || n > nodes.len() {
        Seq::empty()
    } else {
        node_leaves_all(nodes, (n - 1) as nat) + node_leaves(nodes[n - 1])
    }
}

/// The predicate an accepted leaf stands for, negation set aside.
pub open spec fn leaf_pred(leaf: LeafModel, schema: Map<Seq<char>, ColumnModel>) -> PredModel {
    parse::predicate(schema[leaf.field], parse::effective(leaf.operator), leaf.value)->Ok_0
}

/// The predicates the given leaves stand for.
pub open spec fn leaf_preds(
    leaves: Seq<LeafModel>,
    schema: Map<Seq<char>, ColumnModel>,
) -> Seq<PredModel> {
    leaves.map_values(|leaf: LeafModel| leaf_pred(leaf, schema))
}

/// Whether a value is a pair of strings.
pub open spec fn is_pair_of_strings(value: JsonModel) -> bool {
    &&& value is Array
    &&& value->Array_0.len() == 2
    &&& value->Array_0[0] is String
    &&& value->Array_0[1] is String
}

/// Whether a leaf is allowed: the schema knows its field and agrees on the
/// type, the type supports the operator, and the value is what the operator
/// takes.
pub open spec fn accepted_leaf(leaf: LeafModel, schema: Map<Seq<char>, ColumnModel>) -> bool {
    &&& schema.contains_key(leaf.field)
    &&& schema[leaf.field].field_type == leaf.field_type
    &&& operator::operators(leaf.field_type).contains(leaf.operator)
    &&& if operator::valueless().contains(leaf.operator) {
        true
    } else if leaf.operator == "$between"@ {
        is_pair_of_strings(leaf.value)
    } else {
        parse::fits(leaf.field_type, leaf.value)
    }
}

/// Whether a filter is allowed: no group is empty and every leaf is allowed.
pub open spec fn accepted(node: NodeModel, schema: Map<Seq<char>, ColumnModel>) -> bool
    decreases node,
{
    match node {
        NodeModel::Group { conjunction: _, children } => {
            &&& children.len() > 0
            &&& forall|i: int|
                0 <= i < children.len() ==> accepted(#[trigger] children[i], schema)
        },
        NodeModel::Leaf(leaf) => accepted_leaf(leaf, schema),
    }
}

/// Parsing a list succeeds exactly when parsing each node does, and gives the
/// trees in order.
pub(crate) proof fn lemma_parsed_all(
    nodes: Seq<NodeModel>,
    n: nat,
    schema: Map<Seq<char>, ColumnModel>,
)
    requires
        n <= nodes.len(),
    ensures
        parse::parsed_all(nodes, n, schema) is Ok <==> (forall|i: int|
            0 <= i < n ==> parse::parsed(#[trigger] nodes[i], schema) is Ok),
        parse::parsed_all(nodes, n, schema) is Ok ==> {
            let specs = parse::parsed_all(nodes, n, schema)->Ok_0;
            &&& specs.len() == n
            &&& forall|i: int|
                0 <= i < n ==> parse::parsed(#[trigger] nodes[i], schema) == Ok::<_, ErrorModel>(
                    specs[i],
                )
        },
    decreases n,
{
    if n > 0 {
        lemma_parsed_all(nodes, (n - 1) as nat, schema);
        if parse::parsed_all(nodes, (n - 1) as nat, schema) is Ok {
            if parse::parsed(nodes[n - 1], schema) is Ok {
                let before = parse::parsed_all(nodes, (n - 1) as nat, schema)->Ok_0;
                let specs = parse::parsed_all(nodes, n, schema)->Ok_0;
                assert(specs == before.push(specs[n - 1]));
                assert forall|i: int| 0 <= i < n implies parse::parsed(
                    #[trigger] nodes[i],
                    schema,
                ) == Ok::<_, ErrorModel>(specs[i]) by {
                    if i < n - 1 {
                        assert(specs[i] == before[i]);
                    }
                }
            }
        }
    }
}

/// A leaf is parsed exactly when it is allowed.
proof fn lemma_leaf_accepted(leaf: LeafModel, schema: Map<Seq<char>, ColumnModel>)
    ensures
        parse::parsed_leaf(leaf, schema) is Ok <==> accepted_leaf(leaf, schema),
{
    operator::lemma_operator_names();
}

/// Law: a filter is parsed exactly when no group in it is empty and every leaf
/// in it is allowed by the schema. Everything else is an error.
pub proof fn law_parse_accepts_exactly_the_allowed(
    node: NodeModel,
    schema: Map<Seq<char>, ColumnModel>,
)
    ensures
        parse::parsed(node, schema) is Ok <==> accepted(node, schema),
    decreases node,
{
    match node {
        NodeModel::Leaf(leaf) => {
            lemma_leaf_accepted(leaf, schema);
        },
        NodeModel::Group { conjunction, children } => {
            lemma_parsed_all(children, children.len(), schema);
            assert forall|i: int| 0 <= i < children.len() implies parse::parsed(
                #[trigger] children[i],
                schema,
            ) is Ok == accepted(children[i], schema) by {
                law_parse_accepts_exactly_the_allowed(children[i], schema);
            }
            if parse::parsed(node, schema) is Ok {
                assert forall|i: int| 0 <= i < children.len() implies accepted(
                    #[trigger] children[i],
                    schema,
                ) by {
                    assert(parse::parsed(children[i], schema) is Ok);
                }
            } else if children.len() > 0 {
                let i = choose|i: int|
                    0 <= i < children.len() && !(parse::parsed(
                        #[trigger] children[i],
                        schema,
                    ) is Ok);
                assert(!accepted(children[i], schema));
            }
        },
    }
}

/// Law: a group becomes one tree over all its children, in their order: `$and`
/// their conjunction, `$or` their disjunction, `$not` the negation of their
/// conjunction. It is accepted exactly when it has children and each of them is;
/// without children it is an empty group.
pub proof fn law_a_group_becomes_one_tree_of_its_children(
    children: Seq<NodeModel>,
    schema: Map<Seq<char>, ColumnModel>,
    specs: Seq<SpecModel>,
)
    ensures
        ({
            let all = parse::parsed(
                NodeModel::Group { conjunction: Conjunction::And, children },
                schema,
            );
            let any = parse::parsed(
                NodeModel::Group { conjunction: Conjunction::Or, children },
                schema,
            );
            let none = parse::parsed(
                NodeModel::Group { conjunction: Conjunction::Not, children },
                schema,
            );
            let each = {
                &&& specs.len() == children.len() > 0
                &&& forall|i: int|
                    0 <= i < children.len() ==> parse::parsed(#[trigger] children[i], schema)
                        == Ok::<_, ErrorModel>(specs[i])
            };
            &&& each <==> all == Ok::<_, ErrorModel>(SpecModel::And(specs))
            &&& each <==> any == Ok::<_, ErrorModel>(SpecModel::Or(specs))
            &&& each <==> none == Ok::<_, ErrorModel>(
                SpecModel::Not(Box::new(SpecModel::And(specs))),
            )
            &&& all is Ok <==> all == Ok::<_, ErrorModel>(SpecModel::And(all->Ok_0->And_0))
            &&& any is Ok <==> any == Ok::<_, ErrorModel>(SpecModel::Or(any->Ok_0->Or_0))
            &&& none is Ok <==> all is Ok
            &&& any is Ok <==> all is Ok
            &&& children.len() == 0 ==> all == Err::<SpecModel, _>(ErrorModel::EmptyGroup)
            &&& children.len() == 0 ==> any == Err::<SpecModel, _>(ErrorModel::EmptyGroup)
            &&& children.len() == 0 ==> none == Err::<SpecModel, _>(ErrorModel::EmptyGroup)
        }),
{
    lemma_parsed_all(children, children.len(), schema);
    let each = {
        &&& specs.len() == children.len() > 0
        &&& forall|i: int|
            0 <= i < children.len() ==> parse::parsed(#[trigger] children[i], schema) == Ok::<
                _,
                ErrorModel,
            >(specs[i])
    };
    if each {
        assert forall|i: int| 0 <= i < children.len() implies parse::parsed(
            #[trigger] children[i],
            schema,
        ) is Ok by {}
        let parsed = parse::parsed_all(children, children.len(), schema)->Ok_0;
        assert forall|i: int| 0 <= i < children.len() implies parsed[i] == specs[i] by {
            assert(parse::parsed(children[i], schema) == Ok::<_, ErrorModel>(specs[i]));
        }
        assert(parsed =~= specs);
    }
}

/// Law: a rejected group is rejected for the first of its children that is
/// rejected.
pub proof fn law_group_reports_its_first_rejected_child(
    conjunction: Conjunction,
    children: Seq<NodeModel>,
    at: nat,
    schema: Map<Seq<char>, ColumnModel>,
)
    requires
        at < children.len(),
        forall|i: int| 0 <= i < at ==> accepted(#[trigger] children[i], schema),
        !accepted(children[at as int], schema),
    ensures
        parse::parsed(NodeModel::Group { conjunction, children }, schema) == parse::parsed(
            children[at as int],
            schema,
        ),
{
    lemma_parsed_all(children, at, schema);
    assert forall|i: int| 0 <= i < at implies parse::parsed(
        #[trigger] children[i],
        schema,
    ) is Ok by {
        assert(accepted(children[i], schema));
        law_parse_accepts_exactly_the_allowed(children[i], schema);
    }
    law_parse_accepts_exactly_the_allowed(children[at as int], schema);
    assert(parse::parsed_all(children, at + 1, schema) is Err);
    parse::lemma_error_stays(children, at + 1, children.len(), schema);
}

/// Law: a group fails as its first failing child does, whatever follows.
pub proof fn law_a_group_fails_as_its_first_failing_child(
    conjunction: Conjunction,
    children: Seq<NodeModel>,
    at: nat,
    schema: Map<Seq<char>, ColumnModel>,
)
    requires
        at < children.len(),
        forall|i: int| 0 <= i < at ==> parse::parsed(#[trigger] children[i], schema) is Ok,
        parse::parsed(children[at as int], schema) is Err,
    ensures
        parse::parsed(NodeModel::Group { conjunction, children }, schema) == parse::parsed(
            children[at as int],
            schema,
        ),
{
    lemma_parsed_all(children, at, schema);
    assert(parse::parsed_all(children, at + 1, schema) is Err);
    parse::lemma_error_stays(children, at + 1, children.len(), schema);
}

/// The leaves of the first `n` trees do not depend on the trees that follow.
proof fn lemma_leaves_of_prefix(specs: Seq<SpecModel>, more: SpecModel, n: nat)
    requires
        n <= specs.len(),
    ensures
        tree::leaves_of_all(specs.push(more), n) == tree::leaves_of_all(specs, n),
    decreases n,
{
    if n > 0 {
        lemma_leaves_of_prefix(specs, more, (n - 1) as nat);
        assert(specs.push(more)[n - 1] == specs[n - 1]);
    }
}

proof fn lemma_fold_keeps_all(
    nodes: Seq<NodeModel>,
    n: nat,
    schema: Map<Seq<char>, ColumnModel>,
)
    requires
        n <= nodes.len(),
        parse::parsed_all(nodes, n, schema) is Ok,
    ensures
        parse::parsed_all(nodes, n, schema)->Ok_0.len() == n,
        tree::leaves_of_all(parse::parsed_all(nodes, n, schema)->Ok_0, n) == leaf_preds(
            node_leaves_all(nodes, n),
            schema,
        ),
    decreases nodes, n,
{
    if n > 0 {
        let m = (n - 1) as nat;
        lemma_fold_keeps_all(nodes, m, schema);
        let before = parse::parsed_all(nodes, m, schema)->Ok_0;
        let spec = parse::parsed(nodes[n - 1], schema)->Ok_0;
        law_fold_keeps_every_leaf(nodes[n - 1], schema);
        lemma_leaves_of_prefix(before, spec, m);
        assert(before.push(spec)[n - 1] == spec);
        assert(leaf_preds(node_leaves_all(nodes, n), schema) =~= leaf_preds(
            node_leaves_all(nodes, m),
            schema,
        ) + leaf_preds(node_leaves(nodes[n - 1]), schema));
    } else {
        assert(leaf_preds(node_leaves_all(nodes, n), schema) =~= Seq::empty());
    }
}

/// Law: every leaf that goes into the tree comes out of it. The predicates of
/// the parsed tree are, in order and in number, those the leaves of the filter
/// stand for.
pub proof fn law_fold_keeps_every_leaf(node: NodeModel, schema: Map<Seq<char>, ColumnModel>)
    requires
        parse::parsed(node, schema) is Ok,
    ensures
        tree::leaves_of(parse::parsed(node, schema)->Ok_0) == leaf_preds(
            node_leaves(node),
            schema,
        ),
        tree::leaves_of(parse::parsed(node, schema)->Ok_0).len() == node_leaves(node).len(),
    decreases node, 0nat,
{
    match node {
        NodeModel::Leaf(leaf) => {
            let pred = leaf_pred(leaf, schema);
            assert(leaf_preds(node_leaves(node), schema) =~= seq![pred]);
            reveal_with_fuel(tree::leaves_of, 2);
        },
        NodeModel::Group { conjunction, children } => {
            lemma_fold_keeps_all(children, children.len(), schema);
            reveal_with_fuel(tree::leaves_of, 2);
        },
    }
}

} // verus!

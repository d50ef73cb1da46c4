//! What a filter means, and that parsing keeps it.

use vstd::prelude::*;

use crate::error::ErrorModel;
use crate::filter;
use crate::filter::{Conjunction, Node, NodeModel, Root, RootModel};
use crate::laws::fold;
use crate::operator;
use crate::parse;
use crate::query::QueryModel;
use crate::render;
use crate::schema::ColumnModel;
use crate::tree::{PredModel, SpecModel};

verus! {

/// Whether a tree holds, given which predicates do.
pub open spec fn holds(spec: SpecModel, truth: spec_fn(PredModel) -> bool) -> bool
    decreases spec,
{
    match spec {
        SpecModel::And(children) => forall|i: int|
            0 <= i < children.len() ==> holds(#[trigger] children[i], truth),
        SpecModel::Or(children) => exists|i: int|
            0 <= i < children.len() && holds(#[trigger] children[i], truth),
        SpecModel::Not(child) => !holds(*child, truth),
        SpecModel::Pred(pred) => truth(pred),
    }
}

/// Whether an accepted filter holds, given which predicates do: `$and` asks for
/// all children, `$or` for one, `$not` for not all; a leaf with a "not"
/// operator holds when its predicate does not.
pub open spec fn node_holds(
    node: NodeModel,
    schema: Map<Seq<char>, ColumnModel>,
    truth: spec_fn(PredModel) -> bool,
) -> bool
    decreases node,
{
    match node {
        NodeModel::Group { conjunction, children } => match conjunction {
            Conjunction::And => forall|i: int|
                0 <= i < children.len() ==> node_holds(#[trigger] children[i], schema, truth),
            Conjunction::Or => exists|i: int|
                0 <= i < children.len() && node_holds(#[trigger] children[i], schema, truth),
            Conjunction::Not => !(forall|i: int|
                0 <= i < children.len() ==> node_holds(#[trigger] children[i], schema, truth)),
        },
        NodeModel::Leaf(leaf) => if operator::negated(leaf.operator) is Some {
            !truth(fold::leaf_pred(leaf, schema))
        } else {
            truth(fold::leaf_pred(leaf, schema))
        },
    }
}

/// A conjunction holds when all its children do.
proof fn lemma_all(specs: Seq<SpecModel>, truth: spec_fn(PredModel) -> bool)
    ensures
        holds(SpecModel::And(specs), truth) == (forall|i: int|
            0 <= i < specs.len() ==> holds(#[trigger] specs[i], truth)),
{
    let all = SpecModel::And(specs);
    if holds(all, truth) {
        assert forall|i: int| 0 <= i < specs.len() implies holds(#[trigger] specs[i], truth) by {
            assert(all->And_0[i] == specs[i]);
        }
    } else {
        assert(exists|i: int| 0 <= i < specs.len() && !holds(#[trigger] specs[i], truth));
    }
}

/// A disjunction holds when one of its children does.
proof fn lemma_any(specs: Seq<SpecModel>, truth: spec_fn(PredModel) -> bool)
    ensures
        holds(SpecModel::Or(specs), truth) == (exists|i: int|
            0 <= i < specs.len() && holds(#[trigger] specs[i], truth)),
{
    let any = SpecModel::Or(specs);
    if holds(any, truth) {
        assert(exists|i: int| 0 <= i < specs.len() && holds(#[trigger] specs[i], truth));
    } else {
        assert forall|i: int| 0 <= i < specs.len() implies !holds(#[trigger] specs[i], truth) by {
            assert(any->Or_0[i] == specs[i]);
        }
    }
}

/// Law: the parsed tree means what the filter means. In particular `$not`
/// negates the conjunction of all its children, and a "not" operator negates
/// the predicate of the operator behind it.
pub proof fn law_parse_keeps_the_meaning(
    node: NodeModel,
    schema: Map<Seq<char>, ColumnModel>,
    truth: spec_fn(PredModel) -> bool,
)
    requires
        parse::parsed(node, schema) is Ok,
    ensures
        holds(parse::parsed(node, schema)->Ok_0, truth) == node_holds(node, schema, truth),
    decreases node,
{
    match node {
        NodeModel::Leaf(leaf) => {
            let pred = SpecModel::Pred(fold::leaf_pred(leaf, schema));
            assert(holds(pred, truth) == truth(fold::leaf_pred(leaf, schema)));
        },
        NodeModel::Group { conjunction, children } => {
            fold::lemma_parsed_all(children, children.len(), schema);
            let specs = parse::parsed_all(children, children.len(), schema)->Ok_0;
            assert forall|i: int| 0 <= i < children.len() implies #[trigger] holds(
                specs[i],
                truth,
            ) == node_holds(children[i], schema, truth) by {
                assert(parse::parsed(children[i], schema) == Ok::<_, ErrorModel>(specs[i]));
                law_parse_keeps_the_meaning(children[i], schema, truth);
            }
            let all = SpecModel::And(specs);
            let any = SpecModel::Or(specs);
            lemma_all(specs, truth);
            lemma_any(specs, truth);
            assert(holds(all, truth) == (forall|i: int|
                0 <= i < children.len() ==> node_holds(#[trigger] children[i], schema, truth))) by {
                if holds(all, truth) {
                    assert forall|i: int| 0 <= i < children.len() implies node_holds(
                        #[trigger] children[i],
                        schema,
                        truth,
                    ) by {
                        assert(holds(specs[i], truth));
                    }
                } else {
                    let i = choose|i: int|
                        0 <= i < specs.len() && !holds(#[trigger] specs[i], truth);
                    assert(!node_holds(children[i], schema, truth));
                }
            }
            assert(holds(any, truth) == (exists|i: int|
                0 <= i < children.len() && node_holds(#[trigger] children[i], schema, truth))) by {
                if holds(any, truth) {
                    let i = choose|i: int|
                        0 <= i < specs.len() && holds(#[trigger] specs[i], truth);
                    assert(node_holds(children[i], schema, truth));
                } else {
                    assert forall|i: int| 0 <= i < children.len() implies !node_holds(
                        #[trigger] children[i],
                        schema,
                        truth,
                    ) by {
                        assert(!holds(specs[i], truth));
                    }
                }
            }
        },
    }
}

/// Law: each of the shapes a root can have stands for one filter: a list for the
/// `$and` of its elements, anything else for itself.
pub proof fn law_a_root_stands_for_its_filter(root: Root)
    ensures
        ({
            let node = <Node as vstd::std_specs::convert::FromSpec<Root>>::from_spec(root);
            &&& node@ == root@.node()
            &&& match root {
                Root::List(children) => node == (Node::Group {
                    conjunction: Conjunction::And,
                    children,
                }),
                Root::One(filter) => node == filter,
            }
            &&& match root@ {
                RootModel::List(children) => node@ == (NodeModel::Group {
                    conjunction: Conjunction::And,
                    children,
                }),
                RootModel::One(filter) => node@ == filter,
            }
        }),
{
    let node = <Node as vstd::std_specs::convert::FromSpec<Root>>::from_spec(root);
    if let Root::List(children) = root {
        assert(node@->children =~= filter::models(children@));
    }
}

/// Law: a filter read from a list holds exactly when every element of the list
/// holds, and is accepted exactly when the list has elements and each of them is.
pub proof fn law_a_list_asks_for_all_its_elements(
    root: Root,
    schema: Map<Seq<char>, ColumnModel>,
    truth: spec_fn(PredModel) -> bool,
)
    requires
        root is List,
    ensures
        ({
            let node = <Node as vstd::std_specs::convert::FromSpec<Root>>::from_spec(root)@;
            let elements = filter::models(root->List_0@);
            let all = forall|i: int|
                0 <= i < elements.len() ==> node_holds(#[trigger] elements[i], schema, truth);
            &&& node_holds(node, schema, truth) <==> all
            &&& parse::parsed(node, schema) is Ok <==> {
                &&& elements.len() > 0
                &&& forall|i: int|
                    0 <= i < elements.len() ==> parse::parsed(#[trigger] elements[i], schema) is Ok
            }
            &&& parse::parsed(node, schema) is Ok ==> (holds(
                parse::parsed(node, schema)->Ok_0,
                truth,
            ) <==> all)
        }),
{
    law_a_root_stands_for_its_filter(root);
    let node = <Node as vstd::std_specs::convert::FromSpec<Root>>::from_spec(root)@;
    let elements = filter::models(root->List_0@);
    assert(node->children =~= elements);
    fold::lemma_parsed_all(elements, elements.len(), schema);
    if node_holds(node, schema, truth) {
        assert forall|i: int| 0 <= i < elements.len() implies node_holds(
            #[trigger] elements[i],
            schema,
            truth,
        ) by {
            assert(node->children[i] == elements[i]);
        }
    }
    if parse::parsed(node, schema) is Ok {
        law_parse_keeps_the_meaning(node, schema, truth);
    }
}

/// The trees of the scope, one per condition and in order.
pub(crate) proof fn lemma_scope_parts(
    query: QueryModel,
    n: nat,
    schema: Map<Seq<char>, ColumnModel>,
)
    requires
        n <= query.scope.len(),
    ensures
        render::scope_parts(query.scope, n, schema) is Ok <==> (forall|i: int|
            0 <= i < n ==> render::scope_pred(#[trigger] query.scope[i], schema) is Ok),
        render::scope_parts(query.scope, n, schema) is Ok ==> {
            let parts = render::scope_parts(query.scope, n, schema)->Ok_0;
            &&& parts.len() == n
            &&& forall|i: int|
                0 <= i < n ==> #[trigger] parts[i] == SpecModel::Pred(
                    render::scope_pred(query.scope[i], schema)->Ok_0,
                )
        },
    decreases n,
{
    if n > 0 {
        lemma_scope_parts(query, (n - 1) as nat, schema);
    }
}

/// Law: whatever the client sends, a query holds exactly when every condition
/// of its scope holds and the client's filter holds. No filter can switch a
/// condition of the scope off.
pub proof fn law_scope_always_applies(
    query: QueryModel,
    schema: Map<Seq<char>, ColumnModel>,
    truth: spec_fn(PredModel) -> bool,
)
    requires
        render::query_parts(query, schema) is Ok,
        query.scope.len() > 0 || query.filter is Some,
    ensures
        holds(render::combined(render::query_parts(query, schema)->Ok_0), truth) <==> {
            &&& forall|i: int|
                0 <= i < query.scope.len() ==> truth(
                    render::scope_pred(#[trigger] query.scope[i], schema)->Ok_0,
                )
            &&& query.filter is Some ==> node_holds(query.filter->0, schema, truth)
        },
{
    let n = query.scope.len();
    let parts = render::query_parts(query, schema)->Ok_0;
    lemma_scope_parts(query, n, schema);
    if query.filter is Some {
        law_parse_keeps_the_meaning(query.filter->0, schema, truth);
        assert(parts[n as int] == parse::parsed(query.filter->0, schema)->Ok_0);
    }
    let all = SpecModel::And(parts);
    lemma_all(parts, truth);
    assert(holds(render::combined(parts), truth) == holds(all, truth)) by {
        if parts.len() == 1 {
            assert(holds(all, truth) == holds(parts[0], truth));
        }
    }
    assert forall|i: int| 0 <= i < n implies holds(parts[i], truth) == truth(
        render::scope_pred(#[trigger] query.scope[i], schema)->Ok_0,
    ) by {
        assert(parts[i] == SpecModel::Pred(render::scope_pred(query.scope[i], schema)->Ok_0));
    }
    if holds(all, truth) {
        assert forall|i: int| 0 <= i < n implies truth(
            render::scope_pred(#[trigger] query.scope[i], schema)->Ok_0,
        ) by {
            assert(holds(parts[i], truth));
        }
        if query.filter is Some {
            assert(holds(parts[n as int], truth));
        }
    } else {
        let i = choose|i: int| 0 <= i < parts.len() && !holds(#[trigger] parts[i], truth);
        if i < n {
            assert(!truth(render::scope_pred(query.scope[i], schema)->Ok_0));
        }
    }
}

} // verus!

//! When rendering succeeds.

use vstd::prelude::*;

use crate::error::ErrorModel;
use crate::filter::{LeafModel, NodeModel};
use crate::laws::fold;
use crate::laws::meaning;
use crate::operator;
use crate::parse;
use crate::query::{QueryModel, ScopeModel};
use crate::render;
use crate::schema::ColumnModel;
use crate::tree::SpecModel;

verus! {

/// Whether a tree can be written, wherever its arguments stand.
pub open spec fn writable(spec: SpecModel) -> bool {
    forall|before: nat| (#[trigger] render::written(spec, before)) is Ok
}

/// Whether a condition of the scope is allowed: the schema knows its field and
/// the value is of the kind the field is compared with.
pub open spec fn accepted_scope(
    condition: ScopeModel,
    schema: Map<Seq<char>, ColumnModel>,
) -> bool {
    &&& schema.contains_key(condition.field)
    &&& parse::fits(schema[condition.field].field_type, condition.value)
}

/// Whether a query is allowed: every condition of its scope is, and so is the
/// filter.
pub open spec fn accepted_query(query: QueryModel, schema: Map<Seq<char>, ColumnModel>) -> bool {
    &&& forall|i: int|
        0 <= i < query.scope.len() ==> accepted_scope(#[trigger] query.scope[i], schema)
    &&& query.filter is Some ==> fold::accepted(query.filter->0, schema)
}

/// The predicate of an allowed leaf can be written.
proof fn lemma_leaf_writable(leaf: LeafModel, schema: Map<Seq<char>, ColumnModel>, before: nat)
    requires
        fold::accepted_leaf(leaf, schema),
    ensures
        render::written_pred(fold::leaf_pred(leaf, schema), before) is Ok,
{
    operator::lemma_operator_names();
}

/// A list of writable trees can be written, tree by tree.
pub(crate) proof fn lemma_all_writable(specs: Seq<SpecModel>, n: nat, before: nat)
    requires
        n <= specs.len(),
        forall|i: int| 0 <= i < n ==> writable(#[trigger] specs[i]),
    ensures
        render::written_all(specs, n, before) is Ok,
        render::written_all(specs, n, before)->Ok_0.0.len() == n,
    decreases n,
{
    if n > 0 {
        let m = (n - 1) as nat;
        lemma_all_writable(specs, m, before);
        let args = render::written_all(specs, m, before)->Ok_0.1;
        assert(writable(specs[n - 1]));
        assert(render::written(specs[n - 1], before + args.len()) is Ok);
    }
}

/// A parsed tree can be written.
pub(crate) proof fn lemma_parsed_writable(node: NodeModel, schema: Map<Seq<char>, ColumnModel>)
    requires
        parse::parsed(node, schema) is Ok,
    ensures
        writable(parse::parsed(node, schema)->Ok_0),
    decreases node,
{
    let spec = parse::parsed(node, schema)->Ok_0;
    match node {
        NodeModel::Leaf(leaf) => {
            fold::law_parse_accepts_exactly_the_allowed(node, schema);
            let pred = SpecModel::Pred(fold::leaf_pred(leaf, schema));
            assert forall|before: nat| (#[trigger] render::written(spec, before)) is Ok by {
                lemma_leaf_writable(leaf, schema, before);
                assert(render::written(pred, before) is Ok);
            }
        },
        NodeModel::Group { conjunction, children } => {
            fold::lemma_parsed_all(children, children.len(), schema);
            let specs = parse::parsed_all(children, children.len(), schema)->Ok_0;
            assert forall|i: int| 0 <= i < specs.len() implies writable(#[trigger] specs[i]) by {
                assert(parse::parsed(children[i], schema) == Ok::<_, ErrorModel>(specs[i]));
                lemma_parsed_writable(children[i], schema);
            }
            let all = SpecModel::And(specs);
            assert forall|before: nat| (#[trigger] render::written(spec, before)) is Ok by {
                lemma_all_writable(specs, specs.len(), before);
                assert(render::written(all, before) is Ok);
            }
        },
    }
}

/// Law: whatever was parsed can be written, behind any number of arguments.
pub proof fn law_a_parsed_tree_can_be_written(
    node: NodeModel,
    schema: Map<Seq<char>, ColumnModel>,
    before: nat,
)
    requires
        parse::parsed(node, schema) is Ok,
    ensures
        render::written(parse::parsed(node, schema)->Ok_0, before) is Ok,
{
    lemma_parsed_writable(node, schema);
}

/// The parts of an allowed query can be written.
pub(crate) proof fn lemma_parts_writable(query: QueryModel, schema: Map<Seq<char>, ColumnModel>)
    requires
        render::query_parts(query, schema) is Ok,
    ensures
        forall|i: int|
            0 <= i < render::query_parts(query, schema)->Ok_0.len() ==> writable(
                #[trigger] render::query_parts(query, schema)->Ok_0[i],
            ),
{
    let parts = render::query_parts(query, schema)->Ok_0;
    let n = query.scope.len();
    meaning::lemma_scope_parts(query, n, schema);
    assert forall|i: int| 0 <= i < parts.len() implies writable(#[trigger] parts[i]) by {
        if i < n {
            let pred = render::scope_pred(query.scope[i], schema)->Ok_0;
            assert(parts[i] == SpecModel::Pred(pred));
            assert forall|before: nat| (#[trigger] render::written(parts[i], before)) is Ok by {
                assert(render::written_pred(pred, before) is Ok);
            }
        } else {
            lemma_parsed_writable(query.filter->0, schema);
        }
    }
}

/// Law: rendering succeeds exactly on the queries whose scope and filter the
/// schema allows.
pub proof fn law_render_succeeds_exactly_on_the_allowed(
    query: QueryModel,
    schema: Map<Seq<char>, ColumnModel>,
)
    ensures
        render::rendered(query, schema) is Ok <==> accepted_query(query, schema),
{
    let n = query.scope.len();
    meaning::lemma_scope_parts(query, n, schema);
    assert forall|i: int| 0 <= i < n implies render::scope_pred(
        #[trigger] query.scope[i],
        schema,
    ) is Ok == accepted_scope(query.scope[i], schema) by {}
    if query.filter is Some {
        fold::law_parse_accepts_exactly_the_allowed(query.filter->0, schema);
    }
    assert(render::query_parts(query, schema) is Ok <==> accepted_query(query, schema)) by {
        if forall|i: int|
            0 <= i < n ==> render::scope_pred(#[trigger] query.scope[i], schema) is Ok {
            assert forall|i: int| 0 <= i < n implies accepted_scope(
                #[trigger] query.scope[i],
                schema,
            ) by {
                assert(render::scope_pred(query.scope[i], schema) is Ok);
            }
        } else {
            let i = choose|i: int|
                0 <= i < n && !(render::scope_pred(#[trigger] query.scope[i], schema) is Ok);
            assert(!accepted_scope(query.scope[i], schema));
        }
    }
    if render::query_parts(query, schema) is Ok {
        let parts = render::query_parts(query, schema)->Ok_0;
        lemma_parts_writable(query, schema);
        if parts.len() == 1 {
            assert(writable(parts[0]));
            assert(render::written(parts[0], 0) is Ok);
        } else if parts.len() > 1 {
            lemma_all_writable(parts, parts.len(), 0);
            assert(render::written(SpecModel::And(parts), 0) is Ok);
        }
    }
}

/// A written tree is not an empty text.
proof fn lemma_written_not_empty(spec: SpecModel, before: nat)
    requires
        render::written(spec, before) is Ok,
    ensures
        render::written(spec, before)->Ok_0.0.len() > 0,
    decreases spec,
{
    reveal_strlit("(");
    match spec {
        SpecModel::And(children) => {
            lemma_group_not_empty(children, before);
        },
        SpecModel::Or(children) => {
            lemma_group_not_empty(children, before);
        },
        SpecModel::Not(child) => {
            reveal_strlit("NOT (");
        },
        SpecModel::Pred(pred) => {},
    }
}

proof fn lemma_group_not_empty(children: Seq<SpecModel>, before: nat)
    requires
        children.len() > 0,
        render::written_all(children, children.len(), before) is Ok,
    ensures
        render::written_all(children, children.len(), before)->Ok_0.0.len() == children.len(),
        children.len() == 1 ==> render::written_all(
            children,
            children.len(),
            before,
        )->Ok_0.0[0].len() > 0,
    decreases children,
{
    lemma_written_all_len(children, children.len(), before);
    if children.len() == 1 {
        reveal_with_fuel(render::written_all, 2);
        lemma_written_not_empty(children[0], before);
    }
}

/// Writing a list gives one text per tree.
pub(crate) proof fn lemma_written_all_len(specs: Seq<SpecModel>, n: nat, before: nat)
    requires
        n <= specs.len(),
        render::written_all(specs, n, before) is Ok,
    ensures
        render::written_all(specs, n, before)->Ok_0.0.len() == n,
    decreases n,
{
    if n > 0 {
        lemma_written_all_len(specs, (n - 1) as nat, before);
    }
}

/// Law: the SQL text is never empty, so it can always be concatenated into a
/// `WHERE` clause.
pub proof fn law_sql_is_never_empty(query: QueryModel, schema: Map<Seq<char>, ColumnModel>)
    requires
        render::rendered(query, schema) is Ok,
    ensures
        render::rendered(query, schema)->Ok_0.0.len() > 0,
{
    reveal_strlit("TRUE");
    let parts = render::query_parts(query, schema)->Ok_0;
    if parts.len() > 0 {
        lemma_written_not_empty(render::combined(parts), 0);
    }
}

} // verus!

//! What a query takes from the schema: the columns its own fields reach, and
//! nothing else.

use vstd::prelude::*;

use crate::error::ErrorModel;
use crate::filter::{LeafModel, NodeModel};
use crate::laws::fold;
use crate::parse;
use crate::query::{QueryModel, ScopeModel};
use crate::render;
use crate::schema::ColumnModel;

verus! {

/// Whether a field of one schema and a field of another reach the same column,
/// or neither reaches any.
pub open spec fn same_column(
    a: Seq<char>,
    from: Map<Seq<char>, ColumnModel>,
    b: Seq<char>,
    to: Map<Seq<char>, ColumnModel>,
) -> bool {
    &&& from.contains_key(a) <==> to.contains_key(b)
    &&& from.contains_key(a) ==> from[a] == to[b]
}

/// Whether two schemas keep the same under every field that a query names.
pub open spec fn agree_on(
    query: QueryModel,
    from: Map<Seq<char>, ColumnModel>,
    to: Map<Seq<char>, ColumnModel>,
) -> bool {
    &&& forall|i: int|
        #![trigger query.scope[i]]
        0 <= i < query.scope.len() ==> same_column(
            query.scope[i].field,
            from,
            query.scope[i].field,
            to,
        )
    &&& query.filter is Some ==> agree_on_leaves(fold::node_leaves(query.filter->0), from, to)
}

/// Whether two schemas keep the same under every field that the leaves name.
pub open spec fn agree_on_leaves(
    leaves: Seq<LeafModel>,
    from: Map<Seq<char>, ColumnModel>,
    to: Map<Seq<char>, ColumnModel>,
) -> bool {
    forall|i: int|
        #![trigger leaves[i]]
        0 <= i < leaves.len() ==> same_column(leaves[i].field, from, leaves[i].field, to)
}

/// Whether one filter, over the schema `from`, is the other, over the schema
/// `to`, with fields renamed: they differ in nothing but the names by which
/// they reach the same columns.
pub open spec fn renamed(
    a: NodeModel,
    from: Map<Seq<char>, ColumnModel>,
    b: NodeModel,
    to: Map<Seq<char>, ColumnModel>,
) -> bool
    decreases a,
{
    match (a, b) {
        (
            NodeModel::Group { conjunction: c, children: xs },
            NodeModel::Group { conjunction: d, children: ys },
        ) => {
            &&& c == d
            &&& xs.len() == ys.len()
            &&& forall|i: int| 0 <= i < xs.len() ==> renamed(#[trigger] xs[i], from, ys[i], to)
        },
        (NodeModel::Leaf(x), NodeModel::Leaf(y)) => {
            &&& same_column(x.field, from, y.field, to)
            &&& LeafModel { field: y.field, ..x } == y
        },
        _ => false,
    }
}

/// Whether one query, over the schema `from`, is the other, over the schema
/// `to`, with fields renamed.
pub open spec fn renamed_query(
    a: QueryModel,
    from: Map<Seq<char>, ColumnModel>,
    b: QueryModel,
    to: Map<Seq<char>, ColumnModel>,
) -> bool {
    &&& a.scope.len() == b.scope.len()
    &&& forall|i: int|
        0 <= i < a.scope.len() ==> renamed_condition(#[trigger] a.scope[i], from, b.scope[i], to)
    &&& match (a.filter, b.filter) {
        (Some(x), Some(y)) => renamed(x, from, y, to),
        (None, None) => true,
        _ => false,
    }
}

/// Whether one condition of a scope, over the schema `from`, is the other, over
/// the schema `to`, with its field renamed.
pub open spec fn renamed_condition(
    a: ScopeModel,
    from: Map<Seq<char>, ColumnModel>,
    b: ScopeModel,
    to: Map<Seq<char>, ColumnModel>,
) -> bool {
    &&& same_column(a.field, from, b.field, to)
    &&& a.value == b.value
}

/// The detail of a mismatch, which names the field first.
pub open spec fn naming(field: Seq<char>, rest: Seq<char>) -> Seq<char> {
    "field "@ + field + rest
}

/// Whether two errors are the same but for the field that they name.
pub open spec fn same_but_field(a: ErrorModel, b: ErrorModel) -> bool {
    a == b || match (a, b) {
        (ErrorModel::UnknownField(_), ErrorModel::UnknownField(_)) => true,
        (ErrorModel::TypeMismatch(p), ErrorModel::TypeMismatch(q)) => exists|
            x: Seq<char>,
            y: Seq<char>,
            rest: Seq<char>,
        |
            #![trigger naming(x, rest), naming(y, rest)]
            p == naming(x, rest) && q == naming(y, rest),
        _ => false,
    }
}

/// Whether two outcomes are the same but for the field that an error names.
pub open spec fn same_outcome<T>(a: Result<T, ErrorModel>, b: Result<T, ErrorModel>) -> bool {
    match (a, b) {
        (Ok(x), Ok(y)) => x == y,
        (Err(x), Err(y)) => same_but_field(x, y),
        _ => false,
    }
}

proof fn lemma_agree_all(
    nodes: Seq<NodeModel>,
    n: nat,
    from: Map<Seq<char>, ColumnModel>,
    to: Map<Seq<char>, ColumnModel>,
)
    requires
        n <= nodes.len(),
        agree_on_leaves(fold::node_leaves_all(nodes, n), from, to),
    ensures
        parse::parsed_all(nodes, n, from) == parse::parsed_all(nodes, n, to),
    decreases nodes, n,
{
    if n > 0 {
        let m = (n - 1) as nat;
        let before = fold::node_leaves_all(nodes, m);
        let last = fold::node_leaves(nodes[n - 1]);
        let all = fold::node_leaves_all(nodes, n);
        assert(all == before + last);
        assert forall|i: int| #![trigger before[i]] 0 <= i < before.len() implies same_column(
            before[i].field,
            from,
            before[i].field,
            to,
        ) by {
            assert(all[i] == before[i]);
        }
        assert forall|i: int| #![trigger last[i]] 0 <= i < last.len() implies same_column(
            last[i].field,
            from,
            last[i].field,
            to,
        ) by {
            assert(all[before.len() + i] == last[i]);
        }
        lemma_agree_all(nodes, m, from, to);
        law_parse_reads_only_the_fields_it_names(nodes[n - 1], from, to);
    }
}

/// Law: parsing reads nothing of the schema but what it keeps under the fields
/// that the filter names. Two schemas that agree on these give the same tree,
/// or the same error.
pub proof fn law_parse_reads_only_the_fields_it_names(
    node: NodeModel,
    from: Map<Seq<char>, ColumnModel>,
    to: Map<Seq<char>, ColumnModel>,
)
    requires
        agree_on_leaves(fold::node_leaves(node), from, to),
    ensures
        parse::parsed(node, from) == parse::parsed(node, to),
    decreases node, 0nat,
{
    match node {
        NodeModel::Leaf(leaf) => {
            let leaves = fold::node_leaves(node);
            assert(leaves[0] == leaf);
            assert(same_column(leaf.field, from, leaf.field, to));
        },
        NodeModel::Group { conjunction, children } => {
            lemma_agree_all(children, children.len(), from, to);
        },
    }
}

proof fn lemma_agree_scope(
    query: QueryModel,
    n: nat,
    from: Map<Seq<char>, ColumnModel>,
    to: Map<Seq<char>, ColumnModel>,
)
    requires
        n <= query.scope.len(),
        agree_on(query, from, to),
    ensures
        render::scope_parts(query.scope, n, from) == render::scope_parts(query.scope, n, to),
    decreases n,
{
    if n > 0 {
        lemma_agree_scope(query, (n - 1) as nat, from, to);
        let field = query.scope[n - 1].field;
        assert(same_column(field, from, field, to));
    }
}

/// Law: entries of the schema that neither the scope nor a leaf of the filter
/// names have no influence. Two schemas that agree on the fields that a query
/// names render it alike, or reject it for the same reason.
pub proof fn law_render_reads_only_the_fields_it_names(
    query: QueryModel,
    from: Map<Seq<char>, ColumnModel>,
    to: Map<Seq<char>, ColumnModel>,
)
    requires
        agree_on(query, from, to),
    ensures
        render::rendered(query, from) == render::rendered(query, to),
{
    lemma_agree_scope(query, query.scope.len(), from, to);
    if query.filter is Some {
        law_parse_reads_only_the_fields_it_names(query.filter->0, from, to);
    }
}

proof fn lemma_renamed_all(
    xs: Seq<NodeModel>,
    from: Map<Seq<char>, ColumnModel>,
    ys: Seq<NodeModel>,
    to: Map<Seq<char>, ColumnModel>,
    n: nat,
)
    requires
        n <= xs.len(),
        xs.len() == ys.len(),
        forall|i: int| 0 <= i < xs.len() ==> renamed(#[trigger] xs[i], from, ys[i], to),
    ensures
        same_outcome(parse::parsed_all(xs, n, from), parse::parsed_all(ys, n, to)),
    decreases xs, n,
{
    if n > 0 {
        lemma_renamed_all(xs, from, ys, to, (n - 1) as nat);
        assert(renamed(xs[n - 1], from, ys[n - 1], to));
        law_parse_keeps_up_with_renamed_fields(xs[n - 1], from, ys[n - 1], to);
    }
}

/// Law: renaming fields in the schema and in the filter together keeps the
/// parsed tree. Where the filter is rejected, it still is, for the same reason
/// but for the name of the field.
pub proof fn law_parse_keeps_up_with_renamed_fields(
    a: NodeModel,
    from: Map<Seq<char>, ColumnModel>,
    b: NodeModel,
    to: Map<Seq<char>, ColumnModel>,
)
    requires
        renamed(a, from, b, to),
    ensures
        same_outcome(parse::parsed(a, from), parse::parsed(b, to)),
    decreases a, 0nat,
{
    match (a, b) {
        (
            NodeModel::Group { conjunction: _, children: xs },
            NodeModel::Group { conjunction: _, children: ys },
        ) => {
            assert forall|i: int| 0 <= i < xs.len() implies renamed(
                #[trigger] xs[i],
                from,
                ys[i],
                to,
            ) by {
                assert(a->children[i] == xs[i]);
            }
            lemma_renamed_all(xs, from, ys, to, xs.len());
        },
        (NodeModel::Leaf(x), NodeModel::Leaf(y)) => {
            if from.contains_key(x.field) {
                let declared = x.field_type.name();
                let name = from[x.field].field_type.name();
                let rest = " is "@ + name + ", filter says "@ + declared;
                assert(naming(x.field, rest) =~= "field "@ + x.field + " is "@ + name
                    + ", filter says "@ + declared);
                assert(naming(y.field, rest) =~= "field "@ + y.field + " is "@ + name
                    + ", filter says "@ + declared);
            }
        },
        _ => {},
    }
}

proof fn lemma_renamed_scope(
    a: QueryModel,
    from: Map<Seq<char>, ColumnModel>,
    b: QueryModel,
    to: Map<Seq<char>, ColumnModel>,
    n: nat,
)
    requires
        n <= a.scope.len(),
        renamed_query(a, from, b, to),
    ensures
        same_outcome(
            render::scope_parts(a.scope, n, from),
            render::scope_parts(b.scope, n, to),
        ),
    decreases n,
{
    if n > 0 {
        lemma_renamed_scope(a, from, b, to, (n - 1) as nat);
        assert(renamed_condition(a.scope[n - 1], from, b.scope[n - 1], to));
    }
}

/// Law: renaming fields in the schema and in the query together keeps the SQL
/// text and the arguments. Where the query is rejected, it still is, for the
/// same reason but for the name of the field.
pub proof fn law_render_keeps_up_with_renamed_fields(
    a: QueryModel,
    from: Map<Seq<char>, ColumnModel>,
    b: QueryModel,
    to: Map<Seq<char>, ColumnModel>,
)
    requires
        renamed_query(a, from, b, to),
    ensures
        same_outcome(render::rendered(a, from), render::rendered(b, to)),
{
    lemma_renamed_scope(a, from, b, to, a.scope.len());
    if a.filter is Some {
        law_parse_keeps_up_with_renamed_fields(a.filter->0, from, b.filter->0, to);
    }
}

} // verus!

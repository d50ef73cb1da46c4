//! What the SQL text does not depend on: the values and the field names of the
//! request.

use vstd::prelude::*;

use crate::error::ErrorModel;
use crate::filter::NodeModel;
use crate::laws::fold;
use crate::laws::meaning;
use crate::laws::provenance;
use crate::operator;
use crate::parse;
use crate::query::QueryModel;
use crate::render;
use crate::schema::ColumnModel;
use crate::tree::{PredModel, SpecModel};

verus! {

/// The predicate without the values it compares with.
pub open spec fn bare(pred: PredModel) -> PredModel {
    PredModel { value: None, range: None, ..pred }
}

/// Whether two trees differ in nothing but the values they compare with.
pub open spec fn same_but_values(a: SpecModel, b: SpecModel) -> bool
    decreases a,
{
    match (a, b) {
        (SpecModel::And(xs), SpecModel::And(ys)) => {
            &&& xs.len() == ys.len()
            &&& forall|i: int| 0 <= i < xs.len() ==> same_but_values(#[trigger] xs[i], ys[i])
        },
        (SpecModel::Or(xs), SpecModel::Or(ys)) => {
            &&& xs.len() == ys.len()
            &&& forall|i: int| 0 <= i < xs.len() ==> same_but_values(#[trigger] xs[i], ys[i])
        },
        (SpecModel::Not(x), SpecModel::Not(y)) => same_but_values(*x, *y),
        (SpecModel::Pred(p), SpecModel::Pred(q)) => bare(p) == bare(q),
        _ => false,
    }
}

/// Whether two filters differ in nothing but the values, the declared types and
/// relations, and the names by which they reach the same columns of the schema.
pub open spec fn alike(a: NodeModel, b: NodeModel, schema: Map<Seq<char>, ColumnModel>) -> bool
    decreases a,
{
    match (a, b) {
        (
            NodeModel::Group { conjunction: c, children: xs },
            NodeModel::Group { conjunction: d, children: ys },
        ) => {
            &&& c == d
            &&& xs.len() == ys.len()
            &&& forall|i: int| 0 <= i < xs.len() ==> alike(#[trigger] xs[i], ys[i], schema)
        },
        (NodeModel::Leaf(x), NodeModel::Leaf(y)) => {
            &&& schema[x.field] == schema[y.field]
            &&& x.operator == y.operator
        },
        _ => false,
    }
}

/// Whether two queries differ in nothing but values and the names by which they
/// reach the same columns of the schema.
pub open spec fn alike_queries(
    a: QueryModel,
    b: QueryModel,
    schema: Map<Seq<char>, ColumnModel>,
) -> bool {
    &&& a.scope.len() == b.scope.len()
    &&& forall|i: int|
        0 <= i < a.scope.len() ==> schema[(#[trigger] a.scope[i]).field]
            == schema[b.scope[i].field]
    &&& match (a.filter, b.filter) {
        (Some(x), Some(y)) => alike(x, y, schema),
        (None, None) => true,
        _ => false,
    }
}

proof fn lemma_lists_ignore_values(
    xs: Seq<SpecModel>,
    ys: Seq<SpecModel>,
    n: nat,
    before: nat,
)
    requires
        n <= xs.len(),
        xs.len() == ys.len(),
        forall|i: int| 0 <= i < xs.len() ==> same_but_values(#[trigger] xs[i], ys[i]),
        render::written_all(xs, n, before) is Ok,
        render::written_all(ys, n, before) is Ok,
    ensures
        render::written_all(xs, n, before)->Ok_0.0 == render::written_all(ys, n, before)->Ok_0.0,
        render::written_all(xs, n, before)->Ok_0.1.len() == render::written_all(
            ys,
            n,
            before,
        )->Ok_0.1.len(),
    decreases xs, n,
{
    if n > 0 {
        let m = (n - 1) as nat;
        lemma_lists_ignore_values(xs, ys, m, before);
        let used = render::written_all(xs, m, before)->Ok_0.1.len();
        assert(same_but_values(xs[n - 1], ys[n - 1]));
        law_text_ignores_values(xs[n - 1], ys[n - 1], before + used);
    }
}

/// Law: no value reaches the SQL text. Two trees that differ in nothing but the
/// values they compare with are written as the same text, with equally many
/// arguments.
pub proof fn law_text_ignores_values(a: SpecModel, b: SpecModel, before: nat)
    requires
        same_but_values(a, b),
        render::written(a, before) is Ok,
        render::written(b, before) is Ok,
    ensures
        render::written(a, before)->Ok_0.0 == render::written(b, before)->Ok_0.0,
        render::written(a, before)->Ok_0.1.len() == render::written(b, before)->Ok_0.1.len(),
    decreases a, 0nat,
{
    match (a, b) {
        (SpecModel::And(xs), SpecModel::And(ys)) => {
            assert forall|i: int| 0 <= i < xs.len() implies same_but_values(
                #[trigger] xs[i],
                ys[i],
            ) by {
                assert(a->And_0[i] == xs[i]);
            }
            lemma_lists_ignore_values(xs, ys, xs.len(), before);
        },
        (SpecModel::Or(xs), SpecModel::Or(ys)) => {
            assert forall|i: int| 0 <= i < xs.len() implies same_but_values(
                #[trigger] xs[i],
                ys[i],
            ) by {
                assert(a->Or_0[i] == xs[i]);
            }
            lemma_lists_ignore_values(xs, ys, xs.len(), before);
        },
        (SpecModel::Not(x), SpecModel::Not(y)) => {
            law_text_ignores_values(*x, *y, before);
        },
        (SpecModel::Pred(p), SpecModel::Pred(q)) => {
            assert(bare(p).operator == bare(q).operator);
            assert(bare(p).column == bare(q).column);
            assert(bare(p).relation == bare(q).relation);
            assert(bare(p).field_type == bare(q).field_type);
        },
        _ => {},
    }
}

/// Filters that are alike are parsed into trees that differ in nothing but
/// values.
proof fn lemma_alike_parsed(
    a: NodeModel,
    b: NodeModel,
    schema: Map<Seq<char>, ColumnModel>,
)
    requires
        alike(a, b, schema),
        parse::parsed(a, schema) is Ok,
        parse::parsed(b, schema) is Ok,
    ensures
        same_but_values(parse::parsed(a, schema)->Ok_0, parse::parsed(b, schema)->Ok_0),
    decreases a,
{
    match (a, b) {
        (NodeModel::Leaf(x), NodeModel::Leaf(y)) => {
            fold::law_parse_accepts_exactly_the_allowed(a, schema);
            fold::law_parse_accepts_exactly_the_allowed(b, schema);
            provenance::lemma_accepted_pred(x, schema);
            provenance::lemma_accepted_pred(y, schema);
            let p = SpecModel::Pred(fold::leaf_pred(x, schema));
            let q = SpecModel::Pred(fold::leaf_pred(y, schema));
            assert(same_but_values(p, q));
            if operator::negated(x.operator) is Some {
                assert(same_but_values(
                    SpecModel::Not(Box::new(p)),
                    SpecModel::Not(Box::new(q)),
                ));
            }
        },
        (
            NodeModel::Group { conjunction: c, children: xs },
            NodeModel::Group { conjunction: d, children: ys },
        ) => {
            fold::lemma_parsed_all(xs, xs.len(), schema);
            fold::lemma_parsed_all(ys, ys.len(), schema);
            let ps = parse::parsed_all(xs, xs.len(), schema)->Ok_0;
            let qs = parse::parsed_all(ys, ys.len(), schema)->Ok_0;
            assert forall|i: int| 0 <= i < ps.len() implies same_but_values(
                #[trigger] ps[i],
                qs[i],
            ) by {
                assert(alike(xs[i], ys[i], schema));
                assert(parse::parsed(xs[i], schema) == Ok::<_, ErrorModel>(ps[i]));
                assert(parse::parsed(ys[i], schema) == Ok::<_, ErrorModel>(qs[i]));
                lemma_alike_parsed(xs[i], ys[i], schema);
            }
            lemma_lists_alike(ps, qs);
            assert(same_but_values(
                SpecModel::Not(Box::new(SpecModel::And(ps))),
                SpecModel::Not(Box::new(SpecModel::And(qs))),
            ));
        },
        _ => {},
    }
}

proof fn lemma_lists_alike(ps: Seq<SpecModel>, qs: Seq<SpecModel>)
    requires
        ps.len() == qs.len(),
        forall|i: int| 0 <= i < ps.len() ==> same_but_values(#[trigger] ps[i], qs[i]),
    ensures
        same_but_values(SpecModel::And(ps), SpecModel::And(qs)),
        same_but_values(SpecModel::Or(ps), SpecModel::Or(qs)),
{
}

/// Law: neither a value nor a field name of the request reaches the SQL text.
/// Two queries that differ in nothing but values and the names by which they
/// reach the same columns of the schema are rendered as the same text, with
/// equally many arguments.
pub proof fn law_sql_ignores_names_and_values(
    a: QueryModel,
    b: QueryModel,
    schema: Map<Seq<char>, ColumnModel>,
)
    requires
        alike_queries(a, b, schema),
        render::rendered(a, schema) is Ok,
        render::rendered(b, schema) is Ok,
    ensures
        render::rendered(a, schema)->Ok_0.0 == render::rendered(b, schema)->Ok_0.0,
        render::rendered(a, schema)->Ok_0.1.len() == render::rendered(b, schema)->Ok_0.1.len(),
{
    let n = a.scope.len();
    let ps = render::query_parts(a, schema)->Ok_0;
    let qs = render::query_parts(b, schema)->Ok_0;
    meaning::lemma_scope_parts(a, n, schema);
    meaning::lemma_scope_parts(b, n, schema);
    if a.filter is Some {
        lemma_alike_parsed(a.filter->0, b.filter->0, schema);
    }
    assert forall|i: int| 0 <= i < ps.len() implies same_but_values(#[trigger] ps[i], qs[i]) by {
        if i < n {
            let p = render::scope_pred(a.scope[i], schema)->Ok_0;
            let q = render::scope_pred(b.scope[i], schema)->Ok_0;
            assert(ps[i] == SpecModel::Pred(p));
            assert(qs[i] == SpecModel::Pred(q));
            assert(schema[a.scope[i].field] == schema[b.scope[i].field]);
            assert(bare(p) == bare(q));
        }
    }
    lemma_lists_alike(ps, qs);
    if ps.len() > 0 {
        law_text_ignores_values(render::combined(ps), render::combined(qs), 0);
    }
}

} // verus!

//! How the scope and the filter of a query stand together in the SQL text.

use vstd::prelude::*;

use crate::error::ErrorModel;
use crate::json;
use crate::json::JsonModel;
use crate::laws::fold;
use crate::laws::language;
use crate::laws::meaning;
use crate::laws::predicates;
use crate::laws::provenance;
use crate::laws::success;
use crate::parse;
use crate::query::{QueryModel, ScopeModel};
use crate::render;
use crate::schema::ColumnModel;
use crate::text;
use crate::tree::{PredModel, SpecModel};

verus! {

/// The SQL texts of the conditions of a scope: each compares the column that the
/// schema keeps under its field, named with its relation where it has one, with
/// an argument of its own.
pub open spec fn scope_texts(
    scope: Seq<ScopeModel>,
    schema: Map<Seq<char>, ColumnModel>,
) -> Seq<Seq<char>> {
    Seq::new(
        scope.len(),
        |i: int|
            predicates::column_text(
                schema[scope[i].field].relation,
                schema[scope[i].field].column,
            ) + " = "@ + render::placeholder((i + 1) as nat),
    )
}

/// The arguments of a scope: the values of its conditions.
pub open spec fn scope_values(scope: Seq<ScopeModel>) -> Seq<JsonModel> {
    scope.map_values(|condition: ScopeModel| condition.value)
}

/// What the first `n` conditions of the scope are written as.
proof fn lemma_scope_written(
    query: QueryModel,
    parts: Seq<SpecModel>,
    n: nat,
    schema: Map<Seq<char>, ColumnModel>,
)
    requires
        n <= query.scope.len() <= parts.len(),
        forall|i: int|
            0 <= i < query.scope.len() ==> render::scope_pred(
                #[trigger] query.scope[i],
                schema,
            ) is Ok,
        forall|i: int|
            0 <= i < query.scope.len() ==> #[trigger] parts[i] == SpecModel::Pred(
                render::scope_pred(query.scope[i], schema)->Ok_0,
            ),
    ensures
        render::written_all(parts, n, 0) == Ok::<_, ErrorModel>(
            (
                scope_texts(query.scope, schema).take(n as int),
                scope_values(query.scope).take(n as int),
            ),
        ),
    decreases n,
{
    let texts = scope_texts(query.scope, schema);
    let values = scope_values(query.scope);
    if n == 0 {
        assert(texts.take(0) =~= Seq::empty());
        assert(values.take(0) =~= Seq::empty());
    } else {
        let m = n - 1;
        lemma_scope_written(query, parts, m as nat, schema);
        let pred = render::scope_pred(query.scope[m], schema)->Ok_0;
        assert(parts[m] == SpecModel::Pred(pred));
        predicates::law_comparisons_compare_with_the_value(pred, values[m], m as nat);
        assert(render::written(parts[m], m as nat) == Ok::<_, ErrorModel>(
            (texts[m], seq![values[m]]),
        ));
        assert(texts.take(n as int) =~= texts.take(m).push(texts[m]));
        assert(values.take(n as int) =~= values.take(m) + seq![values[m]]);
    }
}

/// Law: the scope is structural. With a scope and a filter, the SQL text is the
/// conjunction of every condition of the scope, each with its own argument, and
/// of the client's filter, numbered on from there. No filter can leave out,
/// replace or stand beside a condition of the scope in any other way.
pub proof fn law_scope_is_conjoined_with_the_filter(
    query: QueryModel,
    schema: Map<Seq<char>, ColumnModel>,
)
    requires
        success::accepted_query(query, schema),
        query.scope.len() > 0,
        query.filter is Some,
    ensures
        ({
            let tree = parse::parsed(query.filter->0, schema)->Ok_0;
            let (client, args) = render::written(tree, query.scope.len())->Ok_0;
            render::rendered(query, schema) == Ok::<_, ErrorModel>(
                (
                    "("@ + text::joined(
                        scope_texts(query.scope, schema).push(client),
                        " AND "@,
                    ) + ")"@,
                    scope_values(query.scope) + args,
                ),
            )
        }),
{
    let n = query.scope.len();
    success::law_render_succeeds_exactly_on_the_allowed(query, schema);
    let parts = render::query_parts(query, schema)->Ok_0;
    meaning::lemma_scope_parts(query, n, schema);
    lemma_scope_written(query, parts, n, schema);
    success::lemma_parts_writable(query, schema);
    let tree = parse::parsed(query.filter->0, schema)->Ok_0;
    assert(parts[n as int] == tree);
    assert(success::writable(parts[n as int]));
    assert(render::written(tree, n) is Ok);
    let texts = scope_texts(query.scope, schema);
    let values = scope_values(query.scope);
    assert(texts.take(n as int) =~= texts);
    assert(values.take(n as int) =~= values);
    assert(0 + values.len() == n);
    assert(render::written_all(parts, n + 1, 0) is Ok);
    assert(render::combined(parts) == SpecModel::And(parts));
}

/// Law: a scope without a filter is the conjunction of its conditions.
pub proof fn law_scope_alone(query: QueryModel, schema: Map<Seq<char>, ColumnModel>)
    requires
        success::accepted_query(query, schema),
        query.scope.len() > 0,
        query.filter is None,
    ensures
        render::rendered(query, schema) == Ok::<_, ErrorModel>(
            (
                render::grouped(scope_texts(query.scope, schema), " AND "@),
                scope_values(query.scope),
            ),
        ),
{
    let n = query.scope.len();
    success::law_render_succeeds_exactly_on_the_allowed(query, schema);
    let parts = render::query_parts(query, schema)->Ok_0;
    meaning::lemma_scope_parts(query, n, schema);
    lemma_scope_written(query, parts, n, schema);
    let texts = scope_texts(query.scope, schema);
    let values = scope_values(query.scope);
    assert(texts.take(n as int) =~= texts);
    assert(values.take(n as int) =~= values);
    if n == 1 {
        reveal_with_fuel(render::written_all, 2);
        let (only, args) = render::written(parts[0], 0)->Ok_0;
        assert(texts[0] == only);
        assert(Seq::<JsonModel>::empty() + args =~= args);
    }
}

/// Law: a filter without a scope is rendered as its own tree, and a query with
/// neither as `TRUE` without arguments.
pub proof fn law_filter_alone(query: QueryModel, schema: Map<Seq<char>, ColumnModel>)
    requires
        query.scope.len() == 0,
    ensures
        query.filter is None ==> render::rendered(query, schema) == Ok::<_, ErrorModel>(
            ("TRUE"@, Seq::<JsonModel>::empty()),
        ),
        query.filter is Some ==> render::rendered(query, schema) == (match parse::parsed(
            query.filter->0,
            schema,
        ) {
            Ok(tree) => render::written(tree, 0),
            Err(error) => Err(error),
        }),
{
}

/// Whether the schema knows the field of a condition and its value is of the kind
/// the field is compared with.
pub open spec fn proper(condition: ScopeModel, schema: Map<Seq<char>, ColumnModel>) -> bool {
    &&& schema.contains_key(condition.field)
    &&& language::of_kind(schema[condition.field].field_type, condition.value)
}

/// Law: a condition of the scope is the equality of the column that the schema
/// keeps under its field, relation and type included, with exactly its value. It
/// is rejected for a field that the schema does not know, and then for a value
/// of another kind.
pub proof fn law_a_condition_reads_its_column_of_the_schema(
    condition: ScopeModel,
    schema: Map<Seq<char>, ColumnModel>,
)
    ensures
        ({
            let out = render::scope_pred(condition, schema);
            let column = schema[condition.field];
            &&& proper(condition, schema) ==> {
                &&& provenance::reads(out->Ok_0, condition.field, schema)
                &&& out == Ok::<_, ErrorModel>(
                    PredModel {
                        column: column.column,
                        relation: column.relation,
                        field_type: column.field_type,
                        operator: "$eq"@,
                        value: Some(condition.value),
                        range: None,
                    },
                )
            }
            &&& !schema.contains_key(condition.field) ==> out == Err::<PredModel, _>(
                ErrorModel::UnknownField(condition.field),
            )
            &&& schema.contains_key(condition.field) && !proper(condition, schema) ==> out == Err::<
                PredModel,
                _,
            >(
                ErrorModel::InvalidValue(
                    "expected "@ + column.field_type.name() + ", got "@ + json::compact(
                        condition.value,
                    ),
                ),
            )
        }),
{
}

/// Law: a query is rendered as the conjunction of its conditions and its filter.
/// Its texts are those of the conditions, in order, then that of the client's
/// filter behind their arguments: none is `TRUE`, one stands alone, and several
/// stand in one pair of parentheses with `AND` between them. Its arguments are
/// the values of the conditions, then those of the filter.
pub proof fn law_a_query_is_its_conditions_and_its_filter(
    query: QueryModel,
    schema: Map<Seq<char>, ColumnModel>,
)
    requires
        forall|i: int| 0 <= i < query.scope.len() ==> proper(#[trigger] query.scope[i], schema),
        query.filter is Some ==> parse::parsed(query.filter->0, schema) is Ok,
    ensures
        ({
            let tree = parse::parsed(query.filter->0, schema)->Ok_0;
            let client = render::written(tree, query.scope.len());
            let texts = if query.filter is Some {
                scope_texts(query.scope, schema).push(client->Ok_0.0)
            } else {
                scope_texts(query.scope, schema)
            };
            let args = if query.filter is Some {
                scope_values(query.scope) + client->Ok_0.1
            } else {
                scope_values(query.scope)
            };
            let sql = if texts.len() == 0 {
                "TRUE"@
            } else if texts.len() == 1 {
                texts[0]
            } else {
                "("@ + text::joined(texts, " AND "@) + ")"@
            };
            &&& query.filter is Some ==> client is Ok
            &&& render::rendered(query, schema) == Ok::<_, ErrorModel>((sql, args))
        }),
{
    assert(success::accepted_query(query, schema)) by {
        assert forall|i: int| 0 <= i < query.scope.len() implies success::accepted_scope(
            #[trigger] query.scope[i],
            schema,
        ) by {
            assert(proper(query.scope[i], schema));
        }
        if query.filter is Some {
            fold::law_parse_accepts_exactly_the_allowed(query.filter->0, schema);
        }
    }
    let texts = scope_texts(query.scope, schema);
    let values = scope_values(query.scope);
    if query.filter is Some {
        success::law_a_parsed_tree_can_be_written(query.filter->0, schema, query.scope.len());
        if query.scope.len() > 0 {
            law_scope_is_conjoined_with_the_filter(query, schema);
        } else {
            law_filter_alone(query, schema);
            let tree = parse::parsed(query.filter->0, schema)->Ok_0;
            let args = render::written(tree, 0)->Ok_0.1;
            assert(values + args =~= args);
        }
    } else if query.scope.len() > 0 {
        law_scope_alone(query, schema);
    } else {
        law_filter_alone(query, schema);
        assert(values =~= Seq::empty());
    }
}

/// Law: a query is rejected for its first fault: that of the first condition
/// that is rejected or, when every condition is accepted, that of the filter.
pub proof fn law_a_query_is_rejected_for_its_first_fault(
    query: QueryModel,
    at: nat,
    schema: Map<Seq<char>, ColumnModel>,
)
    requires
        at <= query.scope.len(),
        forall|i: int| 0 <= i < at ==> proper(#[trigger] query.scope[i], schema),
    ensures
        at < query.scope.len() && !proper(query.scope[at as int], schema) ==> render::rendered(
            query,
            schema,
        ) == Err::<(Seq<char>, Seq<JsonModel>), _>(
            render::scope_pred(query.scope[at as int], schema)->Err_0,
        ),
        at == query.scope.len() && query.filter is Some && parse::parsed(
            query.filter->0,
            schema,
        ) is Err ==> render::rendered(query, schema) == Err::<(Seq<char>, Seq<JsonModel>), _>(
            parse::parsed(query.filter->0, schema)->Err_0,
        ),
{
    meaning::lemma_scope_parts(query, at, schema);
    assert forall|i: int| 0 <= i < at implies render::scope_pred(
        #[trigger] query.scope[i],
        schema,
    ) is Ok by {
        assert(proper(query.scope[i], schema));
        law_a_condition_reads_its_column_of_the_schema(query.scope[i], schema);
    }
    if at < query.scope.len() && !proper(query.scope[at as int], schema) {
        law_a_condition_reads_its_column_of_the_schema(query.scope[at as int], schema);
        assert(render::scope_parts(query.scope, at + 1, schema) is Err);
        render::lemma_scope_error_stays(query.scope, at + 1, query.scope.len(), schema);
    }
}

} // verus!

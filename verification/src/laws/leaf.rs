//! What a leaf of the filter becomes, and what it is rendered as on its own.

use vstd::prelude::*;

use crate::error::ErrorModel;
use crate::filter::{LeafModel, NodeModel};
use crate::json;
use crate::json::JsonModel;
use crate::laws::language;
use crate::laws::predicates;
use crate::laws::scope;
use crate::operator;
use crate::parse;
use crate::query::QueryModel;
use crate::quoting;
use crate::render;
use crate::schema::{ColumnModel, FieldType};
use crate::tree::{PredModel, SpecModel};

verus! {

/// Whether the schema knows the field of the leaf and agrees on its type.
pub open spec fn known(leaf: LeafModel, schema: Map<Seq<char>, ColumnModel>) -> bool {
    schema.contains_key(leaf.field) && schema[leaf.field].field_type == leaf.field_type
}

/// The predicate on the column that the schema keeps under the field of the
/// leaf, without anything to compare it with.
pub open spec fn test_on(
    leaf: LeafModel,
    name: Seq<char>,
    schema: Map<Seq<char>, ColumnModel>,
) -> PredModel {
    PredModel {
        column: schema[leaf.field].column,
        relation: schema[leaf.field].relation,
        field_type: schema[leaf.field].field_type,
        operator: name,
        value: None,
        range: None,
    }
}

/// Whether the operator compares with one value: `$eq` with its negation, order,
/// searches with their negation, and matching.
pub open spec fn takes_a_value(name: Seq<char>) -> bool {
    ||| predicates::is_comparison(name)
    ||| predicates::is_search(name)
    ||| name == "$neq"@
    ||| name == "$not_contains"@
}

/// Whether the operator takes nothing.
pub open spec fn takes_nothing(name: Seq<char>) -> bool {
    ||| predicates::is_plain_test(name)
    ||| name == "$is_not_empty"@
    ||| name == "$is_not_today"@
}

/// The tree of a test: the predicate, with a negation around it for a "not"
/// operator.
pub open spec fn tree_of(name: Seq<char>, pred: PredModel) -> SpecModel {
    if name == "$neq"@ || name == "$not_contains"@ || name == "$is_not_empty"@ || name
        == "$is_not_today"@ {
        SpecModel::Not(Box::new(SpecModel::Pred(pred)))
    } else {
        SpecModel::Pred(pred)
    }
}

/// The operator a predicate carries for an operator of the filter.
pub open spec fn carried(name: Seq<char>) -> Seq<char> {
    if name == "$neq"@ {
        "$eq"@
    } else if name == "$not_contains"@ {
        "$contains"@
    } else if name == "$is_not_empty"@ {
        "$is_empty"@
    } else if name == "$is_not_today"@ {
        "$is_today"@
    } else {
        name
    }
}

/// Law: a leaf of the filter is parsed as a leaf.
pub proof fn law_a_leaf_is_parsed_on_its_own(
    leaf: LeafModel,
    schema: Map<Seq<char>, ColumnModel>,
)
    ensures
        parse::parsed(NodeModel::Leaf(leaf), schema) == parse::parsed_leaf(leaf, schema),
{
}

/// Law: a leaf whose operator takes a value becomes the test of the column that
/// the schema keeps under its field, with exactly the value of the request.
pub proof fn law_a_leaf_carries_the_value_of_the_request(
    leaf: LeafModel,
    schema: Map<Seq<char>, ColumnModel>,
)
    requires
        known(leaf, schema),
        operator::operators(leaf.field_type).contains(leaf.operator),
        takes_a_value(leaf.operator),
        language::of_kind(leaf.field_type, leaf.value),
    ensures
        parse::parsed_leaf(leaf, schema) == Ok::<_, ErrorModel>(
            tree_of(
                leaf.operator,
                PredModel {
                    value: Some(leaf.value),
                    ..test_on(leaf, carried(leaf.operator), schema)
                },
            ),
        ),
{
    operator::lemma_operator_names();
}

/// Law: a leaf whose operator takes nothing becomes the test of the column that
/// the schema keeps under its field, without a value whatever the request gives.
pub proof fn law_a_leaf_drops_a_value_that_is_not_taken(
    leaf: LeafModel,
    schema: Map<Seq<char>, ColumnModel>,
)
    requires
        known(leaf, schema),
        operator::operators(leaf.field_type).contains(leaf.operator),
        takes_nothing(leaf.operator),
    ensures
        parse::parsed_leaf(leaf, schema) == Ok::<_, ErrorModel>(
            tree_of(leaf.operator, test_on(leaf, carried(leaf.operator), schema)),
        ),
{
    operator::lemma_operator_names();
}

/// Law: a `$between` leaf whose value is a pair of strings carries the range
/// from the first to the second.
pub proof fn law_a_between_leaf_carries_its_ends_in_order(
    leaf: LeafModel,
    from: Seq<char>,
    to: Seq<char>,
    schema: Map<Seq<char>, ColumnModel>,
)
    requires
        known(leaf, schema),
        leaf.field_type == FieldType::Date,
        leaf.operator == "$between"@,
        leaf.value == JsonModel::Array(seq![JsonModel::String(from), JsonModel::String(to)]),
    ensures
        parse::parsed_leaf(leaf, schema) == Ok::<_, ErrorModel>(
            SpecModel::Pred(
                PredModel { range: Some((from, to)), ..test_on(leaf, "$between"@, schema) },
            ),
        ),
{
    operator::lemma_operator_names();
}

/// Law: why a leaf is rejected. First comes the field, then its type, then the
/// operator, then the value.
pub proof fn law_a_leaf_is_rejected_for_its_first_fault(
    leaf: LeafModel,
    schema: Map<Seq<char>, ColumnModel>,
)
    ensures
        ({
            let out = parse::parsed_leaf(leaf, schema);
            let name = leaf.field_type.name();
            let supported = operator::operators(leaf.field_type).contains(leaf.operator);
            let pair = leaf.value is Array && leaf.value->Array_0.len() == 2;
            &&& !schema.contains_key(leaf.field) ==> out == Err::<SpecModel, _>(
                ErrorModel::UnknownField(leaf.field),
            )
            &&& schema.contains_key(leaf.field) && !known(leaf, schema) ==> out == Err::<
                SpecModel,
                _,
            >(
                ErrorModel::TypeMismatch(
                    "field "@ + leaf.field + " is "@ + schema[leaf.field].field_type.name()
                        + ", filter says "@ + name,
                ),
            )
            &&& known(leaf, schema) && !supported ==> out == Err::<SpecModel, _>(
                ErrorModel::UnsupportedOperator(leaf.operator + " on "@ + name),
            )
            &&& known(leaf, schema) && supported && takes_a_value(leaf.operator)
                && !language::of_kind(leaf.field_type, leaf.value) ==> out == Err::<SpecModel, _>(
                ErrorModel::InvalidValue(
                    "expected "@ + name + ", got "@ + json::compact(leaf.value),
                ),
            )
            &&& known(leaf, schema) && supported && leaf.operator == "$between"@ && !pair ==> out
                == Err::<SpecModel, _>(ErrorModel::InvalidValue("$between expects a pair"@))
            &&& known(leaf, schema) && supported && leaf.operator == "$between"@ && pair && !(
            leaf.value->Array_0[0] is String && leaf.value->Array_0[1] is String) ==> out == Err::<
                SpecModel,
                _,
            >(ErrorModel::InvalidValue("$between expects two dates"@))
        }),
{
    operator::lemma_operator_names();
}

/// What a leaf is rendered as, when it is all there is to a query.
pub open spec fn alone(leaf: LeafModel, schema: Map<Seq<char>, ColumnModel>) -> Result<
    (Seq<char>, Seq<JsonModel>),
    ErrorModel,
> {
    render::rendered(
        QueryModel { scope: Seq::empty(), filter: Some(NodeModel::Leaf(leaf)) },
        schema,
    )
}

/// The column that the schema keeps under the field of the leaf, as it stands in
/// the SQL text.
pub open spec fn column_of(leaf: LeafModel, schema: Map<Seq<char>, ColumnModel>) -> Seq<char> {
    predicates::column_text(schema[leaf.field].relation, schema[leaf.field].column)
}

/// Whether the leaf is rendered as the text, with the arguments.
pub open spec fn renders_as(
    leaf: LeafModel,
    schema: Map<Seq<char>, ColumnModel>,
    sql: Seq<char>,
    args: Seq<JsonModel>,
) -> bool {
    alone(leaf, schema) == Ok::<_, ErrorModel>((sql, args))
}

/// A leaf alone is rendered as its tree.
proof fn lemma_alone(leaf: LeafModel, schema: Map<Seq<char>, ColumnModel>)
    ensures
        alone(leaf, schema) == (match parse::parsed_leaf(leaf, schema) {
            Ok(tree) => render::written(tree, 0),
            Err(error) => Err(error),
        }),
{
    scope::law_filter_alone(
        QueryModel { scope: Seq::empty(), filter: Some(NodeModel::Leaf(leaf)) },
        schema,
    );
}

/// The first two placeholders behind the texts they follow.
proof fn lemma_first_placeholders()
    ensures
        render::placeholder(1) == "$1"@,
        render::placeholder(2) == "$2"@,
{
    reveal_strlit("$1");
    reveal_strlit("$2");
    assert(render::placeholder(1) =~= "$1"@);
    assert(render::placeholder(2) =~= "$2"@);
}

/// The tree of a test that carries a value, and what it is rendered as.
proof fn lemma_compared(leaf: LeafModel, schema: Map<Seq<char>, ColumnModel>)
    requires
        known(leaf, schema),
        operator::operators(leaf.field_type).contains(leaf.operator),
        takes_a_value(leaf.operator),
        language::of_kind(leaf.field_type, leaf.value),
    ensures
        ({
            let pred = PredModel {
                value: Some(leaf.value),
                ..test_on(leaf, carried(leaf.operator), schema)
            };
            alone(leaf, schema) == render::written(tree_of(leaf.operator, pred), 0)
        }),
{
    lemma_alone(leaf, schema);
    law_a_leaf_carries_the_value_of_the_request(leaf, schema);
}

/// Law: a comparison on its own is rendered as the column that the schema keeps
/// under its field, the operator and `$1`, with the value of the request as the
/// argument; `$neq` as the negation of the equality.
pub proof fn law_a_comparison_renders_column_operator_and_value(
    leaf: LeafModel,
    schema: Map<Seq<char>, ColumnModel>,
)
    requires
        known(leaf, schema),
        language::of_kind(leaf.field_type, leaf.value),
    ensures
        ({
            let column = column_of(leaf, schema);
            let args = seq![leaf.value];
            let ordered = language::is_ordered(leaf.field_type);
            &&& leaf.operator == "$eq"@ ==> renders_as(leaf, schema, column + " = "@ + "$1"@, args)
            &&& leaf.operator == "$neq"@ ==> renders_as(
                leaf,
                schema,
                "NOT ("@ + (column + " = "@ + "$1"@) + ")"@,
                args,
            )
            &&& leaf.operator == "$gt"@ && ordered ==> renders_as(
                leaf,
                schema,
                column + " > "@ + "$1"@,
                args,
            )
            &&& leaf.operator == "$gte"@ && ordered ==> renders_as(
                leaf,
                schema,
                column + " >= "@ + "$1"@,
                args,
            )
            &&& leaf.operator == "$lt"@ && ordered ==> renders_as(
                leaf,
                schema,
                column + " < "@ + "$1"@,
                args,
            )
            &&& leaf.operator == "$lte"@ && ordered ==> renders_as(
                leaf,
                schema,
                column + " <= "@ + "$1"@,
                args,
            )
            &&& leaf.operator == "$regex"@ && leaf.field_type == FieldType::String ==> renders_as(
                leaf,
                schema,
                column + " ~ "@ + "$1"@,
                args,
            )
        }),
{
    operator::lemma_operator_names();
    language::law_each_operator_has_its_types(leaf.field_type);
    lemma_first_placeholders();
    if predicates::is_comparison(leaf.operator) || leaf.operator == "$neq"@ {
        let pred = PredModel {
            value: Some(leaf.value),
            ..test_on(leaf, carried(leaf.operator), schema)
        };
        if operator::operators(leaf.field_type).contains(leaf.operator) {
            lemma_compared(leaf, schema);
            predicates::law_comparisons_compare_with_the_value(pred, leaf.value, 0);
            reveal_with_fuel(render::written, 2);
        }
    }
}

/// Law: a search on its own is rendered as a match of the column with `$1`, with
/// the escaped text and its wildcards as the argument; `$not_contains` as the
/// negation of `$contains`.
pub proof fn law_a_search_renders_column_and_pattern(
    leaf: LeafModel,
    searched: Seq<char>,
    schema: Map<Seq<char>, ColumnModel>,
)
    requires
        known(leaf, schema),
        leaf.field_type == FieldType::String,
        leaf.value == JsonModel::String(searched),
    ensures
        ({
            let sql = column_of(leaf, schema) + " ILIKE "@ + "$1"@;
            let literal = quoting::escaped(searched);
            let anywhere = seq![JsonModel::String("%"@ + literal + "%"@)];
            &&& leaf.operator == "$contains"@ ==> renders_as(leaf, schema, sql, anywhere)
            &&& leaf.operator == "$not_contains"@ ==> renders_as(
                leaf,
                schema,
                "NOT ("@ + sql + ")"@,
                anywhere,
            )
            &&& leaf.operator == "$starts_with"@ ==> renders_as(
                leaf,
                schema,
                sql,
                seq![JsonModel::String(literal + "%"@)],
            )
            &&& leaf.operator == "$ends_with"@ ==> renders_as(
                leaf,
                schema,
                sql,
                seq![JsonModel::String("%"@ + literal)],
            )
        }),
{
    operator::lemma_operator_names();
    language::law_each_operator_has_its_types(leaf.field_type);
    lemma_first_placeholders();
    if predicates::is_search(leaf.operator) || leaf.operator == "$not_contains"@ {
        let pred = PredModel {
            value: Some(leaf.value),
            ..test_on(leaf, carried(leaf.operator), schema)
        };
        lemma_compared(leaf, schema);
        predicates::law_searches_match_a_pattern(pred, searched, 0);
        reveal_with_fuel(render::written, 2);
    }
}

/// Law: a test for emptiness or for a day, on its own, is rendered as that test
/// of the column, without arguments; its "not" operator as the negation.
pub proof fn law_a_plain_test_renders_the_column_only(
    leaf: LeafModel,
    schema: Map<Seq<char>, ColumnModel>,
)
    requires
        known(leaf, schema),
        operator::operators(leaf.field_type).contains(leaf.operator),
    ensures
        ({
            let column = column_of(leaf, schema);
            let none = Seq::<JsonModel>::empty();
            let empty = if leaf.field_type == FieldType::String {
                "("@ + column + " IS NULL OR "@ + column + " = '')"@
            } else {
                column + " IS NULL"@
            };
            let today = column + "::date = CURRENT_DATE"@;
            &&& leaf.operator == "$is_empty"@ ==> renders_as(leaf, schema, empty, none)
            &&& leaf.operator == "$is_not_empty"@ ==> renders_as(
                leaf,
                schema,
                "NOT ("@ + empty + ")"@,
                none,
            )
            &&& leaf.operator == "$is_today"@ ==> renders_as(leaf, schema, today, none)
            &&& leaf.operator == "$is_not_today"@ ==> renders_as(
                leaf,
                schema,
                "NOT ("@ + today + ")"@,
                none,
            )
            &&& leaf.operator == "$is_tomorrow"@ ==> renders_as(
                leaf,
                schema,
                column + "::date = CURRENT_DATE + 1"@,
                none,
            )
            &&& leaf.operator == "$is_yesterday"@ ==> renders_as(
                leaf,
                schema,
                column + "::date = CURRENT_DATE - 1"@,
                none,
            )
        }),
{
    operator::lemma_operator_names();
    if takes_nothing(leaf.operator) {
        let pred = test_on(leaf, carried(leaf.operator), schema);
        lemma_alone(leaf, schema);
        law_a_leaf_drops_a_value_that_is_not_taken(leaf, schema);
        if pred.operator == "$is_empty"@ {
            predicates::law_emptiness_is_null_or_the_empty_text(pred, 0);
        } else {
            predicates::law_days_are_counted_from_the_current_one(pred, 0);
        }
        reveal_with_fuel(render::written, 2);
    }
}

/// Law: a `$between` leaf on its own is rendered as a test of the column from
/// `$1` to `$2`, with the two strings of the request as the arguments, in their
/// order.
pub proof fn law_a_between_leaf_renders_its_ends_in_order(
    leaf: LeafModel,
    from: Seq<char>,
    to: Seq<char>,
    schema: Map<Seq<char>, ColumnModel>,
)
    requires
        known(leaf, schema),
        leaf.field_type == FieldType::Date,
        leaf.operator == "$between"@,
        leaf.value == JsonModel::Array(seq![JsonModel::String(from), JsonModel::String(to)]),
    ensures
        renders_as(
            leaf,
            schema,
            column_of(leaf, schema) + " BETWEEN "@ + "$1"@ + " AND "@ + "$2"@,
            seq![JsonModel::String(from), JsonModel::String(to)],
        ),
{
    lemma_first_placeholders();
    lemma_alone(leaf, schema);
    law_a_between_leaf_carries_its_ends_in_order(leaf, from, to, schema);
    let pred = PredModel { range: Some((from, to)), ..test_on(leaf, "$between"@, schema) };
    predicates::law_between_goes_from_the_first_end_to_the_second(pred, from, to, 0);
}

/// Law: a leaf that is rejected is rejected as a query, too.
pub proof fn law_a_rejected_leaf_is_not_rendered(
    leaf: LeafModel,
    schema: Map<Seq<char>, ColumnModel>,
)
    requires
        parse::parsed_leaf(leaf, schema) is Err,
    ensures
        alone(leaf, schema) == Err::<(Seq<char>, Seq<JsonModel>), _>(
            parse::parsed_leaf(leaf, schema)->Err_0,
        ),
{
    lemma_alone(leaf, schema);
}

} // verus!

//! What each operator is written as, on every column and for every type of
//! field.

use vstd::prelude::*;

use crate::error::ErrorModel;
use crate::json::JsonModel;
use crate::operator;
use crate::quoting;
use crate::render;
use crate::schema::FieldType;
use crate::tree::{PredModel, SpecModel};

verus! {

/// A column as it stands in the SQL text: its quoted name, behind that of its
/// relation and a dot where it has one.
pub open spec fn column_text(relation: Option<Seq<char>>, column: Seq<char>) -> Seq<char> {
    match relation {
        Some(relation) => quoting::quoted(relation) + "."@ + quoting::quoted(column),
        None => quoting::quoted(column),
    }
}

/// Whether the predicate is written as the text, with the arguments.
pub open spec fn reads_as(
    pred: PredModel,
    before: nat,
    sql: Seq<char>,
    args: Seq<JsonModel>,
) -> bool {
    &&& render::written_pred(pred, before) == Ok::<_, ErrorModel>((sql, args))
    &&& render::written(SpecModel::Pred(pred), before) == Ok::<_, ErrorModel>((sql, args))
    &&& render::bound(SpecModel::Pred(pred), before) == args
}

/// Whether the predicate is rejected for the reason and adds no argument.
pub open spec fn fails_with(pred: PredModel, before: nat, error: ErrorModel) -> bool {
    &&& render::written_pred(pred, before) == Err::<(Seq<char>, Seq<JsonModel>), _>(error)
    &&& render::written(SpecModel::Pred(pred), before) == Err::<(Seq<char>, Seq<JsonModel>), _>(
        error,
    )
    &&& render::bound(SpecModel::Pred(pred), before) == Seq::<JsonModel>::empty()
}

/// Law: a column is written with its relation exactly when it has one.
pub proof fn law_a_column_is_named_with_its_relation(pred: PredModel)
    ensures
        render::column_name(pred) == column_text(pred.relation, pred.column),
{
}

/// Law: `$eq`, `$gt`, `$gte`, `$lt`, `$lte` and `$regex` compare the column by
/// `=`, `>`, `>=`, `<`, `<=` and `~` with one argument, which is the value.
pub proof fn law_comparisons_compare_with_the_value(
    pred: PredModel,
    value: JsonModel,
    before: nat,
)
    requires
        pred.value == Some(value),
    ensures
        ({
            let column = column_text(pred.relation, pred.column);
            let mark = render::placeholder(before + 1);
            let args = seq![value];
            &&& pred.operator == "$eq"@ ==> reads_as(pred, before, column + " = "@ + mark, args)
            &&& pred.operator == "$gt"@ ==> reads_as(pred, before, column + " > "@ + mark, args)
            &&& pred.operator == "$gte"@ ==> reads_as(pred, before, column + " >= "@ + mark, args)
            &&& pred.operator == "$lt"@ ==> reads_as(pred, before, column + " < "@ + mark, args)
            &&& pred.operator == "$lte"@ ==> reads_as(pred, before, column + " <= "@ + mark, args)
            &&& pred.operator == "$regex"@ ==> reads_as(pred, before, column + " ~ "@ + mark, args)
        }),
{
    operator::lemma_operator_names();
}

/// Law: `$contains`, `$starts_with` and `$ends_with` match the column with a
/// pattern: the escaped text with a wildcard where anything may stand.
pub proof fn law_searches_match_a_pattern(pred: PredModel, searched: Seq<char>, before: nat)
    requires
        pred.value == Some(JsonModel::String(searched)),
    ensures
        ({
            let sql = column_text(pred.relation, pred.column) + " ILIKE "@ + render::placeholder(
                before + 1,
            );
            let literal = quoting::escaped(searched);
            &&& pred.operator == "$contains"@ ==> reads_as(
                pred,
                before,
                sql,
                seq![JsonModel::String("%"@ + literal + "%"@)],
            )
            &&& pred.operator == "$starts_with"@ ==> reads_as(
                pred,
                before,
                sql,
                seq![JsonModel::String(literal + "%"@)],
            )
            &&& pred.operator == "$ends_with"@ ==> reads_as(
                pred,
                before,
                sql,
                seq![JsonModel::String("%"@ + literal)],
            )
        }),
{
    operator::lemma_operator_names();
}

/// Law: `$is_empty` asks whether the column is null, and on a string also
/// whether it is the empty text. It adds no argument.
pub proof fn law_emptiness_is_null_or_the_empty_text(pred: PredModel, before: nat)
    requires
        pred.operator == "$is_empty"@,
    ensures
        ({
            let column = column_text(pred.relation, pred.column);
            let none = Seq::<JsonModel>::empty();
            &&& pred.field_type == FieldType::String ==> reads_as(
                pred,
                before,
                "("@ + column + " IS NULL OR "@ + column + " = '')"@,
                none,
            )
            &&& pred.field_type != FieldType::String ==> reads_as(
                pred,
                before,
                column + " IS NULL"@,
                none,
            )
        }),
{
    operator::lemma_operator_names();
}

/// Law: `$between` asks for a value from the first end of the range to the
/// second, which are its two arguments in that order.
pub proof fn law_between_goes_from_the_first_end_to_the_second(
    pred: PredModel,
    from: Seq<char>,
    to: Seq<char>,
    before: nat,
)
    requires
        pred.operator == "$between"@,
        pred.range == Some((from, to)),
    ensures
        reads_as(
            pred,
            before,
            column_text(pred.relation, pred.column) + " BETWEEN "@ + render::placeholder(before + 1)
                + " AND "@ + render::placeholder(before + 2),
            seq![JsonModel::String(from), JsonModel::String(to)],
        ),
{
    operator::lemma_operator_names();
}

/// Law: `$is_today`, `$is_tomorrow` and `$is_yesterday` compare the day of the
/// column with the current one, the next one and the one before. They add no
/// argument.
pub proof fn law_days_are_counted_from_the_current_one(pred: PredModel, before: nat)
    ensures
        ({
            let column = column_text(pred.relation, pred.column);
            let none = Seq::<JsonModel>::empty();
            &&& pred.operator == "$is_today"@ ==> reads_as(
                pred,
                before,
                column + "::date = CURRENT_DATE"@,
                none,
            )
            &&& pred.operator == "$is_tomorrow"@ ==> reads_as(
                pred,
                before,
                column + "::date = CURRENT_DATE + 1"@,
                none,
            )
            &&& pred.operator == "$is_yesterday"@ ==> reads_as(
                pred,
                before,
                column + "::date = CURRENT_DATE - 1"@,
                none,
            )
        }),
{
    operator::lemma_operator_names();
}

/// Whether the operator compares with one value of any kind.
pub open spec fn is_comparison(name: Seq<char>) -> bool {
    ||| name == "$eq"@
    ||| name == "$gt"@
    ||| name == "$gte"@
    ||| name == "$lt"@
    ||| name == "$lte"@
    ||| name == "$regex"@
}

/// Whether the operator searches for a text.
pub open spec fn is_search(name: Seq<char>) -> bool {
    ||| name == "$contains"@
    ||| name == "$starts_with"@
    ||| name == "$ends_with"@
}

/// Whether the operator asks for nothing but the column.
pub open spec fn is_plain_test(name: Seq<char>) -> bool {
    ||| name == "$is_empty"@
    ||| name == "$is_today"@
    ||| name == "$is_tomorrow"@
    ||| name == "$is_yesterday"@
}

/// Law: a predicate that lacks what its operator takes is rejected, and so is
/// one whose operator has no test of its own. Nothing is added to the arguments.
pub proof fn law_a_predicate_fails_for_what_it_lacks(pred: PredModel, before: nat)
    ensures
        is_comparison(pred.operator) && pred.value is None ==> fails_with(
            pred,
            before,
            ErrorModel::InvalidValue("operator needs a value"@),
        ),
        is_search(pred.operator) && !(pred.value is Some && pred.value->0 is String) ==> fails_with(
            pred,
            before,
            ErrorModel::InvalidValue("expected string"@),
        ),
        pred.operator == "$between"@ && pred.range is None ==> fails_with(
            pred,
            before,
            ErrorModel::InvalidValue("$between expects a pair"@),
        ),
        !is_comparison(pred.operator) && !is_search(pred.operator) && !is_plain_test(pred.operator)
            && pred.operator != "$between"@ ==> fails_with(
            pred,
            before,
            ErrorModel::UnsupportedOperator(pred.operator),
        ),
{
    operator::lemma_operator_names();
}

} // verus!

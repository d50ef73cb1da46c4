//! The filter language as it is written down: which operators each type of
//! field has, which of them negate and which take no value, and how values,
//! types and errors are told.

use vstd::prelude::*;

use crate::error::ErrorModel;
use crate::json;
use crate::json::JsonModel;
use crate::operator;
use crate::parse;
use crate::schema::FieldType;

verus! {

/// Whether the value is of the kind that fields of the type are compared with:
/// a string for a string or a date, a number for a number, a boolean for a
/// boolean.
pub open spec fn of_kind(field_type: FieldType, value: JsonModel) -> bool {
    ||| value is String && (field_type == FieldType::String || field_type == FieldType::Date)
    ||| value is Number && field_type == FieldType::Number
    ||| value is Bool && field_type == FieldType::Boolean
}

/// Whether the type has an order: numbers and dates.
pub open spec fn is_ordered(field_type: FieldType) -> bool {
    field_type == FieldType::Number || field_type == FieldType::Date
}

/// Law: which types support an operator. Equality is for every type, order for
/// numbers and dates, searching and matching for strings, emptiness for strings
/// and numbers, ranges and days for dates.
pub proof fn law_each_operator_has_its_types(field_type: FieldType)
    ensures
        operator::operators(field_type).contains("$eq"@),
        operator::operators(field_type).contains("$neq"@),
        operator::operators(field_type).contains("$gt"@) <==> is_ordered(field_type),
        operator::operators(field_type).contains("$gte"@) <==> is_ordered(field_type),
        operator::operators(field_type).contains("$lt"@) <==> is_ordered(field_type),
        operator::operators(field_type).contains("$lte"@) <==> is_ordered(field_type),
        operator::operators(field_type).contains("$contains"@) <==> field_type
            == FieldType::String,
        operator::operators(field_type).contains("$not_contains"@) <==> field_type
            == FieldType::String,
        operator::operators(field_type).contains("$starts_with"@) <==> field_type
            == FieldType::String,
        operator::operators(field_type).contains("$ends_with"@) <==> field_type
            == FieldType::String,
        operator::operators(field_type).contains("$regex"@) <==> field_type == FieldType::String,
        operator::operators(field_type).contains("$is_empty"@) <==> field_type
            == FieldType::String || field_type == FieldType::Number,
        operator::operators(field_type).contains("$is_not_empty"@) <==> field_type
            == FieldType::String || field_type == FieldType::Number,
        operator::operators(field_type).contains("$between"@) <==> field_type == FieldType::Date,
        operator::operators(field_type).contains("$is_today"@) <==> field_type == FieldType::Date,
        operator::operators(field_type).contains("$is_tomorrow"@) <==> field_type
            == FieldType::Date,
        operator::operators(field_type).contains("$is_yesterday"@) <==> field_type
            == FieldType::Date,
        operator::operators(field_type).contains("$is_not_today"@) <==> field_type
            == FieldType::Date,
{
    operator::lemma_operator_names();
}

/// Whether the text is the name of an operator.
pub open spec fn is_operator(name: Seq<char>) -> bool {
    ||| name == "$eq"@
    ||| name == "$neq"@
    ||| name == "$gt"@
    ||| name == "$gte"@
    ||| name == "$lt"@
    ||| name == "$lte"@
    ||| name == "$contains"@
    ||| name == "$not_contains"@
    ||| name == "$starts_with"@
    ||| name == "$ends_with"@
    ||| name == "$regex"@
    ||| name == "$is_empty"@
    ||| name == "$is_not_empty"@
    ||| name == "$between"@
    ||| name == "$is_today"@
    ||| name == "$is_tomorrow"@
    ||| name == "$is_yesterday"@
    ||| name == "$is_not_today"@
}

/// Law: no type supports anything but an operator of the language, and every
/// operator of the language is supported by some type.
pub proof fn law_there_are_no_other_operators(name: Seq<char>)
    ensures
        is_operator(name) <==> exists|field_type: FieldType| #[trigger]
            operator::operators(field_type).contains(name),
{
    law_each_operator_has_its_types(FieldType::String);
    law_each_operator_has_its_types(FieldType::Number);
    law_each_operator_has_its_types(FieldType::Date);
}

/// Law: a "not" operator is told by its name, and so is the operator behind it.
/// The four are `$neq` over `$eq`, `$not_contains` over `$contains`,
/// `$is_not_empty` over `$is_empty` and `$is_not_today` over `$is_today`.
pub proof fn law_not_operators_are_told_by_their_names(name: Seq<char>, positive: Seq<char>)
    ensures
        operator::negated(name) == Some(positive) <==> {
            ||| name == "$neq"@ && positive == "$eq"@
            ||| name == "$not_contains"@ && positive == "$contains"@
            ||| name == "$is_not_empty"@ && positive == "$is_empty"@
            ||| name == "$is_not_today"@ && positive == "$is_today"@
        },
{
    operator::lemma_operator_names();
}

/// Law: the operators without a value are exactly those whose names begin with
/// `$is_`.
pub proof fn law_operators_without_a_value_are_told_by_their_names(name: Seq<char>)
    ensures
        operator::valueless().contains(name) <==> is_operator(name) && name.len() > 4
            && name.take(4) == "$is_"@,
{
    reveal_strlit("$is_");
    reveal_strlit("$eq");
    reveal_strlit("$neq");
    reveal_strlit("$gt");
    reveal_strlit("$gte");
    reveal_strlit("$lt");
    reveal_strlit("$lte");
    reveal_strlit("$contains");
    reveal_strlit("$not_contains");
    reveal_strlit("$starts_with");
    reveal_strlit("$ends_with");
    reveal_strlit("$regex");
    reveal_strlit("$is_empty");
    reveal_strlit("$is_not_empty");
    reveal_strlit("$between");
    reveal_strlit("$is_today");
    reveal_strlit("$is_tomorrow");
    reveal_strlit("$is_yesterday");
    reveal_strlit("$is_not_today");
    if operator::valueless().contains(name) {
        assert(name.take(4) =~= "$is_"@);
    } else if is_operator(name) && name.len() > 4 {
        assert(name[1] != 'i');
        assert(name.take(4)[1] != "$is_"@[1]);
    }
}

/// Law: a value is taken as it is exactly when it is of the kind the type asks
/// for. Any other is rejected with a message that tells the type and shows the
/// value.
pub proof fn law_values_are_taken_by_their_kind(field_type: FieldType, value: JsonModel)
    ensures
        parse::fits(field_type, value) <==> of_kind(field_type, value),
        of_kind(field_type, value) ==> parse::scalar(field_type, value) == Ok::<_, ErrorModel>(
            value,
        ),
        !of_kind(field_type, value) ==> parse::scalar(field_type, value) == Err::<JsonModel, _>(
            ErrorModel::InvalidValue(
                "expected "@ + field_type.name() + ", got "@ + json::compact(value),
            ),
        ),
{
}

/// Law: how a value that does not fit is told, whatever text shows it.
pub proof fn law_a_misfit_tells_type_and_value(field_type: FieldType, shown: Seq<char>)
    ensures
        parse::misfit(field_type, shown) == ErrorModel::InvalidValue(
            "expected "@ + field_type.name() + ", got "@ + shown,
        ),
{
}

/// Law: a range is the two strings of a pair, in their order. Anything else is
/// rejected: a pair of other values for not being dates, the rest for not being
/// a pair.
pub proof fn law_ranges_are_pairs_of_strings(value: JsonModel, from: Seq<char>, to: Seq<char>)
    ensures
        parse::ends(value) == Ok::<_, ErrorModel>((from, to)) <==> {
            &&& value is Array
            &&& value->Array_0 == seq![JsonModel::String(from), JsonModel::String(to)]
        },
        value is Array && value->Array_0.len() == 2 && !(value->Array_0[0] is String
            && value->Array_0[1] is String) ==> parse::ends(value) == Err::<
            (Seq<char>, Seq<char>),
            _,
        >(ErrorModel::InvalidValue("$between expects two dates"@)),
        !(value is Array && value->Array_0.len() == 2) ==> parse::ends(value) == Err::<
            (Seq<char>, Seq<char>),
            _,
        >(ErrorModel::InvalidValue("$between expects a pair"@)),
{
    if parse::ends(value) == Ok::<_, ErrorModel>((from, to)) {
        assert(value->Array_0 =~= seq![JsonModel::String(from), JsonModel::String(to)]);
    }
}

/// Law: the types are named as the language names them.
pub proof fn law_types_are_named_as_in_the_language()
    ensures
        FieldType::String.name() == "string"@,
        FieldType::Number.name() == "number"@,
        FieldType::Date.name() == "date"@,
        FieldType::Boolean.name() == "boolean"@,
{
}

/// Law: every error is shown by its reason, followed by its detail where it has
/// one.
pub proof fn law_messages_tell_reason_and_detail(detail: Seq<char>)
    ensures
        ErrorModel::InvalidNode.message() == "invalid node"@,
        ErrorModel::EmptyGroup.message() == "empty group"@,
        ErrorModel::UnknownField(detail).message() == "unknown field: "@ + detail,
        ErrorModel::UnsupportedOperator(detail).message() == "unsupported operator: "@ + detail,
        ErrorModel::InvalidValue(detail).message() == "invalid value: "@ + detail,
        ErrorModel::TypeMismatch(detail).message() == "type mismatch: "@ + detail,
{
}

} // verus!

//! The operators of the filter language.

use vstd::prelude::*;

use crate::schema::FieldType;
use crate::text::same;

verus! {

/// The operators a field of the given type supports.
pub open spec fn operators(field_type: FieldType) -> Set<Seq<char>> {
    match field_type {
        FieldType::String => set![
            "$eq"@,
            "$neq"@,
            "$contains"@,
            "$not_contains"@,
            "$starts_with"@,
            "$ends_with"@,
            "$regex"@,
            "$is_empty"@,
            "$is_not_empty"@,
        ],
        FieldType::Number => set![
            "$eq"@,
            "$neq"@,
            "$gt"@,
            "$gte"@,
            "$lt"@,
            "$lte"@,
            "$is_empty"@,
            "$is_not_empty"@,
        ],
        FieldType::Date => set![
            "$eq"@,
            "$neq"@,
            "$gt"@,
            "$gte"@,
            "$lt"@,
            "$lte"@,
            "$between"@,
            "$is_today"@,
            "$is_tomorrow"@,
            "$is_yesterday"@,
            "$is_not_today"@,
        ],
        FieldType::Boolean => set!["$eq"@, "$neq"@],
    }
}

/// The operator that a "not" operator negates.
pub open spec fn negated(operator: Seq<char>) -> Option<Seq<char>> {
    if operator == "$neq"@ {
        Some("$eq"@)
    } else if operator == "$not_contains"@ {
        Some("$contains"@)
    } else if operator == "$is_not_empty"@ {
        Some("$is_empty"@)
    } else if operator == "$is_not_today"@ {
        Some("$is_today"@)
    } else {
        None
    }
}

/// The operators that take no value.
pub open spec fn valueless() -> Set<Seq<char>> {
    set![
        "$is_empty"@,
        "$is_not_empty"@,
        "$is_today"@,
        "$is_tomorrow"@,
        "$is_yesterday"@,
        "$is_not_today"@,
    ]
}

/// Whether a field of the given type supports the operator.
pub fn supports(field_type: FieldType, operator: &str) -> (res: bool)
    ensures
        res == operators(field_type).contains(operator@),
{
    match field_type {
        FieldType::String => {
            same(operator, "$eq")
                || same(operator, "$neq")
                || same(operator, "$contains")
                || same(operator, "$not_contains")
                || same(operator, "$starts_with")
                || same(operator, "$ends_with")
                || same(operator, "$regex")
                || same(operator, "$is_empty")
                || same(operator, "$is_not_empty")
        },
        FieldType::Number => {
            same(operator, "$eq")
                || same(operator, "$neq")
                || same(operator, "$gt")
                || same(operator, "$gte")
                || same(operator, "$lt")
                || same(operator, "$lte")
                || same(operator, "$is_empty")
                || same(operator, "$is_not_empty")
        },
        FieldType::Date => {
            same(operator, "$eq")
                || same(operator, "$neq")
                || same(operator, "$gt")
                || same(operator, "$gte")
                || same(operator, "$lt")
                || same(operator, "$lte")
                || same(operator, "$between")
                || same(operator, "$is_today")
                || same(operator, "$is_tomorrow")
                || same(operator, "$is_yesterday")
                || same(operator, "$is_not_today")
        },
        FieldType::Boolean => {
            same(operator, "$eq")
                || same(operator, "$neq")
        },
    }
}

/// Maps every "not" operator onto the positive one it wraps, so the tree carries
/// a single `Not` instead of a second family of predicates.
pub fn positive_of(operator: &str) -> (res: Option<&'static str>)
    ensures
        match res {
            Some(positive) => negated(operator@) == Some(positive@),
            None => negated(operator@) is None,
        },
{
    if same(operator, "$neq") {
        Some("$eq")
    } else if same(operator, "$not_contains") {
        Some("$contains")
    } else if same(operator, "$is_not_empty") {
        Some("$is_empty")
    } else if same(operator, "$is_not_today") {
        Some("$is_today")
    } else {
        None
    }
}

/// Whether the operator takes no value.
pub fn is_valueless(operator: &str) -> (res: bool)
    ensures
        res == valueless().contains(operator@),
{
    same(operator, "$is_empty")
        || same(operator, "$is_not_empty")
        || same(operator, "$is_today")
        || same(operator, "$is_tomorrow")
        || same(operator, "$is_yesterday")
        || same(operator, "$is_not_today")
}

/// What tells the names of the operators apart: their lengths and a few of
/// their characters.
pub(crate) proof fn lemma_operator_names()
    ensures
        "$eq"@.len() == 3,
        "$eq"@[1] == 'e',
        "$neq"@.len() == 4,
        "$neq"@[1] == 'n',
        "$gt"@.len() == 3,
        "$gt"@[1] == 'g',
        "$gte"@.len() == 4,
        "$gte"@[1] == 'g',
        "$lt"@.len() == 3,
        "$lt"@[1] == 'l',
        "$lte"@.len() == 4,
        "$lte"@[1] == 'l',
        "$contains"@.len() == 9,
        "$contains"@[1] == 'c',
        "$contains"@[4] == 't',
        "$not_contains"@.len() == 13,
        "$not_contains"@[1] == 'n',
        "$not_contains"@[4] == '_',
        "$not_contains"@[8] == 't',
        "$starts_with"@.len() == 12,
        "$starts_with"@[1] == 's',
        "$ends_with"@.len() == 10,
        "$ends_with"@[1] == 'e',
        "$regex"@.len() == 6,
        "$regex"@[1] == 'r',
        "$is_empty"@.len() == 9,
        "$is_empty"@[1] == 'i',
        "$is_empty"@[4] == 'e',
        "$is_not_empty"@.len() == 13,
        "$is_not_empty"@[1] == 'i',
        "$is_not_empty"@[4] == 'n',
        "$is_not_empty"@[8] == 'e',
        "$between"@.len() == 8,
        "$between"@[1] == 'b',
        "$is_today"@.len() == 9,
        "$is_today"@[1] == 'i',
        "$is_today"@[4] == 't',
        "$is_tomorrow"@.len() == 12,
        "$is_tomorrow"@[1] == 'i',
        "$is_yesterday"@.len() == 13,
        "$is_yesterday"@[1] == 'i',
        "$is_yesterday"@[4] == 'y',
        "$is_yesterday"@[8] == 'e',
        "$is_not_today"@.len() == 13,
        "$is_not_today"@[1] == 'i',
        "$is_not_today"@[4] == 'n',
        "$is_not_today"@[8] == 't',
{
    reveal_strlit("$eq");
    reveal_strlit("$neq");
    reveal_strlit("$gt");
    reveal_strlit("$gte");
    reveal_strlit("$lt");
    reveal_strlit("$lte");
    reveal_strlit("$contains");
    reveal_strlit("$not_contains");
    reveal_strlit("$starts_with");
    reveal_strlit("$ends_with");
    reveal_strlit("$regex");
    reveal_strlit("$is_empty");
    reveal_strlit("$is_not_empty");
    reveal_strlit("$between");
    reveal_strlit("$is_today");
    reveal_strlit("$is_tomorrow");
    reveal_strlit("$is_yesterday");
    reveal_strlit("$is_not_today");
}

/// Law: behind every "not" operator stands an operator that exactly the same
/// field types support and that is itself no "not" operator, so negation is
/// never stacked inside the operators.
pub proof fn law_negation_wraps_a_positive_operator(field_type: FieldType, operator: Seq<char>)
    requires
        negated(operator) is Some,
    ensures
        operators(field_type).contains(operator) <==> operators(field_type).contains(
            negated(operator)->0,
        ),
        negated(negated(operator)->0) is None,
{
    lemma_operator_names();
}

/// Law: a "not" operator takes a value exactly when the operator behind it does.
pub proof fn law_negation_keeps_the_need_for_a_value(operator: Seq<char>)
    requires
        negated(operator) is Some,
    ensures
        valueless().contains(operator) <==> valueless().contains(negated(operator)->0),
{
    lemma_operator_names();
}

} // verus!

//! The SQL text and the arguments, operator by operator and shape by shape.

use filterspec::{
    escape_like, identifier, render, Column, Conjunction, Error, FieldType, Json, Node, Query,
    Root, Schema, ScopeFilter,
};

fn schema() -> Schema {
    let mut schema = Schema::new();
    for (field, column, field_type, relation) in [
        ("name", "name", FieldType::String, None),
        ("serviceId", "service_id", FieldType::Number, None),
        ("createdAt", "created_at", FieldType::Date, Some("task")),
        ("active", "active", FieldType::Boolean, None),
        ("odd", "a\"b", FieldType::String, Some("r\"s")),
        ("priced", "pr$ice", FieldType::Number, None),
    ] {
        schema.insert(
            field.to_string(),
            Column {
                column: column.to_string(),
                field_type,
                relation: relation.map(str::to_string),
            },
        );
    }
    schema
}

fn text(value: &str) -> Json {
    Json::String(value.to_string())
}

fn number(value: i64) -> Json {
    Json::Number(serde_json::Number::from(value))
}

fn leaf(field_type: FieldType, field: &str, operator: &str, value: Json) -> Node {
    Node::Leaf {
        field_type,
        field: field.to_string(),
        relation: None,
        operator: operator.to_string(),
        value,
    }
}

fn name_is(value: &str) -> Node {
    leaf(FieldType::String, "name", "$eq", text(value))
}

fn group(conjunction: Conjunction, children: Vec<Node>) -> Node {
    Node::Group {
        conjunction,
        children,
    }
}

fn filter(node: Node) -> Query {
    Query {
        scope: Vec::new(),
        filter: Some(node),
    }
}

fn scoped(value: i64) -> ScopeFilter {
    ScopeFilter {
        field: "serviceId".to_string(),
        value: number(value),
    }
}

fn assert_renders(query: Query, sql: &str, args: Vec<Json>) {
    assert_eq!(render(&query, &schema()), Ok((sql.to_string(), args)));
}

fn assert_rejected(query: Query, error: Error) {
    assert_eq!(render(&query, &schema()), Err(error));
}

#[test]
fn empty_query_is_true() {
    assert_renders(Query::default(), "TRUE", Vec::new());
}

#[test]
fn comparisons_of_numbers() {
    for (operator, sql) in [
        ("$eq", "\"service_id\" = $1"),
        ("$gt", "\"service_id\" > $1"),
        ("$gte", "\"service_id\" >= $1"),
        ("$lt", "\"service_id\" < $1"),
        ("$lte", "\"service_id\" <= $1"),
        ("$neq", "NOT (\"service_id\" = $1)"),
    ] {
        assert_renders(
            filter(leaf(FieldType::Number, "serviceId", operator, number(42))),
            sql,
            vec![number(42)],
        );
    }
}

#[test]
fn searches_of_texts() {
    for (operator, sql, pattern) in [
        ("$contains", "\"name\" ILIKE $1", "%50\\%\\_\\\\%"),
        ("$starts_with", "\"name\" ILIKE $1", "50\\%\\_\\\\%"),
        ("$ends_with", "\"name\" ILIKE $1", "%50\\%\\_\\\\"),
        ("$not_contains", "NOT (\"name\" ILIKE $1)", "%50\\%\\_\\\\%"),
        ("$regex", "\"name\" ~ $1", "50%_\\"),
    ] {
        assert_renders(
            filter(leaf(FieldType::String, "name", operator, text("50%_\\"))),
            sql,
            vec![text(pattern)],
        );
    }
}

#[test]
fn tests_without_a_value() {
    for (field_type, field, operator, sql) in [
        (FieldType::String, "name", "$is_empty", "(\"name\" IS NULL OR \"name\" = '')"),
        (
            FieldType::String,
            "name",
            "$is_not_empty",
            "NOT ((\"name\" IS NULL OR \"name\" = ''))",
        ),
        (FieldType::Number, "serviceId", "$is_empty", "\"service_id\" IS NULL"),
        (
            FieldType::Date,
            "createdAt",
            "$is_today",
            "\"task\".\"created_at\"::date = CURRENT_DATE",
        ),
        (
            FieldType::Date,
            "createdAt",
            "$is_tomorrow",
            "\"task\".\"created_at\"::date = CURRENT_DATE + 1",
        ),
        (
            FieldType::Date,
            "createdAt",
            "$is_yesterday",
            "\"task\".\"created_at\"::date = CURRENT_DATE - 1",
        ),
        (
            FieldType::Date,
            "createdAt",
            "$is_not_today",
            "NOT (\"task\".\"created_at\"::date = CURRENT_DATE)",
        ),
    ] {
        assert_renders(filter(leaf(field_type, field, operator, Json::Null)), sql, Vec::new());
    }
}

#[test]
fn between_takes_two_arguments() {
    assert_renders(
        filter(leaf(
            FieldType::Date,
            "createdAt",
            "$between",
            Json::Array(vec![text("2026-01-01"), text("2026-02-01")]),
        )),
        "\"task\".\"created_at\" BETWEEN $1 AND $2",
        vec![text("2026-01-01"), text("2026-02-01")],
    );
}

#[test]
fn booleans_are_arguments() {
    assert_renders(
        filter(leaf(FieldType::Boolean, "active", "$eq", Json::Bool(true))),
        "\"active\" = $1",
        vec![Json::Bool(true)],
    );
}

#[test]
fn groups_nest() {
    assert_renders(
        filter(group(
            Conjunction::Or,
            vec![
                name_is("a"),
                group(Conjunction::And, vec![name_is("b"), name_is("c")]),
                group(Conjunction::Not, vec![name_is("d"), name_is("e")]),
            ],
        )),
        "(\"name\" = $1 OR (\"name\" = $2 AND \"name\" = $3) OR NOT ((\"name\" = $4 AND \"name\" = $5)))",
        vec![text("a"), text("b"), text("c"), text("d"), text("e")],
    );
}

#[test]
fn group_of_one_has_no_parentheses_of_its_own() {
    assert_renders(
        filter(group(Conjunction::And, vec![group(Conjunction::Or, vec![name_is("a")])])),
        "\"name\" = $1",
        vec![text("a")],
    );
    assert_renders(
        filter(group(Conjunction::Not, vec![name_is("a")])),
        "NOT (\"name\" = $1)",
        vec![text("a")],
    );
}

#[test]
fn placeholders_go_beyond_one_digit() {
    let values: Vec<String> = (1..=12).map(|i| format!("v{i}")).collect();
    let sql: Vec<String> = (1..=12).map(|i| format!("\"name\" = ${i}")).collect();
    assert_renders(
        filter(group(
            Conjunction::Or,
            values.iter().map(|value| name_is(value)).collect(),
        )),
        &format!("({})", sql.join(" OR ")),
        values.iter().map(|value| text(value)).collect(),
    );
}

#[test]
fn scope_is_conjoined_with_the_filter() {
    assert_renders(
        Query {
            scope: vec![scoped(7)],
            filter: Some(group(Conjunction::Or, vec![name_is("a"), name_is("b")])),
        },
        "(\"service_id\" = $1 AND (\"name\" = $2 OR \"name\" = $3))",
        vec![number(7), text("a"), text("b")],
    );
    assert_renders(
        Query {
            scope: vec![scoped(7), scoped(8)],
            filter: Some(name_is("a")),
        },
        "(\"service_id\" = $1 AND \"service_id\" = $2 AND \"name\" = $3)",
        vec![number(7), number(8), text("a")],
    );
}

#[test]
fn scope_stands_alone() {
    assert_renders(
        Query {
            scope: vec![scoped(7)],
            filter: None,
        },
        "\"service_id\" = $1",
        vec![number(7)],
    );
    assert_renders(
        Query {
            scope: vec![scoped(7), scoped(8)],
            filter: None,
        },
        "(\"service_id\" = $1 AND \"service_id\" = $2)",
        vec![number(7), number(8)],
    );
}

#[test]
fn list_is_an_implicit_and() {
    assert_renders(
        filter(Node::from(Root::List(vec![name_is("a"), name_is("b")]))),
        "(\"name\" = $1 AND \"name\" = $2)",
        vec![text("a"), text("b")],
    );
    assert_renders(
        filter(Node::from(Root::One(name_is("a")))),
        "\"name\" = $1",
        vec![text("a")],
    );
    assert_rejected(filter(Node::from(Root::List(Vec::new()))), Error::EmptyGroup);
}

#[test]
fn names_with_quotes_stay_names() {
    assert_eq!(identifier("a\"b"), "\"a\"\"b\"");
    assert_eq!(identifier(""), "\"\"");
    assert_renders(
        filter(leaf(FieldType::String, "odd", "$eq", text("x"))),
        "\"r\"\"s\".\"a\"\"b\" = $1",
        vec![text("x")],
    );
}

#[test]
fn dollar_signs_in_names_are_not_placeholders() {
    assert_renders(
        filter(leaf(FieldType::Number, "priced", "$eq", number(3))),
        "\"pr$ice\" = $1",
        vec![number(3)],
    );
}

#[test]
fn like_wildcards_are_escaped() {
    assert_eq!(escape_like("a\\b%c_d"), "a\\\\b\\%c\\_d");
    assert_eq!(escape_like("plain"), "plain");
    assert_eq!(escape_like("\u{43f}%"), "\u{43f}\\%");
}

#[test]
fn numbers_and_objects_are_carried_through() {
    let price = Json::from_value(serde_json::Value::from(1.5));
    assert_renders(
        filter(leaf(FieldType::Number, "serviceId", "$eq", price.clone())),
        "\"service_id\" = $1",
        vec![price],
    );
}

#[test]
fn values_and_field_names_do_not_change_the_text() {
    let mut schema = schema();
    schema.insert(
        "title".to_string(),
        Column {
            column: "name".to_string(),
            field_type: FieldType::String,
            relation: None,
        },
    );
    let first = render(&filter(name_is("a")), &schema).unwrap();
    let second = render(
        &filter(leaf(FieldType::String, "title", "$eq", text("' OR 1=1 --"))),
        &schema,
    )
    .unwrap();
    assert_eq!(first.0, second.0);
    assert_eq!(second.1, vec![text("' OR 1=1 --")]);
}

#[test]
fn scope_of_an_unknown_field_is_rejected() {
    assert_rejected(
        Query {
            scope: vec![ScopeFilter {
                field: "tenant".to_string(),
                value: number(1),
            }],
            filter: Some(group(Conjunction::And, Vec::new())),
        },
        Error::UnknownField("tenant".to_string()),
    );
}

#[test]
fn scope_of_a_wrong_type_is_rejected() {
    assert_rejected(
        Query {
            scope: vec![ScopeFilter {
                field: "serviceId".to_string(),
                value: text("7"),
            }],
            filter: None,
        },
        Error::InvalidValue("expected number, got \"7\"".to_string()),
    );
}

#[test]
fn queries_can_be_copied() {
    let query = Query {
        scope: vec![scoped(7)],
        filter: Some(group(Conjunction::Or, vec![name_is("a"), name_is("b")])),
    };
    assert_eq!(render(&query.clone(), &schema()), render(&query, &schema()));
}

#[test]
fn a_list_of_one_renders_as_its_element() {
    for scope in [Vec::new(), vec![scoped(7)], vec![scoped(7), scoped(8)]] {
        for element in [
            name_is("a"),
            group(Conjunction::Or, vec![name_is("a"), name_is("b")]),
            group(Conjunction::Not, vec![name_is("a"), name_is("b")]),
            group(Conjunction::And, Vec::new()),
            leaf(FieldType::String, "missing", "$eq", text("a")),
        ] {
            let plain = Query {
                scope: scope.clone(),
                filter: Some(element.clone()),
            };
            let list = Query {
                scope: scope.clone(),
                filter: Some(Node::from(Root::List(vec![element.clone()]))),
            };
            let either = Query {
                scope: scope.clone(),
                filter: Some(group(Conjunction::Or, vec![element])),
            };
            let expected = render(&plain, &schema());
            assert_eq!(render(&list, &schema()), expected);
            assert_eq!(render(&either, &schema()), expected);
        }
    }
}

#[test]
fn arguments_of_the_filter_follow_those_of_the_scope() {
    let client = || {
        let pair = Json::Array(vec![text("2024-01-01"), text("2024-02-01")]);
        group(
            Conjunction::Or,
            vec![
                leaf(FieldType::Date, "createdAt", "$between", pair),
                leaf(FieldType::String, "name", "$is_empty", Json::Null),
                name_is("a"),
            ],
        )
    };
    let alone = render(&filter(client()), &schema()).unwrap();
    assert_eq!(
        alone.0,
        "(\"task\".\"created_at\" BETWEEN $1 AND $2 OR (\"name\" IS NULL OR \"name\" = '') \
         OR \"name\" = $3)"
    );
    assert_eq!(
        alone.1,
        vec![text("2024-01-01"), text("2024-02-01"), text("a")]
    );
    let query = Query {
        scope: vec![scoped(7), scoped(8)],
        filter: Some(client()),
    };
    let both = render(&query, &schema()).unwrap();
    assert_eq!(both.1[..2], [number(7), number(8)]);
    assert_eq!(both.1[2..], alone.1[..]);
}

#[test]
fn fields_that_a_query_does_not_name_have_no_influence() {
    let mut small = Schema::new();
    for (field, column, field_type) in [
        ("name", "name", FieldType::String),
        ("serviceId", "service_id", FieldType::Number),
    ] {
        small.insert(
            field.to_string(),
            Column {
                column: column.to_string(),
                field_type,
                relation: None,
            },
        );
    }
    for node in [
        name_is("a"),
        leaf(FieldType::String, "missing", "$eq", text("a")),
        leaf(FieldType::Number, "name", "$eq", number(1)),
    ] {
        let query = Query {
            scope: vec![scoped(7)],
            filter: Some(node),
        };
        assert_eq!(render(&query, &small), render(&query, &schema()));
    }
}

#[test]
fn renaming_a_field_in_schema_and_query_keeps_the_result() {
    let mut renamed = Schema::new();
    renamed.insert(
        "title".to_string(),
        Column {
            column: "name".to_string(),
            field_type: FieldType::String,
            relation: None,
        },
    );
    renamed.insert(
        "service".to_string(),
        Column {
            column: "service_id".to_string(),
            field_type: FieldType::Number,
            relation: None,
        },
    );
    let query = Query {
        scope: vec![scoped(7)],
        filter: Some(name_is("a")),
    };
    let other = Query {
        scope: vec![ScopeFilter {
            field: "service".to_string(),
            value: number(7),
        }],
        filter: Some(leaf(FieldType::String, "title", "$eq", text("a"))),
    };
    assert_eq!(render(&other, &renamed), render(&query, &schema()));
    assert_eq!(
        render(
            &filter(leaf(FieldType::Number, "title", "$eq", number(1))),
            &renamed
        ),
        Err(Error::TypeMismatch(
            "field title is string, filter says number".to_string()
        ))
    );
}

//! What writing a tree behind arguments that are already there adds to them, also
//! where it fails.

use filterspec::render::{write_group, write_pred, write_spec};
use filterspec::{Error, FieldType, Json, Pred, Spec};

fn text(value: &str) -> Json {
    Json::String(value.to_string())
}

fn pred(operator: &str, value: Option<Json>, range: Option<(&str, &str)>) -> Pred {
    Pred {
        column: "name".to_string(),
        relation: None,
        field_type: FieldType::String,
        operator: operator.to_string(),
        value,
        range: range.map(|(from, to)| (from.to_string(), to.to_string())),
    }
}

fn is(value: &str) -> Spec {
    Spec::Pred(pred("$eq", Some(text(value)), None))
}

fn failing() -> Spec {
    Spec::Pred(pred("$neq", Some(text("x")), None))
}

fn nine() -> Vec<Json> {
    (0..9).map(|i| Json::Bool(i % 2 == 0)).collect()
}

#[test]
fn placeholders_run_on_from_the_arguments_in_front() {
    let mut args = nine();
    let sql = write_spec(&Spec::Or(vec![is("a"), is("b")]), &mut args);
    assert_eq!(sql, Ok("(\"name\" = $10 OR \"name\" = $11)".to_string()));
    assert_eq!(args[..9], nine()[..]);
    assert_eq!(args[9..], [text("a"), text("b")]);
}

#[test]
fn a_failed_predicate_adds_nothing() {
    for (pred, error) in [
        (
            pred("$neq", Some(text("x")), None),
            Error::UnsupportedOperator("$neq".to_string()),
        ),
        (
            pred("$eq", None, None),
            Error::InvalidValue("operator needs a value".to_string()),
        ),
        (
            pred("$contains", Some(Json::Null), None),
            Error::InvalidValue("expected string".to_string()),
        ),
        (
            pred("$between", Some(text("x")), None),
            Error::InvalidValue("$between expects a pair".to_string()),
        ),
    ] {
        let mut args = nine();
        assert_eq!(write_pred(&pred, &mut args), Err(error));
        assert_eq!(args, nine());
    }
}

#[test]
fn only_the_number_of_arguments_in_front_matters() {
    let between = pred("$between", None, Some(("a", "b")));
    let mut first = nine();
    let mut second: Vec<Json> = (0..9).map(|_| text("other")).collect();
    let sql = write_pred(&between, &mut first);
    assert_eq!(sql, Ok("\"name\" BETWEEN $10 AND $11".to_string()));
    assert_eq!(write_pred(&between, &mut second), sql);
    assert_eq!(first[9..], [text("a"), text("b")]);
    assert_eq!(second[9..], first[9..]);
}

#[test]
fn an_empty_group_adds_nothing() {
    let mut args = nine();
    assert_eq!(
        write_group(&Vec::new(), " AND ", &mut args),
        Err(Error::EmptyGroup)
    );
    assert_eq!(args, nine());
}

#[test]
fn a_group_of_one_is_its_child() {
    for child in [
        || is("a"),
        || Spec::Not(Box::new(is("a"))),
        || Spec::And(vec![is("a"), failing()]),
    ] {
        let mut alone = nine();
        let mut grouped = nine();
        let sql = write_spec(&child(), &mut alone);
        assert_eq!(write_group(&vec![child()], " OR ", &mut grouped), sql);
        assert_eq!(grouped, alone);
    }
}

#[test]
fn a_group_stops_at_its_first_failing_child() {
    let inner = Spec::Or(vec![is("b"), failing(), is("c")]);
    let mut args = nine();
    assert_eq!(
        write_group(&vec![is("a"), inner, is("d")], " AND ", &mut args),
        Err(Error::UnsupportedOperator("$neq".to_string()))
    );
    assert_eq!(args[..9], nine()[..]);
    assert_eq!(args[9..], [text("a"), text("b")]);
}

#[test]
fn a_group_of_several_is_its_children_in_turn() {
    let mut args = Vec::new();
    let children = vec![is("a"), Spec::Not(Box::new(is("b"))), is("c")];
    assert_eq!(
        write_group(&children, " OR ", &mut args),
        Ok("(\"name\" = $1 OR NOT (\"name\" = $2) OR \"name\" = $3)".to_string())
    );
    assert_eq!(args, vec![text("a"), text("b"), text("c")]);
}

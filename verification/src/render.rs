//! Renders a query into a Postgres predicate and its arguments.

use vstd::prelude::*;
use vstd::string::*;

use crate::error::{Error, ErrorModel};
use crate::json::{Json, JsonModel};
use crate::laws::success;
use crate::parse;
use crate::parse::scalar_value;
use crate::query::{Query, QueryModel, ScopeFilter, ScopeModel};
use crate::quoting;
use crate::quoting::{escape_like, identifier};
use crate::schema::{copy_name, ColumnModel, FieldType, Schema};
use crate::text;
use crate::text::{join, same, to_decimal};
use crate::tree;
use crate::tree::{Pred, PredModel, Spec, SpecModel};

verus! {

/// The placeholder of the `n`-th argument.
pub open spec fn placeholder(n: nat) -> Seq<char> {
    seq!['$'] + text::decimal(n)
}

/// The column of a predicate, as it stands in the SQL text.
pub open spec fn column_name(pred: PredModel) -> Seq<char> {
    match pred.relation {
        Some(relation) => quoting::quoted(relation) + "."@ + quoting::quoted(pred.column),
        None => quoting::quoted(pred.column),
    }
}

/// The SQL operator of a plain comparison.
pub open spec fn comparison(op: Seq<char>) -> Option<Seq<char>> {
    if op == "$eq"@ {
        Some(" = "@)
    } else if op == "$gt"@ {
        Some(" > "@)
    } else if op == "$gte"@ {
        Some(" >= "@)
    } else if op == "$lt"@ {
        Some(" < "@)
    } else if op == "$lte"@ {
        Some(" <= "@)
    } else if op == "$regex"@ {
        Some(" ~ "@)
    } else {
        None
    }
}

/// The pattern of a text search, with the searched text taken literally.
pub open spec fn search_pattern(op: Seq<char>, searched: Seq<char>) -> Option<Seq<char>> {
    if op == "$contains"@ {
        Some("%"@ + quoting::escaped(searched) + "%"@)
    } else if op == "$starts_with"@ {
        Some(quoting::escaped(searched) + "%"@)
    } else if op == "$ends_with"@ {
        Some("%"@ + quoting::escaped(searched))
    } else {
        None
    }
}

/// The test on the date of a column.
pub open spec fn date_test(op: Seq<char>) -> Option<Seq<char>> {
    if op == "$is_today"@ {
        Some("::date = CURRENT_DATE"@)
    } else if op == "$is_tomorrow"@ {
        Some("::date = CURRENT_DATE + 1"@)
    } else if op == "$is_yesterday"@ {
        Some("::date = CURRENT_DATE - 1"@)
    } else {
        None
    }
}

/// The SQL text of a predicate and the arguments it adds, when `before`
/// arguments stand in front of them.
pub open spec fn written_pred(pred: PredModel, before: nat) -> Result<
    (Seq<char>, Seq<JsonModel>),
    ErrorModel,
> {
    let column = column_name(pred);
    let op = pred.operator;
    if comparison(op) is Some {
        match pred.value {
            Some(value) => Ok(
                (column + comparison(op)->0 + placeholder(before + 1), seq![value]),
            ),
            None => Err(ErrorModel::InvalidValue("operator needs a value"@)),
        }
    } else if search_pattern(op, Seq::empty()) is Some {
        match pred.value {
            Some(JsonModel::String(searched)) => Ok(
                (
                    column + " ILIKE "@ + placeholder(before + 1),
                    seq![JsonModel::String(search_pattern(op, searched)->0)],
                ),
            ),
            _ => Err(ErrorModel::InvalidValue("expected string"@)),
        }
    } else if op == "$is_empty"@ {
        if pred.field_type == FieldType::String {
            Ok(("("@ + column + " IS NULL OR "@ + column + " = '')"@, Seq::empty()))
        } else {
            Ok((column + " IS NULL"@, Seq::empty()))
        }
    } else if op == "$between"@ {
        match pred.range {
            Some((from, to)) => Ok(
                (
                    column + " BETWEEN "@ + placeholder(before + 1) + " AND "@ + placeholder(
                        before + 2,
                    ),
                    seq![JsonModel::String(from), JsonModel::String(to)],
                ),
            ),
            None => Err(ErrorModel::InvalidValue("$between expects a pair"@)),
        }
    } else {
        match date_test(op) {
            Some(test) => Ok((column + test, Seq::empty())),
            None => Err(ErrorModel::UnsupportedOperator(op)),
        }
    }
}

/// The SQL text of a group: its only part, or all parts in parentheses.
pub open spec fn grouped(parts: Seq<Seq<char>>, separator: Seq<char>) -> Seq<char> {
    if parts.len() == 1 {
        parts[0]
    } else {
        "("@ + text::joined(parts, separator) + ")"@
    }
}

/// The SQL text of a tree and the arguments it adds, when `before` arguments
/// stand in front of them, or the first error from left to right.
pub open spec fn written(spec: SpecModel, before: nat) -> Result<
    (Seq<char>, Seq<JsonModel>),
    ErrorModel,
>
    decreases spec, 0nat,
{
    match spec {
        SpecModel::And(children) => if children.len() == 0 {
            Err(ErrorModel::EmptyGroup)
        } else {
            match written_all(children, children.len(), before) {
                Ok((parts, args)) => Ok((grouped(parts, " AND "@), args)),
                Err(error) => Err(error),
            }
        },
        SpecModel::Or(children) => if children.len() == 0 {
            Err(ErrorModel::EmptyGroup)
        } else {
            match written_all(children, children.len(), before) {
                Ok((parts, args)) => Ok((grouped(parts, " OR "@), args)),
                Err(error) => Err(error),
            }
        },
        SpecModel::Not(child) => match written(*child, before) {
            Ok((sql, args)) => Ok(("NOT ("@ + sql + ")"@, args)),
            Err(error) => Err(error),
        },
        SpecModel::Pred(pred) => written_pred(pred, before),
    }
}

/// The SQL texts of the first `n` trees of a list and the arguments they add.
pub open spec fn written_all(specs: Seq<SpecModel>, n: nat, before: nat) -> Result<
    (Seq<Seq<char>>, Seq<JsonModel>),
    ErrorModel,
>
    decreases specs, n,
{
    if n == 0 || n > specs.len() {
        Ok((Seq::empty(), Seq::empty()))
    } else {
        match written_all(specs, (n - 1) as nat, before) {
            Err(error) => Err(error),
            Ok((parts, args)) => match written(specs[n - 1], before + args.len()) {
                Err(error) => Err(error),
                Ok((sql, more)) => Ok((parts.push(sql), args + more)),
            },
        }
    }
}

/// The SQL text of a group with the given separator and the arguments it adds.
/// A group needs at least one child.
pub open spec fn written_group(
    children: Seq<SpecModel>,
    separator: Seq<char>,
    before: nat,
) -> Result<(Seq<char>, Seq<JsonModel>), ErrorModel> {
    if children.len() == 0 {
        Err(ErrorModel::EmptyGroup)
    } else {
        match written_all(children, children.len(), before) {
            Ok((parts, args)) => Ok((grouped(parts, separator), args)),
            Err(error) => Err(error),
        }
    }
}

/// The arguments that writing a tree adds, whether or not it succeeds: a
/// predicate that fails adds none, and nothing is added behind the first tree
/// that fails.
pub open spec fn bound(spec: SpecModel, before: nat) -> Seq<JsonModel>
    decreases spec, 0nat,
{
    match spec {
        SpecModel::And(children) => bound_all(children, children.len(), before),
        SpecModel::Or(children) => bound_all(children, children.len(), before),
        SpecModel::Not(child) => bound(*child, before),
        SpecModel::Pred(pred) => match written_pred(pred, before) {
            Ok((_, args)) => args,
            Err(_) => Seq::empty(),
        },
    }
}

/// The arguments that writing the first `n` trees of a list adds.
pub open spec fn bound_all(specs: Seq<SpecModel>, n: nat, before: nat) -> Seq<JsonModel>
    decreases specs, n,
{
    if n == 0 || n > specs.len() {
        Seq::empty()
    } else {
        let args = bound_all(specs, (n - 1) as nat, before);
        if written_all(specs, (n - 1) as nat, before) is Err {
            args
        } else {
            args + bound(specs[n - 1], before + args.len())
        }
    }
}

/// The predicate a condition of the scope stands for.
pub open spec fn scope_pred(
    condition: ScopeModel,
    schema: Map<Seq<char>, ColumnModel>,
) -> Result<PredModel, ErrorModel> {
    if !schema.contains_key(condition.field) {
        Err(ErrorModel::UnknownField(condition.field))
    } else {
        let column = schema[condition.field];
        match parse::scalar(column.field_type, condition.value) {
            Err(error) => Err(error),
            Ok(value) => Ok(
                PredModel {
                    column: column.column,
                    relation: column.relation,
                    field_type: column.field_type,
                    operator: "$eq"@,
                    value: Some(value),
                    range: None,
                },
            ),
        }
    }
}

/// The trees of the first `n` conditions of the scope.
pub open spec fn scope_parts(
    scope: Seq<ScopeModel>,
    n: nat,
    schema: Map<Seq<char>, ColumnModel>,
) -> Result<Seq<SpecModel>, ErrorModel>
    decreases n,
{
    if n == 0 || n > scope.len() {
        Ok(Seq::empty())
    } else {
        match scope_parts(scope, (n - 1) as nat, schema) {
            Err(error) => Err(error),
            Ok(parts) => match scope_pred(scope[n - 1], schema) {
                Err(error) => Err(error),
                Ok(pred) => Ok(parts.push(SpecModel::Pred(pred))),
            },
        }
    }
}

/// The trees a query is the conjunction of: first the scope, then the filter.
pub open spec fn query_parts(query: QueryModel, schema: Map<Seq<char>, ColumnModel>) -> Result<
    Seq<SpecModel>,
    ErrorModel,
> {
    match scope_parts(query.scope, query.scope.len(), schema) {
        Err(error) => Err(error),
        Ok(parts) => match query.filter {
            None => Ok(parts),
            Some(node) => match parse::parsed(node, schema) {
                Err(error) => Err(error),
                Ok(spec) => Ok(parts.push(spec)),
            },
        },
    }
}

/// The tree of a query: its only part, or the conjunction of all parts.
pub open spec fn combined(parts: Seq<SpecModel>) -> SpecModel {
    if parts.len() == 1 {
        parts[0]
    } else {
        SpecModel::And(parts)
    }
}

/// The SQL text and the arguments of a query.
pub open spec fn rendered(query: QueryModel, schema: Map<Seq<char>, ColumnModel>) -> Result<
    (Seq<char>, Seq<JsonModel>),
    ErrorModel,
> {
    match query_parts(query, schema) {
        Err(error) => Err(error),
        Ok(parts) => if parts.len() == 0 {
            Ok(("TRUE"@, Seq::empty()))
        } else {
            written(combined(parts), 0)
        },
    }
}

/// What each argument of a list is.
pub open spec fn arguments(args: Seq<Json>) -> Seq<JsonModel> {
    args.map_values(|arg: Json| arg@)
}

/// What rendering came to.
pub open spec fn outcome(res: Result<(String, Vec<Json>), Error>) -> Result<
    (Seq<char>, Seq<JsonModel>),
    ErrorModel,
> {
    match res {
        Ok((sql, args)) => Ok((sql@, arguments(args@))),
        Err(error) => Err(error@),
    }
}

/// Whether writing came to `expected`: the text is the expected one and the
/// expected arguments follow those that were there, or the error is the
/// expected one.
pub open spec fn wrote(
    res: Result<String, Error>,
    before: Seq<Json>,
    after: Seq<Json>,
    expected: Result<(Seq<char>, Seq<JsonModel>), ErrorModel>,
) -> bool {
    match res {
        Ok(sql) => match expected {
            Ok((text, args)) => sql@ == text && arguments(after) == arguments(before) + args,
            Err(_) => false,
        },
        Err(error) => expected == Err::<(Seq<char>, Seq<JsonModel>), _>(error@),
    }
}

/// A tree that is written adds exactly its arguments.
pub(crate) proof fn lemma_bound(spec: SpecModel, before: nat)
    requires
        written(spec, before) is Ok,
    ensures
        bound(spec, before) == written(spec, before)->Ok_0.1,
    decreases spec, 0nat,
{
    match spec {
        SpecModel::And(children) => {
            lemma_bound_all(children, children.len(), before);
        },
        SpecModel::Or(children) => {
            lemma_bound_all(children, children.len(), before);
        },
        SpecModel::Not(child) => {
            lemma_bound(*child, before);
        },
        SpecModel::Pred(pred) => {},
    }
}

/// Trees that are written add exactly their arguments.
pub(crate) proof fn lemma_bound_all(specs: Seq<SpecModel>, n: nat, before: nat)
    requires
        n <= specs.len(),
        written_all(specs, n, before) is Ok,
    ensures
        bound_all(specs, n, before) == written_all(specs, n, before)->Ok_0.1,
    decreases specs, n,
{
    if n > 0 {
        lemma_bound_all(specs, (n - 1) as nat, before);
        let args = bound_all(specs, (n - 1) as nat, before);
        lemma_bound(specs[n - 1], before + args.len());
    }
}

/// Nothing of a list changes behind the first tree that fails.
pub(crate) proof fn lemma_error_stays(specs: Seq<SpecModel>, n: nat, m: nat, before: nat)
    requires
        n <= m <= specs.len(),
        written_all(specs, n, before) is Err,
    ensures
        written_all(specs, m, before) == written_all(specs, n, before),
        bound_all(specs, m, before) == bound_all(specs, n, before),
    decreases m,
{
    if n < m {
        lemma_error_stays(specs, n, (m - 1) as nat, before);
    }
}

/// Nothing of a scope changes behind the first condition that fails.
pub(crate) proof fn lemma_scope_error_stays(
    scope: Seq<ScopeModel>,
    n: nat,
    m: nat,
    schema: Map<Seq<char>, ColumnModel>,
)
    requires
        n <= m <= scope.len(),
        scope_parts(scope, n, schema) is Err,
    ensures
        scope_parts(scope, m, schema) == scope_parts(scope, n, schema),
    decreases m,
{
    if n < m {
        lemma_scope_error_stays(scope, n, (m - 1) as nat, schema);
    }
}

/// Returns a Postgres predicate with `$n` placeholders and its arguments. An
/// empty query renders as `TRUE` rather than as an empty string, so callers can
/// always concatenate it into a `WHERE` clause.
pub fn render(query: &Query, schema: &Schema) -> (res: Result<(String, Vec<Json>), Error>)
    ensures
        outcome(res) == rendered(query@, schema@),
        res is Ok <==> success::accepted_query(query@, schema@),
{
    proof {
        success::law_render_succeeds_exactly_on_the_allowed(query@, schema@);
    }
    let mut parts: Vec<Spec> = Vec::new();
    assert(tree::models(parts@) =~= Seq::empty());
    for i in 0..query.scope.len()
        invariant
            scope_parts(query@.scope, i as nat, schema@) == Ok::<_, ErrorModel>(
                tree::models(parts@),
            ),
    {
        assert(query@.scope[i as int] == query.scope@[i as int]@);
        match scope_predicate(&query.scope[i], schema) {
            Err(error) => {
                proof {
                    lemma_scope_error_stays(
                        query@.scope,
                        (i + 1) as nat,
                        query@.scope.len(),
                        schema@,
                    );
                }
                return Err(error);
            },
            Ok(pred) => {
                let part = Spec::Pred(pred);
                assert(tree::models(parts@.push(part)) =~= tree::models(parts@).push(part@));
                parts.push(part);
            },
        }
    }
    if let Some(filter) = &query.filter {
        match parse::parse(filter, schema) {
            Err(error) => {
                return Err(error);
            },
            Ok(part) => {
                assert(tree::models(parts@.push(part)) =~= tree::models(parts@).push(part@));
                parts.push(part);
            },
        }
    }
    let ghost all = tree::models(parts@);
    assert(query_parts(query@, schema@) == Ok::<_, ErrorModel>(all));
    let mut args: Vec<Json> = Vec::new();
    assert(arguments(args@) =~= Seq::empty());
    if parts.len() == 0 {
        return Ok(("TRUE".to_owned(), args));
    }
    let spec = if parts.len() == 1 {
        parts.remove(0)
    } else {
        Spec::And(parts)
    };
    assert(spec@ == combined(all)) by {
        if all.len() != 1 {
            assert(spec@->And_0 =~= all);
        }
    }
    match write_spec(&spec, &mut args) {
        Err(error) => Err(error),
        Ok(sql) => {
            assert(arguments(args@) =~= written(spec@, 0)->Ok_0.1);
            Ok((sql, args))
        },
    }
}

/// The predicate a condition of the scope stands for.
fn scope_predicate(condition: &ScopeFilter, schema: &Schema) -> (res: Result<Pred, Error>)
    ensures
        crate::error::outcome(res) == scope_pred(condition@, schema@),
{
    match schema.get(condition.field.as_str()) {
        None => Err(Error::UnknownField(condition.field.clone())),
        Some(column) => match scalar_value(column.field_type, &condition.value) {
            Err(error) => Err(error),
            Ok(value) => Ok(
                Pred {
                    column: column.column.clone(),
                    relation: copy_name(&column.relation),
                    field_type: column.field_type,
                    operator: "$eq".to_owned(),
                    value: Some(value),
                    range: None,
                },
            ),
        },
    }
}

/// Writes a tree, adding its arguments to the list.
pub fn write_spec(spec: &Spec, args: &mut Vec<Json>) -> (res: Result<String, Error>)
    ensures
        wrote(res, old(args)@, final(args)@, written(spec@, old(args)@.len())),
        old(args)@.is_prefix_of(final(args)@),
        arguments(final(args)@) == arguments(old(args)@) + bound(spec@, old(args)@.len()),
    decreases spec, 1int,
{
    match spec {
        Spec::And(children) => {
            assert(decreases_to!(*spec => spec->And_0));
            assert(spec@->And_0 =~= tree::models(children@));
            write_group(children, " AND ", args)
        },
        Spec::Or(children) => {
            assert(decreases_to!(*spec => spec->Or_0));
            assert(spec@->Or_0 =~= tree::models(children@));
            write_group(children, " OR ", args)
        },
        Spec::Not(child) => match write_spec(child, args) {
            Err(error) => Err(error),
            Ok(sql) => Ok("NOT (".to_owned().concat(sql.as_str()).concat(")")),
        },
        Spec::Pred(pred) => {
            assert(arguments(args@) =~= arguments(args@) + Seq::<JsonModel>::empty());
            write_pred(pred, args)
        },
    }
}

/// Writes the trees of a group, with `separator` between each two neighbours.
pub fn write_group(children: &Vec<Spec>, separator: &str, args: &mut Vec<Json>) -> (res: Result<
    String,
    Error,
>)
    ensures
        wrote(
            res,
            old(args)@,
            final(args)@,
            written_group(tree::models(children@), separator@, old(args)@.len()),
        ),
        old(args)@.is_prefix_of(final(args)@),
        arguments(final(args)@) == arguments(old(args)@) + bound_all(
            tree::models(children@),
            children@.len(),
            old(args)@.len(),
        ),
    decreases children, 0int,
{
    assert(arguments(args@) =~= arguments(args@) + Seq::<JsonModel>::empty());
    if children.len() == 0 {
        return Err(Error::EmptyGroup);
    }
    let ghost specs = tree::models(children@);
    let ghost before = args@;
    let mut rendered: Vec<String> = Vec::new();
    let ghost mut more: Seq<JsonModel> = Seq::empty();
    assert(text::texts(rendered@) =~= Seq::empty());
    assert(arguments(args@) =~= arguments(before) + more);
    for i in 0..children.len()
        invariant
            specs == tree::models(children@),
            before == old(args)@,
            before.is_prefix_of(args@),
            written_all(specs, i as nat, before.len()) == Ok::<_, ErrorModel>(
                (text::texts(rendered@), more),
            ),
            arguments(args@) == arguments(before) + more,
    {
        assert(decreases_to!(*children => children[i as int]));
        assert(specs[i as int] == children@[i as int]@);
        assert(args@.len() == before.len() + more.len()) by {
            assert(arguments(args@).len() == args@.len());
        }
        match write_spec(&children[i], args) {
            Err(error) => {
                proof {
                    let added = bound(specs[i as int], before.len() + more.len());
                    assert(arguments(before) + more + added =~= arguments(before) + (more + added));
                    lemma_bound_all(specs, i as nat, before.len());
                    lemma_error_stays(specs, (i + 1) as nat, specs.len(), before.len());
                }
                return Err(error);
            },
            Ok(sql) => {
                proof {
                    let added = written(specs[i as int], before.len() + more.len())->Ok_0.1;
                    assert(arguments(before) + more + added =~= arguments(before) + (more + added));
                    more = more + added;
                }
                assert(text::texts(rendered@.push(sql)) =~= text::texts(rendered@).push(sql@));
                rendered.push(sql);
            },
        }
    }
    proof {
        lemma_bound_all(specs, specs.len(), before.len());
    }
    if rendered.len() == 1 {
        assert(text::texts(rendered@)[0] == rendered@[0]@);
        Ok(rendered.remove(0))
    } else {
        assert(text::texts(rendered@).len() == rendered@.len());
        Ok("(".to_owned().concat(join(&rendered, separator).as_str()).concat(")"))
    }
}

/// Adds an argument and returns its placeholder.
fn push_argument(value: Json, args: &mut Vec<Json>) -> (res: String)
    ensures
        final(args)@ == old(args)@.push(value),
        arguments(final(args)@) == arguments(old(args)@) + seq![value@],
        res@ == placeholder(old(args)@.len() + 1),
{
    args.push(value);
    assert(arguments(args@) =~= arguments(old(args)@) + seq![value@]);
    let res = "$".to_owned().concat(to_decimal(args.len()).as_str());
    proof {
        reveal_strlit("$");
        assert("$"@ =~= seq!['$']);
    }
    res
}

/// The SQL operator of a plain comparison.
fn comparison_of(op: &str) -> (res: Option<&'static str>)
    ensures
        match res {
            Some(symbol) => comparison(op@) == Some(symbol@),
            None => comparison(op@) is None,
        },
{
    if same(op, "$eq") {
        Some(" = ")
    } else if same(op, "$gt") {
        Some(" > ")
    } else if same(op, "$gte") {
        Some(" >= ")
    } else if same(op, "$lt") {
        Some(" < ")
    } else if same(op, "$lte") {
        Some(" <= ")
    } else if same(op, "$regex") {
        Some(" ~ ")
    } else {
        None
    }
}

/// Writes a predicate, adding its arguments to the list.
pub fn write_pred(pred: &Pred, args: &mut Vec<Json>) -> (res: Result<String, Error>)
    ensures
        wrote(res, old(args)@, final(args)@, written_pred(pred@, old(args)@.len())),
        old(args)@.is_prefix_of(final(args)@),
        res is Err ==> final(args)@ == old(args)@,
{
    let column = quote(pred);
    let op = pred.operator.as_str();
    assert(arguments(args@) =~= arguments(args@) + Seq::<JsonModel>::empty());
    if let Some(symbol) = comparison_of(op) {
        return match required(&pred.value) {
            Err(error) => Err(error),
            Ok(value) => Ok(column.concat(symbol).concat(push_argument(value, args).as_str())),
        };
    }
    let contains = same(op, "$contains");
    let starts_with = same(op, "$starts_with");
    if contains || starts_with || same(op, "$ends_with") {
        let escaped = match required_text(&pred.value) {
            Err(error) => {
                return Err(error);
            },
            Ok(searched) => escape_like(searched.as_str()),
        };
        let pattern = if contains {
            "%".to_owned().concat(escaped.as_str()).concat("%")
        } else if starts_with {
            escaped.concat("%")
        } else {
            "%".to_owned().concat(escaped.as_str())
        };
        let number = push_argument(Json::String(pattern), args);
        return Ok(column.concat(" ILIKE ").concat(number.as_str()));
    }
    if same(op, "$is_empty") {
        if pred.field_type == FieldType::String {
            Ok(
                "(".to_owned().concat(column.as_str()).concat(" IS NULL OR ").concat(
                    column.as_str(),
                ).concat(" = '')"),
            )
        } else {
            Ok(column.concat(" IS NULL"))
        }
    } else if same(op, "$between") {
        match &pred.range {
            None => Err(Error::InvalidValue("$between expects a pair".to_owned())),
            Some((from, to)) => {
                let from_number = push_argument(Json::String(from.clone()), args);
                let to_number = push_argument(Json::String(to.clone()), args);
                assert(arguments(args@) =~= arguments(old(args)@) + seq![
                    JsonModel::String(from@),
                    JsonModel::String(to@),
                ]);
                Ok(
                    column.concat(" BETWEEN ").concat(from_number.as_str()).concat(
                        " AND ",
                    ).concat(to_number.as_str()),
                )
            },
        }
    } else if same(op, "$is_today") {
        Ok(column.concat("::date = CURRENT_DATE"))
    } else if same(op, "$is_tomorrow") {
        Ok(column.concat("::date = CURRENT_DATE + 1"))
    } else if same(op, "$is_yesterday") {
        Ok(column.concat("::date = CURRENT_DATE - 1"))
    } else {
        Err(Error::UnsupportedOperator(op.to_owned()))
    }
}

/// The value of a predicate whose operator needs one.
fn required(value: &Option<Json>) -> (res: Result<Json, Error>)
    ensures
        crate::error::outcome(res) == match *value {
            Some(value) => Ok(value@),
            None => Err(ErrorModel::InvalidValue("operator needs a value"@)),
        },
{
    match value {
        Some(value) => Ok(value.clone()),
        None => Err(Error::InvalidValue("operator needs a value".to_owned())),
    }
}

/// The text a predicate searches for.
fn required_text(value: &Option<Json>) -> (res: Result<String, Error>)
    ensures
        crate::error::outcome(res) == match *value {
            Some(Json::String(searched)) => Ok(searched@),
            _ => Err(ErrorModel::InvalidValue("expected string"@)),
        },
{
    match value {
        Some(Json::String(searched)) => Ok(searched.clone()),
        _ => Err(Error::InvalidValue("expected string".to_owned())),
    }
}

/// The column of a predicate, as it stands in the SQL text.
fn quote(pred: &Pred) -> (res: String)
    ensures
        res@ == column_name(pred@),
{
    let column = identifier(pred.column.as_str());
    match &pred.relation {
        Some(relation) => identifier(relation.as_str()).concat(".").concat(column.as_str()),
        None => column,
    }
}

} // verus!

//! Which names stand in the SQL text.

use vstd::prelude::*;

use crate::filter::NodeModel;
use crate::laws::fold;
use crate::laws::meaning;
use crate::laws::provenance;
use crate::laws::quoting as reading;
use crate::laws::sql;
use crate::laws::success;
use crate::parse;
use crate::query::QueryModel;
use crate::quoting;
use crate::render;
use crate::schema::{ColumnModel, FieldType};
use crate::text;
use crate::tree;
use crate::tree::{PredModel, SpecModel};

verus! {

/// The names of the quoted identifiers in the text, from left to right.
pub open spec fn names_in(text: Seq<char>) -> Seq<Seq<char>>
    decreases text.len(),
{
    if text.len() == 0 {
        Seq::empty()
    } else if text[0] != '"' {
        names_in(text.skip(1))
    } else {
        match reading::read_identifier(text) {
            Some((name, rest)) => if rest.len() < text.len() {
                seq![name] + names_in(rest)
            } else {
                Seq::empty()
            },
            None => Seq::empty(),
        }
    }
}

/// The names of the column of a predicate: its relation, if it has one, and the
/// column itself.
pub open spec fn column_names(pred: PredModel) -> Seq<Seq<char>> {
    match pred.relation {
        Some(relation) => seq![relation, pred.column],
        None => seq![pred.column],
    }
}

/// The names a predicate is written with: those of its column, which the test
/// for an empty text names twice.
pub open spec fn pred_names(pred: PredModel) -> Seq<Seq<char>> {
    if pred.operator == "$is_empty"@ && pred.field_type == FieldType::String {
        column_names(pred) + column_names(pred)
    } else {
        column_names(pred)
    }
}

/// The names the predicates are written with, from left to right.
pub open spec fn all_names(preds: Seq<PredModel>) -> Seq<Seq<char>>
    decreases preds.len(),
{
    if preds.len() == 0 {
        Seq::empty()
    } else {
        all_names(preds.drop_last()) + pred_names(preds.last())
    }
}

/// Whether the text holds the given names, whatever follows it.
spec fn holds_names(text: Seq<char>, names: Seq<Seq<char>>) -> bool {
    forall|rest: Seq<char>| names_in(#[trigger] (text + rest)) == names + names_in(rest)
}

/// Whether the text holds the given names, when no quote follows it directly.
spec fn opens_names(text: Seq<char>, names: Seq<Seq<char>>) -> bool {
    forall|rest: Seq<char>|
        (rest.len() == 0 || rest[0] != '"') ==> names_in(#[trigger] (text + rest)) == names
            + names_in(rest)
}

proof fn lemma_no_names(text: Seq<char>, rest: Seq<char>)
    requires
        sql::lacks(text, '"'),
    ensures
        names_in(text + rest) == names_in(rest),
    decreases text.len(),
{
    if text.len() == 0 {
        assert(text + rest =~= rest);
    } else {
        let tail = text.skip(1);
        assert forall|i: int| 0 <= i < tail.len() implies #[trigger] tail[i] != '"' by {
            assert(text[i + 1] != '"');
        }
        lemma_no_names(tail, rest);
        assert((text + rest).skip(1) =~= tail + rest);
        assert((text + rest)[0] == text[0]);
    }
}

proof fn lemma_nameless(text: Seq<char>)
    requires
        sql::lacks(text, '"'),
    ensures
        holds_names(text, Seq::empty()),
{
    assert forall|rest: Seq<char>| names_in(#[trigger] (text + rest)) == Seq::<Seq<char>>::empty()
        + names_in(rest) by {
        lemma_no_names(text, rest);
        assert(Seq::<Seq<char>>::empty() + names_in(rest) =~= names_in(rest));
    }
}

proof fn lemma_quoted_name(name: Seq<char>)
    ensures
        opens_names(quoting::quoted(name), seq![name]),
{
    let text = quoting::quoted(name);
    assert forall|rest: Seq<char>| rest.len() == 0 || rest[0] != '"' implies names_in(
        #[trigger] (text + rest),
    ) == seq![name] + names_in(rest) by {
        reading::law_identifier_reads_back(name, rest);
        assert((text + rest)[0] == '"');
    }
}

/// A text in front of one that opens names.
proof fn lemma_then_opens(
    a: Seq<char>,
    x: Seq<Seq<char>>,
    b: Seq<char>,
    y: Seq<Seq<char>>,
)
    requires
        holds_names(a, x),
        opens_names(b, y),
    ensures
        opens_names(a + b, x + y),
{
    assert forall|rest: Seq<char>| rest.len() == 0 || rest[0] != '"' implies names_in(
        #[trigger] (a + b + rest),
    ) == x + y + names_in(rest) by {
        assert(a + b + rest =~= a + (b + rest));
        assert(x + y + names_in(rest) =~= x + (y + names_in(rest)));
    }
}

/// A text in front of one that holds names.
proof fn lemma_then_holds(
    a: Seq<char>,
    x: Seq<Seq<char>>,
    b: Seq<char>,
    y: Seq<Seq<char>>,
)
    requires
        holds_names(a, x),
        holds_names(b, y),
    ensures
        holds_names(a + b, x + y),
{
    assert forall|rest: Seq<char>| names_in(#[trigger] (a + b + rest)) == x + y + names_in(
        rest,
    ) by {
        assert(a + b + rest =~= a + (b + rest));
        assert(x + y + names_in(rest) =~= x + (y + names_in(rest)));
    }
}

/// A text without quotes behind one that opens names.
proof fn lemma_opens_then(a: Seq<char>, x: Seq<Seq<char>>, b: Seq<char>)
    requires
        opens_names(a, x),
        b.len() > 0,
        sql::lacks(b, '"'),
    ensures
        holds_names(a + b, x),
{
    assert forall|rest: Seq<char>| names_in(#[trigger] (a + b + rest)) == x + names_in(rest) by {
        assert(b[0] != '"');
        assert((b + rest)[0] == b[0]);
        assert(a + b + rest =~= a + (b + rest));
        lemma_no_names(b, rest);
    }
}

/// A text without quotes behind one that holds names.
proof fn lemma_holds_then(a: Seq<char>, x: Seq<Seq<char>>, b: Seq<char>)
    requires
        holds_names(a, x),
        sql::lacks(b, '"'),
    ensures
        holds_names(a + b, x),
{
    lemma_nameless(b);
    lemma_then_holds(a, x, b, Seq::empty());
    assert(x + Seq::<Seq<char>>::empty() =~= x);
}

/// A text without quotes in front of one that holds names.
proof fn lemma_then_only(a: Seq<char>, b: Seq<char>, y: Seq<Seq<char>>)
    requires
        sql::lacks(a, '"'),
        holds_names(b, y),
    ensures
        holds_names(a + b, y),
{
    lemma_nameless(a);
    lemma_then_holds(a, Seq::empty(), b, y);
    assert(Seq::<Seq<char>>::empty() + y =~= y);
}

proof fn lemma_column_opens(pred: PredModel)
    ensures
        opens_names(render::column_name(pred), column_names(pred)),
{
    lemma_quoted_name(pred.column);
    if let Some(relation) = pred.relation {
        lemma_quoted_name(relation);
        reveal_strlit(".");
        assert(sql::lacks("."@, '"'));
        lemma_opens_then(quoting::quoted(relation), seq![relation], "."@);
        lemma_then_opens(
            quoting::quoted(relation) + "."@,
            seq![relation],
            quoting::quoted(pred.column),
            seq![pred.column],
        );
        assert(seq![relation] + seq![pred.column] =~= seq![relation, pred.column]);
    }
}

/// A column with a fixed text behind it.
proof fn lemma_column_and(pred: PredModel, fixed: Seq<char>)
    requires
        fixed.len() > 0,
        sql::lacks(fixed, '"'),
    ensures
        holds_names(render::column_name(pred) + fixed, column_names(pred)),
{
    lemma_column_opens(pred);
    lemma_opens_then(render::column_name(pred), column_names(pred), fixed);
}

proof fn lemma_empty_text_names(pred: PredModel)
    ensures
        ({
            let column = render::column_name(pred);
            holds_names(
                "("@ + column + " IS NULL OR "@ + column + " = '')"@,
                column_names(pred) + column_names(pred),
            )
        }),
{
    let column = render::column_name(pred);
    let names = column_names(pred);
    lemma_empty_text_parts();
    lemma_column_opens(pred);
    lemma_nameless("("@);
    lemma_then_opens("("@, Seq::empty(), column, names);
    assert(Seq::<Seq<char>>::empty() + names =~= names);
    lemma_opens_then("("@ + column, names, " IS NULL OR "@);
    lemma_then_opens("("@ + column + " IS NULL OR "@, names, column, names);
    lemma_opens_then("("@ + column + " IS NULL OR "@ + column, names + names, " = '')"@);
}

proof fn lemma_empty_text_parts()
    ensures
        sql::lacks("("@, '"'),
        " IS NULL OR "@.len() > 0,
        sql::lacks(" IS NULL OR "@, '"'),
        " = '')"@.len() > 0,
        sql::lacks(" = '')"@, '"'),
{
    reveal_strlit("(");
    reveal_strlit(" IS NULL OR ");
    reveal_strlit(" = '')");
}

proof fn lemma_placeholder_nameless(n: nat)
    ensures
        sql::lacks(render::placeholder(n), '"'),
{
    sql::lemma_decimal(n);
    let mark = render::placeholder(n);
    assert forall|i: int| 0 <= i < mark.len() implies #[trigger] mark[i] != '"' by {
        if i > 0 {
            assert(mark[i] == text::decimal(n)[i - 1]);
        }
    }
}

proof fn lemma_comparison_texts(op: Seq<char>)
    ensures
        render::comparison(op) is Some ==> render::comparison(op)->0.len() > 0 && sql::lacks(
            render::comparison(op)->0,
            '"',
        ),
        render::date_test(op) is Some ==> render::date_test(op)->0.len() > 0 && sql::lacks(
            render::date_test(op)->0,
            '"',
        ),
{
    reveal_strlit(" = ");
    reveal_strlit(" > ");
    reveal_strlit(" >= ");
    reveal_strlit(" < ");
    reveal_strlit(" <= ");
    reveal_strlit(" ~ ");
    reveal_strlit("::date = CURRENT_DATE");
    reveal_strlit("::date = CURRENT_DATE + 1");
    reveal_strlit("::date = CURRENT_DATE - 1");
}

proof fn lemma_word_texts()
    ensures
        " ILIKE "@.len() > 0,
        sql::lacks(" ILIKE "@, '"'),
        " IS NULL"@.len() > 0,
        sql::lacks(" IS NULL"@, '"'),
        " BETWEEN "@.len() > 0,
        sql::lacks(" BETWEEN "@, '"'),
        sql::lacks(" AND "@, '"'),
        sql::lacks(" OR "@, '"'),
        sql::lacks("("@, '"'),
        sql::lacks("NOT ("@, '"'),
        sql::lacks(")"@, '"'),
{
    reveal_strlit(" ILIKE ");
    reveal_strlit(" IS NULL");
    reveal_strlit(" BETWEEN ");
    reveal_strlit(" AND ");
    reveal_strlit(" OR ");
    reveal_strlit("(");
    reveal_strlit("NOT (");
    reveal_strlit(")");
}

proof fn lemma_pred_holds(pred: PredModel, before: nat)
    requires
        render::written_pred(pred, before) is Ok,
    ensures
        holds_names(render::written_pred(pred, before)->Ok_0.0, pred_names(pred)),
{
    let column = render::column_name(pred);
    let names = column_names(pred);
    let op = pred.operator;
    let mark = render::placeholder(before + 1);
    crate::operator::lemma_operator_names();
    lemma_comparison_texts(op);
    lemma_word_texts();
    lemma_placeholder_nameless(before + 1);
    lemma_placeholder_nameless(before + 2);
    if render::comparison(op) is Some {
        let symbol = render::comparison(op)->0;
        lemma_column_and(pred, symbol);
        lemma_holds_then(column + symbol, names, mark);
    } else if render::search_pattern(op, Seq::empty()) is Some {
        lemma_column_and(pred, " ILIKE "@);
        lemma_holds_then(column + " ILIKE "@, names, mark);
    } else if op == "$is_empty"@ {
        if pred.field_type == FieldType::String {
            lemma_empty_text_names(pred);
        } else {
            lemma_column_and(pred, " IS NULL"@);
        }
    } else if op == "$between"@ {
        let first = column + " BETWEEN "@;
        lemma_column_and(pred, " BETWEEN "@);
        lemma_holds_then(first, names, mark);
        lemma_holds_then(first + mark, names, " AND "@);
        lemma_holds_then(first + mark + " AND "@, names, render::placeholder(before + 2));
    } else {
        lemma_column_and(pred, render::date_test(op)->0);
    }
}

proof fn lemma_all_names_join(a: Seq<PredModel>, b: Seq<PredModel>)
    ensures
        all_names(a + b) == all_names(a) + all_names(b),
    decreases b.len(),
{
    if b.len() == 0 {
        assert(a + b =~= a);
        assert(all_names(a) + all_names(b) =~= all_names(a));
    } else {
        lemma_all_names_join(a, b.drop_last());
        assert((a + b).drop_last() =~= a + b.drop_last());
        assert((a + b).last() == b.last());
        assert(all_names(a + b) =~= all_names(a) + all_names(b));
    }
}

proof fn lemma_joined_holds(specs: Seq<SpecModel>, n: nat, separator: Seq<char>, before: nat)
    requires
        0 < n <= specs.len(),
        sql::lacks(separator, '"'),
        render::written_all(specs, n, before) is Ok,
    ensures
        holds_names(
            text::joined(render::written_all(specs, n, before)->Ok_0.0, separator),
            all_names(tree::leaves_of_all(specs, n)),
        ),
    decreases specs, n,
{
    let m = (n - 1) as nat;
    let parts = render::written_all(specs, n, before)->Ok_0.0;
    let args = render::written_all(specs, m, before)->Ok_0.1;
    let last = render::written(specs[n - 1], before + args.len())->Ok_0.0;
    let front_names = all_names(tree::leaves_of_all(specs, m));
    let last_names = all_names(tree::leaves_of(specs[n - 1]));
    success::lemma_written_all_len(specs, n, before);
    lemma_tree_holds(specs[n - 1], before + args.len());
    lemma_all_names_join(tree::leaves_of_all(specs, m), tree::leaves_of(specs[n - 1]));
    if n == 1 {
        assert(parts[0] == last);
        assert(tree::leaves_of_all(specs, m) =~= Seq::empty());
        assert(front_names + last_names =~= last_names);
    } else {
        lemma_joined_holds(specs, m, separator, before);
        assert(parts.drop_last() =~= render::written_all(specs, m, before)->Ok_0.0);
        assert(parts.last() == last);
        let front = text::joined(parts.drop_last(), separator);
        lemma_holds_then(front, front_names, separator);
        lemma_then_holds(front + separator, front_names, last, last_names);
    }
}

proof fn lemma_group_holds(specs: Seq<SpecModel>, separator: Seq<char>, before: nat)
    requires
        specs.len() > 0,
        sql::lacks(separator, '"'),
        render::written_all(specs, specs.len(), before) is Ok,
    ensures
        holds_names(
            render::grouped(
                render::written_all(specs, specs.len(), before)->Ok_0.0,
                separator,
            ),
            all_names(tree::leaves_of_all(specs, specs.len())),
        ),
    decreases specs, specs.len() + 1,
{
    let parts = render::written_all(specs, specs.len(), before)->Ok_0.0;
    let names = all_names(tree::leaves_of_all(specs, specs.len()));
    lemma_joined_holds(specs, specs.len(), separator, before);
    if parts.len() != 1 {
        let inner = text::joined(parts, separator);
        lemma_word_texts();
        lemma_then_only("("@, inner, names);
        lemma_holds_then("("@ + inner, names, ")"@);
    }
}

proof fn lemma_tree_holds(spec: SpecModel, before: nat)
    requires
        render::written(spec, before) is Ok,
    ensures
        holds_names(render::written(spec, before)->Ok_0.0, all_names(tree::leaves_of(spec))),
    decreases spec, 0nat,
{
    lemma_word_texts();
    match spec {
        SpecModel::And(children) => {
            lemma_group_holds(children, " AND "@, before);
        },
        SpecModel::Or(children) => {
            lemma_group_holds(children, " OR "@, before);
        },
        SpecModel::Not(child) => {
            lemma_tree_holds(*child, before);
            let inner = render::written(*child, before)->Ok_0.0;
            let names = all_names(tree::leaves_of(*child));
            lemma_then_only("NOT ("@, inner, names);
            lemma_holds_then("NOT ("@ + inner, names, ")"@);
        },
        SpecModel::Pred(pred) => {
            lemma_pred_holds(pred, before);
            let only = seq![pred];
            assert(only.drop_last() =~= Seq::empty());
            assert(only.last() == pred);
            assert(all_names(only) =~= pred_names(pred)) by {
                reveal_with_fuel(all_names, 2);
            }
        },
    }
}

/// Law: the names quoted in the SQL text of a tree are, from left to right,
/// those of the columns its predicates compare.
pub proof fn law_quoted_names_are_the_columns(spec: SpecModel, before: nat)
    requires
        render::written(spec, before) is Ok,
    ensures
        names_in(render::written(spec, before)->Ok_0.0) == all_names(tree::leaves_of(spec)),
{
    lemma_tree_holds(spec, before);
    let sql = render::written(spec, before)->Ok_0.0;
    let nothing = Seq::<char>::empty();
    assert(names_in(sql + nothing) == all_names(tree::leaves_of(spec)) + names_in(nothing));
    assert(sql + nothing =~= sql);
    assert(all_names(tree::leaves_of(spec)) + names_in(nothing) =~= all_names(
        tree::leaves_of(spec),
    ));
}

/// Whether the predicate compares a column of the schema.
spec fn reads_some(pred: PredModel, schema: Map<Seq<char>, ColumnModel>) -> bool {
    exists|field: Seq<char>| provenance::reads(pred, field, schema)
}

/// Whether every predicate compares a column of the schema.
spec fn all_read(preds: Seq<PredModel>, schema: Map<Seq<char>, ColumnModel>) -> bool {
    forall|i: int| 0 <= i < preds.len() ==> reads_some(#[trigger] preds[i], schema)
}

/// Whether the schema gives the name to a column or to its relation.
pub open spec fn in_schema(name: Seq<char>, schema: Map<Seq<char>, ColumnModel>) -> bool {
    exists|field: Seq<char>| #[trigger]
        schema.contains_key(field) && (schema[field].column == name || schema[field].relation
            == Some(name))
}

proof fn lemma_all_read_join(
    a: Seq<PredModel>,
    b: Seq<PredModel>,
    schema: Map<Seq<char>, ColumnModel>,
)
    requires
        all_read(a, schema),
        all_read(b, schema),
    ensures
        all_read(a + b, schema),
{
    assert forall|i: int| 0 <= i < (a + b).len() implies reads_some(
        #[trigger] (a + b)[i],
        schema,
    ) by {
        if i < a.len() {
            assert((a + b)[i] == a[i]);
        } else {
            assert((a + b)[i] == b[i - a.len()]);
        }
    }
}

proof fn lemma_parsed_reads(node: NodeModel, schema: Map<Seq<char>, ColumnModel>)
    requires
        parse::parsed(node, schema) is Ok,
    ensures
        all_read(tree::leaves_of(parse::parsed(node, schema)->Ok_0), schema),
{
    let preds = tree::leaves_of(parse::parsed(node, schema)->Ok_0);
    fold::law_fold_keeps_every_leaf(node, schema);
    assert forall|i: int| 0 <= i < preds.len() implies reads_some(#[trigger] preds[i], schema) by {
        provenance::law_columns_come_from_the_schema(node, schema, i);
    }
}

proof fn lemma_parts_read(
    parts: Seq<SpecModel>,
    n: nat,
    schema: Map<Seq<char>, ColumnModel>,
)
    requires
        n <= parts.len(),
        forall|i: int|
            0 <= i < parts.len() ==> all_read(tree::leaves_of(#[trigger] parts[i]), schema),
    ensures
        all_read(tree::leaves_of_all(parts, n), schema),
    decreases n,
{
    if n > 0 {
        lemma_parts_read(parts, (n - 1) as nat, schema);
        assert(all_read(tree::leaves_of(parts[n - 1]), schema));
        lemma_all_read_join(
            tree::leaves_of_all(parts, (n - 1) as nat),
            tree::leaves_of(parts[n - 1]),
            schema,
        );
    }
}

proof fn lemma_pred_names_in_schema(
    pred: PredModel,
    field: Seq<char>,
    schema: Map<Seq<char>, ColumnModel>,
    i: int,
)
    requires
        provenance::reads(pred, field, schema),
        0 <= i < pred_names(pred).len(),
    ensures
        in_schema(pred_names(pred)[i], schema),
{
    let names = column_names(pred);
    let at = if i < names.len() {
        i
    } else {
        i - names.len()
    };
    assert(pred_names(pred)[i] == names[at]);
    assert(schema.contains_key(field));
}

proof fn lemma_names_in_schema(
    preds: Seq<PredModel>,
    schema: Map<Seq<char>, ColumnModel>,
    i: int,
)
    requires
        all_read(preds, schema),
        0 <= i < all_names(preds).len(),
    ensures
        in_schema(all_names(preds)[i], schema),
    decreases preds.len(),
{
    let front = preds.drop_last();
    let names = all_names(front);
    if i < names.len() {
        assert forall|j: int| 0 <= j < front.len() implies reads_some(#[trigger] front[j], schema) by {
            assert(front[j] == preds[j]);
        }
        lemma_names_in_schema(front, schema, i);
        assert(all_names(preds)[i] == names[i]);
    } else {
        let pred = preds[preds.len() - 1];
        assert(reads_some(pred, schema));
        let field = choose|field: Seq<char>| provenance::reads(pred, field, schema);
        lemma_pred_names_in_schema(pred, field, schema, i - names.len());
        assert(all_names(preds)[i] == pred_names(pred)[i - names.len()]);
    }
}

/// Law: the schema is the only source of identifiers. Every name quoted in the
/// SQL text of a query is the name of a column of the schema or of its relation.
pub proof fn law_only_schema_names_are_quoted(
    query: QueryModel,
    schema: Map<Seq<char>, ColumnModel>,
    i: int,
)
    requires
        render::rendered(query, schema) is Ok,
        0 <= i < names_in(render::rendered(query, schema)->Ok_0.0).len(),
    ensures
        in_schema(names_in(render::rendered(query, schema)->Ok_0.0)[i], schema),
{
    let parts = render::query_parts(query, schema)->Ok_0;
    let n = query.scope.len();
    meaning::lemma_scope_parts(query, n, schema);
    if parts.len() == 0 {
        reveal_strlit("TRUE");
        let nothing = Seq::<char>::empty();
        lemma_no_names("TRUE"@, nothing);
        assert("TRUE"@ + nothing =~= "TRUE"@);
    } else {
        assert forall|j: int| 0 <= j < parts.len() implies all_read(
            tree::leaves_of(#[trigger] parts[j]),
            schema,
        ) by {
            if j < n {
                let pred = render::scope_pred(query.scope[j], schema)->Ok_0;
                assert(parts[j] == SpecModel::Pred(pred));
                assert(tree::leaves_of(parts[j]) == seq![pred]);
                assert(provenance::reads(pred, query.scope[j].field, schema));
                assert(reads_some(pred, schema));
            } else {
                lemma_parsed_reads(query.filter->0, schema);
            }
        }
        let spec = render::combined(parts);
        if parts.len() == 1 {
            assert(all_read(tree::leaves_of(parts[0]), schema));
        } else {
            lemma_parts_read(parts, parts.len(), schema);
            assert(tree::leaves_of(spec) == tree::leaves_of_all(parts, parts.len()));
        }
        law_quoted_names_are_the_columns(spec, 0);
        lemma_names_in_schema(tree::leaves_of(spec), schema, i);
    }
}

} // verus!

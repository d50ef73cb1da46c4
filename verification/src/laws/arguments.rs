//! Which arguments a tree adds, and how many.

use vstd::prelude::*;

use crate::error;
use crate::error::{Error, ErrorModel};
use crate::json::{Json, JsonModel};
use crate::laws::scope;
use crate::laws::success;
use crate::operator;
use crate::parse;
use crate::query::QueryModel;
use crate::render;
use crate::schema::ColumnModel;
use crate::tree;
use crate::tree::{PredModel, SpecModel};

verus! {

/// How many arguments a predicate takes: two ends of a range, nothing for an
/// operator without a value, and otherwise one value.
pub open spec fn arity(pred: PredModel) -> nat {
    if pred.operator == "$between"@ {
        2
    } else if operator::valueless().contains(pred.operator) {
        0
    } else {
        1
    }
}

/// How many arguments the predicates of a list take together.
pub open spec fn arity_all(preds: Seq<PredModel>) -> nat
    decreases preds.len(),
{
    if preds.len() == 0 {
        0
    } else {
        arity_all(preds.drop_last()) + arity(preds.last())
    }
}

/// Whether two ways of writing came to the same but for the text.
pub open spec fn same_but_text(
    a: Result<(Seq<char>, Seq<JsonModel>), ErrorModel>,
    b: Result<(Seq<char>, Seq<JsonModel>), ErrorModel>,
) -> bool {
    match (a, b) {
        (Ok((_, xs)), Ok((_, ys))) => xs == ys,
        (Err(x), Err(y)) => x == y,
        _ => false,
    }
}

proof fn lemma_arity_adds(a: Seq<PredModel>, b: Seq<PredModel>)
    ensures
        arity_all(a + b) == arity_all(a) + arity_all(b),
    decreases b.len(),
{
    if b.len() == 0 {
        assert(a + b =~= a);
    } else {
        assert((a + b).drop_last() =~= a + b.drop_last());
        lemma_arity_adds(a, b.drop_last());
    }
}

/// A written list adds as many arguments as its leaves take.
pub(crate) proof fn lemma_counted_all(specs: Seq<SpecModel>, n: nat, before: nat)
    requires
        n <= specs.len(),
        render::written_all(specs, n, before) is Ok,
    ensures
        render::written_all(specs, n, before)->Ok_0.1.len() == arity_all(
            tree::leaves_of_all(specs, n),
        ),
    decreases specs, n,
{
    if n > 0 {
        let m = (n - 1) as nat;
        lemma_counted_all(specs, m, before);
        let used = render::written_all(specs, m, before)->Ok_0.1.len();
        law_arguments_are_counted_by_the_leaves(specs[n - 1], before + used);
        lemma_arity_adds(tree::leaves_of_all(specs, m), tree::leaves_of(specs[n - 1]));
    }
}

/// Law: a written tree adds as many arguments as its leaves take: two for a
/// range, none for an operator without a value, one for any other.
pub proof fn law_arguments_are_counted_by_the_leaves(spec: SpecModel, before: nat)
    requires
        render::written(spec, before) is Ok,
    ensures
        render::written(spec, before)->Ok_0.1.len() == arity_all(tree::leaves_of(spec)),
    decreases spec, 0nat,
{
    match spec {
        SpecModel::And(children) => {
            lemma_counted_all(children, children.len(), before);
        },
        SpecModel::Or(children) => {
            lemma_counted_all(children, children.len(), before);
        },
        SpecModel::Not(child) => {
            law_arguments_are_counted_by_the_leaves(*child, before);
        },
        SpecModel::Pred(pred) => {
            operator::lemma_operator_names();
            let preds = seq![pred];
            assert(preds.drop_last() =~= Seq::empty());
            reveal_with_fuel(arity_all, 2);
            assert(arity_all(preds) == arity(pred));
        },
    }
}

proof fn lemma_same_arguments_all(specs: Seq<SpecModel>, n: nat, a: nat, b: nat)
    requires
        n <= specs.len(),
    ensures
        match (render::written_all(specs, n, a), render::written_all(specs, n, b)) {
            (Ok((_, xs)), Ok((_, ys))) => xs == ys,
            (Err(x), Err(y)) => x == y,
            _ => false,
        },
        render::bound_all(specs, n, a) == render::bound_all(specs, n, b),
    decreases specs, n,
{
    if n > 0 {
        let m = (n - 1) as nat;
        lemma_same_arguments_all(specs, m, a, b);
        let used = render::bound_all(specs, m, a).len();
        law_arguments_do_not_depend_on_their_place(specs[n - 1], a + used, b + used);
        if render::written_all(specs, m, a) is Ok {
            render::lemma_bound_all(specs, m, a);
        }
    }
}

/// Law: what stands before a tree moves its placeholders and nothing else. It
/// succeeds or fails alike, with the same arguments or the same error, and adds
/// the same arguments also where it fails.
pub proof fn law_arguments_do_not_depend_on_their_place(spec: SpecModel, a: nat, b: nat)
    ensures
        same_but_text(render::written(spec, a), render::written(spec, b)),
        render::bound(spec, a) == render::bound(spec, b),
    decreases spec, 0nat,
{
    match spec {
        SpecModel::And(children) => {
            lemma_same_arguments_all(children, children.len(), a, b);
        },
        SpecModel::Or(children) => {
            lemma_same_arguments_all(children, children.len(), a, b);
        },
        SpecModel::Not(child) => {
            law_arguments_do_not_depend_on_their_place(*child, a, b);
        },
        SpecModel::Pred(pred) => {},
    }
}

/// What stands in a list behind its first `n` arguments.
pub open spec fn added(args: Seq<Json>, n: nat) -> Seq<JsonModel> {
    render::arguments(args).skip(n as int)
}

/// Law: of the arguments in front of a predicate only the number matters. Two
/// ways of writing it behind equally many arguments come to the same text or the
/// same error, and add the same arguments.
pub proof fn law_a_predicate_minds_only_the_number_of_arguments(
    pred: PredModel,
    first: Result<String, Error>,
    first_before: Seq<Json>,
    first_after: Seq<Json>,
    second: Result<String, Error>,
    second_before: Seq<Json>,
    second_after: Seq<Json>,
)
    requires
        first_before.len() == second_before.len(),
        render::wrote(
            first,
            first_before,
            first_after,
            render::written_pred(pred, first_before.len()),
        ),
        first is Err ==> first_after == first_before,
        render::wrote(
            second,
            second_before,
            second_after,
            render::written_pred(pred, second_before.len()),
        ),
        second is Err ==> second_after == second_before,
    ensures
        error::outcome(first) == error::outcome(second),
        added(first_after, first_before.len()) == added(second_after, second_before.len()),
{
    assert(added(first_after, first_before.len()) =~= added(second_after, second_before.len()));
}

/// Law: of the arguments in front of a tree, too, only the number matters.
pub proof fn law_a_tree_minds_only_the_number_of_arguments(
    spec: SpecModel,
    first: Result<String, Error>,
    first_before: Seq<Json>,
    first_after: Seq<Json>,
    second: Result<String, Error>,
    second_before: Seq<Json>,
    second_after: Seq<Json>,
)
    requires
        first_before.len() == second_before.len(),
        render::wrote(
            first,
            first_before,
            first_after,
            render::written(spec, first_before.len()),
        ),
        render::arguments(first_after) == render::arguments(first_before) + render::bound(
            spec,
            first_before.len(),
        ),
        render::wrote(
            second,
            second_before,
            second_after,
            render::written(spec, second_before.len()),
        ),
        render::arguments(second_after) == render::arguments(second_before) + render::bound(
            spec,
            second_before.len(),
        ),
    ensures
        error::outcome(first) == error::outcome(second),
        added(first_after, first_before.len()) == render::bound(spec, first_before.len()),
        added(second_after, second_before.len()) == render::bound(spec, first_before.len()),
{
}

/// Law: behind the arguments of the scope stand those of the filter alone.
pub proof fn law_arguments_of_the_filter_follow_those_of_the_scope(
    query: QueryModel,
    schema: Map<Seq<char>, ColumnModel>,
)
    requires
        render::rendered(query, schema) is Ok,
        query.filter is Some,
    ensures
        ({
            let alone = QueryModel { scope: Seq::empty(), filter: query.filter };
            &&& render::rendered(alone, schema) is Ok
            &&& render::rendered(query, schema)->Ok_0.1 == scope::scope_values(query.scope)
                + render::rendered(alone, schema)->Ok_0.1
        }),
{
    let alone = QueryModel { scope: Seq::empty(), filter: query.filter };
    let tree = parse::parsed(query.filter->0, schema)->Ok_0;
    let n = query.scope.len();
    success::law_render_succeeds_exactly_on_the_allowed(query, schema);
    success::law_render_succeeds_exactly_on_the_allowed(alone, schema);
    scope::law_filter_alone(alone, schema);
    if n == 0 {
        assert(query.scope =~= Seq::empty());
        assert(scope::scope_values(query.scope) =~= Seq::empty());
        let args = render::rendered(alone, schema)->Ok_0.1;
        assert(Seq::<JsonModel>::empty() + args =~= args);
    } else {
        scope::law_scope_is_conjoined_with_the_filter(query, schema);
        law_arguments_do_not_depend_on_their_place(tree, n, 0);
        success::law_a_parsed_tree_can_be_written(query.filter->0, schema, n);
    }
}

} // verus!

//! How a group is written, and what it leaves where it fails.

use vstd::prelude::*;

use crate::error::ErrorModel;
use crate::filter::{Conjunction, NodeModel, RootModel};
use crate::json::JsonModel;
use crate::laws::arguments;
use crate::parse;
use crate::query::{QueryModel, ScopeModel};
use crate::render;
use crate::schema::ColumnModel;
use crate::text;
use crate::tree;
use crate::tree::SpecModel;

verus! {

/// How many arguments stand before the tree at `at` in a list, when `before`
/// stand before the list.
pub open spec fn place(specs: Seq<SpecModel>, at: nat, before: nat) -> nat {
    before + arguments::arity_all(tree::leaves_of_all(specs, at))
}

/// What the tree at `at` in a list is written as: its placeholders run on from
/// those of the trees before it.
pub open spec fn written_at(specs: Seq<SpecModel>, at: int, before: nat) -> Result<
    (Seq<char>, Seq<JsonModel>),
    ErrorModel,
> {
    render::written(specs[at], place(specs, at as nat, before))
}

/// The texts of the first `n` trees of a list.
pub open spec fn texts_of(specs: Seq<SpecModel>, n: nat, before: nat) -> Seq<Seq<char>> {
    Seq::new(n, |i: int| written_at(specs, i, before)->Ok_0.0)
}

/// The arguments of the first `n` trees of a list, one tree behind the other.
pub open spec fn arguments_of(specs: Seq<SpecModel>, n: nat, before: nat) -> Seq<JsonModel>
    decreases n,
{
    if n == 0 {
        Seq::empty()
    } else {
        let m = (n - 1) as nat;
        arguments_of(specs, m, before) + written_at(specs, m as int, before)->Ok_0.1
    }
}

/// Law: a negation is written as `NOT` in front of the text of its child in
/// parentheses, with the arguments of the child. It fails as its child does, and
/// leaves the arguments that its child leaves.
pub proof fn law_a_negation_is_written_around_its_child(child: SpecModel, before: nat)
    ensures
        ({
            let negation = SpecModel::Not(Box::new(child));
            &&& match (render::written(negation, before), render::written(child, before)) {
                (Ok((sql, args)), Ok((inner, more))) => sql == "NOT ("@ + inner + ")"@ && args
                    == more,
                (Err(error), Err(cause)) => error == cause,
                _ => false,
            }
            &&& render::bound(negation, before) == render::bound(child, before)
        }),
{
}

/// Law: what a tree adds to the arguments, if it is written, are its arguments.
pub proof fn law_a_written_tree_adds_its_arguments(spec: SpecModel, before: nat)
    requires
        render::written(spec, before) is Ok,
    ensures
        render::bound(spec, before) == render::written(spec, before)->Ok_0.1,
{
    render::lemma_bound(spec, before);
}

/// Law: an empty group is an error and adds no argument.
pub proof fn law_an_empty_group_adds_nothing(separator: Seq<char>, before: nat)
    ensures
        render::written_group(Seq::empty(), separator, before) == Err::<
            (Seq<char>, Seq<JsonModel>),
            _,
        >(ErrorModel::EmptyGroup),
        render::written(SpecModel::And(Seq::empty()), before) == Err::<
            (Seq<char>, Seq<JsonModel>),
            _,
        >(ErrorModel::EmptyGroup),
        render::written(SpecModel::Or(Seq::empty()), before) == Err::<
            (Seq<char>, Seq<JsonModel>),
            _,
        >(ErrorModel::EmptyGroup),
        render::bound_all(Seq::empty(), 0, before) == Seq::<JsonModel>::empty(),
        render::bound(SpecModel::And(Seq::empty()), before) == Seq::<JsonModel>::empty(),
        render::bound(SpecModel::Or(Seq::empty()), before) == Seq::<JsonModel>::empty(),
{
    assert(render::bound_all(Seq::empty(), 0, before) == Seq::<JsonModel>::empty());
}

/// Law: a group of one is written as its only child, without parentheses or a
/// separator of its own. It adds the same arguments, also where the child fails.
pub proof fn law_a_group_of_one_is_its_child(
    child: SpecModel,
    separator: Seq<char>,
    before: nat,
)
    ensures
        render::written_group(seq![child], separator, before) == render::written(child, before),
        render::written(SpecModel::And(seq![child]), before) == render::written(child, before),
        render::written(SpecModel::Or(seq![child]), before) == render::written(child, before),
        render::bound_all(seq![child], 1, before) == render::bound(child, before),
        render::bound(SpecModel::And(seq![child]), before) == render::bound(child, before),
        render::bound(SpecModel::Or(seq![child]), before) == render::bound(child, before),
{
    let specs = seq![child];
    reveal_with_fuel(render::written_all, 2);
    reveal_with_fuel(render::bound_all, 2);
    let none = Seq::<JsonModel>::empty();
    assert(none + render::bound(child, before) =~= render::bound(child, before));
    assert(render::bound_all(specs, 0, before) == none);
    assert(render::bound_all(specs, 1, before) == render::bound(child, before));
    match render::written(child, before) {
        Ok((sql, args)) => {
            assert(none + args =~= args);
            let parts = Seq::<Seq<char>>::empty().push(sql);
            assert(parts[0] == sql);
            assert(render::written_all(specs, 1, before) == Ok::<_, ErrorModel>((parts, args)));
        },
        Err(error) => {
            assert(render::written_all(specs, 1, before) is Err);
        },
    }
}

/// What a list is written as, when each tree can be written behind those before
/// it.
proof fn lemma_written_in_turn(specs: Seq<SpecModel>, n: nat, before: nat)
    requires
        n <= specs.len(),
        forall|i: int| 0 <= i < n ==> (#[trigger] written_at(specs, i, before)) is Ok,
    ensures
        render::written_all(specs, n, before) == Ok::<_, ErrorModel>(
            (texts_of(specs, n, before), arguments_of(specs, n, before)),
        ),
        before + arguments_of(specs, n, before).len() == place(specs, n, before),
    decreases n,
{
    if n == 0 {
        assert(texts_of(specs, n, before) =~= Seq::empty());
    } else {
        let m = (n - 1) as nat;
        lemma_written_in_turn(specs, m, before);
        assert(written_at(specs, m as int, before) is Ok);
        assert(texts_of(specs, n, before) =~= texts_of(specs, m, before).push(
            written_at(specs, m as int, before)->Ok_0.0,
        ));
        arguments::lemma_counted_all(specs, n, before);
    }
}

/// Each tree of a list that is written is written behind those before it.
proof fn lemma_each_written(specs: Seq<SpecModel>, n: nat, before: nat)
    requires
        n <= specs.len(),
        render::written_all(specs, n, before) is Ok,
    ensures
        forall|i: int| 0 <= i < n ==> (#[trigger] written_at(specs, i, before)) is Ok,
    decreases n,
{
    if n > 0 {
        lemma_each_written(specs, (n - 1) as nat, before);
        lemma_written_in_turn(specs, (n - 1) as nat, before);
    }
}

/// Law: a group is written exactly when it has a child and every child can be
/// written behind those before it.
pub proof fn law_a_group_is_written_exactly_when_its_children_are(
    children: Seq<SpecModel>,
    separator: Seq<char>,
    before: nat,
)
    ensures
        render::written_group(children, separator, before) is Ok <==> {
            &&& children.len() > 0
            &&& forall|i: int|
                0 <= i < children.len() ==> (#[trigger] written_at(children, i, before)) is Ok
        },
{
    if render::written_all(children, children.len(), before) is Ok {
        lemma_each_written(children, children.len(), before);
    } else if forall|i: int|
        0 <= i < children.len() ==> (#[trigger] written_at(children, i, before)) is Ok {
        lemma_written_in_turn(children, children.len(), before);
    }
}

/// Law: a group of several is its children in parentheses, in order, with the
/// separator between them. The placeholders of each child run on from those of
/// the children before it, and the arguments follow one another in that order.
pub proof fn law_a_group_of_several_is_its_children_in_turn(
    children: Seq<SpecModel>,
    separator: Seq<char>,
    before: nat,
)
    requires
        children.len() >= 2,
        forall|i: int|
            0 <= i < children.len() ==> (#[trigger] written_at(children, i, before)) is Ok,
    ensures
        ({
            let n = children.len();
            let texts = texts_of(children, n, before);
            let args = arguments_of(children, n, before);
            &&& render::written_group(children, separator, before) == Ok::<_, ErrorModel>(
                ("("@ + text::joined(texts, separator) + ")"@, args),
            )
            &&& render::written(SpecModel::And(children), before) == Ok::<_, ErrorModel>(
                ("("@ + text::joined(texts, " AND "@) + ")"@, args),
            )
            &&& render::written(SpecModel::Or(children), before) == Ok::<_, ErrorModel>(
                ("("@ + text::joined(texts, " OR "@) + ")"@, args),
            )
            &&& before + args.len() == place(children, n, before)
        }),
{
    lemma_written_in_turn(children, children.len(), before);
}

/// Law: a group fails exactly as its first failing child does. The arguments it
/// leaves are those of the children before that one and those the child itself
/// added; nothing is added behind it.
pub proof fn law_a_group_stops_at_its_first_failing_child(
    children: Seq<SpecModel>,
    at: nat,
    separator: Seq<char>,
    before: nat,
)
    requires
        at < children.len(),
        forall|i: int| 0 <= i < at ==> (#[trigger] written_at(children, i, before)) is Ok,
        written_at(children, at as int, before) is Err,
    ensures
        render::written_group(children, separator, before) == written_at(
            children,
            at as int,
            before,
        ),
        render::written(SpecModel::And(children), before) == written_at(
            children,
            at as int,
            before,
        ),
        render::written(SpecModel::Or(children), before) == written_at(
            children,
            at as int,
            before,
        ),
        ({
            let left = arguments_of(children, at, before) + render::bound(
                children[at as int],
                place(children, at, before),
            );
            &&& render::bound_all(children, children.len(), before) == left
            &&& render::bound(SpecModel::And(children), before) == left
            &&& render::bound(SpecModel::Or(children), before) == left
        }),
{
    lemma_written_in_turn(children, at, before);
    render::lemma_bound_all(children, at, before);
    assert(render::written_all(children, at + 1, before) is Err);
    render::lemma_error_stays(children, at + 1, children.len(), before);
}

/// Trees that are written alike everywhere make lists that are written alike.
proof fn lemma_alike_all(xs: Seq<SpecModel>, ys: Seq<SpecModel>, n: nat, before: nat)
    requires
        n <= xs.len(),
        xs.len() == ys.len(),
        forall|i: int, b: nat|
            0 <= i < n ==> #[trigger] render::written(xs[i], b) == render::written(ys[i], b),
    ensures
        render::written_all(xs, n, before) == render::written_all(ys, n, before),
    decreases n,
{
    if n > 0 {
        lemma_alike_all(xs, ys, (n - 1) as nat, before);
        match render::written_all(xs, (n - 1) as nat, before) {
            Ok((_, args)) => {
                assert(render::written(xs[n - 1], before + args.len()) == render::written(
                    ys[n - 1],
                    before + args.len(),
                ));
            },
            Err(_) => {},
        }
    }
}

/// Law: a group of one that does not negate renders as its element, whatever
/// the scope, also where the element is rejected. So does a list of one.
pub proof fn law_a_list_of_one_renders_as_its_element(
    scope: Seq<ScopeModel>,
    conjunction: Conjunction,
    element: NodeModel,
    schema: Map<Seq<char>, ColumnModel>,
)
    requires
        conjunction != Conjunction::Not,
    ensures
        ({
            let children = seq![element];
            let group = NodeModel::Group { conjunction, children };
            let list = RootModel::List(children).node();
            let plain = QueryModel { scope, filter: Some(element) };
            &&& render::rendered(QueryModel { scope, filter: Some(group) }, schema)
                == render::rendered(plain, schema)
            &&& render::rendered(QueryModel { scope, filter: Some(list) }, schema)
                == render::rendered(plain, schema)
        }),
{
    lemma_group_of_one_renders(scope, conjunction, element, schema);
    lemma_group_of_one_renders(scope, Conjunction::And, element, schema);
}

proof fn lemma_group_of_one_renders(
    scope: Seq<ScopeModel>,
    conjunction: Conjunction,
    element: NodeModel,
    schema: Map<Seq<char>, ColumnModel>,
)
    requires
        conjunction != Conjunction::Not,
    ensures
        render::rendered(
            QueryModel {
                scope,
                filter: Some(NodeModel::Group { conjunction, children: seq![element] }),
            },
            schema,
        ) == render::rendered(QueryModel { scope, filter: Some(element) }, schema),
{
    let children = seq![element];
    let group = NodeModel::Group { conjunction, children };
    let none = Seq::<SpecModel>::empty();
    assert(parse::parsed_all(children, 0, schema) == Ok::<_, ErrorModel>(none));
    match parse::parsed(element, schema) {
        Err(error) => {
            assert(parse::parsed_all(children, 1, schema) is Err);
            assert(parse::parsed(group, schema) == parse::parsed(element, schema));
        },
        Ok(spec) => {
            let only = parse::folded(conjunction, seq![spec]);
            assert(none.push(spec) =~= seq![spec]);
            assert(parse::parsed_all(children, 1, schema) == Ok::<_, ErrorModel>(seq![spec]));
            assert(parse::parsed(group, schema) == Ok::<_, ErrorModel>(only));
            assert forall|b: nat| #[trigger]
                render::written(only, b) == render::written(spec, b) by {
                law_a_group_of_one_is_its_child(spec, " AND "@, b);
            }
            match render::scope_parts(scope, scope.len(), schema) {
                Err(_) => {},
                Ok(parts) => {
                    let xs = parts.push(only);
                    let ys = parts.push(spec);
                    assert forall|i: int, b: nat| 0 <= i < xs.len() implies #[trigger]
                        render::written(xs[i], b) == render::written(ys[i], b) by {
                        if i < parts.len() {
                            assert(xs[i] == ys[i]);
                        } else {
                            assert(xs[i] == only);
                            assert(ys[i] == spec);
                            assert(render::written(only, b) == render::written(spec, b));
                        }
                    }
                    lemma_alike_all(xs, ys, xs.len(), 0);
                    if parts.len() == 0 {
                        assert(xs[0] == only);
                        assert(ys[0] == spec);
                        assert(render::written(only, 0) == render::written(spec, 0));
                    } else {
                        assert(render::written(SpecModel::And(xs), 0) == render::written(
                            SpecModel::And(ys),
                            0,
                        ));
                    }
                },
            }
        },
    }
}

} // verus!

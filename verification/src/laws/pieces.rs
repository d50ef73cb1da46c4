//! How texts and lists are put together from their pieces.

use vstd::prelude::*;

use crate::quoting;
use crate::render;
use crate::text;
use crate::tree;
use crate::tree::{PredModel, SpecModel};

verus! {

/// The number that a text of decimal digits stands for.
pub open spec fn number_of(digits: Seq<char>) -> int
    decreases digits.len(),
{
    if digits.len() == 0 {
        0
    } else {
        10 * number_of(digits.drop_last()) + (digits.last() as int - '0' as int)
    }
}

/// Law: a number is written in decimal digits, without leading zeros, and reads
/// back as the number. There is one such text for each number.
pub proof fn law_decimals_read_back(n: nat)
    ensures
        text::decimal(n).len() > 0,
        forall|i: int|
            0 <= i < text::decimal(n).len() ==> '0' <= #[trigger] text::decimal(n)[i] <= '9',
        text::decimal(n).len() > 1 ==> text::decimal(n)[0] != '0',
        number_of(text::decimal(n)) == n,
    decreases n,
{
    let digits = text::decimal(n);
    if n < 10 {
        assert(digits.drop_last() =~= Seq::empty());
        reveal_with_fuel(number_of, 2);
    } else {
        law_decimals_read_back(n / 10);
        assert(digits.drop_last() =~= text::decimal(n / 10));
        if n < 100 {
            assert(text::decimal(n / 10)[0] == text::digit(n / 10));
        } else {
            law_decimals_read_back(n / 10 / 10);
            assert(text::decimal(n / 10).len() > 1);
        }
        assert(digits[0] == text::decimal(n / 10)[0]);
    }
}

/// Law: a placeholder is a dollar sign and the number of its argument.
pub proof fn law_a_placeholder_is_a_dollar_sign_and_a_number(n: nat)
    ensures
        render::placeholder(n) == "$"@ + text::decimal(n),
        number_of(render::placeholder(n).skip(1)) == n,
{
    law_decimals_read_back(n);
    reveal_strlit("$");
    assert("$"@ =~= seq!['$']);
    assert(render::placeholder(n).skip(1) =~= text::decimal(n));
}

/// Law: joining puts the separator between neighbours and nothing else
/// anywhere. One text joins to itself, no text to nothing, and a list that is
/// cut in two joins to its halves with the separator between them.
pub proof fn law_joining_separates_neighbours(
    front: Seq<Seq<char>>,
    back: Seq<Seq<char>>,
    only: Seq<char>,
    separator: Seq<char>,
)
    requires
        front.len() > 0,
        back.len() > 0,
    ensures
        text::joined(Seq::empty(), separator) == Seq::<char>::empty(),
        text::joined(seq![only], separator) == only,
        text::joined(front + back, separator) == text::joined(front, separator) + separator
            + text::joined(back, separator),
    decreases back.len(),
{
    let all = front + back;
    assert(all.last() == back.last());
    assert(all.drop_last() =~= front + back.drop_last());
    if back.len() == 1 {
        assert(front + back.drop_last() =~= front);
        assert(back.last() == back[0]);
    } else {
        law_joining_separates_neighbours(front, back.drop_last(), only, separator);
        let a = text::joined(front, separator);
        let b = text::joined(back.drop_last(), separator);
        assert(a + separator + b + separator + back.last() =~= a + separator + (b + separator
            + back.last()));
    }
}

/// Law: a quoted identifier is the name in double quotes, with every quote of
/// the name written twice and every other character as it is.
pub proof fn law_quoting_doubles_quotes_only(a: Seq<char>, b: Seq<char>, c: char)
    ensures
        quoting::quoted(a) == seq!['"'] + quoting::doubled(a) + seq!['"'],
        quoting::doubled(Seq::empty()) == Seq::<char>::empty(),
        quoting::doubled(seq![c]) == (if c == '"' {
            seq!['"', '"']
        } else {
            seq![c]
        }),
        quoting::doubled(a + b) == quoting::doubled(a) + quoting::doubled(b),
    decreases b.len(),
{
    assert(seq![c].drop_last() =~= Seq::empty());
    reveal_with_fuel(quoting::doubled, 2);
    assert(quoting::doubled(seq![c]) =~= (if c == '"' {
        seq!['"', '"']
    } else {
        seq![c]
    }));
    if b.len() == 0 {
        assert(a + b =~= a);
        assert(quoting::doubled(a) + quoting::doubled(b) =~= quoting::doubled(a));
    } else {
        law_quoting_doubles_quotes_only(a, b.drop_last(), c);
        assert((a + b).drop_last() =~= a + b.drop_last());
        assert((a + b).last() == b.last());
        assert(quoting::doubled(a + b) =~= quoting::doubled(a) + quoting::doubled(b));
    }
}

/// Law: escaping puts a backslash before every backslash, percent sign and
/// underscore, and leaves every other character as it is.
pub proof fn law_escaping_marks_wildcards_only(a: Seq<char>, b: Seq<char>, c: char)
    ensures
        quoting::escaped(Seq::empty()) == Seq::<char>::empty(),
        quoting::escaped(seq![c]) == (if c == '\\' || c == '%' || c == '_' {
            seq!['\\', c]
        } else {
            seq![c]
        }),
        quoting::escaped(a + b) == quoting::escaped(a) + quoting::escaped(b),
    decreases b.len(),
{
    assert(seq![c].drop_last() =~= Seq::empty());
    reveal_with_fuel(quoting::escaped, 2);
    assert(quoting::escaped(seq![c]) =~= (if c == '\\' || c == '%' || c == '_' {
        seq!['\\', c]
    } else {
        seq![c]
    }));
    if b.len() == 0 {
        assert(a + b =~= a);
        assert(quoting::escaped(a) + quoting::escaped(b) =~= quoting::escaped(a));
    } else {
        law_escaping_marks_wildcards_only(a, b.drop_last(), c);
        assert((a + b).drop_last() =~= a + b.drop_last());
        assert((a + b).last() == b.last());
        assert(quoting::escaped(a + b) =~= quoting::escaped(a) + quoting::escaped(b));
    }
}

/// The leaves of the first `n` trees of a list do not depend on what follows.
proof fn lemma_leaves_in_front(front: Seq<SpecModel>, back: Seq<SpecModel>, n: nat)
    requires
        n <= front.len(),
    ensures
        tree::leaves_of_all(front + back, n) == tree::leaves_of_all(front, n),
    decreases n,
{
    if n > 0 {
        lemma_leaves_in_front(front, back, (n - 1) as nat);
        assert((front + back)[n - 1] == front[n - 1]);
    }
}

proof fn lemma_leaves_behind(front: Seq<SpecModel>, back: Seq<SpecModel>, n: nat)
    requires
        n <= back.len(),
    ensures
        tree::leaves_of_all(front + back, front.len() + n) == tree::leaves_of_all(
            front,
            front.len(),
        ) + tree::leaves_of_all(back, n),
    decreases n,
{
    if n == 0 {
        lemma_leaves_in_front(front, back, front.len());
        assert(tree::leaves_of_all(front, front.len()) + tree::leaves_of_all(back, 0)
            =~= tree::leaves_of_all(front, front.len()));
    } else {
        let m = (n - 1) as nat;
        lemma_leaves_behind(front, back, m);
        assert((front + back)[front.len() + n - 1] == back[n - 1]);
        assert((front.len() + n - 1) as nat == front.len() + m);
        assert(tree::leaves_of_all(front + back, front.len() + n) =~= tree::leaves_of_all(
            front,
            front.len(),
        ) + tree::leaves_of_all(back, n));
    }
}

/// Law: the leaves of a tree are all its predicates, each once and from left to
/// right. A predicate is its own leaf, a negation has those of its child, and a
/// group those of its children: none without children, those of the child with
/// one, and those of both halves when its list is cut in two.
pub proof fn law_leaves_are_gathered_from_left_to_right(
    front: Seq<SpecModel>,
    back: Seq<SpecModel>,
    child: SpecModel,
    pred: PredModel,
)
    ensures
        tree::leaves_of(SpecModel::Pred(pred)) == seq![pred],
        tree::leaves_of(SpecModel::Not(Box::new(child))) == tree::leaves_of(child),
        tree::leaves_of(SpecModel::And(Seq::empty())) == Seq::<PredModel>::empty(),
        tree::leaves_of(SpecModel::Or(Seq::empty())) == Seq::<PredModel>::empty(),
        tree::leaves_of(SpecModel::And(seq![child])) == tree::leaves_of(child),
        tree::leaves_of(SpecModel::Or(seq![child])) == tree::leaves_of(child),
        tree::leaves_of(SpecModel::And(front + back)) == tree::leaves_of(SpecModel::And(front))
            + tree::leaves_of(SpecModel::And(back)),
        tree::leaves_of(SpecModel::Or(front + back)) == tree::leaves_of(SpecModel::Or(front))
            + tree::leaves_of(SpecModel::Or(back)),
{
    let none = Seq::<SpecModel>::empty();
    assert(tree::leaves_of_all(none, 0) == Seq::<PredModel>::empty());
    assert(tree::leaves_of(SpecModel::And(none)) == tree::leaves_of_all(none, 0));
    assert(tree::leaves_of(SpecModel::Or(none)) == tree::leaves_of_all(none, 0));
    let one = seq![child];
    assert(tree::leaves_of_all(one, 0) == Seq::<PredModel>::empty());
    assert(tree::leaves_of_all(one, 1) =~= tree::leaves_of(child));
    assert(tree::leaves_of(SpecModel::And(one)) == tree::leaves_of_all(one, 1));
    assert(tree::leaves_of(SpecModel::Or(one)) == tree::leaves_of_all(one, 1));
    lemma_leaves_behind(front, back, back.len());
}

} // verus!

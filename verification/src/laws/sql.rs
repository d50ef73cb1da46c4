//! What holds of the SQL text: its placeholders, its quotes and its parentheses.

use vstd::prelude::*;

use crate::laws::success;
use crate::query::QueryModel;
use crate::quoting;
use crate::render;
use crate::schema::{ColumnModel, FieldType};
use crate::text;
use crate::tree;
use crate::tree::{PredModel, SpecModel};

verus! {

/// Whether reading the text ends inside a quoted identifier.
pub open spec fn in_quotes(text: Seq<char>) -> bool
    decreases text.len(),
{
    if text.len() == 0 {
        false
    } else if text.last() == '"' {
        !in_quotes(text.drop_last())
    } else {
        in_quotes(text.drop_last())
    }
}

/// The text without its quoted identifiers.
pub open spec fn unquoted(text: Seq<char>) -> Seq<char>
    decreases text.len(),
{
    if text.len() == 0 {
        Seq::empty()
    } else if text.last() == '"' || in_quotes(text.drop_last()) {
        unquoted(text.drop_last())
    } else {
        unquoted(text.drop_last()).push(text.last())
    }
}

/// How many parentheses are open at the end of the text, or `None` if one was
/// closed that was not open.
pub open spec fn depth(text: Seq<char>) -> Option<nat>
    decreases text.len(),
{
    if text.len() == 0 {
        Some(0nat)
    } else {
        match depth(text.drop_last()) {
            None => None,
            Some(d) => if text.last() == '(' {
                Some(d + 1)
            } else if text.last() != ')' {
                Some(d)
            } else if d == 0 {
                None
            } else {
                Some((d - 1) as nat)
            },
        }
    }
}

/// The text without what stands inside parentheses.
pub open spec fn outside(text: Seq<char>) -> Seq<char>
    decreases text.len(),
{
    if text.len() == 0 {
        Seq::empty()
    } else {
        let d = depth(text.drop_last());
        if d == Some(0nat) || (d == Some(1nat) && text.last() == ')') {
            outside(text.drop_last()).push(text.last())
        } else {
            outside(text.drop_last())
        }
    }
}

/// The pieces in order, with the placeholders of the arguments after the first
/// `before` between them.
pub open spec fn interleaved(pieces: Seq<Seq<char>>, before: nat) -> Seq<char>
    decreases pieces.len(),
{
    if pieces.len() == 0 {
        Seq::empty()
    } else if pieces.len() == 1 {
        pieces[0]
    } else {
        interleaved(pieces.drop_last(), before) + render::placeholder(
            (before + pieces.len() - 1) as nat,
        ) + pieces.last()
    }
}

/// Whether the character does not occur in the text.
pub open spec fn lacks(text: Seq<char>, c: char) -> bool {
    forall|i: int| 0 <= i < text.len() ==> #[trigger] text[i] != c
}

/// Whether no piece holds a dollar sign.
pub open spec fn dollar_free(pieces: Seq<Seq<char>>) -> bool {
    forall|i: int| 0 <= i < pieces.len() ==> lacks(#[trigger] pieces[i], '$')
}

/// Whether the character is a decimal digit.
pub open spec fn is_digit(c: char) -> bool {
    '0' <= c <= '9'
}

/// Whether the text begins with a digit.
pub open spec fn begins_with_digit(text: Seq<char>) -> bool {
    text.len() > 0 && is_digit(text[0])
}

/// Whether no piece after the first begins with a digit, so that a number in
/// front of it ends there.
pub open spec fn apart(pieces: Seq<Seq<char>>) -> bool {
    forall|i: int| 0 < i < pieces.len() ==> !begins_with_digit(#[trigger] pieces[i])
}

/// Whether the pieces are what stands between `n` placeholders: no dollar sign
/// of their own, and no digit that would run on from a placeholder.
pub open spec fn separating(pieces: Seq<Seq<char>>, n: nat) -> bool {
    pieces.len() == n + 1 && dollar_free(pieces) && apart(pieces)
}

/// Whether the dollar signs of the text are exactly those of the placeholders
/// of the `n` arguments after the first `before`, each once and in order, and
/// no digit follows a placeholder.
pub open spec fn numbered(text: Seq<char>, before: nat, n: nat) -> bool {
    exists|pieces: Seq<Seq<char>>|
        separating(pieces, n) && text == #[trigger] interleaved(pieces, before)
}

/// Whether reading the text ends inside a placeholder: behind a dollar sign and
/// nothing but digits.
pub open spec fn in_mark(text: Seq<char>) -> bool
    decreases text.len(),
{
    text.len() > 0 && (text.last() == '$' || (is_digit(text.last()) && in_mark(text.drop_last())))
}

/// The placeholders of the text as they are read: each dollar sign with all the
/// digits that follow it.
pub open spec fn marks(text: Seq<char>) -> Seq<Seq<char>>
    decreases text.len(),
{
    if text.len() == 0 {
        Seq::empty()
    } else {
        let front = marks(text.drop_last());
        if text.last() == '$' {
            front.push(seq!['$'])
        } else if is_digit(text.last()) && in_mark(text.drop_last()) {
            front.drop_last().push(front.last().push(text.last()))
        } else {
            front
        }
    }
}

/// The placeholders of the `n` arguments after the first `before`.
pub open spec fn placeholders(before: nat, n: nat) -> Seq<Seq<char>> {
    Seq::new(n, |i: int| render::placeholder((before + i + 1) as nat))
}

/// Whether the text keeps to itself: it closes its quotes and its parentheses,
/// and outside of quoted identifiers it holds exactly the placeholders of the
/// `n` arguments after the first `before`, each once and in order.
pub open spec fn well_formed(text: Seq<char>, before: nat, n: nat) -> bool {
    &&& !in_quotes(text)
    &&& depth(unquoted(text)) == Some(0nat)
    &&& numbered(unquoted(text), before, n)
}

/// Whether no `OR` of the text stands outside of parentheses and quoted
/// identifiers. The one word with an `O` that may stand there is `NOT`, in
/// front of parentheses.
pub open spec fn or_is_enclosed(text: Seq<char>) -> bool {
    let open = outside(unquoted(text));
    open == "NOT ()"@ || lacks(open, 'O')
}

proof fn lemma_unquoted_joins(a: Seq<char>, b: Seq<char>)
    requires
        !in_quotes(a),
    ensures
        in_quotes(a + b) == in_quotes(b),
        unquoted(a + b) == unquoted(a) + unquoted(b),
    decreases b.len(),
{
    if b.len() == 0 {
        assert(a + b =~= a);
        assert(unquoted(a) + unquoted(b) =~= unquoted(a));
    } else {
        lemma_unquoted_joins(a, b.drop_last());
        assert((a + b).drop_last() =~= a + b.drop_last());
        assert((a + b).last() == b.last());
        assert(unquoted(a + b) =~= unquoted(a) + unquoted(b));
    }
}

proof fn lemma_depth_joins(a: Seq<char>, b: Seq<char>)
    requires
        depth(a) == Some(0nat),
    ensures
        depth(a + b) == depth(b),
        outside(a + b) == outside(a) + outside(b),
    decreases b.len(),
{
    if b.len() == 0 {
        assert(a + b =~= a);
        assert(outside(a) + outside(b) =~= outside(a));
    } else {
        lemma_depth_joins(a, b.drop_last());
        assert((a + b).drop_last() =~= a + b.drop_last());
        assert((a + b).last() == b.last());
        assert(outside(a + b) =~= outside(a) + outside(b));
    }
}

/// An open parenthesis in front lifts everything by one level.
proof fn lemma_depth_lifted(a: Seq<char>)
    requires
        depth(a) is Some,
    ensures
        depth(seq!['('] + a) == Some(depth(a)->0 + 1),
        outside(seq!['('] + a) == seq!['('],
    decreases a.len(),
{
    let lifted = seq!['('] + a;
    if a.len() == 0 {
        assert(lifted =~= seq!['(']);
        assert(lifted.drop_last() =~= Seq::empty());
        reveal_with_fuel(depth, 2);
        reveal_with_fuel(outside, 2);
        assert(outside(lifted) =~= seq!['(']);
    } else {
        lemma_depth_lifted(a.drop_last());
        assert(lifted.drop_last() =~= seq!['('] + a.drop_last());
        assert(lifted.last() == a.last());
    }
}

/// A balanced text in parentheses is balanced, and nothing of it stands outside.
proof fn lemma_enclosed(a: Seq<char>)
    requires
        depth(a) == Some(0nat),
    ensures
        depth(seq!['('] + a + seq![')']) == Some(0nat),
        outside(seq!['('] + a + seq![')']) == seq!['(', ')'],
{
    lemma_depth_lifted(a);
    let whole = seq!['('] + a + seq![')'];
    assert(whole.drop_last() =~= seq!['('] + a);
    assert(outside(whole) =~= seq!['(', ')']);
}

proof fn lemma_no_quotes(text: Seq<char>)
    requires
        lacks(text, '"'),
    ensures
        !in_quotes(text),
        unquoted(text) == text,
    decreases text.len(),
{
    if text.len() > 0 {
        assert(text.last() != '"');
        assert forall|i: int| 0 <= i < text.drop_last().len() implies #[trigger] text.drop_last()[i]
            != '"' by {
            assert(text[i] != '"');
        }
        lemma_no_quotes(text.drop_last());
        assert(text.drop_last().push(text.last()) =~= text);
    } else {
        assert(text =~= Seq::empty());
    }
}

proof fn lemma_no_parentheses(text: Seq<char>)
    requires
        lacks(text, '('),
        lacks(text, ')'),
    ensures
        depth(text) == Some(0nat),
        outside(text) == text,
    decreases text.len(),
{
    if text.len() > 0 {
        assert(text.last() != '(' && text.last() != ')');
        assert forall|i: int| 0 <= i < text.drop_last().len() implies #[trigger] text.drop_last()[i]
            != '(' by {
            assert(text[i] != '(');
        }
        assert forall|i: int| 0 <= i < text.drop_last().len() implies #[trigger] text.drop_last()[i]
            != ')' by {
            assert(text[i] != ')');
        }
        lemma_no_parentheses(text.drop_last());
        assert(text.drop_last().push(text.last()) =~= text);
    } else {
        assert(text =~= Seq::empty());
    }
}

/// Whether the text holds no quote, no dollar sign and no parenthesis.
pub open spec fn harmless(text: Seq<char>) -> bool {
    lacks(text, '"') && lacks(text, '$') && lacks(text, '(') && lacks(text, ')')
}

proof fn lemma_harmless(text: Seq<char>, before: nat)
    requires
        harmless(text),
    ensures
        well_formed(text, before, 0),
        unquoted(text) == text,
        outside(text) == text,
{
    lemma_no_quotes(text);
    lemma_no_parentheses(text);
    let pieces = seq![text];
    assert(separating(pieces, 0));
    assert(text == interleaved(pieces, before));
}

spec fn merged(a: Seq<Seq<char>>, b: Seq<Seq<char>>) -> Seq<Seq<char>> {
    a.drop_last().push(a.last() + b[0]) + b.skip(1)
}

proof fn lemma_interleaved_joins(a: Seq<Seq<char>>, b: Seq<Seq<char>>, before: nat)
    requires
        a.len() > 0,
        b.len() > 0,
    ensures
        interleaved(merged(a, b), before) == interleaved(a, before) + interleaved(
            b,
            (before + a.len() - 1) as nat,
        ),
    decreases b.len(),
{
    let all = merged(a, b);
    if b.len() == 1 {
        assert(all =~= a.drop_last().push(a.last() + b[0]));
        if a.len() == 1 {
            assert(all[0] == a[0] + b[0]);
        } else {
            assert(all.drop_last() =~= a.drop_last());
            assert(interleaved(all, before) =~= interleaved(a, before) + b[0]);
        }
    } else {
        lemma_interleaved_joins(a, b.drop_last(), before);
        assert(merged(a, b.drop_last()) =~= all.drop_last());
        assert(all.last() == b.last());
        assert(interleaved(all, before) =~= interleaved(a, before) + interleaved(
            b,
            (before + a.len() - 1) as nat,
        ));
    }
}

/// Interleaved pieces begin as the first of them does.
proof fn lemma_interleaved_begins(pieces: Seq<Seq<char>>, before: nat)
    requires
        pieces.len() > 0,
        pieces[0].len() > 0,
    ensures
        interleaved(pieces, before).len() > 0,
        interleaved(pieces, before)[0] == pieces[0][0],
    decreases pieces.len(),
{
    if pieces.len() > 1 {
        lemma_interleaved_begins(pieces.drop_last(), before);
    }
}

proof fn lemma_numbered_joins(a: Seq<char>, b: Seq<char>, before: nat, n: nat, m: nat)
    requires
        numbered(a, before, n),
        numbered(b, before + n, m),
        n == 0 || !begins_with_digit(b),
    ensures
        numbered(a + b, before, n + m),
{
    let xs = choose|pieces: Seq<Seq<char>>|
        separating(pieces, n) && a == #[trigger] interleaved(pieces, before);
    let ys = choose|pieces: Seq<Seq<char>>|
        separating(pieces, m) && b == #[trigger] interleaved(pieces, before + n);
    let all = merged(xs, ys);
    lemma_interleaved_joins(xs, ys, before);
    assert((before + xs.len() - 1) as nat == before + n);
    assert(all.len() == n + m + 1);
    assert forall|i: int| 0 <= i < all.len() implies lacks(#[trigger] all[i], '$') by {
        if i < n {
            assert(all[i] == xs[i]);
        } else if i == n {
            assert(all[i] == xs[i] + ys[0]);
            assert(lacks(xs[i], '$') && lacks(ys[0], '$'));
            assert forall|j: int| 0 <= j < all[i].len() implies #[trigger] all[i][j] != '$' by {
                if j < xs[i].len() {
                    assert(all[i][j] == xs[i][j]);
                } else {
                    assert(all[i][j] == ys[0][j - xs[i].len()]);
                }
            }
        } else {
            assert(all[i] == ys[i - n]);
        }
    }
    assert(dollar_free(all));
    assert forall|i: int| 0 < i < all.len() implies !begins_with_digit(#[trigger] all[i]) by {
        if i < n {
            assert(all[i] == xs[i]);
        } else if i == n {
            assert(all[i] == xs[i] + ys[0]);
            assert(!begins_with_digit(xs[i]));
            if xs[i].len() == 0 && ys[0].len() > 0 {
                lemma_interleaved_begins(ys, before + n);
                assert(all[i][0] == ys[0][0]);
            }
        } else {
            assert(all[i] == ys[i - n]);
        }
    }
    assert(separating(all, n + m));
    assert(a + b == interleaved(all, before));
}

proof fn lemma_well_formed_joins(a: Seq<char>, b: Seq<char>, before: nat, n: nat, m: nat)
    requires
        well_formed(a, before, n),
        well_formed(b, before + n, m),
        n == 0 || !begins_with_digit(unquoted(b)),
    ensures
        well_formed(a + b, before, n + m),
        unquoted(a + b) == unquoted(a) + unquoted(b),
        outside(unquoted(a + b)) == outside(unquoted(a)) + outside(unquoted(b)),
{
    lemma_unquoted_joins(a, b);
    lemma_depth_joins(unquoted(a), unquoted(b));
    lemma_numbered_joins(unquoted(a), unquoted(b), before, n, m);
}

/// A well-formed text stays so in parentheses.
proof fn lemma_well_formed_enclosed(a: Seq<char>, before: nat, n: nat)
    requires
        well_formed(a, before, n),
    ensures
        well_formed("("@ + a + ")"@, before, n),
        outside(unquoted("("@ + a + ")"@)) == seq!['(', ')'],
{
    reveal_strlit("(");
    reveal_strlit(")");
    let open = seq!['('];
    let close = seq![')'];
    assert("("@ =~= open);
    assert(")"@ =~= close);
    lemma_no_quotes(open);
    lemma_no_quotes(close);
    lemma_unquoted_joins(open, a);
    lemma_unquoted_joins(open + a, close);
    lemma_enclosed(unquoted(a));
    let before_pieces = seq![open];
    assert(separating(before_pieces, 0));
    assert(open == interleaved(before_pieces, before));
    lemma_numbered_joins(open, unquoted(a), before, 0, n);
    let after_pieces = seq![close];
    assert(separating(after_pieces, 0));
    assert(close == interleaved(after_pieces, before + n));
    lemma_numbered_joins(open + unquoted(a), close, before, n, 0);
}

/// A quoted identifier is nothing but a quoted identifier.
proof fn lemma_quoted(name: Seq<char>, before: nat)
    ensures
        well_formed(quoting::quoted(name), before, 0),
        unquoted(quoting::quoted(name)) == Seq::<char>::empty(),
{
    lemma_inside_quotes(name);
    let whole = quoting::quoted(name);
    assert(whole.drop_last() =~= seq!['"'] + quoting::doubled(name));
    lemma_harmless(Seq::empty(), before);
}

proof fn lemma_inside_quotes(name: Seq<char>)
    ensures
        in_quotes(seq!['"'] + quoting::doubled(name)),
        unquoted(seq!['"'] + quoting::doubled(name)) == Seq::<char>::empty(),
    decreases name.len(),
{
    let text = seq!['"'] + quoting::doubled(name);
    reveal_with_fuel(in_quotes, 3);
    reveal_with_fuel(unquoted, 3);
    if name.len() == 0 {
        assert(text =~= seq!['"']);
        assert(text.drop_last() =~= Seq::empty());
    } else {
        lemma_inside_quotes(name.drop_last());
        let inner = seq!['"'] + quoting::doubled(name.drop_last());
        if name.last() == '"' {
            assert(text.drop_last() =~= inner.push('"'));
            assert(text.drop_last().drop_last() =~= inner);
        } else {
            assert(text.drop_last() =~= inner);
        }
    }
}

pub(crate) proof fn lemma_decimal(n: nat)
    ensures
        text::decimal(n).len() > 0,
        forall|i: int|
            0 <= i < text::decimal(n).len() ==> '0' <= #[trigger] text::decimal(n)[i] <= '9',
    decreases n,
{
    if n >= 10 {
        lemma_decimal(n / 10);
    }
}

proof fn lemma_decimal_distinct(m: nat, n: nat)
    requires
        text::decimal(m) == text::decimal(n),
    ensures
        m == n,
    decreases m,
{
    lemma_decimal(m / 10);
    lemma_decimal(n / 10);
    assert(text::decimal(m).last() == text::digit(m % 10));
    assert(text::decimal(n).last() == text::digit(n % 10));
    assert(m % 10 == n % 10);
    if m >= 10 && n >= 10 {
        assert(text::decimal(m).drop_last() =~= text::decimal(m / 10));
        assert(text::decimal(n).drop_last() =~= text::decimal(n / 10));
        lemma_decimal_distinct(m / 10, n / 10);
    } else if m >= 10 {
        assert(text::decimal(m).len() > text::decimal(n).len());
    } else if n >= 10 {
        assert(text::decimal(n).len() > text::decimal(m).len());
    }
}

/// Law: different arguments have different placeholders.
pub proof fn law_placeholders_are_distinct(m: nat, n: nat)
    requires
        render::placeholder(m) == render::placeholder(n),
    ensures
        m == n,
{
    assert(render::placeholder(m).skip(1) =~= text::decimal(m));
    assert(render::placeholder(n).skip(1) =~= text::decimal(n));
    lemma_decimal_distinct(m, n);
}

proof fn lemma_placeholder(before: nat)
    ensures
        well_formed(render::placeholder(before + 1), before, 1),
        unquoted(render::placeholder(before + 1)) == render::placeholder(before + 1),
        outside(render::placeholder(before + 1)) == render::placeholder(before + 1),
        lacks(render::placeholder(before + 1), 'O'),
{
    let mark = render::placeholder(before + 1);
    lemma_decimal(before + 1);
    assert forall|i: int| 0 <= i < mark.len() implies #[trigger] mark[i] == '$' || '0' <= mark[i]
        <= '9' by {
        if i > 0 {
            assert(mark[i] == text::decimal(before + 1)[i - 1]);
        }
    }
    lemma_no_quotes(mark);
    lemma_no_parentheses(mark);
    let pieces = seq![Seq::<char>::empty(), Seq::<char>::empty()];
    assert(separating(pieces, 1));
    assert(pieces.drop_last() =~= seq![Seq::<char>::empty()]);
    reveal_with_fuel(interleaved, 2);
    assert(interleaved(pieces, before) =~= mark);
}

/// Whether the text holds no quote, no dollar sign, no parenthesis and no `O`.
spec fn quiet(text: Seq<char>) -> bool {
    harmless(text) && lacks(text, 'O')
}

proof fn lemma_fixed_texts()
    ensures
        quiet(" = "@),
        quiet(" > "@),
        quiet(" >= "@),
        quiet(" < "@),
        quiet(" <= "@),
        quiet(" ~ "@),
        quiet(" ILIKE "@),
        quiet(" IS NULL"@),
        quiet(" BETWEEN "@),
        quiet(" AND "@),
        quiet("::date = CURRENT_DATE"@),
        quiet("::date = CURRENT_DATE + 1"@),
        quiet("::date = CURRENT_DATE - 1"@),
        quiet("."@),
        quiet(" = ''"@),
        harmless(" OR "@),
        harmless(" IS NULL OR "@),
        harmless("NOT "@),
{
    reveal_strlit(" = ");
    reveal_strlit(" > ");
    reveal_strlit(" >= ");
    reveal_strlit(" < ");
    reveal_strlit(" <= ");
    reveal_strlit(" ~ ");
    reveal_strlit(" ILIKE ");
    reveal_strlit(" IS NULL");
    reveal_strlit(" BETWEEN ");
    reveal_strlit(" AND ");
    reveal_strlit("::date = CURRENT_DATE");
    reveal_strlit("::date = CURRENT_DATE + 1");
    reveal_strlit("::date = CURRENT_DATE - 1");
    reveal_strlit(".");
    reveal_strlit(" = ''");
    reveal_strlit(" OR ");
    reveal_strlit(" IS NULL OR ");
    reveal_strlit("NOT ");
}

/// Whether no `O` stands outside of parentheses and quoted identifiers.
spec fn calm(text: Seq<char>) -> bool {
    lacks(outside(unquoted(text)), 'O')
}

proof fn lemma_calm_joins(a: Seq<char>, b: Seq<char>, before: nat, n: nat, m: nat)
    requires
        well_formed(a, before, n),
        well_formed(b, before + n, m),
        n == 0 || !begins_with_digit(unquoted(b)),
        calm(a),
        calm(b),
    ensures
        well_formed(a + b, before, n + m),
        calm(a + b),
{
    lemma_well_formed_joins(a, b, before, n, m);
    let x = outside(unquoted(a));
    let y = outside(unquoted(b));
    assert forall|i: int| 0 <= i < (x + y).len() implies #[trigger] (x + y)[i] != 'O' by {
        if i < x.len() {
            assert((x + y)[i] == x[i]);
        } else {
            assert((x + y)[i] == y[i - x.len()]);
        }
    }
}

proof fn lemma_quiet(text: Seq<char>, before: nat)
    requires
        quiet(text),
    ensures
        well_formed(text, before, 0),
        unquoted(text) == text,
        calm(text),
{
    lemma_harmless(text, before);
}

proof fn lemma_calm_placeholder(before: nat)
    ensures
        well_formed(render::placeholder(before + 1), before, 1),
        !begins_with_digit(unquoted(render::placeholder(before + 1))),
        calm(render::placeholder(before + 1)),
{
    lemma_placeholder(before);
}

proof fn lemma_column_name(pred: PredModel, before: nat)
    ensures
        well_formed(render::column_name(pred), before, 0),
        calm(render::column_name(pred)),
{
    lemma_fixed_texts();
    lemma_quoted(pred.column, before);
    if let Some(relation) = pred.relation {
        lemma_quoted(relation, before);
        lemma_quiet("."@, before);
        lemma_calm_joins(quoting::quoted(relation), "."@, before, 0, 0);
        lemma_calm_joins(
            quoting::quoted(relation) + "."@,
            quoting::quoted(pred.column),
            before,
            0,
            0,
        );
    }
}

/// A column with a fixed text behind it.
proof fn lemma_column_and(pred: PredModel, fixed: Seq<char>, before: nat)
    requires
        quiet(fixed),
    ensures
        well_formed(render::column_name(pred) + fixed, before, 0),
        calm(render::column_name(pred) + fixed),
{
    lemma_column_name(pred, before);
    lemma_quiet(fixed, before);
    lemma_calm_joins(render::column_name(pred), fixed, before, 0, 0);
}

/// A text with one more placeholder behind it.
proof fn lemma_and_placeholder(text: Seq<char>, before: nat, n: nat)
    requires
        well_formed(text, before, n),
        calm(text),
    ensures
        well_formed(text + render::placeholder(before + n + 1), before, n + 1),
        calm(text + render::placeholder(before + n + 1)),
{
    lemma_calm_placeholder(before + n);
    lemma_calm_joins(text, render::placeholder(before + n + 1), before, n, 1);
}

/// The test for an empty text.
proof fn lemma_empty_text_test(pred: PredModel, before: nat)
    ensures
        ({
            let column = render::column_name(pred);
            let sql = "("@ + column + " IS NULL OR "@ + column + " = '')"@;
            well_formed(sql, before, 0) && calm(sql)
        }),
{
    let column = render::column_name(pred);
    let sql = "("@ + column + " IS NULL OR "@ + column + " = '')"@;
    lemma_fixed_texts();
    lemma_column_name(pred, before);
    lemma_two_columns(column, " IS NULL OR "@, " = ''"@, before);
    let inner = column + " IS NULL OR "@ + column + " = ''"@;
    lemma_well_formed_enclosed(inner, before, 0);
    lemma_closing_text();
    lemma_regrouped("("@, column, " IS NULL OR "@, " = ''"@, ")"@);
    assert(sql == "("@ + inner + ")"@);
    assert(lacks(seq!['(', ')'], 'O'));
}

proof fn lemma_two_columns(
    column: Seq<char>,
    middle: Seq<char>,
    test: Seq<char>,
    before: nat,
)
    requires
        well_formed(column, before, 0),
        harmless(middle),
        harmless(test),
    ensures
        well_formed(column + middle + column + test, before, 0),
{
    lemma_harmless(middle, before);
    lemma_harmless(test, before);
    lemma_well_formed_joins(column, middle, before, 0, 0);
    lemma_well_formed_joins(column + middle, column, before, 0, 0);
    lemma_well_formed_joins(column + middle + column, test, before, 0, 0);
}

proof fn lemma_closing_text()
    ensures
        " = '')"@ == " = ''"@ + ")"@,
{
    reveal_strlit(" = '')");
    reveal_strlit(" = ''");
    reveal_strlit(")");
    assert(" = '')"@ =~= " = ''"@ + ")"@);
}

proof fn lemma_regrouped(
    open: Seq<char>,
    column: Seq<char>,
    middle: Seq<char>,
    test: Seq<char>,
    close: Seq<char>,
)
    ensures
        open + column + middle + column + (test + close) == open + (column + middle + column + test)
            + close,
{
    assert(open + column + middle + column + (test + close) =~= open + (column + middle + column
        + test) + close);
}

proof fn lemma_pred_well_formed(pred: PredModel, before: nat)
    requires
        render::written_pred(pred, before) is Ok,
    ensures
        well_formed(
            render::written_pred(pred, before)->Ok_0.0,
            before,
            render::written_pred(pred, before)->Ok_0.1.len(),
        ),
        calm(render::written_pred(pred, before)->Ok_0.0),
{
    lemma_fixed_texts();
    let column = render::column_name(pred);
    let op = pred.operator;
    if render::comparison(op) is Some {
        let symbol = render::comparison(op)->0;
        lemma_column_and(pred, symbol, before);
        lemma_and_placeholder(column + symbol, before, 0);
    } else if render::search_pattern(op, Seq::empty()) is Some {
        lemma_column_and(pred, " ILIKE "@, before);
        lemma_and_placeholder(column + " ILIKE "@, before, 0);
    } else if op == "$is_empty"@ {
        if pred.field_type == FieldType::String {
            lemma_empty_text_test(pred, before);
        } else {
            lemma_column_and(pred, " IS NULL"@, before);
        }
    } else if op == "$between"@ {
        lemma_column_and(pred, " BETWEEN "@, before);
        let first = column + " BETWEEN "@;
        lemma_and_placeholder(first, before, 0);
        let second = first + render::placeholder(before + 1);
        lemma_quiet(" AND "@, before + 1);
        reveal_strlit(" AND ");
        lemma_calm_joins(second, " AND "@, before, 1, 0);
        lemma_and_placeholder(second + " AND "@, before, 1);
    } else {
        lemma_column_and(pred, render::date_test(op)->0, before);
    }
}

/// The parts of a group, with a harmless separator between them.
proof fn lemma_joined_well_formed(
    specs: Seq<SpecModel>,
    n: nat,
    separator: Seq<char>,
    before: nat,
)
    requires
        0 < n <= specs.len(),
        harmless(separator),
        separator.len() > 0,
        separator[0] == ' ',
        render::written_all(specs, n, before) is Ok,
    ensures
        well_formed(
            text::joined(render::written_all(specs, n, before)->Ok_0.0, separator),
            before,
            render::written_all(specs, n, before)->Ok_0.1.len(),
        ),
        n == 1 ==> or_is_enclosed(render::written_all(specs, n, before)->Ok_0.0[0]),
    decreases specs, n,
{
    let m = (n - 1) as nat;
    let parts = render::written_all(specs, n, before)->Ok_0.0;
    let args = render::written_all(specs, m, before)->Ok_0.1;
    let last = render::written(specs[n - 1], before + args.len())->Ok_0;
    success::lemma_written_all_len(specs, n, before);
    law_a_tree_is_written_as_one_operand(specs[n - 1], before + args.len());
    if n == 1 {
        assert(parts[0] == last.0);
        assert(args + last.1 =~= last.1);
    } else {
        lemma_joined_well_formed(specs, m, separator, before);
        assert(parts.drop_last() =~= render::written_all(specs, m, before)->Ok_0.0);
        assert(parts.last() == last.0);
        let front = text::joined(parts.drop_last(), separator);
        lemma_harmless(separator, before + args.len());
        lemma_well_formed_joins(separator, last.0, before + args.len(), 0, last.1.len());
        assert(unquoted(separator + last.0)[0] == ' ');
        lemma_well_formed_joins(front, separator + last.0, before, args.len(), last.1.len());
        assert(front + separator + last.0 =~= front + (separator + last.0));
    }
}

proof fn lemma_group_well_formed(specs: Seq<SpecModel>, separator: Seq<char>, before: nat)
    requires
        specs.len() > 0,
        harmless(separator),
        separator.len() > 0,
        separator[0] == ' ',
        render::written_all(specs, specs.len(), before) is Ok,
    ensures
        ({
            let (parts, args) = render::written_all(specs, specs.len(), before)->Ok_0;
            let sql = render::grouped(parts, separator);
            well_formed(sql, before, args.len()) && or_is_enclosed(sql)
        }),
    decreases specs, specs.len() + 1,
{
    let (parts, args) = render::written_all(specs, specs.len(), before)->Ok_0;
    lemma_joined_well_formed(specs, specs.len(), separator, before);
    success::lemma_written_all_len(specs, specs.len(), before);
    if parts.len() != 1 {
        let inner = text::joined(parts, separator);
        lemma_well_formed_enclosed(inner, before, args.len());
    }
}

/// Law: every tree is written as a text of its own: it closes what it opens, its
/// placeholders are numbered on from the arguments in front of it, one per
/// argument and in order, and no `OR` of it stands outside of its parentheses.
/// So whatever is put beside it with `AND` stays in force.
pub proof fn law_a_tree_is_written_as_one_operand(spec: SpecModel, before: nat)
    requires
        render::written(spec, before) is Ok,
    ensures
        well_formed(
            render::written(spec, before)->Ok_0.0,
            before,
            render::written(spec, before)->Ok_0.1.len(),
        ),
        or_is_enclosed(render::written(spec, before)->Ok_0.0),
    decreases spec, 0nat,
{
    lemma_fixed_texts();
    match spec {
        SpecModel::And(children) => {
            reveal_strlit(" AND ");
            lemma_group_well_formed(children, " AND "@, before);
        },
        SpecModel::Or(children) => {
            reveal_strlit(" OR ");
            lemma_group_well_formed(children, " OR "@, before);
        },
        SpecModel::Not(child) => {
            law_a_tree_is_written_as_one_operand(*child, before);
            let (inner, args) = render::written(*child, before)->Ok_0;
            let enclosed = "("@ + inner + ")"@;
            lemma_well_formed_enclosed(inner, before, args.len());
            lemma_harmless("NOT "@, before);
            lemma_well_formed_joins("NOT "@, enclosed, before, 0, args.len());
            reveal_strlit("NOT (");
            reveal_strlit("NOT ");
            reveal_strlit("(");
            reveal_strlit("NOT ()");
            assert("NOT ("@ =~= "NOT "@ + "("@);
            assert("NOT ("@ + inner + ")"@ =~= "NOT "@ + enclosed);
            assert("NOT ()"@ =~= "NOT "@ + seq!['(', ')']);
        },
        SpecModel::Pred(pred) => {
            lemma_pred_well_formed(pred, before);
        },
    }
}

/// A piece that does not run on from a placeholder adds none.
proof fn lemma_marks_skip(front: Seq<char>, piece: Seq<char>)
    requires
        lacks(piece, '$'),
        !in_mark(front) || !begins_with_digit(piece),
    ensures
        marks(front + piece) == marks(front),
        piece.len() > 0 ==> !in_mark(front + piece),
    decreases piece.len(),
{
    if piece.len() == 0 {
        assert(front + piece =~= front);
    } else {
        let rest = piece.drop_last();
        assert(lacks(rest, '$')) by {
            assert forall|i: int| 0 <= i < rest.len() implies #[trigger] rest[i] != '$' by {
                assert(piece[i] != '$');
            }
        }
        lemma_marks_skip(front, rest);
        assert((front + piece).drop_last() =~= front + rest);
        assert((front + piece).last() == piece.last());
        assert(piece.last() == piece[piece.len() - 1]);
        if rest.len() == 0 {
            assert(front + rest =~= front);
        }
    }
}

/// The digits behind a dollar sign are read as one placeholder with it.
proof fn lemma_marks_digits(front: Seq<char>, digits: Seq<char>)
    requires
        forall|i: int| 0 <= i < digits.len() ==> is_digit(#[trigger] digits[i]),
    ensures
        marks(front + (seq!['$'] + digits)) == marks(front).push(seq!['$'] + digits),
        in_mark(front + (seq!['$'] + digits)),
    decreases digits.len(),
{
    let whole = front + (seq!['$'] + digits);
    if digits.len() == 0 {
        assert(seq!['$'] + digits =~= seq!['$']);
        assert(whole.drop_last() =~= front);
    } else {
        let rest = digits.drop_last();
        assert forall|i: int| 0 <= i < rest.len() implies is_digit(#[trigger] rest[i]) by {
            assert(is_digit(digits[i]));
        }
        lemma_marks_digits(front, rest);
        let shorter = marks(front).push(seq!['$'] + rest);
        assert(whole.drop_last() =~= front + (seq!['$'] + rest));
        assert(whole.last() == digits[digits.len() - 1]);
        assert(shorter.drop_last() =~= marks(front));
        assert((seq!['$'] + rest).push(digits.last()) =~= seq!['$'] + digits);
    }
}

proof fn lemma_marks_interleaved(pieces: Seq<Seq<char>>, before: nat, n: nat)
    requires
        separating(pieces, n),
    ensures
        marks(interleaved(pieces, before)) == placeholders(before, n),
    decreases n,
{
    assert(lacks(pieces[n as int], '$'));
    if n == 0 {
        assert(Seq::<char>::empty() + pieces[0] =~= pieces[0]);
        lemma_marks_skip(Seq::empty(), pieces[0]);
        assert(placeholders(before, 0) =~= Seq::empty());
    } else {
        let m = (n - 1) as nat;
        let rest = pieces.drop_last();
        assert(separating(rest, m)) by {
            assert forall|i: int| 0 <= i < rest.len() implies lacks(#[trigger] rest[i], '$') by {
                assert(lacks(pieces[i], '$'));
            }
            assert forall|i: int| 0 < i < rest.len() implies !begins_with_digit(
                #[trigger] rest[i],
            ) by {
                assert(!begins_with_digit(pieces[i]));
            }
        }
        lemma_marks_interleaved(rest, before, m);
        let front = interleaved(rest, before);
        let mark = render::placeholder(before + n);
        lemma_decimal(before + n);
        lemma_marks_digits(front, text::decimal(before + n));
        assert(!begins_with_digit(pieces[n as int]));
        lemma_marks_skip(front + mark, pieces[n as int]);
        assert(placeholders(before, n) =~= placeholders(before, m).push(mark));
    }
}

/// Law: numbered placeholders are read back as they are. Reading each dollar
/// sign with all the digits that follow it gives exactly the placeholders of the
/// `n` arguments after the first `before`, in order.
pub proof fn law_numbered_placeholders_read_back(text: Seq<char>, before: nat, n: nat)
    requires
        numbered(text, before, n),
    ensures
        marks(text) == placeholders(before, n),
{
    let pieces = choose|pieces: Seq<Seq<char>>|
        separating(pieces, n) && text == #[trigger] interleaved(pieces, before);
    lemma_marks_interleaved(pieces, before, n);
}

/// Law: the placeholders of the SQL text are exactly `$1` to `$n` for the `n`
/// arguments, each once and in order; quoted identifiers aside, the text holds no
/// other dollar sign, and no digit follows a placeholder. Quotes and parentheses
/// are closed, and no `OR` stands outside of parentheses.
pub proof fn law_placeholders_match_the_arguments(
    query: QueryModel,
    schema: Map<Seq<char>, ColumnModel>,
)
    requires
        render::rendered(query, schema) is Ok,
    ensures
        well_formed(
            render::rendered(query, schema)->Ok_0.0,
            0,
            render::rendered(query, schema)->Ok_0.1.len(),
        ),
        or_is_enclosed(render::rendered(query, schema)->Ok_0.0),
        marks(unquoted(render::rendered(query, schema)->Ok_0.0)) == placeholders(
            0,
            render::rendered(query, schema)->Ok_0.1.len(),
        ),
{
    let (sql, args) = render::rendered(query, schema)->Ok_0;
    let parts = render::query_parts(query, schema)->Ok_0;
    if parts.len() == 0 {
        reveal_strlit("TRUE");
        lemma_harmless("TRUE"@, 0);
    } else {
        law_a_tree_is_written_as_one_operand(render::combined(parts), 0);
    }
    law_numbered_placeholders_read_back(unquoted(sql), 0, args.len());
}

/// How often a dollar sign occurs in the text.
pub open spec fn dollars(text: Seq<char>) -> nat
    decreases text.len(),
{
    if text.len() == 0 {
        0
    } else if text.last() == '$' {
        dollars(text.drop_last()) + 1
    } else {
        dollars(text.drop_last())
    }
}

/// Whether no name the predicate is written with holds a dollar sign.
pub open spec fn plainly_named(pred: PredModel) -> bool {
    &&& lacks(pred.column, '$')
    &&& pred.relation is Some ==> lacks(pred.relation->0, '$')
}

proof fn lemma_dollars_join(a: Seq<char>, b: Seq<char>)
    ensures
        dollars(a + b) == dollars(a) + dollars(b),
    decreases b.len(),
{
    if b.len() == 0 {
        assert(a + b =~= a);
    } else {
        lemma_dollars_join(a, b.drop_last());
        assert((a + b).drop_last() =~= a + b.drop_last());
        assert((a + b).last() == b.last());
    }
}

proof fn lemma_no_dollars(text: Seq<char>)
    requires
        lacks(text, '$'),
    ensures
        dollars(text) == 0,
    decreases text.len(),
{
    if text.len() > 0 {
        assert(text.last() != '$');
        assert forall|i: int| 0 <= i < text.drop_last().len() implies #[trigger] text.drop_last()[i]
            != '$' by {
            assert(text[i] != '$');
        }
        lemma_no_dollars(text.drop_last());
    }
}

proof fn lemma_lacks_joins(a: Seq<char>, b: Seq<char>, c: char)
    requires
        lacks(a, c),
        lacks(b, c),
    ensures
        lacks(a + b, c),
{
    assert forall|i: int| 0 <= i < (a + b).len() implies #[trigger] (a + b)[i] != c by {
        if i < a.len() {
            assert((a + b)[i] == a[i]);
        } else {
            assert((a + b)[i] == b[i - a.len()]);
        }
    }
}

proof fn lemma_doubled_plain(name: Seq<char>)
    requires
        lacks(name, '$'),
    ensures
        lacks(quoting::doubled(name), '$'),
    decreases name.len(),
{
    if name.len() > 0 {
        let rest = name.drop_last();
        assert forall|i: int| 0 <= i < rest.len() implies #[trigger] rest[i] != '$' by {
            assert(name[i] != '$');
        }
        lemma_doubled_plain(rest);
        assert(name[name.len() - 1] != '$');
    }
}

proof fn lemma_column_plain(pred: PredModel)
    requires
        plainly_named(pred),
    ensures
        lacks(render::column_name(pred), '$'),
{
    lemma_fixed_texts();
    lemma_quoted_plain(pred.column);
    if let Some(relation) = pred.relation {
        lemma_quoted_plain(relation);
        lemma_lacks_joins(quoting::quoted(relation), "."@, '$');
        lemma_lacks_joins(quoting::quoted(relation) + "."@, quoting::quoted(pred.column), '$');
    }
}

proof fn lemma_quoted_plain(name: Seq<char>)
    requires
        lacks(name, '$'),
    ensures
        lacks(quoting::quoted(name), '$'),
{
    lemma_doubled_plain(name);
    lemma_lacks_joins(seq!['"'], quoting::doubled(name), '$');
    lemma_lacks_joins(seq!['"'] + quoting::doubled(name), seq!['"'], '$');
}

/// A text without dollar signs holds no placeholder.
proof fn lemma_plain_numbered(text: Seq<char>, before: nat)
    requires
        lacks(text, '$'),
    ensures
        numbered(text, before, 0),
{
    let pieces = seq![text];
    assert(separating(pieces, 0));
    assert(text == interleaved(pieces, before));
}

/// A numbered text with one more placeholder behind it.
proof fn lemma_numbered_and_placeholder(text: Seq<char>, before: nat, n: nat)
    requires
        numbered(text, before, n),
    ensures
        numbered(text + render::placeholder(before + n + 1), before, n + 1),
{
    lemma_placeholder(before + n);
    lemma_numbered_joins(text, render::placeholder(before + n + 1), before, n, 1);
}

/// A column with a fixed text and a placeholder behind it.
proof fn lemma_compared_numbered(column: Seq<char>, fixed: Seq<char>, before: nat)
    requires
        lacks(column, '$'),
        lacks(fixed, '$'),
    ensures
        numbered(column + fixed + render::placeholder(before + 1), before, 1),
{
    lemma_lacks_joins(column, fixed, '$');
    lemma_plain_numbered(column + fixed, before);
    lemma_numbered_and_placeholder(column + fixed, before, 0);
}

proof fn lemma_pred_numbered(pred: PredModel, before: nat)
    requires
        render::written_pred(pred, before) is Ok,
        plainly_named(pred),
    ensures
        numbered(
            render::written_pred(pred, before)->Ok_0.0,
            before,
            render::written_pred(pred, before)->Ok_0.1.len(),
        ),
{
    lemma_fixed_texts();
    lemma_column_plain(pred);
    let column = render::column_name(pred);
    let op = pred.operator;
    if render::comparison(op) is Some {
        lemma_compared_numbered(column, render::comparison(op)->0, before);
    } else if render::search_pattern(op, Seq::empty()) is Some {
        lemma_compared_numbered(column, " ILIKE "@, before);
    } else if op == "$is_empty"@ {
        if pred.field_type == FieldType::String {
            reveal_strlit("(");
            reveal_strlit(" = '')");
            let first = "("@ + column;
            let second = first + " IS NULL OR "@;
            let third = second + column;
            lemma_lacks_joins("("@, column, '$');
            lemma_lacks_joins(first, " IS NULL OR "@, '$');
            lemma_lacks_joins(second, column, '$');
            lemma_lacks_joins(third, " = '')"@, '$');
            lemma_plain_numbered(third + " = '')"@, before);
        } else {
            lemma_lacks_joins(column, " IS NULL"@, '$');
            lemma_plain_numbered(column + " IS NULL"@, before);
        }
    } else if op == "$between"@ {
        lemma_compared_numbered(column, " BETWEEN "@, before);
        let second = column + " BETWEEN "@ + render::placeholder(before + 1);
        reveal_strlit(" AND ");
        lemma_plain_numbered(" AND "@, before + 1);
        lemma_numbered_joins(second, " AND "@, before, 1, 0);
        lemma_numbered_and_placeholder(second + " AND "@, before, 1);
    } else {
        let test = render::date_test(op)->0;
        lemma_lacks_joins(column, test, '$');
        lemma_plain_numbered(column + test, before);
    }
}

/// Whether every predicate of the tree is plainly named.
pub open spec fn all_plainly_named(preds: Seq<PredModel>) -> bool {
    forall|i: int| 0 <= i < preds.len() ==> plainly_named(#[trigger] preds[i])
}

proof fn lemma_plain_parts(a: Seq<PredModel>, b: Seq<PredModel>)
    requires
        all_plainly_named(a + b),
    ensures
        all_plainly_named(a),
        all_plainly_named(b),
{
    assert forall|i: int| 0 <= i < a.len() implies plainly_named(#[trigger] a[i]) by {
        assert((a + b)[i] == a[i]);
    }
    assert forall|i: int| 0 <= i < b.len() implies plainly_named(#[trigger] b[i]) by {
        assert((a + b)[a.len() + i] == b[i]);
    }
}

proof fn lemma_joined_numbered(specs: Seq<SpecModel>, n: nat, separator: Seq<char>, before: nat)
    requires
        0 < n <= specs.len(),
        lacks(separator, '$'),
        separator.len() > 0,
        separator[0] == ' ',
        render::written_all(specs, n, before) is Ok,
        all_plainly_named(tree::leaves_of_all(specs, n)),
    ensures
        numbered(
            text::joined(render::written_all(specs, n, before)->Ok_0.0, separator),
            before,
            render::written_all(specs, n, before)->Ok_0.1.len(),
        ),
    decreases specs, n,
{
    let m = (n - 1) as nat;
    let parts = render::written_all(specs, n, before)->Ok_0.0;
    let args = render::written_all(specs, m, before)->Ok_0.1;
    let last = render::written(specs[n - 1], before + args.len())->Ok_0;
    success::lemma_written_all_len(specs, n, before);
    lemma_plain_parts(tree::leaves_of_all(specs, m), tree::leaves_of(specs[n - 1]));
    law_a_plainly_named_tree_is_numbered(specs[n - 1], before + args.len());
    if n == 1 {
        assert(parts[0] == last.0);
        assert(args + last.1 =~= last.1);
    } else {
        lemma_joined_numbered(specs, m, separator, before);
        assert(parts.drop_last() =~= render::written_all(specs, m, before)->Ok_0.0);
        assert(parts.last() == last.0);
        let front = text::joined(parts.drop_last(), separator);
        lemma_plain_numbered(separator, before + args.len());
        lemma_numbered_joins(separator, last.0, before + args.len(), 0, last.1.len());
        assert((separator + last.0)[0] == ' ');
        lemma_numbered_joins(front, separator + last.0, before, args.len(), last.1.len());
        assert(front + separator + last.0 =~= front + (separator + last.0));
    }
}

/// A numbered text stays so with fixed texts around it.
proof fn lemma_enclosed_numbered(
    open: Seq<char>,
    inner: Seq<char>,
    close: Seq<char>,
    before: nat,
    n: nat,
)
    requires
        lacks(open, '$'),
        lacks(close, '$'),
        !begins_with_digit(close),
        numbered(inner, before, n),
    ensures
        numbered(open + inner + close, before, n),
{
    lemma_plain_numbered(open, before);
    lemma_plain_numbered(close, before + n);
    lemma_numbered_joins(open, inner, before, 0, n);
    lemma_numbered_joins(open + inner, close, before, n, 0);
}

proof fn lemma_group_numbered(specs: Seq<SpecModel>, separator: Seq<char>, before: nat)
    requires
        specs.len() > 0,
        lacks(separator, '$'),
        separator.len() > 0,
        separator[0] == ' ',
        render::written_all(specs, specs.len(), before) is Ok,
        all_plainly_named(tree::leaves_of_all(specs, specs.len())),
    ensures
        ({
            let (parts, args) = render::written_all(specs, specs.len(), before)->Ok_0;
            numbered(render::grouped(parts, separator), before, args.len())
        }),
    decreases specs, specs.len() + 1,
{
    let (parts, args) = render::written_all(specs, specs.len(), before)->Ok_0;
    lemma_joined_numbered(specs, specs.len(), separator, before);
    success::lemma_written_all_len(specs, specs.len(), before);
    if parts.len() != 1 {
        reveal_strlit("(");
        reveal_strlit(")");
        let inner = text::joined(parts, separator);
        lemma_enclosed_numbered("("@, inner, ")"@, before, args.len());
    }
}

/// Law: where no column or relation of a tree is named with a dollar sign, its
/// whole text, quoted identifiers included, holds no dollar sign but those of
/// its placeholders, which are numbered on from the arguments in front of it.
pub proof fn law_a_plainly_named_tree_is_numbered(spec: SpecModel, before: nat)
    requires
        render::written(spec, before) is Ok,
        all_plainly_named(tree::leaves_of(spec)),
    ensures
        numbered(
            render::written(spec, before)->Ok_0.0,
            before,
            render::written(spec, before)->Ok_0.1.len(),
        ),
    decreases spec, 0nat,
{
    lemma_fixed_texts();
    match spec {
        SpecModel::And(children) => {
            reveal_strlit(" AND ");
            lemma_group_numbered(children, " AND "@, before);
        },
        SpecModel::Or(children) => {
            reveal_strlit(" OR ");
            lemma_group_numbered(children, " OR "@, before);
        },
        SpecModel::Not(child) => {
            law_a_plainly_named_tree_is_numbered(*child, before);
            let (inner, args) = render::written(*child, before)->Ok_0;
            reveal_strlit("NOT (");
            reveal_strlit(")");
            lemma_enclosed_numbered("NOT ("@, inner, ")"@, before, args.len());
        },
        SpecModel::Pred(pred) => {
            assert(tree::leaves_of(spec)[0] == pred);
            lemma_pred_numbered(pred, before);
        },
    }
}

proof fn lemma_placeholder_dollars(n: nat)
    ensures
        dollars(render::placeholder(n)) == 1,
{
    lemma_decimal(n);
    lemma_no_dollars(text::decimal(n));
    lemma_dollars_join(seq!['$'], text::decimal(n));
    assert(seq!['$'].drop_last() =~= Seq::empty());
    reveal_with_fuel(dollars, 2);
}

/// Between pieces without dollar signs stand as many as there are placeholders.
proof fn lemma_interleaved_dollars(pieces: Seq<Seq<char>>, before: nat)
    requires
        pieces.len() > 0,
        dollar_free(pieces),
    ensures
        dollars(interleaved(pieces, before)) == pieces.len() - 1,
    decreases pieces.len(),
{
    let last = pieces[pieces.len() - 1];
    assert(lacks(last, '$'));
    lemma_no_dollars(last);
    if pieces.len() > 1 {
        let rest = pieces.drop_last();
        assert forall|i: int| 0 <= i < rest.len() implies lacks(#[trigger] rest[i], '$') by {
            assert(lacks(pieces[i], '$'));
        }
        lemma_interleaved_dollars(rest, before);
        let front = interleaved(rest, before);
        let mark = render::placeholder((before + pieces.len() - 1) as nat);
        lemma_placeholder_dollars((before + pieces.len() - 1) as nat);
        lemma_dollars_join(front, mark);
        lemma_dollars_join(front + mark, last);
    }
}

/// Law: unless a column or relation of the query is itself named with a dollar
/// sign, the placeholders read from the whole SQL text, quoted identifiers
/// included, are exactly `$1` to `$n` for the `n` arguments, in order, and there
/// are as many dollar signs as arguments.
pub proof fn law_dollar_signs_count_the_arguments(
    query: QueryModel,
    schema: Map<Seq<char>, ColumnModel>,
)
    requires
        render::rendered(query, schema) is Ok,
        all_plainly_named(
            tree::leaves_of(render::combined(render::query_parts(query, schema)->Ok_0)),
        ),
    ensures
        ({
            let (sql, args) = render::rendered(query, schema)->Ok_0;
            &&& numbered(sql, 0, args.len())
            &&& marks(sql) == placeholders(0, args.len())
            &&& dollars(sql) == args.len()
        }),
{
    let (sql, args) = render::rendered(query, schema)->Ok_0;
    let parts = render::query_parts(query, schema)->Ok_0;
    if parts.len() == 0 {
        reveal_strlit("TRUE");
        lemma_plain_numbered("TRUE"@, 0);
    } else {
        law_a_plainly_named_tree_is_numbered(render::combined(parts), 0);
    }
    law_numbered_placeholders_read_back(sql, 0, args.len());
    let pieces = choose|pieces: Seq<Seq<char>>|
        separating(pieces, args.len()) && sql == #[trigger] interleaved(pieces, 0);
    lemma_interleaved_dollars(pieces, 0);
}

} // verus!

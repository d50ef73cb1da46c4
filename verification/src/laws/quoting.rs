//! What quoted names and escaped texts are read as.

use vstd::prelude::*;

use crate::quoting;
use crate::render;

verus! {

/// Reads the inside of a quoted identifier, up to the closing quote: the name
/// and what follows it. A quote that is written twice is part of the name.
pub open spec fn read_inside(text: Seq<char>) -> Option<(Seq<char>, Seq<char>)>
    decreases text.len(),
{
    if text.len() == 0 {
        None
    } else if text[0] != '"' {
        match read_inside(text.skip(1)) {
            Some((name, rest)) => Some((seq![text[0]] + name, rest)),
            None => None,
        }
    } else if text.len() > 1 && text[1] == '"' {
        match read_inside(text.skip(2)) {
            Some((name, rest)) => Some((seq!['"'] + name, rest)),
            None => None,
        }
    } else {
        Some((Seq::empty(), text.skip(1)))
    }
}

/// Reads a quoted identifier: the name and what follows it.
pub open spec fn read_identifier(text: Seq<char>) -> Option<(Seq<char>, Seq<char>)> {
    if text.len() > 0 && text[0] == '"' {
        read_inside(text.skip(1))
    } else {
        None
    }
}

/// Whether a text matches a `LIKE` pattern, when characters are compared after
/// `fold`: `%` stands for any text, `_` for any character, a backslash takes
/// the next character literally.
pub open spec fn like(
    text: Seq<char>,
    pattern: Seq<char>,
    fold: spec_fn(char) -> char,
) -> bool
    decreases pattern.len(),
{
    if pattern.len() == 0 {
        text.len() == 0
    } else if pattern[0] == '%' {
        exists|k: int| 0 <= k <= text.len() && like(#[trigger] text.skip(k), pattern.skip(1), fold)
    } else if pattern[0] == '_' {
        text.len() > 0 && like(text.skip(1), pattern.skip(1), fold)
    } else if pattern[0] == '\\' && pattern.len() > 1 {
        text.len() > 0 && fold(text[0]) == fold(pattern[1]) && like(
            text.skip(1),
            pattern.skip(2),
            fold,
        )
    } else {
        text.len() > 0 && fold(text[0]) == fold(pattern[0]) && like(
            text.skip(1),
            pattern.skip(1),
            fold,
        )
    }
}

/// Whether `text` holds `part` at `at`, when characters are compared after
/// `fold`.
pub open spec fn occurs_at(
    text: Seq<char>,
    part: Seq<char>,
    at: int,
    fold: spec_fn(char) -> char,
) -> bool {
    &&& 0 <= at
    &&& at + part.len() <= text.len()
    &&& forall|i: int| 0 <= i < part.len() ==> fold(text[at + i]) == fold(#[trigger] part[i])
}

proof fn lemma_doubled_from_the_front(name: Seq<char>)
    requires
        name.len() > 0,
    ensures
        quoting::doubled(name) == quoting::doubled(name.take(1)) + quoting::doubled(name.skip(1)),
    decreases name.len(),
{
    if name.len() == 1 {
        assert(name.take(1) =~= name);
        assert(name.skip(1) =~= Seq::empty());
    } else {
        lemma_doubled_from_the_front(name.drop_last());
        assert(name.drop_last().take(1) =~= name.take(1));
        assert(name.drop_last().skip(1) =~= name.skip(1).drop_last());
        assert(name.skip(1).last() == name.last());
        assert(quoting::doubled(name) =~= quoting::doubled(name.take(1)) + quoting::doubled(
            name.skip(1),
        ));
    }
}

proof fn lemma_inside_reads_back(name: Seq<char>, rest: Seq<char>)
    requires
        rest.len() == 0 || rest[0] != '"',
    ensures
        read_inside(quoting::doubled(name) + seq!['"'] + rest) == Some((name, rest)),
    decreases name.len(),
{
    let text = quoting::doubled(name) + seq!['"'] + rest;
    if name.len() == 0 {
        assert(text =~= seq!['"'] + rest);
        assert(text.skip(1) =~= rest);
        assert(name =~= Seq::empty());
    } else {
        let tail = name.skip(1);
        lemma_doubled_from_the_front(name);
        lemma_inside_reads_back(tail, rest);
        let first = quoting::doubled(name.take(1));
        assert(name.take(1).drop_last() =~= Seq::empty());
        assert(name.take(1).last() == name[0]);
        assert(quoting::doubled(Seq::<char>::empty()) =~= Seq::empty());
        let more = quoting::doubled(tail) + seq!['"'] + rest;
        assert(text =~= first + more);
        assert(seq![name[0]] + tail =~= name);
        if name[0] == '"' {
            assert(first =~= seq!['"', '"']);
            assert(text.skip(2) =~= more);
        } else {
            assert(first =~= seq![name[0]]);
            assert(text.skip(1) =~= more);
        }
    }
}

/// Law: a quoted identifier reads back as exactly the name that was quoted, and
/// reading stops at its end, whatever characters the name holds, as long as no
/// further quote follows directly.
pub proof fn law_identifier_reads_back(name: Seq<char>, rest: Seq<char>)
    requires
        rest.len() == 0 || rest[0] != '"',
    ensures
        read_identifier(quoting::quoted(name) + rest) == Some((name, rest)),
{
    lemma_inside_reads_back(name, rest);
    assert((quoting::quoted(name) + rest).skip(1) =~= quoting::doubled(name) + seq!['"'] + rest);
}

/// Law: different names are quoted differently.
pub proof fn law_identifiers_are_distinct(a: Seq<char>, b: Seq<char>)
    requires
        quoting::quoted(a) == quoting::quoted(b),
    ensures
        a == b,
{
    law_identifier_reads_back(a, Seq::empty());
    law_identifier_reads_back(b, Seq::empty());
    assert(quoting::quoted(a) + Seq::<char>::empty() == quoting::quoted(b) + Seq::<char>::empty());
}

proof fn lemma_escaped_from_the_front(text: Seq<char>)
    requires
        text.len() > 0,
    ensures
        quoting::escaped(text) == quoting::escaped(text.take(1)) + quoting::escaped(text.skip(1)),
    decreases text.len(),
{
    if text.len() == 1 {
        assert(text.take(1) =~= text);
        assert(text.skip(1) =~= Seq::empty());
    } else {
        lemma_escaped_from_the_front(text.drop_last());
        assert(text.drop_last().take(1) =~= text.take(1));
        assert(text.drop_last().skip(1) =~= text.skip(1).drop_last());
        assert(text.skip(1).last() == text.last());
        assert(quoting::escaped(text) =~= quoting::escaped(text.take(1)) + quoting::escaped(
            text.skip(1),
        ));
    }
}

/// Law: an escaped text matches nothing but itself. A pattern that begins with
/// an escaped text matches exactly the texts that begin with that text and go on
/// with a match of the rest of the pattern.
pub proof fn law_escaped_text_matches_itself(
    text: Seq<char>,
    searched: Seq<char>,
    rest: Seq<char>,
    fold: spec_fn(char) -> char,
)
    ensures
        like(text, quoting::escaped(searched) + rest, fold) <==> (occurs_at(
            text,
            searched,
            0,
            fold,
        ) && like(text.skip(searched.len() as int), rest, fold)),
    decreases searched.len(),
{
    let pattern = quoting::escaped(searched) + rest;
    if searched.len() == 0 {
        assert(pattern =~= rest);
        assert(text.skip(0) =~= text);
    } else {
        let tail = searched.skip(1);
        let more = quoting::escaped(tail) + rest;
        lemma_escaped_from_the_front(searched);
        let first = quoting::escaped(searched.take(1));
        assert(searched.take(1).drop_last() =~= Seq::empty());
        assert(searched.take(1).last() == searched[0]);
        assert(quoting::escaped(Seq::<char>::empty()) =~= Seq::empty());
        assert(pattern =~= first + more);
        if quoting::is_like_special(searched[0]) {
            assert(first =~= seq!['\\', searched[0]]);
            assert(pattern.skip(2) =~= more);
            assert(pattern[1] == searched[0]);
        } else {
            assert(first =~= seq![searched[0]]);
            assert(pattern.skip(1) =~= more);
        }
        assert(like(text, pattern, fold) == (text.len() > 0 && fold(text[0]) == fold(searched[0])
            && like(text.skip(1), more, fold)));
        if text.len() > 0 {
            law_escaped_text_matches_itself(text.skip(1), tail, rest, fold);
            if text.len() >= searched.len() {
                assert(text.skip(1).skip(tail.len() as int) =~= text.skip(searched.len() as int));
            }
            if occurs_at(text, searched, 0, fold) {
                assert(fold(text[0int + 0]) == fold(searched[0]));
                assert forall|i: int| 0 <= i < tail.len() implies fold(text.skip(1)[0 + i]) == fold(
                    #[trigger] tail[i],
                ) by {
                    assert(fold(text[0 + (i + 1)]) == fold(searched[i + 1]));
                }
                assert(occurs_at(text.skip(1), tail, 0, fold));
            }
            if fold(text[0]) == fold(searched[0]) && occurs_at(text.skip(1), tail, 0, fold) {
                assert forall|i: int| 0 <= i < searched.len() implies fold(text[0 + i]) == fold(
                    #[trigger] searched[i],
                ) by {
                    if i > 0 {
                        assert(fold(text.skip(1)[0 + (i - 1)]) == fold(tail[i - 1]));
                    }
                }
                assert(occurs_at(text, searched, 0, fold));
            }
        }
    }
}

proof fn lemma_any_text(text: Seq<char>, fold: spec_fn(char) -> char)
    ensures
        like(text, seq!['%'], fold),
{
    let end = text.len() as int;
    assert(seq!['%'].skip(1) =~= Seq::<char>::empty());
    assert(like(text.skip(end), seq!['%'].skip(1), fold));
}

/// Law: `$starts_with` matches exactly the texts that begin with the searched
/// text, taken literally.
pub proof fn law_starts_with_matches_prefixes(
    text: Seq<char>,
    searched: Seq<char>,
    fold: spec_fn(char) -> char,
)
    ensures
        like(text, render::search_pattern("$starts_with"@, searched)->0, fold) <==> occurs_at(
            text,
            searched,
            0,
            fold,
        ),
{
    crate::operator::lemma_operator_names();
    reveal_strlit("%");
    assert("%"@ =~= seq!['%']);
    law_escaped_text_matches_itself(text, searched, seq!['%'], fold);
    if occurs_at(text, searched, 0, fold) {
        lemma_any_text(text.skip(searched.len() as int), fold);
    }
}

/// Law: `$ends_with` matches exactly the texts that end with the searched text,
/// taken literally.
pub proof fn law_ends_with_matches_suffixes(
    text: Seq<char>,
    searched: Seq<char>,
    fold: spec_fn(char) -> char,
)
    ensures
        like(text, render::search_pattern("$ends_with"@, searched)->0, fold) <==> occurs_at(
            text,
            searched,
            text.len() - searched.len(),
            fold,
        ),
{
    crate::operator::lemma_operator_names();
    reveal_strlit("%");
    assert("%"@ =~= seq!['%']);
    let escaped = quoting::escaped(searched);
    let pattern = "%"@ + escaped;
    assert(pattern.skip(1) =~= escaped);
    assert(escaped + Seq::<char>::empty() =~= escaped);
    if like(text, pattern, fold) {
        let k = choose|k: int|
            0 <= k <= text.len() && like(#[trigger] text.skip(k), pattern.skip(1), fold);
        law_escaped_text_matches_itself(text.skip(k), searched, Seq::empty(), fold);
        assert(text.skip(k).len() == searched.len());
        lemma_occurs_later(text, searched, k, 0, fold);
    }
    let at = text.len() - searched.len();
    if occurs_at(text, searched, at, fold) {
        lemma_occurs_later(text, searched, at, 0, fold);
        law_escaped_text_matches_itself(text.skip(at), searched, Seq::empty(), fold);
        assert(like(text.skip(at), pattern.skip(1), fold));
    }
}

proof fn lemma_occurs_later(
    text: Seq<char>,
    part: Seq<char>,
    k: int,
    at: int,
    fold: spec_fn(char) -> char,
)
    requires
        0 <= k <= text.len(),
        0 <= at,
    ensures
        occurs_at(text.skip(k), part, at, fold) <==> occurs_at(text, part, k + at, fold),
{
    if occurs_at(text.skip(k), part, at, fold) {
        assert forall|i: int| 0 <= i < part.len() implies fold(text[k + at + i]) == fold(
            #[trigger] part[i],
        ) by {
            assert(text.skip(k)[at + i] == text[k + at + i]);
        }
    }
    if occurs_at(text, part, k + at, fold) {
        assert forall|i: int| 0 <= i < part.len() implies fold(text.skip(k)[at + i]) == fold(
            #[trigger] part[i],
        ) by {
            assert(text.skip(k)[at + i] == text[k + at + i]);
        }
    }
}

/// Law: `$contains` matches exactly the texts that hold the searched text
/// somewhere, taken literally.
pub proof fn law_contains_matches_substrings(
    text: Seq<char>,
    searched: Seq<char>,
    fold: spec_fn(char) -> char,
)
    ensures
        like(text, render::search_pattern("$contains"@, searched)->0, fold) <==> exists|at: int|
            #[trigger] occurs_at(text, searched, at, fold),
{
    crate::operator::lemma_operator_names();
    reveal_strlit("%");
    assert("%"@ =~= seq!['%']);
    let escaped = quoting::escaped(searched);
    let pattern = "%"@ + escaped + "%"@;
    assert(pattern.skip(1) =~= escaped + seq!['%']);
    if like(text, pattern, fold) {
        let k = choose|k: int|
            0 <= k <= text.len() && like(#[trigger] text.skip(k), pattern.skip(1), fold);
        law_escaped_text_matches_itself(text.skip(k), searched, seq!['%'], fold);
        lemma_occurs_later(text, searched, k, 0, fold);
        assert(occurs_at(text, searched, k + 0, fold));
    }
    if exists|at: int| #[trigger] occurs_at(text, searched, at, fold) {
        let at = choose|at: int| #[trigger] occurs_at(text, searched, at, fold);
        lemma_occurs_later(text, searched, at, 0, fold);
        law_escaped_text_matches_itself(text.skip(at), searched, seq!['%'], fold);
        lemma_any_text(text.skip(at).skip(searched.len() as int), fold);
        assert(like(text.skip(at), pattern.skip(1), fold));
    }
}

} // verus!
